use pmtconcon::error::ErrorCode;
use pmtconcon::icons::{
    duplicate_icon_name, duplicate_order_index, ensure_signature_unchanged, next_ai_revision,
    next_lineage_generation, replacement_display_name, transparent_png_bytes,
    validate_expected_effect_revision, validate_piece_sizes, working_clone_name,
    working_clone_order_index,
};
use pmtconcon::names::{
    display_name_from_filename, next_duplicate_collection_name, next_unique_alt,
    normalized_alt_text, normalized_display_name, normalized_name, normalized_note,
    normalized_placeholder_label, normalized_readiness,
};
use pmtconcon::ordering::{cover_repair_after_delete, order_assignments, plan_reorder, CoverRepair};

#[test]
fn update_icon_piece_alt_accepts_warning_values_and_duplicates() {
    assert_eq!(normalized_alt_text("가나다라".to_string()), "가나다라");
    assert_eq!(normalized_alt_text("가".to_string()), "가");
}

#[test]
fn rename_icon_updates_display_name_without_changing_alt_text() {
    assert_eq!(normalized_display_name("새 아이콘".to_string()), "새 아이콘");
    assert_eq!(normalized_alt_text("가".to_string()), "가");
}

#[test]
fn icon_note_persists_and_whitespace_clears() {
    assert_eq!(
        normalized_note("  작업 메모\n두 번째 줄  ".to_string()),
        "작업 메모\n두 번째 줄"
    );
    assert!(normalized_note("   ".to_string()).is_empty());
}

#[test]
fn reorder_icons_persists_order_indexes() {
    let first = "icon_1".to_string();
    let second = "icon_2".to_string();
    let third = "icon_3".to_string();
    let current = vec![first.clone(), second.clone(), third.clone()];
    let requested = vec![third.clone(), first.clone(), second.clone()];

    let assignments = plan_reorder(&current, &requested).unwrap();
    let ordered_ids: Vec<String> = assignments.iter().map(|a| a.icon_id.clone()).collect();
    assert_eq!(ordered_ids, vec![third, first, second]);
    let positions: Vec<i64> = assignments.iter().map(|a| a.order_index).collect();
    assert_eq!(positions, vec![0, 1, 2]);
}

#[test]
fn reorders_naming_other_icons_are_refused() {
    let current = vec!["a".to_string(), "b".to_string()];
    assert!(plan_reorder(&current, &vec!["a".to_string()]).is_err());
    let error = plan_reorder(&current, &vec!["a".to_string(), "c".to_string()]).unwrap_err();
    assert_eq!(error.code, ErrorCode::Validation);
    assert!(plan_reorder(&current, &vec!["a".to_string(), "a".to_string()]).is_err());
}

#[test]
fn delete_icons_soft_deletes_and_repairs_cover() {
    let first = "icon_first".to_string();
    let second = "icon_second".to_string();
    let repair = cover_repair_after_delete(
        &Some(first.clone()),
        &vec![first.clone()],
        Some((second.clone(), "source_second".to_string())),
    );
    match repair {
        CoverRepair::Replace { icon_id, source_file_id } => {
            assert_eq!(icon_id, second);
            assert_eq!(source_file_id, "source_second");
        }
        other => panic!("expected the cover to move, got {other:?}"),
    }
    let remaining = order_assignments(&vec![second.clone()]);
    assert_eq!(remaining.len(), 1);
    assert_eq!(remaining[0].icon_id, second);
    assert_eq!(remaining[0].order_index, 0);
}

#[test]
fn covers_survive_deletes_of_other_icons_and_clear_when_nothing_remains() {
    let keep = cover_repair_after_delete(&Some("a".to_string()), &vec!["b".to_string()], None);
    assert!(matches!(keep, CoverRepair::Keep));
    let clear = cover_repair_after_delete(&Some("a".to_string()), &vec!["a".to_string()], None);
    assert!(matches!(clear, CoverRepair::Clear));
}

#[test]
fn duplicate_icon_is_placed_right_after_its_source() {
    assert_eq!(duplicate_order_index(0), Some(1));
    assert_eq!(duplicate_order_index(41), Some(42));
    assert_eq!(duplicate_order_index(i64::MAX), None);
    assert_eq!(duplicate_icon_name("고양이"), "고양이 복사본");
}

#[test]
fn duplicate_collection_names_count_up_from_two() {
    let existing = vec!["Original".to_string()];
    assert_eq!(next_duplicate_collection_name("Original", &existing).unwrap(), "Original 복사본");
    let existing = vec!["Original".to_string(), "Original 복사본".to_string()];
    assert_eq!(next_duplicate_collection_name("Original", &existing).unwrap(), "Original 복사본 2");
    let existing = vec![
        "Original 복사본".to_string(),
        "Original 복사본 2".to_string(),
        "Original 복사본 3".to_string(),
    ];
    assert_eq!(next_duplicate_collection_name("Original", &existing).unwrap(), "Original 복사본 4");
}

#[test]
fn names_and_labels_are_normalised() {
    assert_eq!(normalized_name(Some("  모음 ".to_string())), Some("모음".to_string()));
    assert_eq!(normalized_name(Some("   ".to_string())), None);
    assert_eq!(normalized_name(None), None);
    assert_eq!(normalized_display_name("  ".to_string()), "이름 없는 아이콘");
    assert_eq!(normalized_placeholder_label("   ".to_string()), "빈 디시콘");
    let long: String = "가".repeat(45);
    assert_eq!(normalized_placeholder_label(long).chars().count(), 40);
    assert_eq!(normalized_readiness("complete".to_string()).unwrap(), "complete");
    assert!(normalized_readiness("done".to_string()).is_err());
    assert_eq!(display_name_from_filename("  cat .png"), "cat");
    assert_eq!(display_name_from_filename(" .png"), "새 아이콘");
}

#[test]
fn fresh_alt_texts_skip_those_in_use() {
    let mut used = vec!["좌".to_string()];
    let alt = next_unique_alt(&mut used, "left");
    assert_eq!(alt, "왼");
    assert_eq!(used, vec!["좌".to_string(), "왼".to_string()]);
}

#[test]
fn source_replacement_advances_the_lineage_and_names_placeholders() {
    assert_eq!(next_lineage_generation(1).unwrap(), 2);
    assert_eq!(
        next_lineage_generation(i64::MAX).unwrap_err().code.as_str(),
        "ai_lineage_overflow"
    );
    assert_eq!(
        replacement_display_name("placeholder", "빈 디시콘".to_string(), "dog.png"),
        "dog"
    );
    assert_eq!(replacement_display_name("image", "고양이".to_string(), "dog.png"), "고양이");
}

#[test]
fn effect_saves_need_a_current_revision_and_signature() {
    assert!(validate_expected_effect_revision(0).is_ok());
    assert!(validate_expected_effect_revision(-1).is_err());
    assert!(validate_expected_effect_revision(i64::MAX).is_err());
    assert!(ensure_signature_unchanged("abc", "abc").is_ok());
    assert_eq!(ensure_signature_unchanged("abc", "abd").unwrap_err().code, ErrorCode::Conflict);
}

#[test]
fn rendered_pieces_must_fit_the_collection_limit() {
    assert!(validate_piece_sizes(100, &vec![100, 20]).is_ok());
    assert!(validate_piece_sizes(100, &vec![20, 101]).is_err());
    assert!(validate_piece_sizes(0, &vec![1]).is_ok());
    assert!(validate_piece_sizes(-5, &vec![2]).is_err());
}

#[test]
fn placeholder_images_are_transparent_pngs() {
    let bytes = transparent_png_bytes(200, 200).unwrap();
    assert_eq!(&bytes[..8], &[0x89, b'P', b'N', b'G', 0x0d, 0x0a, 0x1a, 0x0a]);
    assert_ne!(bytes, transparent_png_bytes(0, 0).unwrap());
}

#[test]
fn new_ai_icons_sit_after_their_source_with_a_marked_name() {
    assert_eq!(working_clone_order_index(3).unwrap(), 4);
    assert_eq!(working_clone_order_index(i64::MAX).unwrap_err().code.as_str(), "ai_new_icon_order");
    assert_eq!(working_clone_name("  고양이 "), "고양이 AI");
    assert_eq!(working_clone_name("   "), "AI 아이콘");
    assert_eq!(next_ai_revision(0).unwrap(), 1);
    assert_eq!(next_ai_revision(i64::MAX).unwrap_err().code, ErrorCode::AiRevisionOverflow);
}

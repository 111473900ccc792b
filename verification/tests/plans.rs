use pmtconcon::artifacts::{ActiveVariant, AppPaths, OptimizationTarget};
use pmtconcon::paths::PathPart;
use pmtconcon::error::ErrorCode;
use pmtconcon::formats::{profile_from_columns, ExportProfileColumns};
use pmtconcon::lineage::{IconAiState, LineageRow, VersionRow};
use pmtconcon::plans::{
    link_clone_preview, plan_ai_icon_root, plan_candidate_child, plan_clone_preview,
    plan_collection_icon_copies, plan_effect_save, plan_icon_duplicate, plan_source_replacement,
    plan_variant_clone, CropCopy, IconCopyRow, IconFields, NewIconIds, PieceCopyRow, RecipeCopy,
    VariantRow, VariantStep,
};

fn state(source: &str, lineage: &str, generation: i64, active: Option<&str>, revision: i64) -> IconAiState {
    IconAiState {
        source_file_id: source.to_string(),
        lineage_id: lineage.to_string(),
        generation,
        active_version_id: active.map(str::to_string),
        revision,
    }
}

fn others() -> Vec<(String, i64)> {
    vec![("a".to_string(), 0), ("b".to_string(), 2), ("c".to_string(), 3)]
}

#[test]
fn a_duplicate_goes_right_after_its_source() {
    let plan = plan_icon_duplicate(1, "고양이", &others());
    assert_eq!(plan.display_name, "고양이 복사본");
    assert_eq!(plan.order_index, 2);
    let moved: Vec<(String, i64)> = plan.shifts.iter().map(|s| (s.icon_id.clone(), s.order_index)).collect();
    assert_eq!(moved, vec![("a".to_string(), 0), ("b".to_string(), 3), ("c".to_string(), 4)]);
}

#[test]
fn a_candidate_becomes_a_child_of_the_active_version() {
    let child = plan_candidate_child(&state("src", "L1", 3, Some("v9"), 4), "v10").unwrap();
    assert_eq!(child.version_id, "v10");
    assert_eq!(child.parent_version_id.as_deref(), Some("v9"));
    assert_eq!(child.base_source_file_id, "src");
    assert_eq!(child.base_lineage_id, "L1");
    assert_eq!(child.base_generation, 3);
    assert_eq!(child.next_revision, 5);
    let error = plan_candidate_child(&state("src", "L1", 3, None, i64::MAX), "v10").unwrap_err();
    assert_eq!(error.code, ErrorCode::AiRevisionOverflow);
}

#[test]
fn a_source_replacement_starts_a_new_lineage_and_clears_ai_state() {
    let icon = state("src", "L1", 2, Some("v1"), 6);
    let plan = plan_source_replacement(
        &icon,
        "placeholder",
        "빈 아이콘".to_string(),
        " 강아지 .png",
        "L9",
        &vec!["r1".to_string(), "r2".to_string()],
        true,
        &vec!["/f/piece_0.png".to_string(), "/f/piece_1.png".to_string()],
    )
    .unwrap();
    assert_eq!(plan.lineage_id, "L9");
    assert_eq!(plan.generation, 3);
    assert!(plan.active_version_id.is_none());
    assert_eq!(plan.revision, 7);
    assert_eq!(plan.display_name, "강아지");
    assert_eq!((plan.quarter_turns, plan.flip_horizontal, plan.flip_vertical), (0, false, false));
    assert_eq!(plan.cancelled_requests, vec!["r1".to_string(), "r2".to_string()]);
    assert!(plan.update_cover_source);
    assert_eq!(plan.icon_kind, "image");
    assert!(plan.placeholder_text.is_none());
    let resets: Vec<(usize, String, bool, String)> = plan
        .pieces
        .iter()
        .map(|p| (p.piece_index, p.generated_preview_path.clone(), p.last_export_path.is_none(), p.export_status.clone()))
        .collect();
    assert_eq!(
        resets,
        vec![
            (0, "/f/piece_0.png".to_string(), true, "ready".to_string()),
            (1, "/f/piece_1.png".to_string(), true, "ready".to_string()),
        ]
    );

    let kept = plan_source_replacement(&icon, "image", "이름".to_string(), "x.png", "L9", &vec![], false, &vec![])
        .unwrap();
    assert_eq!(kept.display_name, "이름");
    assert!(!kept.update_cover_source);

    let overflow = state("src", "L1", i64::MAX, None, 0);
    let error = plan_source_replacement(&overflow, "image", "n".to_string(), "x.png", "L9", &vec![], false, &vec![])
        .unwrap_err();
    assert_eq!(error.code, ErrorCode::AiLineageOverflow);
}

fn src_pieces(n: usize) -> Vec<(i64, String)> {
    (0..n).map(|i| (i as i64, format!("role{i}"))).collect()
}

fn fresh(target: IconAiState, versions: usize, lineages: usize) -> NewIconIds {
    NewIconIds {
        target,
        fresh_lineage: "NEW".to_string(),
        fresh_versions: (0..versions).map(|i| format!("t{i}")).collect(),
        historical: (0..lineages).map(|i| format!("h{i}")).collect(),
        child_version: "child".to_string(),
        fresh_pieces: vec!["np0".to_string(), "np1".to_string()],
    }
}

#[test]
fn saving_a_candidate_as_a_new_icon_plans_clone_history_and_child() {
    let source = state("src", "L1", 1, Some("v2"), 3);
    let versions = vec![
        VersionRow {
            id: "v1".to_string(),
            parent_id: None,
            base_source_file_id: "src".to_string(),
            base_lineage_id: "L1".to_string(),
            base_generation: 1,
            candidate_id: None,
            effective_source_file_id: None,
        },
        VersionRow {
            id: "v2".to_string(),
            parent_id: Some("v1".to_string()),
            base_source_file_id: "src".to_string(),
            base_lineage_id: "L1".to_string(),
            base_generation: 1,
            candidate_id: None,
            effective_source_file_id: None,
        },
    ];
    let lineages = vec![LineageRow { source_file_id: "src".to_string(), lineage_id: "L1".to_string(), generation: 1 }];
    let ids = fresh(state("src", "T1", 1, None, 0), 2, 1);
    let plan = plan_ai_icon_root(
        &source, 4, " 고양이 ", 3, "sig", "sig", &vec![10, 20], 1, &src_pieces(2), 100, &others(), &versions, &lineages, &ids,
    )
    .unwrap();
    assert_eq!(plan.display_name, "고양이 AI");
    assert_eq!((plan.icon_kind.as_str(), plan.readiness.as_str()), ("image", "working"));
    let pieces: Vec<(String, i64, String, String, String)> = plan
        .pieces
        .iter()
        .map(|p| (p.piece_id.clone(), p.piece_index, p.piece_role.clone(), p.alt_text.clone(), p.export_status.clone()))
        .collect();
    assert_eq!(
        pieces,
        vec![
            ("np0".to_string(), 0, "role0".to_string(), String::new(), "not_exported".to_string()),
            ("np1".to_string(), 1, "role1".to_string(), String::new(), "not_exported".to_string()),
        ]
    );
    assert!(plan.pieces.iter().all(|p| p.generated_preview_path.is_none() && p.last_export_path.is_none()));
    assert_eq!(plan.order_index, 5);
    assert_eq!(plan.lineage.versions.len(), 2);
    assert_eq!(plan.lineage.active_version_id.as_deref(), Some("t1"));
    assert_eq!(plan.child.version_id, "child");
    assert_eq!(plan.child.parent_version_id.as_deref(), Some("t1"));
    assert_eq!(plan.child.base_lineage_id, "T1");
    assert_eq!(plan.child.next_revision, 4);

    let stale = plan_ai_icon_root(
        &source, 4, "n", 2, "sig", "sig", &vec![10], 1, &src_pieces(2), 100, &others(), &versions, &lineages, &ids,
    )
    .unwrap_err();
    assert_eq!(stale.code, ErrorCode::AiRevisionConflict);
    let large = plan_ai_icon_root(
        &source, 4, "n", 3, "sig", "sig", &vec![101], 1, &src_pieces(2), 100, &others(), &versions, &lineages, &ids,
    )
    .unwrap_err();
    assert_eq!(large.code, ErrorCode::Validation);
    let changed = plan_ai_icon_root(
        &source, 4, "n", 3, "sig", "other", &vec![10], 1, &src_pieces(2), 100, &others(), &versions, &lineages, &ids,
    )
    .unwrap_err();
    assert_eq!(changed.code, ErrorCode::AiNewIconConflict);
    let count = plan_ai_icon_root(
        &source, 4, "n", 3, "sig", "sig", &vec![10], 1, &src_pieces(2), 100, &others(), &versions, &lineages, &ids,
    )
    .unwrap_err();
    assert_eq!(count.code, ErrorCode::AiNewIconPreview);
    let no_crop = plan_ai_icon_root(
        &source, 4, "n", 3, "sig", "sig", &vec![10, 20], 0, &src_pieces(2), 100, &others(), &versions, &lineages, &ids,
    )
    .unwrap_err();
    assert_eq!(no_crop.code, ErrorCode::AiNewIconCrop);
    assert_eq!(no_crop.message, "원본 아이콘의 크롭 설정을 복제할 수 없습니다.");
    let mut no_piece_ids = fresh(state("src", "T1", 1, None, 0), 2, 1);
    no_piece_ids.fresh_pieces = vec![];
    let no_pieces = plan_ai_icon_root(
        &source, 4, "n", 3, "sig", "sig", &vec![], 1, &src_pieces(0), 100, &others(), &versions, &lineages, &no_piece_ids,
    )
    .unwrap_err();
    assert_eq!(no_pieces.code, ErrorCode::AiNewIconPiece);
}

fn target(cell: i64) -> OptimizationTarget {
    let profile = profile_from_columns(ExportProfileColumns {
        id: "p".to_string(),
        collection_id: "c".to_string(),
        name: "Custom".to_string(),
        profile_type: "custom".to_string(),
        target_format: "png".to_string(),
        target_cell_width: 200,
        target_cell_height: 200,
        preview_width: 100,
        preview_height: 100,
        max_bytes: 1000,
        allowed_formats_json: "[\"png\"]".to_string(),
        filename_mode: "sequence".to_string(),
        include_alt_txt: 0,
        strict_warnings: 0,
        created_at: String::new(),
        updated_at: String::new(),
    });
    OptimizationTarget {
        source_file_id: "source".to_string(),
        source_hash: "sh".to_string(),
        crop_hash: "ch".to_string(),
        profile_hash: "ph".to_string(),
        output_format: "png".to_string(),
        cell_width: cell,
        cell_height: cell,
        profile,
    }
}

fn variant_row(piece: Option<&str>, format: &str, width: i64, matches: bool) -> VariantRow {
    VariantRow {
        variant: ActiveVariant {
            piece_id: piece.map(str::to_string),
            profile_id: Some("p".to_string()),
            format: format.to_string(),
            source_file_id: Some("source".to_string()),
            source_hash: "sh".to_string(),
            crop_hash: "ch".to_string(),
            profile_hash: "ph".to_string(),
            width,
            height: width,
        },
        source_target: target(200),
        target: target(200),
        artifact_matches: matches,
    }
}

fn describe(steps: &[VariantStep]) -> Vec<String> {
    steps
        .iter()
        .map(|s| match s {
            VariantStep::Skip => "skip".to_string(),
            VariantStep::Discard { source_piece_id, target_piece_id } => {
                format!("discard {source_piece_id}->{target_piece_id}")
            }
            VariantStep::AlreadyCloned => "already".to_string(),
            VariantStep::Copy { target_piece_id, target_profile_id, format } => {
                format!("copy {target_piece_id} {target_profile_id} {format}")
            }
        })
        .collect()
}

#[test]
fn active_outputs_are_copied_once_per_group_and_misfits_discarded() {
    let pieces = vec![("s1".to_string(), "t1".to_string()), ("s2".to_string(), "t2".to_string())];
    let rows = vec![
        variant_row(None, "png", 200, true),
        variant_row(Some("s1"), "PNG", 200, true),
        variant_row(Some("s1"), "png", 200, true),
        variant_row(Some("s2"), "png", 200, false),
        variant_row(Some("s2"), "png", 120, true),
    ];
    let steps = plan_variant_clone(&rows, &pieces, &None).unwrap();
    assert_eq!(
        describe(&steps),
        vec!["skip", "copy t1 p png", "already", "discard s2->t2", "discard s2->t2"]
    );

    let profiles = Some(vec![("other".to_string(), "q".to_string())]);
    let error = plan_variant_clone(&rows, &pieces, &profiles).unwrap_err();
    assert_eq!(error.code, ErrorCode::VariantCloneFailed);
    let error = plan_variant_clone(&vec![variant_row(Some("s9"), "png", 200, true)], &pieces, &None).unwrap_err();
    assert_eq!(error.code, ErrorCode::VariantCloneFailed);
    let error = plan_variant_clone(&vec![variant_row(Some("s1"), "webp", 200, true)], &pieces, &None).unwrap_err();
    assert_eq!(error.code, ErrorCode::VariantCloneFailed);
}

fn path(parts: &[&str]) -> Vec<PathPart> {
    let mut v = vec![PathPart::RootDir];
    for part in parts {
        v.push(PathPart::Normal(part.to_string()));
    }
    v
}

fn names(p: &[PathPart]) -> Vec<String> {
    p.iter()
        .map(|part| match part {
            PathPart::Normal(n) => n.clone(),
            _ => "/".to_string(),
        })
        .collect()
}

fn app_paths() -> AppPaths {
    AppPaths {
        root: path(&["data"]),
        collection_previews_dir: path(&["data", "previews"]),
        processed_variants_dir: path(&["data", "variants"]),
        ai_activation_previews_dir: path(&["data", "ai", "previews"]),
        ai_activation_staging_dir: path(&["data", "ai", "staging"]),
        temp_import_dir: path(&["data", "temp", "import"]),
        temp_export_dir: path(&["data", "temp", "export"]),
    }
}

#[test]
fn a_cloned_preview_is_staged_then_kept_under_native_clone() {
    let plan = plan_clone_preview(&app_paths(), "c1", "i1", "op1").unwrap();
    assert_eq!(names(&plan.staging_dir), names(&path(&["data", "ai", "staging", "op1"])));
    assert_eq!(names(&plan.final_dir), names(&path(&["data", "ai", "previews", "c1", "i1", "native-clone"])));
    let error = plan_clone_preview(&app_paths(), "c1", "..", "op1").unwrap_err();
    assert_eq!(error.code, ErrorCode::PreviewCloneFailed);
    assert_eq!(error.message, "icon ID가 안전한 경로 구성 요소가 아닙니다.");

    let current = path(&["data", "ai", "staging", "op1", "preview.png"]);
    let pieces = vec![path(&["data", "ai", "staging", "op1", "piece_0.png"])];
    let ids = vec!["piece_a".to_string()];
    let (linked_current, linked_pieces) = link_clone_preview(&plan, &current, &pieces, &ids).unwrap();
    assert_eq!(names(&linked_current), names(&path(&["data", "ai", "previews", "c1", "i1", "native-clone", "preview.png"])));
    assert_eq!(linked_pieces[0].piece_id, "piece_a");
    assert_eq!(
        names(&linked_pieces[0].generated_preview_path),
        names(&path(&["data", "ai", "previews", "c1", "i1", "native-clone", "piece_0.png"]))
    );
    assert_eq!(linked_pieces[0].export_status, "ready");
    let two = vec!["piece_a".to_string(), "piece_b".to_string()];
    assert_eq!(link_clone_preview(&plan, &current, &pieces, &two).unwrap_err().code, ErrorCode::ClonePreviewStructure);
    let escaped = vec![path(&["tmp", "piece_0.png"])];
    assert_eq!(link_clone_preview(&plan, &current, &escaped, &ids).unwrap_err().code, ErrorCode::ClonePreviewPath);
}

#[test]
fn collection_icons_are_copied_with_fresh_ids_and_no_previews() {
    let icons = vec![IconCopyRow {
        id: "i1".to_string(),
        order_index: 4,
        fields: fields(),
        note: Some("메모".to_string()),
        crop: Some(CropCopy {
            crop_mode: "fixed".to_string(),
            preset_position: "center".to_string(),
            source_width_at_apply: Some(40),
            source_height_at_apply: Some(20),
            viewport_width_at_apply: 100,
            viewport_height_at_apply: 100,
        }),
        effect: Some(RecipeCopy { recipe_schema: "fx".to_string(), revision: 3, json: "{}".to_string() }),
        motion: None,
        pieces: vec![PieceCopyRow {
            id: "p1".to_string(),
            piece_index: 0,
            piece_role: "left".to_string(),
            alt_text: "좌".to_string(),
        }],
    }];
    let copies = plan_collection_icon_copies(&icons, &vec!["n1".to_string()], &vec![vec!["q1".to_string()]]);
    assert_eq!(copies.len(), 1);
    assert_eq!((copies[0].source_icon_id.as_str(), copies[0].target_icon_id.as_str(), copies[0].order_index), ("i1", "n1", 4));
    assert!(copies[0].current_preview_path.is_none());
    let f = &copies[0].fields;
    assert_eq!((f.display_name.as_str(), f.icon_kind.as_str(), f.readiness.as_str()), ("고양이", "image", "complete"));
    assert_eq!(f.placeholder_text.as_deref(), Some("표시"));
    assert_eq!((f.transform_quarter_turns, f.transform_flip_horizontal, f.transform_flip_vertical), (1, 1, 0));
    assert_eq!((f.text_overlay_enabled, f.text_overlay_text.as_str()), (1, "안녕"));
    assert_eq!(copies[0].note.as_deref(), Some("메모"));
    let crop = copies[0].crop.as_ref().unwrap();
    assert_eq!((crop.crop_mode.as_str(), crop.preset_position.as_str(), crop.viewport_width_at_apply), ("fixed", "center", 100));
    let effect = copies[0].effect.as_ref().unwrap();
    assert_eq!((effect.recipe_schema.as_str(), effect.revision, effect.json.as_str()), ("fx", 3, "{}"));
    assert!(copies[0].motion.is_none());
    let piece = &copies[0].pieces[0];
    assert_eq!((piece.source_piece_id.as_str(), piece.target_piece_id.as_str()), ("p1", "q1"));
    assert_eq!((piece.piece_index, piece.piece_role.as_str(), piece.alt_text.as_str()), (0, "left", "좌"));
    assert!(piece.generated_preview_path.is_none() && piece.last_export_path.is_none());
    assert_eq!(piece.export_status, "not_exported");
}

#[test]
fn effect_saves_check_revision_then_basis_then_store() {
    assert_eq!(plan_effect_save(0, "s", "s", Some(None)).unwrap(), 1);
    assert_eq!(plan_effect_save(-1, "s", "s", Some(None)).unwrap_err().code, ErrorCode::Validation);
    assert_eq!(plan_effect_save(i64::MAX, "s", "s", Some(None)).unwrap_err().code, ErrorCode::Validation);
    assert_eq!(plan_effect_save(0, "s", "t", Some(None)).unwrap_err().code, ErrorCode::Conflict);
    assert_eq!(plan_effect_save(0, "s", "s", Some(Some(2))).unwrap_err().code, ErrorCode::Conflict);
    assert_eq!(plan_effect_save(0, "s", "s", None).unwrap_err().code, ErrorCode::NotFound);
}

fn fields() -> IconFields {
    IconFields {
        source_file_id: "src".to_string(),
        display_name: "고양이".to_string(),
        icon_kind: "image".to_string(),
        readiness: "complete".to_string(),
        placeholder_text: Some("표시".to_string()),
        shape: "single".to_string(),
        cell_width_override: None,
        cell_height_override: Some(80),
        thumbnail_path: Some("/t.png".to_string()),
        thumbnail_override_source_file_id: None,
        thumbnail_override_path: None,
        text_overlay_enabled: 1,
        text_overlay_text: "안녕".to_string(),
        text_overlay_font_path: None,
        text_overlay_color: "#fff".to_string(),
        text_overlay_stroke_color: "#000".to_string(),
        transform_quarter_turns: 1,
        transform_flip_horizontal: 1,
        transform_flip_vertical: 0,
        gif_loop_mode: "preserve".to_string(),
        gif_loop_count: None,
        gif_pingpong: 0,
    }
}

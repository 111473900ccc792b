use pmtconcon::effect_previews::{is_effect_dir_name, sort_newest_first, CompletedRequest, RequestDir};
use pmtconcon::names::{
    collection_name_or_untitled, default_collection_name, display_name_from_filename,
    display_name_from_stem,
};
use pmtconcon::ordering::{next_order_index, ImportProgress};

#[test]
fn default_and_untitled_collection_names() {
    assert_eq!(default_collection_name(3), "디시콘 모음 3");
    assert_eq!(default_collection_name(-2), "디시콘 모음 -2");
    assert_eq!(collection_name_or_untitled("  여행  ".to_string()), "여행");
    assert_eq!(collection_name_or_untitled(" \t ".to_string()), "이름 없는 모음");
}

#[test]
fn display_names_come_from_file_stems() {
    assert_eq!(display_name_from_stem(Some(" 고양이 ")), "고양이");
    assert_eq!(display_name_from_stem(Some("   ")), "새 아이콘");
    assert_eq!(display_name_from_stem(None), "새 아이콘");
}

#[test]
fn appended_positions_follow_the_largest_one() {
    assert_eq!(next_order_index(None), Some(0));
    assert_eq!(next_order_index(Some(4)), Some(5));
    assert_eq!(next_order_index(Some(i64::MAX)), None);
}

#[test]
fn imported_files_take_consecutive_slots_and_the_first_becomes_cover() {
    let mut progress = ImportProgress::start(7, &None, &None);
    let first = progress.accept();
    let second = progress.accept();
    assert_eq!((first.order_index, first.becomes_cover), (7, true));
    assert_eq!((second.order_index, second.becomes_cover), (8, false));

    let mut progress = ImportProgress::start(0, &Some("icon_1".to_string()), &None);
    assert!(!progress.accept().becomes_cover);
    let mut progress = ImportProgress::start(0, &None, &Some("source_1".to_string()));
    assert!(!progress.accept().becomes_cover);
}

#[test]
fn effect_save_directory_names_are_recognised() {
    assert!(is_effect_dir_name("12-0123456789abcdef-fxsave_token_1"));
    assert!(!is_effect_dir_name("-0123456789abcdef-fxsave_token"));
    assert!(!is_effect_dir_name("12-0123456789abcde-fxsave_token"));
    assert!(!is_effect_dir_name("12-0123456789abcdeg-fxsave_token"));
    assert!(!is_effect_dir_name("12-0123456789abcdef-save_token"));
    assert!(!is_effect_dir_name("12-0123456789abcdef-fxsave_to-ken"));
    assert!(!is_effect_dir_name("12-0123456789abcdef"));
}

fn request(signature: &str, token: &str, completed_at: i128) -> CompletedRequest {
    CompletedRequest {
        dir: RequestDir { signature: signature.to_string(), request: token.to_string() },
        completed_at,
    }
}

#[test]
fn completed_previews_sort_newest_first_with_ties_by_path() {
    let sorted = sort_newest_first(&vec![
        request("a", "fxpreview_1", 10),
        request("b", "fxpreview_1", 30),
        request("a", "fxpreview_2", 10),
        request("c", "fxpreview_1", 10),
    ]);
    let order: Vec<(String, String, i128)> = sorted
        .iter()
        .map(|r| (r.dir.signature.clone(), r.dir.request.clone(), r.completed_at))
        .collect();
    assert_eq!(
        order,
        vec![
            ("b".to_string(), "fxpreview_1".to_string(), 30),
            ("c".to_string(), "fxpreview_1".to_string(), 10),
            ("a".to_string(), "fxpreview_2".to_string(), 10),
            ("a".to_string(), "fxpreview_1".to_string(), 10),
        ]
    );
}

#[test]
fn display_names_ignore_directory_parts() {
    assert_eq!(display_name_from_filename("/dir/cry.png"), "cry");
    assert_eq!(display_name_from_filename("dir/a b .gif"), "a b");
    assert_eq!(display_name_from_filename("cry.png"), "cry");
    assert_eq!(display_name_from_filename(""), "새 아이콘");
}

#[test]
fn display_names_come_from_the_last_plain_component() {
    assert_eq!(display_name_from_filename("/"), "새 아이콘");
    assert_eq!(display_name_from_filename("icons/.."), "새 아이콘");
    assert_eq!(display_name_from_filename("icons/cry.png/"), "cry");
    assert_eq!(display_name_from_filename("icons/./.hidden"), ".hidden");
    assert_eq!(display_name_from_filename("a.tar.gz"), "a.tar");
}

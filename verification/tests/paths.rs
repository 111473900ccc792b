use pmtconcon::artifacts::{
    claim_variant_group, cleanup_cloned_collection_previews, cleanup_cloned_icon_previews,
    cloned_variant_icon_root, map_variant_target, source_variant_compatible,
    target_variant_compatible, variant_artifact_matches, ActiveVariant,
    icon_preview_root, normalized_variant_format, output_profiles_are_compatible, sha256_hex,
    AppPaths, OptimizationTarget,
};
use pmtconcon::error::{AppError, ErrorCode};
use pmtconcon::formats::{profile_from_columns, ExportProfileColumns};
use pmtconcon::paths::{
    ancestors_below_root, copy_parts, ensure_within_root, is_managed_existing_file, join_parts, plan_owned_directory,
    prepare_owned_directory, rebase_artifact_path, rebase_clone_preview_path,
    rebase_effect_artifact_path, rebase_preview_artifact, safe_component, strip_prefix_parts,
    validate_owned_component, validate_path_component, validate_relative_components, PathPart,
};

fn path(parts: &[&str]) -> Vec<PathPart> {
    let mut v = vec![PathPart::RootDir];
    for part in parts {
        v.push(PathPart::Normal(part.to_string()));
    }
    v
}

fn names(p: &[PathPart]) -> Vec<String> {
    p.iter()
        .map(|part| match part {
            PathPart::Normal(n) => n.clone(),
            PathPart::RootDir => "/".to_string(),
            PathPart::CurDir => ".".to_string(),
            PathPart::ParentDir => "..".to_string(),
            PathPart::Prefix(p) => p.clone(),
        })
        .collect()
}

fn app_paths() -> AppPaths {
    AppPaths {
        root: path(&["lib"]),
        collection_previews_dir: path(&["lib", "previews", "collections"]),
        processed_variants_dir: path(&["lib", "variants"]),
        ai_activation_previews_dir: path(&["lib", "previews", "ai-activations"]),
        ai_activation_staging_dir: path(&["lib", "ai", "staging", "activations"]),
        temp_import_dir: path(&["lib", "temp", "import"]),
        temp_export_dir: path(&["lib", "temp", "export"]),
    }
}

#[test]
fn rebased_paths_move_from_staging_to_final() {
    let staging = path(&["lib", "staging", "op"]);
    let final_dir = path(&["lib", "previews", "c", "i", "op"]);
    let preview = path(&["lib", "staging", "op", "pieces", "0.png"]);
    let moved = rebase_artifact_path(&preview, &staging, &final_dir).unwrap();
    assert_eq!(names(&moved), names(&path(&["lib", "previews", "c", "i", "op", "pieces", "0.png"])));

    let outside = path(&["elsewhere", "0.png"]);
    assert_eq!(
        rebase_artifact_path(&outside, &staging, &final_dir).unwrap_err().code,
        ErrorCode::AiNewIconPath
    );
    assert_eq!(
        rebase_clone_preview_path(&outside, &staging, &final_dir).unwrap_err().code,
        ErrorCode::ClonePreviewPath
    );
    assert_eq!(
        rebase_effect_artifact_path(&outside, &staging, &final_dir).unwrap_err().code,
        ErrorCode::EffectArtifactPath
    );
    assert_eq!(
        rebase_preview_artifact(&outside, &staging, &final_dir).unwrap_err().code,
        ErrorCode::SourceReplacePreviewPath
    );
    let back = rebase_preview_artifact(&moved, &final_dir, &staging).unwrap();
    assert_eq!(names(&back), names(&preview));
}

#[test]
fn prefixes_are_matched_by_whole_components() {
    let base = path(&["lib", "pre"]);
    let sibling = path(&["lib", "previews", "x"]);
    assert!(strip_prefix_parts(&sibling, &base).is_none());
    let rest = strip_prefix_parts(&path(&["lib", "pre", "x"]), &base).unwrap();
    assert_eq!(names(&rest), vec!["x".to_string()]);
    assert_eq!(names(&join_parts(&base, &rest)), names(&path(&["lib", "pre", "x"])));
}

#[test]
fn managed_paths_accept_only_plain_components() {
    let plain = vec![PathPart::Normal("a".to_string()), PathPart::Normal("b".to_string())];
    assert!(validate_relative_components(&plain, ErrorCode::AiManagedArtifactPath).is_ok());
    let escaping = vec![PathPart::ParentDir, PathPart::Normal("b".to_string())];
    assert_eq!(
        validate_relative_components(&escaping, ErrorCode::AiNewIconPath).unwrap_err().code,
        ErrorCode::AiNewIconPath
    );
}

#[test]
fn owned_directory_plans_stay_under_the_allowed_root() {
    let app = path(&["lib"]);
    let allowed = path(&["lib", "previews", "ai-activations"]);
    let target = path(&["lib", "previews", "ai-activations", "c", "i"]);
    let plan = plan_owned_directory(&app, &allowed, &target, ErrorCode::AiManagedArtifactPath).unwrap();
    assert_eq!(names(&plan.allowed_relative), vec!["previews", "ai-activations"]);
    assert_eq!(names(&plan.target_relative), vec!["previews", "ai-activations", "c", "i"]);

    let outside = path(&["lib", "previews", "other"]);
    let refused = plan_owned_directory(&app, &allowed, &outside, ErrorCode::AiManagedArtifactPath)
        .err()
        .unwrap();
    assert_eq!(refused.code, ErrorCode::AiManagedArtifactPath);
    assert_eq!(refused.message, "AI 미리보기 경로가 허용된 관리 루트 밖에 있습니다.");
    let refused = plan_owned_directory(&app, &allowed, &outside, ErrorCode::AiNewIconPath)
        .err()
        .unwrap();
    assert_eq!(refused.code, ErrorCode::AiNewIconPath);
    assert_eq!(refused.message, "새 AI 아이콘 경로가 허용된 관리 루트 밖에 있습니다.");
    let foreign_root = path(&["other", "previews"]);
    assert!(plan_owned_directory(&app, &foreign_root, &target, ErrorCode::AiManagedArtifactPath).is_err());
    let mut sneaky = copy_parts(&allowed);
    sneaky.push(PathPart::ParentDir);
    assert!(plan_owned_directory(&app, &allowed, &sneaky, ErrorCode::AiManagedArtifactPath).is_err());
}

#[test]
fn owned_components_must_be_real_directories_where_expected() {
    let here = path(&["lib", "x"]);
    assert!(validate_owned_component(true, false, &here, &here, ErrorCode::AiNewIconPath).is_ok());
    assert!(validate_owned_component(true, true, &here, &here, ErrorCode::AiNewIconPath).is_err());
    assert!(validate_owned_component(false, false, &here, &here, ErrorCode::AiNewIconPath).is_err());
    let elsewhere = path(&["tmp", "x"]);
    assert!(validate_owned_component(true, false, &elsewhere, &here, ErrorCode::AiNewIconPath).is_err());
    let app = path(&["lib"]);
    let allowed = path(&["lib", "previews"]);
    let resolved = path(&["real", "lib"]);
    let prepared = prepare_owned_directory(&app, &allowed, &path(&["lib", "previews", "c", "i"]), &resolved, ErrorCode::AiManagedArtifactPath)
        .unwrap();
    assert_eq!(names(&prepared), names(&path(&["real", "lib", "previews", "c", "i"])));
    let refused = prepare_owned_directory(&app, &allowed, &path(&["lib", "other"]), &resolved, ErrorCode::AiManagedArtifactPath)
        .err()
        .unwrap();
    assert_eq!(refused.message, "AI 미리보기 경로가 허용된 관리 루트 밖에 있습니다.");
}

#[test]
fn path_components_are_single_plain_names() {
    assert_eq!(safe_component("icon_1", "아이콘 ID").unwrap(), "icon_1");
    assert_eq!(safe_component("", "아이콘 ID").unwrap_err().code, ErrorCode::PreviewCloneFailed);
    assert!(safe_component("..", "아이콘 ID").is_err());
    assert!(safe_component("a/b", "아이콘 ID").is_err());
    assert!(safe_component("/etc", "아이콘 ID").is_err());
    assert!(validate_path_component("모음 ID", "collection_1").is_ok());
    assert_eq!(validate_path_component("모음 ID", ".").unwrap_err().code, ErrorCode::AiNewIconPath);
    assert!(validate_path_component("모음 ID", "x/y").is_err());
}

#[test]
fn path_components_follow_the_parsed_components() {
    assert_eq!(safe_component("a/", "아이콘 ID").unwrap(), "a/");
    assert_eq!(safe_component("./a", "아이콘 ID").unwrap_err().code, ErrorCode::PreviewCloneFailed);
    assert!(safe_component("../x", "아이콘 ID").is_err());
    assert!(safe_component("a/./", "아이콘 ID").is_ok());
    assert!(safe_component("a//b", "아이콘 ID").is_err());
    assert!(validate_path_component("모음 ID", "../x").is_err());
    assert!(validate_path_component("모음 ID", "a/").is_ok());
    assert!(validate_path_component("모음 ID", "/a").is_err());
    assert_eq!(
        validate_path_component("모음 ID", "").unwrap_err().message,
        "모음 ID가 안전한 단일 경로 구성요소가 아닙니다."
    );
}

fn abc_digest() -> Option<String> {
    Some("ba7816bf8f01cfea414140de5dae2223b00361a396177a9cb410ff61f20015ad".to_string())
}

#[test]
fn variant_artifacts_match_their_record() {
    let bytes = || Ok(b"abc".to_vec());
    assert!(variant_artifact_matches(&abc_digest(), Some(3), 3, Some((2, 4)), 2, 4, bytes()).unwrap());
    assert!(!variant_artifact_matches(&None, Some(3), 3, Some((2, 4)), 2, 4, bytes()).unwrap());
    assert!(!variant_artifact_matches(&abc_digest(), None, 3, Some((2, 4)), 2, 4, bytes()).unwrap());
    assert!(!variant_artifact_matches(&abc_digest(), Some(4), 3, Some((2, 4)), 2, 4, bytes()).unwrap());
    assert!(!variant_artifact_matches(&abc_digest(), Some(3), 3, None, 2, 4, bytes()).unwrap());
    assert!(!variant_artifact_matches(&abc_digest(), Some(3), 3, Some((4, 2)), 2, 4, bytes()).unwrap());
    assert!(!variant_artifact_matches(&abc_digest(), Some(3), 3, Some((2, 4)), 2, 4, Ok(b"abd".to_vec())).unwrap());
    assert!(!variant_artifact_matches(&abc_digest(), Some(u64::MAX), i64::MAX - 1, Some((2, 4)), 2, 4, bytes()).unwrap());
    let unread = variant_artifact_matches(
        &abc_digest(),
        Some(3),
        3,
        Some((2, 4)),
        2,
        4,
        Err(AppError::new(ErrorCode::Io, "read failed")),
    );
    assert_eq!(unread.unwrap_err().code, ErrorCode::Io);
    let skipped = variant_artifact_matches(
        &abc_digest(),
        Some(5),
        3,
        Some((2, 4)),
        2,
        4,
        Err(AppError::new(ErrorCode::Io, "read failed")),
    );
    assert!(!skipped.unwrap());
}

#[test]
fn library_cleanup_stays_inside_the_root() {
    let root = path(&["lib"]);
    assert!(ensure_within_root(&root, &path(&["lib", "temp", "a.png"])).is_ok());
    assert_eq!(
        ensure_within_root(&root, &path(&["library", "a.png"])).unwrap_err().code,
        ErrorCode::Validation
    );
    assert!(is_managed_existing_file(true, &root, &path(&["lib", "a.png"])));
    assert!(!is_managed_existing_file(false, &root, &path(&["lib", "a.png"])));
    assert!(!is_managed_existing_file(true, &root, &path(&["tmp", "a.png"])));
}

#[test]
fn cloned_outputs_live_under_their_collection_and_icon() {
    let paths = app_paths();
    let preview = icon_preview_root(&paths, "c1", "i1").unwrap();
    assert_eq!(names(&preview), names(&path(&["lib", "previews", "collections", "c1", "i1"])));
    let variants = cloned_variant_icon_root(&paths, "c1", "i1").unwrap();
    assert_eq!(names(&variants), names(&path(&["lib", "variants", "cloned", "c1", "i1"])));
    assert!(icon_preview_root(&paths, "../c1", "i1").is_err());

    let icon_targets = cleanup_cloned_icon_previews(&paths, "c1", "i1");
    assert_eq!(icon_targets.len(), 3);
    assert_eq!(
        names(&icon_targets[0].target),
        names(&path(&["lib", "previews", "collections", "c1", "i1", "cloned"]))
    );
    assert_eq!(names(&icon_targets[2].allowed_root), names(&paths.ai_activation_previews_dir));
    assert!(cleanup_cloned_icon_previews(&paths, "", "i1").is_empty());

    let collection_targets = cleanup_cloned_collection_previews(&paths, "c1");
    assert_eq!(collection_targets.len(), 3);
    assert_eq!(names(&collection_targets[1].target), names(&path(&["lib", "variants", "cloned", "c1"])));
    assert!(cleanup_cloned_collection_previews(&paths, "..").is_empty());
}

#[test]
fn variant_formats_map_to_extensions() {
    assert_eq!(normalized_variant_format(" JPEG ").unwrap(), "jpg");
    assert_eq!(normalized_variant_format("png").unwrap(), "png");
    assert_eq!(normalized_variant_format("GIF").unwrap(), "gif");
    assert_eq!(normalized_variant_format("webp").unwrap_err().code, ErrorCode::VariantCloneFailed);
}

fn target(format: &str, allowed: &str) -> OptimizationTarget {
    let profile = profile_from_columns(ExportProfileColumns {
        id: "p".to_string(),
        collection_id: "c".to_string(),
        name: "Custom".to_string(),
        profile_type: "custom".to_string(),
        target_format: "png".to_string(),
        target_cell_width: 200,
        target_cell_height: 200,
        preview_width: 100,
        preview_height: 100,
        max_bytes: 1000,
        allowed_formats_json: allowed.to_string(),
        filename_mode: "sequence".to_string(),
        include_alt_txt: 0,
        strict_warnings: 0,
        created_at: String::new(),
        updated_at: String::new(),
    });
    OptimizationTarget {
        source_file_id: "source".to_string(),
        source_hash: "sh".to_string(),
        crop_hash: "ch".to_string(),
        profile_hash: "ph".to_string(),
        output_format: format.to_string(),
        cell_width: 200,
        cell_height: 200,
        profile,
    }
}

#[test]
fn optimisation_outputs_are_reused_only_for_identical_targets() {
    assert!(output_profiles_are_compatible(&target("png", "[\"png\"]"), &target("png", "[\"png\"]")));
    assert!(!output_profiles_are_compatible(&target("png", "[\"png\"]"), &target("gif", "[\"png\"]")));
    assert!(!output_profiles_are_compatible(&target("png", "[\"png\"]"), &target("png", "[\"png\",\"gif\"]")));
}

#[test]
fn file_digests_are_lower_case_sha256() {
    assert_eq!(
        sha256_hex(&b"abc".to_vec()),
        "ba7816bf8f01cfea414140de5dae2223b00361a396177a9cb410ff61f20015ad"
    );
    assert_eq!(
        sha256_hex(&Vec::new()),
        "e3b0c44298fc1c149afbf4c8996fb92427ae41e4649b934ca495991b7852b855"
    );
}

fn variant(piece: Option<&str>, profile: Option<&str>) -> ActiveVariant {
    ActiveVariant {
        piece_id: piece.map(str::to_string),
        profile_id: profile.map(str::to_string),
        format: "png".to_string(),
        source_file_id: Some("source".to_string()),
        source_hash: "sh".to_string(),
        crop_hash: "ch".to_string(),
        profile_hash: "ph".to_string(),
        width: 200,
        height: 200,
    }
}

#[test]
fn active_outputs_follow_their_piece_and_profile_into_the_clone() {
    let pieces = vec![("p1".to_string(), "q1".to_string())];
    let profiles = Some(vec![("f1".to_string(), "g1".to_string())]);
    assert_eq!(
        map_variant_target(&variant(Some("p1"), Some("f1")), &pieces, &profiles).unwrap(),
        Some(("q1".to_string(), "g1".to_string()))
    );
    assert_eq!(
        map_variant_target(&variant(Some("p1"), Some("f1")), &pieces, &None).unwrap(),
        Some(("q1".to_string(), "f1".to_string()))
    );
    assert_eq!(map_variant_target(&variant(None, Some("f1")), &pieces, &None).unwrap(), None);
    assert_eq!(
        map_variant_target(&variant(Some("p2"), Some("f1")), &pieces, &None).unwrap_err().code,
        ErrorCode::VariantCloneFailed
    );
    assert!(map_variant_target(&variant(Some("p1"), Some("f2")), &pieces, &profiles).is_err());
}

#[test]
fn stale_or_mismatched_outputs_are_not_cloned() {
    let source = target("png", "[\"png\"]");
    let fresh = variant(Some("p1"), Some("f1"));
    assert!(source_variant_compatible(&fresh, &source, "png", true));
    assert!(!source_variant_compatible(&fresh, &source, "png", false));
    assert!(!source_variant_compatible(&fresh, &source, "gif", true));
    let mut stale = variant(Some("p1"), Some("f1"));
    stale.crop_hash = "old".to_string();
    assert!(!source_variant_compatible(&stale, &source, "png", true));

    assert!(target_variant_compatible(&fresh, &source, &target("png", "[\"png\"]")));
    let mut moved = target("png", "[\"png\"]");
    moved.cell_width = 100;
    assert!(!target_variant_compatible(&fresh, &source, &moved));

    let mut claimed = Vec::new();
    assert!(claim_variant_group(&mut claimed, "f1", "p1"));
    assert!(!claim_variant_group(&mut claimed, "f1", "p1"));
    assert!(claim_variant_group(&mut claimed, "f1", "p2"));
    assert_eq!(claimed.len(), 2);
}

#[test]
fn ancestors_below_the_root_are_listed_nearest_first() {
    let root = path(&["data", "previews"]);
    let start = path(&["data", "previews", "c", "i", "op"]);
    let found: Vec<Vec<String>> = ancestors_below_root(&start, &root).iter().map(|p| names(p)).collect();
    assert_eq!(
        found,
        vec![
            names(&path(&["data", "previews", "c", "i", "op"])),
            names(&path(&["data", "previews", "c", "i"])),
            names(&path(&["data", "previews", "c"])),
        ]
    );
    assert!(ancestors_below_root(&root, &root).is_empty());
    assert!(ancestors_below_root(&path(&["data", "other", "x"]), &root).is_empty());
}

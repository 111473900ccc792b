use pmtconcon::effect_previews::{
    directory_is_referenced, previous_preview_dir,
    effect_preview_path_error, is_owned_effect_preview_directory,
    is_safe_effect_preview_component, is_safe_effect_preview_request_name,
    is_safe_effect_preview_signature, largest_piece_size, preview_frame_count, preview_warnings,
    prune_completed_effect_preview_requests, request_dir_of, signature_prefix, CompletedRequest,
    OwnedEffectArtifact, OwnedEffectPreviewRequest, PreviewWarning, RequestDir,
};
use pmtconcon::error::ErrorCode;
use pmtconcon::paths::PathPart;

fn path(parts: &[&str]) -> Vec<PathPart> {
    let mut v = vec![PathPart::RootDir];
    for part in parts {
        v.push(PathPart::Normal(part.to_string()));
    }
    v
}

fn text(p: &[PathPart]) -> Vec<String> {
    p.iter()
        .map(|part| match part {
            PathPart::Normal(n) => n.clone(),
            _ => "/".to_string(),
        })
        .collect()
}

const SIGNATURE: &str = "0123456789abcdef0123456789ABCDEF0123456789abcdef0123456789abcdef";

#[test]
fn effect_preview_names_are_screened() {
    assert!(is_safe_effect_preview_component("icon_01-a"));
    assert!(!is_safe_effect_preview_component(""));
    assert!(!is_safe_effect_preview_component(".."));
    assert!(!is_safe_effect_preview_component("a/b"));
    assert!(!is_safe_effect_preview_component(&"a".repeat(161)));
    assert!(is_safe_effect_preview_component(&"a".repeat(160)));
    assert!(is_safe_effect_preview_signature(SIGNATURE));
    assert!(!is_safe_effect_preview_signature(&SIGNATURE[..63]));
    assert!(!is_safe_effect_preview_signature(&SIGNATURE.replace('0', "g")));
    assert!(is_safe_effect_preview_request_name("fxpreview_abc123"));
    assert!(!is_safe_effect_preview_request_name("fxpreview-abc"));
    assert!(!is_safe_effect_preview_request_name("fxsave_abc"));
    assert!(!is_safe_effect_preview_request_name(&format!("fxpreview_{}", "a".repeat(119))));
    let error = effect_preview_path_error("bad path");
    assert_eq!(error.code, ErrorCode::EffectPreviewPath);
    assert_eq!(error.message, "bad path");
}

#[test]
fn saved_effect_directories_are_recognised_by_name() {
    let root = path(&["lib", "effects"]);
    let owned = path(&["lib", "effects", "12-0123456789abcdef-fxsave_ab12"]);
    assert!(is_owned_effect_preview_directory(&root, &owned));
    for name in [
        "-0123456789abcdef-fxsave_ab12",
        "1x-0123456789abcdef-fxsave_ab12",
        "12-0123456789abcdeg-fxsave_ab12",
        "12-0123456789abcde-fxsave_ab12",
        "12-0123456789abcdef-fxprev_ab12",
        "12-0123456789abcdef-fxsave_a-b",
        "12-0123456789abcdef",
    ] {
        assert!(!is_owned_effect_preview_directory(&root, &path(&["lib", "effects", name])), "{name}");
    }
    let nested = path(&["lib", "effects", "x", "12-0123456789abcdef-fxsave_ab12"]);
    assert!(!is_owned_effect_preview_directory(&root, &nested));
}

fn request(signature: &str, token: &str, at: i128) -> CompletedRequest {
    CompletedRequest {
        dir: RequestDir { signature: signature.to_string(), request: token.to_string() },
        completed_at: at,
    }
}

#[test]
fn completed_effect_preview_pruning_keeps_eight_per_icon() {
    let candidates: Vec<CompletedRequest> =
        (0..12).map(|i| request("sig", &format!("fxpreview_{i:02}"), i as i128)).collect();
    let current = RequestDir { signature: "sig".to_string(), request: "fxpreview_00".to_string() };
    let pruned = prune_completed_effect_preview_requests(&candidates, &current);
    let mut pruned_names: Vec<String> = pruned.iter().map(|d| d.request.clone()).collect();
    pruned_names.sort();
    assert_eq!(
        pruned_names,
        vec!["fxpreview_01", "fxpreview_02", "fxpreview_03", "fxpreview_04"]
    );
    assert!(pruned.iter().all(|d| d.request != current.request));

    let few: Vec<CompletedRequest> =
        (0..5).map(|i| request("sig", &format!("fxpreview_{i}"), 100)).collect();
    assert!(prune_completed_effect_preview_requests(&few, &current).is_empty());
}

#[test]
fn pruning_breaks_ties_by_path() {
    let candidates: Vec<CompletedRequest> =
        (0..9).map(|i| request("sig", &format!("fxpreview_{i}"), 5)).collect();
    let current = RequestDir { signature: "other".to_string(), request: "fxpreview_x".to_string() };
    let pruned = prune_completed_effect_preview_requests(&candidates, &current);
    let names: Vec<String> = pruned.iter().map(|d| d.request.clone()).collect();
    assert_eq!(names, vec!["fxpreview_1", "fxpreview_0"]);
}

#[test]
fn preview_requests_remove_their_directory_until_completed() {
    let mut request = OwnedEffectPreviewRequest::new(path(&["lib", "icon"]), path(&["lib", "icon", "sig", "req"]));
    assert!(request.removes_on_drop());
    assert_eq!(text(request.directory()), text(&path(&["lib", "icon", "sig", "req"])));
    assert_eq!(text(request.icon_root()), text(&path(&["lib", "icon"])));
    request.record_completed();
    assert!(!request.removes_on_drop());
}

#[test]
fn effect_saves_own_their_staging_and_final_directories() {
    let root = path(&["lib", "effects"]);
    let prefix = signature_prefix(SIGNATURE).unwrap();
    assert_eq!(prefix, "0123456789abcdef");
    assert_eq!(signature_prefix("short").unwrap_err().code, ErrorCode::Validation);

    let staging = path(&["lib", "effects", ".staging", "fxsave_1"]);
    let mut artifact =
        OwnedEffectArtifact::new(pmtconcon::paths::copy_parts(&root), prefix, "fxsave_1".to_string(), staging);
    assert!(artifact.owns_staging_dir());
    let final_dir = artifact.promotion_dir(7).unwrap();
    assert_eq!(text(&final_dir), text(&path(&["lib", "effects", "7-0123456789abcdef-fxsave_1"])));
    assert!(artifact.owns_final_dir(&final_dir));
    assert!(!artifact.owns_final_dir(&path(&["lib", "effects", "7-0123456789abcdef-fxsave_2"])));
    assert!(!artifact.owns_final_dir(&path(&["lib", "other", "7-0123456789abcdef-fxsave_1"])));

    artifact.record_promotion(pmtconcon::paths::copy_parts(&final_dir));
    assert_eq!(artifact.promotion_dir(8).unwrap_err().code, ErrorCode::EffectArtifactState);
    assert_eq!(artifact.drop_removals().len(), 2);
    artifact.keep_final();
    assert!(artifact.drop_removals().is_empty());
    assert_eq!(text(artifact.staging_dir()), text(&path(&["lib", "effects", ".staging", "fxsave_1"])));
}

#[test]
fn request_directory_is_two_plain_names_below_the_icon_root() {
    let root = path(&["data", "temp", "export", "effect-previews", "icon_1"]);
    let found = request_dir_of(
        &root,
        &path(&["data", "temp", "export", "effect-previews", "icon_1", SIGNATURE, "fxpreview_abc"]),
    )
    .expect("a request directory");
    assert_eq!(found.signature, SIGNATURE);
    assert_eq!(found.request, "fxpreview_abc");

    // One level too shallow, one too deep, outside the root, or a bad name.
    assert!(request_dir_of(&root, &path(&["data", "temp", "export", "effect-previews", "icon_1", SIGNATURE])).is_none());
    assert!(request_dir_of(
        &root,
        &path(&["data", "temp", "export", "effect-previews", "icon_1", SIGNATURE, "fxpreview_abc", "x"]),
    )
    .is_none());
    assert!(request_dir_of(&root, &path(&["data", "other", SIGNATURE, "fxpreview_abc"])).is_none());
    assert!(request_dir_of(
        &root,
        &path(&["data", "temp", "export", "effect-previews", "icon_1", "abc", "fxpreview_abc"]),
    )
    .is_none());
    assert!(request_dir_of(
        &root,
        &path(&["data", "temp", "export", "effect-previews", "icon_1", SIGNATURE, "preview_abc"]),
    )
    .is_none());
    let mut with_parent = path(&["data", "temp", "export", "effect-previews", "icon_1"]);
    with_parent.push(PathPart::ParentDir);
    with_parent.push(PathPart::Normal("fxpreview_abc".to_string()));
    assert!(request_dir_of(&root, &with_parent).is_none());
}

#[test]
fn preview_frames_and_largest_piece() {
    assert_eq!(preview_frame_count(0), 1);
    assert_eq!(preview_frame_count(1), 1);
    assert_eq!(preview_frame_count(24), 24);
    assert_eq!(largest_piece_size(&vec![]), 0);
    assert_eq!(largest_piece_size(&vec![120, 4096, 300]), 4096);
}

#[test]
fn preview_warnings_follow_size_effects_and_frames() {
    assert_eq!(preview_warnings(100, 200, false, false, 1), vec![]);
    assert_eq!(
        preview_warnings(300, 200, false, false, 1),
        vec![PreviewWarning::OversizedPiece { largest: 300, limit: 200 }]
    );
    assert_eq!(preview_warnings(200, 200, true, false, 1), vec![PreviewWarning::EdgeClipping]);
    assert_eq!(preview_warnings(10, 200, false, true, 1), vec![]);
    assert_eq!(
        preview_warnings(10, 200, false, true, 12),
        vec![PreviewWarning::CostlyAnimation { frames: 12 }]
    );
    assert_eq!(
        preview_warnings(900, 200, true, false, 3),
        vec![
            PreviewWarning::OversizedPiece { largest: 900, limit: 200 },
            PreviewWarning::EdgeClipping,
            PreviewWarning::CostlyAnimation { frames: 3 },
        ]
    );
}

#[test]
fn previous_preview_directory_is_cleaned_only_when_owned_and_not_current() {
    let root = path(&["data", "effects"]);
    let owned = "3-0123456789abcdef-fxsave_abc";
    let previous = path(&["data", "effects", owned, "preview.png"]);
    let current = path(&["data", "effects", "4-0123456789abcdef-fxsave_def"]);
    let found = previous_preview_dir(&root, Some(&previous), &current).expect("a directory to clean");
    assert_eq!(text(&found), text(&path(&["data", "effects", owned])));

    assert!(previous_preview_dir(&root, None, &current).is_none());
    let same = path(&["data", "effects", owned]);
    assert!(previous_preview_dir(&root, Some(&previous), &same).is_none());
    let foreign = path(&["data", "effects", "notes", "preview.png"]);
    assert!(previous_preview_dir(&root, Some(&foreign), &current).is_none());
    assert!(previous_preview_dir(&root, Some(&vec![PathPart::RootDir]), &current).is_none());
}

#[test]
fn a_directory_is_referenced_when_a_stored_path_lies_in_it() {
    let dir = path(&["data", "effects", "3-0123456789abcdef-fxsave_abc"]);
    let inside = path(&["data", "effects", "3-0123456789abcdef-fxsave_abc", "piece_1.png"]);
    let outside = path(&["data", "effects", "4-0123456789abcdef-fxsave_def", "piece_1.png"]);
    assert!(directory_is_referenced(&vec![outside, inside], &dir));
    let outside = path(&["data", "effects", "4-0123456789abcdef-fxsave_def", "piece_1.png"]);
    assert!(!directory_is_referenced(&vec![outside], &dir));
    assert!(!directory_is_referenced(&vec![], &dir));
}

use pmtconcon::editing::{
    rebase_generated_preview, validate_apply_payload, validate_generated_piece_format,
    validate_generated_piece_formats, validate_text_overlay_payload, ApplyCropSettings,
    GeneratedPreview,
};
use pmtconcon::error::{AppError, ErrorCode};
use pmtconcon::formats::ImportLimits;
use pmtconcon::paths::PathPart;

fn limits() -> ImportLimits {
    ImportLimits { max_width: 4096, max_height: 4096, max_pixels: 4096 * 4096 }
}

fn settings(cell_width: i64) -> ApplyCropSettings {
    ApplyCropSettings {
        shape: "single".to_string(),
        crop_mode: "fixed".to_string(),
        preset_position: "center".to_string(),
        cell_width,
        cell_height: 20,
        piece_ids: Vec::new(),
        gif_loop_mode: "preserve".to_string(),
        gif_loop_count: None,
    }
}

fn file(parts: &[&str]) -> Vec<PathPart> {
    let mut v = vec![PathPart::RootDir];
    for part in parts {
        v.push(PathPart::Normal(part.to_string()));
    }
    v
}

#[test]
fn apply_crop_rejects_extreme_cells_and_passes_geometry_verdicts_on() {
    assert!(validate_apply_payload(&settings(20), limits(), Ok(()), Ok(())).is_ok());
    let error = validate_apply_payload(&settings(i64::MAX), limits(), Ok(()), Ok(())).unwrap_err();
    assert_eq!(error.code.as_str(), "validation");
    let rect = AppError::validation("crop too large");
    let error = validate_apply_payload(&settings(20), limits(), Err(rect), Ok(())).unwrap_err();
    assert_eq!(error.message, "crop too large");
    let turn = AppError::validation("bad turn");
    let error = validate_apply_payload(&settings(20), limits(), Ok(()), Err(turn)).unwrap_err();
    assert_eq!(error.message, "bad turn");
}

#[test]
fn apply_crop_checks_names_counts_and_piece_order() {
    let mut shape = settings(20);
    shape.shape = "triple".to_string();
    assert!(validate_apply_payload(&shape, limits(), Ok(()), Ok(())).is_err());

    let mut count = settings(20);
    count.gif_loop_mode = "count".to_string();
    assert!(validate_apply_payload(&count, limits(), Ok(()), Ok(())).is_err());
    count.gif_loop_count = Some(3);
    assert!(validate_apply_payload(&count, limits(), Ok(()), Ok(())).is_ok());

    let mut pieces = settings(20);
    pieces.piece_ids = vec!["a".to_string(), "b".to_string()];
    assert!(validate_apply_payload(&pieces, limits(), Ok(()), Ok(())).is_err());
    pieces.shape = "horizontal_double".to_string();
    assert!(validate_apply_payload(&pieces, limits(), Ok(()), Ok(())).is_ok());
    pieces.piece_ids = vec!["a".to_string(), "a".to_string()];
    assert!(validate_apply_payload(&pieces, limits(), Ok(()), Ok(())).is_err());
}

#[test]
fn text_overlays_are_bounded() {
    assert!(validate_text_overlay_payload("안녕", true, true, true, Ok(())).is_ok());
    let long = "가".repeat(121);
    assert_eq!(
        validate_text_overlay_payload(&long, true, true, true, Ok(())).unwrap_err().code,
        ErrorCode::Validation
    );
    assert!(validate_text_overlay_payload("a", false, true, true, Ok(())).is_err());
    assert!(validate_text_overlay_payload("a", true, false, true, Ok(())).is_err());
    assert!(validate_text_overlay_payload("a", true, true, false, Ok(())).is_err());
    let spec = AppError::validation("font missing");
    assert_eq!(
        validate_text_overlay_payload("a", true, true, true, Err(spec)).unwrap_err().message,
        "font missing"
    );
}

#[test]
fn rendered_outputs_must_be_png_or_gif() {
    assert!(validate_generated_piece_format(&file(&["x", "a.PNG"])).is_ok());
    assert!(validate_generated_piece_format(&file(&["x", "a.gif"])).is_ok());
    assert!(validate_generated_piece_format(&file(&["x", "a.jpg"])).is_err());
    assert!(validate_generated_piece_format(&file(&["x", ".png"])).is_err());
    assert!(validate_generated_piece_format(&file(&["x", "png"])).is_err());
    let preview = GeneratedPreview {
        current_preview_path: file(&["x", "current.png"]),
        poster_path: file(&["x", "poster.jpg"]),
        piece_paths: vec![file(&["x", "0.png"]), file(&["x", "1.webp"])],
    };
    assert!(validate_generated_piece_formats(&preview).is_err());
}

#[test]
fn promoted_renders_point_into_the_final_directory() {
    let staging = file(&["fx", ".staging", "t"]);
    let final_dir = file(&["fx", "3-abc-t"]);
    let mut preview = GeneratedPreview {
        current_preview_path: file(&["fx", ".staging", "t", "current.png"]),
        poster_path: file(&["fx", ".staging", "t", "poster.png"]),
        piece_paths: vec![file(&["fx", ".staging", "t", "pieces", "0.png"])],
    };
    rebase_generated_preview(&mut preview, &staging, &final_dir).unwrap();
    match &preview.piece_paths[0][4] {
        PathPart::Normal(n) => assert_eq!(n, "0.png"),
        _ => panic!("a piece keeps its file name"),
    }
    match &preview.current_preview_path[2] {
        PathPart::Normal(n) => assert_eq!(n, "3-abc-t"),
        _ => panic!("the preview moves into the final directory"),
    }
    let mut stray = GeneratedPreview {
        current_preview_path: file(&["elsewhere", "current.png"]),
        poster_path: file(&["fx", ".staging", "t", "poster.png"]),
        piece_paths: Vec::new(),
    };
    assert_eq!(
        rebase_generated_preview(&mut stray, &staging, &final_dir).unwrap_err().code,
        ErrorCode::EffectArtifactPath
    );
}

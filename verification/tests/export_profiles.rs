use pmtconcon::error::ErrorCode;
use pmtconcon::formats::{
    allowed_formats_from_json, bool_to_i64, normalized_export_format, normalized_target_format,
    profile_from_columns, profile_settings_update, validate_collection_settings,
    validate_import_dimensions, validate_profile_settings, ExportProfileColumns,
    ExportProfileDto, ExportRequestPayload, ImportLimits, UpdateCollectionSettingsPayload,
};

fn limits() -> ImportLimits {
    ImportLimits {
        max_width: 4096,
        max_height: 4096,
        max_pixels: 4096 * 4096,
    }
}

fn payload(width: i64, height: i64) -> ExportRequestPayload {
    ExportRequestPayload {
        profile_id: "profile_test".to_string(),
        target_format: "png".to_string(),
        target_cell_width: width,
        target_cell_height: height,
        max_bytes: 2_000_000,
        filename_mode: "sequence".to_string(),
        include_alt_txt: true,
        strict_warnings: false,
        output_directory: None,
        open_folder_after_export: false,
        open_alt_txt_after_export: false,
        excluded_piece_ids: Vec::new(),
        resize_filter: "lanczos3".to_string(),
    }
}

#[test]
fn profile_settings_reject_extreme_dimensions_and_keep_normal_sizes() {
    assert!(validate_profile_settings(&payload(200, 200), limits()).is_ok());
    assert!(validate_profile_settings(&payload(i64::MAX, 1), limits()).is_err());
    assert!(validate_profile_settings(&payload(8_000, 8_000), limits()).is_err());
}

#[test]
fn profile_settings_refuse_unknown_names_and_empty_size_limits() {
    let mut unknown_format = payload(200, 200);
    unknown_format.target_format = "webp".to_string();
    let error = validate_profile_settings(&unknown_format, limits()).unwrap_err();
    assert_eq!(error.code, ErrorCode::Validation);

    let mut unknown_mode = payload(200, 200);
    unknown_mode.filename_mode = "random".to_string();
    assert!(validate_profile_settings(&unknown_mode, limits()).is_err());

    let mut no_bytes = payload(200, 200);
    no_bytes.max_bytes = 0;
    assert!(validate_profile_settings(&no_bytes, limits()).is_err());

    let mut negative = payload(-1, 200);
    negative.target_format = "jpeg".to_string();
    assert!(validate_profile_settings(&negative, limits()).is_err());

    let mut alt_mode = payload(200, 200);
    alt_mode.filename_mode = "alt".to_string();
    alt_mode.target_format = "source".to_string();
    assert!(validate_profile_settings(&alt_mode, limits()).is_ok());
}

#[test]
fn import_dimensions_are_held_to_each_limit() {
    let tight = ImportLimits {
        max_width: 300,
        max_height: 200,
        max_pixels: 50_000,
    };
    assert!(validate_import_dimensions(tight, 250, 200).is_ok());
    assert!(validate_import_dimensions(tight, 0, 10).is_err());
    assert!(validate_import_dimensions(tight, 301, 10).is_err());
    assert!(validate_import_dimensions(tight, 10, 201).is_err());
    assert!(validate_import_dimensions(tight, 300, 200).is_err());
}

#[test]
fn target_formats_are_normalised() {
    assert_eq!(normalized_target_format(" JPEG "), "jpg");
    assert_eq!(normalized_target_format("jpg"), "jpg");
    assert_eq!(normalized_target_format("Gif"), "gif");
    assert_eq!(normalized_target_format("source"), "source");
    assert_eq!(normalized_target_format("bmp"), "png");
    assert_eq!(normalized_export_format("  jpeg"), "jpg");
    assert_eq!(bool_to_i64(true), 1);
    assert_eq!(bool_to_i64(false), 0);
}

#[test]
fn allowed_formats_are_read_from_json_or_defaulted() {
    assert_eq!(
        allowed_formats_from_json("[\"JPEG\",\"gif\",\"webp\"]"),
        vec!["jpg".to_string(), "gif".to_string(), "png".to_string()]
    );
    assert_eq!(
        allowed_formats_from_json("not json"),
        vec!["jpg".to_string(), "jpg".to_string(), "png".to_string(), "gif".to_string()]
    );
    assert!(allowed_formats_from_json("[]").is_empty());
}

fn columns(profile_type: &str) -> ExportProfileColumns {
    ExportProfileColumns {
        id: "profile_1".to_string(),
        collection_id: "collection_1".to_string(),
        name: "Custom".to_string(),
        profile_type: profile_type.to_string(),
        target_format: "JPEG".to_string(),
        target_cell_width: 180,
        target_cell_height: 160,
        preview_width: 90,
        preview_height: 80,
        max_bytes: 500_000,
        allowed_formats_json: "[\"png\",\"gif\"]".to_string(),
        filename_mode: "alt".to_string(),
        include_alt_txt: 1,
        strict_warnings: 0,
        created_at: "2024-01-01T00:00:00Z".to_string(),
        updated_at: "2024-01-02T00:00:00Z".to_string(),
    }
}

#[test]
fn profile_rows_are_read_in_normal_form() {
    let profile: ExportProfileDto = profile_from_columns(columns("custom"));
    assert_eq!(profile.target_format, "jpg");
    assert_eq!(profile.allowed_formats, vec!["png".to_string(), "gif".to_string()]);
    assert!(profile.include_alt_txt);
    assert!(!profile.strict_warnings);
    assert_eq!(profile.target_cell_width, 180);
    assert_eq!(profile.allowed_formats_as_json(), "[\"png\",\"gif\"]");
}

#[test]
fn saved_settings_keep_custom_formats_and_fix_dcinside_formats() {
    let mut settings = payload(200, 200);
    settings.target_format = " Jpeg".to_string();
    settings.strict_warnings = true;

    let custom = profile_from_columns(columns("custom"));
    let update = profile_settings_update(&settings, &custom);
    assert_eq!(update.target_format, "jpg");
    assert_eq!(update.include_alt_txt, 1);
    assert_eq!(update.strict_warnings, 1);
    assert_eq!(update.allowed_formats_json, "[\"png\",\"gif\"]");

    let dcinside = profile_from_columns(columns("dcinside"));
    let update = profile_settings_update(&settings, &dcinside);
    assert_eq!(update.allowed_formats_json, "[\"jpg\",\"jpeg\",\"png\",\"gif\"]");
}

fn collection_settings(width: i64, height: i64) -> UpdateCollectionSettingsPayload {
    UpdateCollectionSettingsPayload {
        default_cell_width: width,
        default_cell_height: height,
        preview_width: 100,
        preview_height: 100,
        export_format: "png".to_string(),
        max_bytes: 1_000_000,
    }
}

#[test]
fn update_collection_settings_rejects_extreme_dimensions_before_db_mutation() {
    let error = validate_collection_settings(&collection_settings(i64::MAX, 1), limits()).unwrap_err();
    assert_eq!(error.code.as_str(), "validation");
}

#[test]
fn update_collection_settings_persists_standard_sizes() {
    let settings = UpdateCollectionSettingsPayload {
        default_cell_width: 180,
        default_cell_height: 160,
        preview_width: 90,
        preview_height: 80,
        export_format: "png".to_string(),
        max_bytes: 1_000_000,
    };
    assert!(validate_collection_settings(&settings, limits()).is_ok());
    assert_eq!(normalized_export_format(&settings.export_format), "png");
}

#[test]
fn collection_settings_refuse_bad_previews_sizes_and_formats() {
    let mut bad_preview = collection_settings(200, 200);
    bad_preview.preview_height = -5;
    assert!(validate_collection_settings(&bad_preview, limits()).is_err());

    let mut no_bytes = collection_settings(200, 200);
    no_bytes.max_bytes = -1;
    assert!(validate_collection_settings(&no_bytes, limits()).is_err());

    let mut bad_format = collection_settings(200, 200);
    bad_format.export_format = "PNG".to_string();
    assert!(validate_collection_settings(&bad_format, limits()).is_err());
}

#[test]
fn allowed_formats_are_written_as_escaped_json() {
    let mut profile = profile_from_columns(columns("custom"));
    profile.allowed_formats = vec!["a\"b".to_string(), "c\n\u{1}\\".to_string()];
    assert_eq!(profile.allowed_formats_as_json(), "[\"a\\\"b\",\"c\\n\\u0001\\\\\"]");
    profile.allowed_formats = vec![];
    assert_eq!(profile.allowed_formats_as_json(), "[]");
}

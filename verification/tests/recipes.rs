use pmtconcon::error::ErrorCode;
use pmtconcon::lineage::ensure_expected_revision;
use pmtconcon::{effects, motion};

const EFFECT_SCHEMA: &str = "pmtcon-effects-v1";
const MOTION_SCHEMA: &str = "pmtcon-motion-v1";

#[test]
fn effects_recipe_defaults_then_saves_with_revision_guard() {
    let initial = effects::decode_stored_recipe(None, None, None, EFFECT_SCHEMA).unwrap();
    assert_eq!(initial.revision, 0);
    assert!(initial.recipe.is_none());

    let revision = effects::next_saved_revision(0, Some(None)).unwrap();
    assert_eq!(revision, 1);

    let recipe = r#"{"version":1,"effects":[{"type":"pixelate","id":"pixel","enabled":true,"blockSize":4}]}"#;
    let stored = effects::decode_stored_recipe(
        Some(EFFECT_SCHEMA.to_string()),
        Some(revision),
        Some(recipe.to_string()),
        EFFECT_SCHEMA,
    )
    .unwrap();
    assert_eq!(stored.revision, 1);
    assert_eq!(stored.recipe.as_deref(), Some(recipe));

    let stale = effects::next_saved_revision(0, Some(Some(stored.revision))).unwrap_err();
    assert_eq!(stale.code.as_str(), "conflict");
}

#[test]
fn motion_recipe_defaults_then_saves_with_revision_guard() {
    let initial = motion::decode_stored_recipe(None, None, None, MOTION_SCHEMA).unwrap();
    assert_eq!(initial.revision, 0);
    assert!(initial.recipe.is_none());

    let revision = motion::next_saved_revision(0, Some(None)).unwrap();
    assert_eq!(revision, 1);

    let recipe = r#"{"spatial":{"type":"breathe","enabled":true,"cyclesPerLoop":2,"scalePercent":12}}"#;
    let stored = motion::decode_stored_recipe(
        Some(MOTION_SCHEMA.to_string()),
        Some(revision),
        Some(recipe.to_string()),
        MOTION_SCHEMA,
    )
    .unwrap();
    assert_eq!(stored.revision, 1);
    assert_eq!(stored.recipe.as_deref(), Some(recipe));

    let stale = motion::next_saved_revision(0, Some(Some(stored.revision))).unwrap_err();
    assert_eq!(stale.code.as_str(), "conflict");
}

#[test]
fn stored_recipes_with_bad_rows_are_refused() {
    let wrong_schema =
        effects::decode_stored_recipe(Some("other".to_string()), Some(1), Some("{}".to_string()), EFFECT_SCHEMA)
            .unwrap_err();
    assert_eq!(wrong_schema.code, ErrorCode::Validation);
    assert_eq!(wrong_schema.message, "지원하지 않는 효과 recipe 형식입니다: other");
    let wrong_motion_schema =
        motion::decode_stored_recipe(Some("v0".to_string()), Some(1), Some("{}".to_string()), MOTION_SCHEMA)
            .unwrap_err();
    assert_eq!(wrong_motion_schema.message, "지원하지 않는 모션 recipe 형식입니다: v0");
    assert!(effects::decode_stored_recipe(Some(EFFECT_SCHEMA.to_string()), Some(0), Some("{}".to_string()), EFFECT_SCHEMA).is_err());
    assert!(effects::decode_stored_recipe(Some(EFFECT_SCHEMA.to_string()), None, Some("{}".to_string()), EFFECT_SCHEMA).is_err());
    assert!(effects::decode_stored_recipe(Some(EFFECT_SCHEMA.to_string()), Some(3), None, EFFECT_SCHEMA).is_err());
}

#[test]
fn recipe_saves_refuse_missing_icons_bad_and_exhausted_revisions() {
    assert_eq!(motion::next_saved_revision(0, None).unwrap_err().code, ErrorCode::NotFound);
    assert_eq!(motion::next_saved_revision(-1, Some(None)).unwrap_err().code, ErrorCode::Validation);
    assert_eq!(motion::next_saved_revision(i64::MAX, Some(Some(i64::MAX))).unwrap_err().code, ErrorCode::Validation);
    assert_eq!(motion::next_saved_revision(4, Some(Some(4))).unwrap(), 5);
}

#[test]
fn ai_revision_guard_refuses_stale_plans() {
    assert!(ensure_expected_revision(3, 3).is_ok());
    let error = ensure_expected_revision(4, 3).unwrap_err();
    assert_eq!(error.code.as_str(), "ai_revision_conflict");
}

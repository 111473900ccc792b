//! The library's error type: a machine-readable code and a message for people.

use vstd::prelude::*;

verus! {

/// Machine-readable category of a failure, as reported to the user interface.
#[derive(Clone, Copy, Debug, PartialEq, Eq, Structural)]
pub enum ErrorCode {
    Validation,
    NotFound,
    Conflict,
    AiSnapshot,
    AiRevisionConflict,
    AiNewIconPath,
    AiManagedArtifactPath,
    EffectPreviewPath,
    EffectArtifactPath,
    EffectArtifactState,
    EffectArtifactCollision,
    PreviewCloneFailed,
    VariantCloneFailed,
    ClonePreviewPath,
    SourceReplacePreviewPath,
    AiCloneSourceMismatch,
    AiCloneTargetNotFresh,
    AiCloneGenerationInvalid,
    AiCloneStateConflict,
    AiCloneLineageConflict,
    AiCloneDagInvalid,
    AiCloneLineageMissing,
    AiCloneVersionMissing,
    AiCloneActiveVersionInvalid,
    AiLineageOverflow,
    AiStateMissing,
    ClonePreviewConflict,
    ClonePreviewStructure,
    ClonePreviewCommit,
    ClonePreviewState,
    EffectArtifactPromoteFailed,
    Image,
    Database,
    Io,
    AiNewIconOrder,
    AiRevisionOverflow,
    AiNewIconCrop,
    AiNewIconPiece,
    AiNewIconState,
    AiNewIconConflict,
    AiNewIconPreview,
}

/// The wire name of each code.
pub open spec fn code_name(code: ErrorCode) -> Seq<char> {
    match code {
        ErrorCode::Validation => "validation"@,
        ErrorCode::NotFound => "not_found"@,
        ErrorCode::Conflict => "conflict"@,
        ErrorCode::AiSnapshot => "ai_snapshot"@,
        ErrorCode::AiRevisionConflict => "ai_revision_conflict"@,
        ErrorCode::AiNewIconPath => "ai_new_icon_path"@,
        ErrorCode::AiManagedArtifactPath => "ai_managed_artifact_path"@,
        ErrorCode::EffectPreviewPath => "effect_preview_path"@,
        ErrorCode::EffectArtifactPath => "effect_artifact_path"@,
        ErrorCode::EffectArtifactState => "effect_artifact_state"@,
        ErrorCode::EffectArtifactCollision => "effect_artifact_collision"@,
        ErrorCode::PreviewCloneFailed => "preview_clone_failed"@,
        ErrorCode::VariantCloneFailed => "variant_clone_failed"@,
        ErrorCode::ClonePreviewPath => "clone_preview_path"@,
        ErrorCode::SourceReplacePreviewPath => "source_replace_preview_path"@,
        ErrorCode::AiCloneSourceMismatch => "ai_clone_source_mismatch"@,
        ErrorCode::AiCloneTargetNotFresh => "ai_clone_target_not_fresh"@,
        ErrorCode::AiCloneGenerationInvalid => "ai_clone_generation_invalid"@,
        ErrorCode::AiCloneStateConflict => "ai_clone_state_conflict"@,
        ErrorCode::AiCloneLineageConflict => "ai_clone_lineage_conflict"@,
        ErrorCode::AiCloneDagInvalid => "ai_clone_dag_invalid"@,
        ErrorCode::AiCloneLineageMissing => "ai_clone_lineage_missing"@,
        ErrorCode::AiCloneVersionMissing => "ai_clone_version_missing"@,
        ErrorCode::AiCloneActiveVersionInvalid => "ai_clone_active_version_invalid"@,
        ErrorCode::AiLineageOverflow => "ai_lineage_overflow"@,
        ErrorCode::AiStateMissing => "ai_state_missing"@,
        ErrorCode::ClonePreviewConflict => "clone_preview_conflict"@,
        ErrorCode::ClonePreviewStructure => "clone_preview_structure"@,
        ErrorCode::ClonePreviewCommit => "clone_preview_commit"@,
        ErrorCode::ClonePreviewState => "clone_preview_state"@,
        ErrorCode::EffectArtifactPromoteFailed => "effect_artifact_promote_failed"@,
        ErrorCode::Image => "image"@,
        ErrorCode::Database => "database"@,
        ErrorCode::Io => "io"@,
        ErrorCode::AiNewIconOrder => "ai_new_icon_order"@,
        ErrorCode::AiRevisionOverflow => "ai_revision_overflow"@,
        ErrorCode::AiNewIconCrop => "ai_new_icon_crop"@,
        ErrorCode::AiNewIconPiece => "ai_new_icon_piece"@,
        ErrorCode::AiNewIconState => "ai_new_icon_state"@,
        ErrorCode::AiNewIconConflict => "ai_new_icon_conflict"@,
        ErrorCode::AiNewIconPreview => "ai_new_icon_preview"@,
    }
}

impl ErrorCode {
    /// The wire name of the code.
    pub fn as_str(&self) -> (r: &'static str)
        ensures
            r@ == code_name(*self),
    {
        match self {
            ErrorCode::Validation => "validation",
            ErrorCode::NotFound => "not_found",
            ErrorCode::Conflict => "conflict",
            ErrorCode::AiSnapshot => "ai_snapshot",
            ErrorCode::AiRevisionConflict => "ai_revision_conflict",
            ErrorCode::AiNewIconPath => "ai_new_icon_path",
            ErrorCode::AiManagedArtifactPath => "ai_managed_artifact_path",
            ErrorCode::EffectPreviewPath => "effect_preview_path",
            ErrorCode::EffectArtifactPath => "effect_artifact_path",
            ErrorCode::EffectArtifactState => "effect_artifact_state",
            ErrorCode::EffectArtifactCollision => "effect_artifact_collision",
            ErrorCode::PreviewCloneFailed => "preview_clone_failed",
            ErrorCode::VariantCloneFailed => "variant_clone_failed",
            ErrorCode::ClonePreviewPath => "clone_preview_path",
            ErrorCode::SourceReplacePreviewPath => "source_replace_preview_path",
            ErrorCode::AiCloneSourceMismatch => "ai_clone_source_mismatch",
            ErrorCode::AiCloneTargetNotFresh => "ai_clone_target_not_fresh",
            ErrorCode::AiCloneGenerationInvalid => "ai_clone_generation_invalid",
            ErrorCode::AiCloneStateConflict => "ai_clone_state_conflict",
            ErrorCode::AiCloneLineageConflict => "ai_clone_lineage_conflict",
            ErrorCode::AiCloneDagInvalid => "ai_clone_dag_invalid",
            ErrorCode::AiCloneLineageMissing => "ai_clone_lineage_missing",
            ErrorCode::AiCloneVersionMissing => "ai_clone_version_missing",
            ErrorCode::AiCloneActiveVersionInvalid => "ai_clone_active_version_invalid",
            ErrorCode::AiLineageOverflow => "ai_lineage_overflow",
            ErrorCode::AiStateMissing => "ai_state_missing",
            ErrorCode::ClonePreviewConflict => "clone_preview_conflict",
            ErrorCode::ClonePreviewStructure => "clone_preview_structure",
            ErrorCode::ClonePreviewCommit => "clone_preview_commit",
            ErrorCode::ClonePreviewState => "clone_preview_state",
            ErrorCode::EffectArtifactPromoteFailed => "effect_artifact_promote_failed",
            ErrorCode::Image => "image",
            ErrorCode::Database => "database",
            ErrorCode::Io => "io",
            ErrorCode::AiNewIconOrder => "ai_new_icon_order",
            ErrorCode::AiRevisionOverflow => "ai_revision_overflow",
            ErrorCode::AiNewIconCrop => "ai_new_icon_crop",
            ErrorCode::AiNewIconPiece => "ai_new_icon_piece",
            ErrorCode::AiNewIconState => "ai_new_icon_state",
            ErrorCode::AiNewIconConflict => "ai_new_icon_conflict",
            ErrorCode::AiNewIconPreview => "ai_new_icon_preview",
        }
    }
}

/// An error with its category and a human-readable message.
#[derive(Debug)]
pub struct AppError {
    pub code: ErrorCode,
    pub message: String,
}

impl AppError {
    /// An error with the given code and message.
    pub fn new(code: ErrorCode, message: &str) -> (e: AppError)
        ensures
            e.code == code,
            e.message@ == message@,
    {
        AppError { code, message: String::from_str(message) }
    }

    /// A validation error.
    pub fn validation(message: &str) -> (e: AppError)
        ensures
            e.code == ErrorCode::Validation,
            e.message@ == message@,
    {
        AppError::new(ErrorCode::Validation, message)
    }

    /// A missing-record error.
    pub fn not_found(message: &str) -> (e: AppError)
        ensures
            e.code == ErrorCode::NotFound,
            e.message@ == message@,
    {
        AppError::new(ErrorCode::NotFound, message)
    }
}

} // verus!

//! Plans of the icon operations that read rows, decide, and then write: each
//! function here takes what was read and returns every row value the
//! operation writes, or the refusal the operation answers with. The
//! database side carries a plan out as it is.

use vstd::prelude::*;

use crate::artifacts::{
    claim_variant_group, map_variant_target, normalized_variant_format, source_variant_compatible,
    source_variant_ok, target_variant_compatible, target_variant_ok, variant_extension,
    variant_target_ids, ActiveVariant, OptimizationTarget,
};
use crate::error::{AppError, ErrorCode};
use crate::icons::{
    byte_limit, duplicate_icon_name, next_ai_revision, next_lineage_generation,
    replacement_display_name, shifted, validate_piece_sizes, working_clone_name,
    working_clone_order_index,
};
use crate::artifacts::{component_accepted, component_refused, AppPaths};
use crate::ids::{copy_ids, texts};
use crate::paths::{
    child, is_prefix_of, parts_view, portable_path_text, rebase_clone_preview_path, rebased, safe_component, PartView,
    PathPart,
};
use crate::lineage::{
    clone_error, clone_refusal_message, copy_opt, first_version_error, ensure_expected_revision, lineage_plan_ok,
    plan_lineage_clone, IconAiState, LineageClonePlan, LineageRow, VersionRow,
};
use crate::names::{file_display_name, is_plain_name};
use crate::recipes::{agrees, opt_text, save_refusal, saved_revision, RecipeKind};
use crate::text::{owned, str_eq, trim};

verus! {

// ---------------------------------------------------------------------------
// Making room for an inserted icon

/// An icon's new position after another icon was inserted.
#[derive(Debug)]
pub struct OrderShift {
    pub icon_id: String,
    pub order_index: i64,
}

/// Whether `out` moves each of `others` (icon and position) as inserting an
/// icon at `slot` does: the same icons in the same order, each at its
/// shifted position.
pub open spec fn shifts_ok(others: Seq<(String, i64)>, slot: int, out: Seq<OrderShift>) -> bool {
    &&& out.len() == others.len()
    &&& forall|i: int|
        0 <= i < others.len() ==> (#[trigger] out[i]).icon_id@ == others[i].0@
            && out[i].order_index == shifted(others[i].1 as int, slot)
}

/// Whether every position of `others` can still grow by one.
pub open spec fn orders_can_grow(others: Seq<(String, i64)>) -> bool {
    forall|i: int| 0 <= i < others.len() ==> #[trigger] others[i].1 < i64::MAX
}

/// The positions of the other icons once an icon is inserted at `slot`:
/// those at or after it move one place back.
pub fn shift_orders(others: &Vec<(String, i64)>, slot: i64) -> (r: Vec<OrderShift>)
    requires
        orders_can_grow(others@),
    ensures
        shifts_ok(others@, slot as int, r@),
{
    let mut out: Vec<OrderShift> = Vec::new();
    let mut i: usize = 0;
    while i < others.len()
        invariant
            i <= others@.len(),
            orders_can_grow(others@),
            out@.len() == i,
            forall|k: int|
                0 <= k < i ==> (#[trigger] out@[k]).icon_id@ == others@[k].0@
                    && out@[k].order_index == shifted(others@[k].1 as int, slot as int),
        decreases others@.len() - i,
    {
        let order = others[i].1;
        assert(others@[i as int].1 < i64::MAX);
        let moved = if order >= slot {
            order + 1
        } else {
            order
        };
        out.push(OrderShift { icon_id: owned(others[i].0.as_str()), order_index: moved });
        i = i + 1;
    }
    out
}

// ---------------------------------------------------------------------------
// Duplicating an icon

/// What duplicating an icon writes: the copy's name and position, and the
/// new positions of the collection's other icons.
#[derive(Debug)]
pub struct DuplicatePlan {
    pub display_name: String,
    pub order_index: i64,
    pub shifts: Vec<OrderShift>,
}

/// Plans an icon's duplicate: named after the source with ` 복사본`, placed
/// right after it, and every other icon at or after that place moved one
/// back. (Positions are `i64` values that can still grow, as the database
/// adds one to them.)
pub fn plan_icon_duplicate(source_order: i64, source_name: &str, others: &Vec<(String, i64)>) -> (r:
    DuplicatePlan)
    requires
        source_order < i64::MAX,
        orders_can_grow(others@),
    ensures
        r.display_name@ == source_name@ + " 복사본"@,
        r.order_index == source_order + 1,
        shifts_ok(others@, source_order + 1, r.shifts@),
{
    let slot = source_order + 1;
    DuplicatePlan {
        display_name: duplicate_icon_name(source_name),
        order_index: slot,
        shifts: shift_orders(others, slot),
    }
}

// ---------------------------------------------------------------------------
// A version made from an AI candidate

/// The version a chosen candidate is saved as, and the AI state it leaves.
#[derive(Debug)]
pub struct VersionPlan {
    pub version_id: String,
    pub parent_version_id: Option<String>,
    pub base_source_file_id: String,
    pub base_lineage_id: String,
    pub base_generation: i64,
    pub next_revision: i64,
}

/// Plans the child version a candidate becomes on an icon: its parent is
/// the icon's active version, its base the icon's current lineage, and the
/// icon's AI state moves to the version at the next revision; refused when
/// the revision cannot grow.
pub fn plan_candidate_child(state: &IconAiState, fresh_version: &str) -> (r: Result<
    VersionPlan,
    AppError,
>)
    ensures
        r is Ok <==> state.revision < i64::MAX,
        r matches Err(e) ==> e.code == ErrorCode::AiRevisionOverflow && e.message@
            == "새 AI 아이콘의 적용 이력 번호를 증가시킬 수 없습니다."@,
        r matches Ok(p) ==> {
            &&& p.version_id@ == fresh_version@
            &&& opt_text(p.parent_version_id) == opt_text(state.active_version_id)
            &&& p.base_source_file_id@ == state.source_file_id@
            &&& p.base_lineage_id@ == state.lineage_id@
            &&& p.base_generation == state.generation
            &&& p.next_revision == state.revision + 1
        },
{
    let next_revision = next_ai_revision(state.revision)?;
    Ok(
        VersionPlan {
            version_id: owned(fresh_version),
            parent_version_id: copy_opt(&state.active_version_id),
            base_source_file_id: owned(state.source_file_id.as_str()),
            base_lineage_id: owned(state.lineage_id.as_str()),
            base_generation: state.generation,
            next_revision,
        },
    )
}

// ---------------------------------------------------------------------------
// Replacing an icon's source

/// A piece of an icon whose source was replaced: the piece at that index
/// shows the newly rendered preview, and its last export is forgotten.
#[derive(Debug)]
pub struct PieceReset {
    pub piece_index: usize,
    pub generated_preview_path: String,
    pub last_export_path: Option<String>,
    pub export_status: String,
}

/// Whether `r` resets the piece at `index` to the preview `path`.
pub open spec fn piece_reset_ok(index: int, path: Seq<char>, r: PieceReset) -> bool {
    &&& r.piece_index == index
    &&& r.generated_preview_path@ == path
    &&& r.last_export_path is None
    &&& r.export_status@ == "ready"@
}

fn piece_resets(paths: &Vec<String>) -> (r: Vec<PieceReset>)
    ensures
        r@.len() == paths@.len(),
        forall|k: int| 0 <= k < r@.len() ==> piece_reset_ok(k, paths@[k]@, #[trigger] r@[k]),
{
    let mut out: Vec<PieceReset> = Vec::new();
    let mut k: usize = 0;
    while k < paths.len()
        invariant
            k <= paths@.len(),
            out@.len() == k,
            forall|j: int| 0 <= j < k ==> piece_reset_ok(j, paths@[j]@, #[trigger] out@[j]),
        decreases paths@.len() - k,
    {
        out.push(
            PieceReset {
                piece_index: k,
                generated_preview_path: owned(paths[k].as_str()),
                last_export_path: None,
                export_status: owned("ready"),
            },
        );
        k = k + 1;
    }
    out
}

/// What replacing an icon's source writes besides the new file: the icon
/// becomes an image icon without placeholder text, each piece shows its
/// newly rendered preview with no last export, a new
/// lineage one generation on, the AI state cleared at the next revision, the
/// display name, the transform reset, the pending AI requests cancelled, and
/// whether the collection's cover source follows.
#[derive(Debug)]
pub struct SourceReplacementPlan {
    pub icon_kind: String,
    pub placeholder_text: Option<String>,
    pub pieces: Vec<PieceReset>,
    pub lineage_id: String,
    pub generation: i64,
    pub active_version_id: Option<String>,
    pub revision: i64,
    pub display_name: String,
    pub quarter_turns: i64,
    pub flip_horizontal: bool,
    pub flip_vertical: bool,
    pub cancelled_requests: Vec<String>,
    pub update_cover_source: bool,
}

/// Plans an icon's source replacement; refused only when the lineage
/// generation cannot grow. (The AI state's revision is an `i64` that can
/// still grow, as the database adds one to it.)
pub fn plan_source_replacement(
    icon: &IconAiState,
    icon_kind: &str,
    display_name: String,
    original_filename: &str,
    fresh_lineage: &str,
    pending_request_ids: &Vec<String>,
    is_cover: bool,
    promoted_piece_paths: &Vec<String>,
) -> (r: Result<SourceReplacementPlan, AppError>)
    requires
        icon.revision < i64::MAX,
    ensures
        r is Ok <==> icon.generation < i64::MAX,
        r matches Err(e) ==> e.code == ErrorCode::AiLineageOverflow && e.message@
            == "AI 원본 계보 번호를 증가시킬 수 없습니다."@,
        r matches Ok(p) ==> {
            &&& p.icon_kind@ == "image"@
            &&& p.placeholder_text is None
            &&& p.pieces@.len() == promoted_piece_paths@.len()
            &&& forall|k: int|
                0 <= k < promoted_piece_paths@.len() ==> piece_reset_ok(
                    k,
                    promoted_piece_paths@[k]@,
                    #[trigger] p.pieces@[k],
                )
            &&& p.lineage_id@ == fresh_lineage@
            &&& p.generation == icon.generation + 1
            &&& p.active_version_id is None
            &&& p.revision == icon.revision + 1
            &&& (icon_kind@ != "placeholder"@ ==> p.display_name == display_name)
            &&& (icon_kind@ == "placeholder"@ && portable_path_text(original_filename@)
                ==> p.display_name@ == file_display_name(original_filename@))
            &&& p.quarter_turns == 0
            &&& !p.flip_horizontal
            &&& !p.flip_vertical
            &&& texts(p.cancelled_requests@) == texts(pending_request_ids@)
            &&& p.update_cover_source == is_cover
        },
{
    let generation = next_lineage_generation(icon.generation)?;
    Ok(
        SourceReplacementPlan {
            icon_kind: owned("image"),
            placeholder_text: None,
            pieces: piece_resets(promoted_piece_paths),
            lineage_id: owned(fresh_lineage),
            generation,
            active_version_id: None,
            revision: icon.revision + 1,
            display_name: replacement_display_name(icon_kind, display_name, original_filename),
            quarter_turns: 0,
            flip_horizontal: false,
            flip_vertical: false,
            cancelled_requests: copy_ids(pending_request_ids),
            update_cover_source: is_cover,
        },
    )
}

// ---------------------------------------------------------------------------
// Saving an AI candidate as a new icon

/// The new identifiers a new AI icon is made with, and the fresh AI state
/// its row starts with.
#[derive(Debug)]
pub struct NewIconIds {
    pub target: IconAiState,
    pub fresh_lineage: String,
    pub fresh_versions: Vec<String>,
    pub historical: Vec<String>,
    pub child_version: String,
    pub fresh_pieces: Vec<String>,
}

/// A piece of a new AI icon as it is first written: a fresh id, the source
/// piece's index and role, an empty alt text, no preview or export yet.
#[derive(Debug)]
pub struct NewPiece {
    pub piece_id: String,
    pub piece_index: i64,
    pub piece_role: String,
    pub alt_text: String,
    pub generated_preview_path: Option<String>,
    pub last_export_path: Option<String>,
    pub export_status: String,
}

/// Whether `p` is the new piece made under the fresh id `fresh` for the
/// source piece `src` (its index and role).
pub open spec fn new_piece_ok(src: (i64, String), fresh: Seq<char>, p: NewPiece) -> bool {
    &&& p.piece_id@ == fresh
    &&& p.piece_index == src.0
    &&& p.piece_role@ == src.1@
    &&& p.alt_text@ == Seq::<char>::empty()
    &&& p.generated_preview_path is None
    &&& p.last_export_path is None
    &&& p.export_status@ == "not_exported"@
}

fn new_pieces(source_pieces: &Vec<(i64, String)>, fresh: &Vec<String>) -> (r: Vec<NewPiece>)
    requires
        fresh@.len() == source_pieces@.len(),
    ensures
        r@.len() == source_pieces@.len(),
        forall|k: int|
            0 <= k < r@.len() ==> new_piece_ok(source_pieces@[k], fresh@[k]@, #[trigger] r@[k]),
{
    let mut out: Vec<NewPiece> = Vec::new();
    let mut k: usize = 0;
    while k < source_pieces.len()
        invariant
            k <= source_pieces@.len(),
            fresh@.len() == source_pieces@.len(),
            out@.len() == k,
            forall|j: int|
                0 <= j < k ==> new_piece_ok(source_pieces@[j], fresh@[j]@, #[trigger] out@[j]),
        decreases source_pieces@.len() - k,
    {
        out.push(
            NewPiece {
                piece_id: owned(fresh[k].as_str()),
                piece_index: source_pieces[k].0,
                piece_role: owned(source_pieces[k].1.as_str()),
                alt_text: String::new(),
                generated_preview_path: None,
                last_export_path: None,
                export_status: owned("not_exported"),
            },
        );
        k = k + 1;
    }
    out
}

/// The refusal the working clone meets before the history is copied: its
/// position must fit, the source must have exactly one crop setting and at
/// least one piece, and the render must have made one piece per source
/// piece.
pub open spec fn working_clone_refusal(
    source_order: i64,
    crop_rows: usize,
    source_pieces: nat,
    rendered_pieces: nat,
) -> Option<ErrorCode> {
    if source_order == i64::MAX {
        Some(ErrorCode::AiNewIconOrder)
    } else if crop_rows != 1 {
        Some(ErrorCode::AiNewIconCrop)
    } else if source_pieces == 0 {
        Some(ErrorCode::AiNewIconPiece)
    } else if rendered_pieces != source_pieces {
        Some(ErrorCode::AiNewIconPreview)
    } else {
        None
    }
}

/// The message of each of those refusals.
pub open spec fn working_clone_message(code: ErrorCode) -> Seq<char> {
    if code == ErrorCode::AiNewIconOrder {
        "새 AI 아이콘의 정렬 위치를 계산할 수 없습니다."@
    } else if code == ErrorCode::AiNewIconCrop {
        "원본 아이콘의 크롭 설정을 복제할 수 없습니다."@
    } else if code == ErrorCode::AiNewIconPiece {
        "원본 아이콘의 조각 설정을 찾을 수 없습니다."@
    } else {
        "새 AI 아이콘의 미리보기 조각 수가 원본 아이콘과 일치하지 않습니다."@
    }
}

/// Everything saving an AI candidate as a new icon decides: the working
/// clone's name, kind, readiness and position, the other icons' new
/// positions, its pieces, the copy of the source's AI history, and the
/// candidate's version on the new icon. The source icon itself is not
/// written. (The clone's other columns, its crop and its recipes are the
/// source's, copied by the database.)
#[derive(Debug)]
pub struct AiIconRootPlan {
    pub display_name: String,
    pub icon_kind: String,
    pub readiness: String,
    pub pieces: Vec<NewPiece>,
    pub order_index: i64,
    pub shifts: Vec<OrderShift>,
    pub lineage: LineageClonePlan,
    pub child: VersionPlan,
}

/// The new icon's state once the source's history is copied onto it.
pub open spec fn cloned_state(target: IconAiState, source: IconAiState, plan: LineageClonePlan) -> (
    Seq<char>,
    Seq<char>,
    int,
    Option<Seq<char>>,
    int,
) {
    (
        target.source_file_id@,
        match plan.lineage_bump {
            Some(b) => b.0@,
            None => target.lineage_id@,
        },
        match plan.lineage_bump {
            Some(b) => b.1 as int,
            None => target.generation as int,
        },
        opt_text(plan.active_version_id),
        plan.revision as int,
    )
}

/// The revision the copied AI state has: the source's, and at least one
/// when the source has an active version.
pub open spec fn cloned_revision(source: IconAiState) -> int {
    if source.active_version_id is Some && source.revision < 1 {
        1
    } else {
        source.revision as int
    }
}

/// The message of a new AI icon refused because its editing basis changed.
pub open spec fn changed_basis_message() -> Seq<char> {
    "새 아이콘을 준비하는 동안 편집값이 변경되었습니다. 규격화 미리보기를 다시 확인해 주세요."@
}

/// A clone is only ever refused with a code of its own.
proof fn lemma_clone_error_codes(
    source: IconAiState,
    target: IconAiState,
    fresh_lineage: Seq<char>,
    versions: Seq<VersionRow>,
    fresh_versions: Seq<String>,
    lineages: Seq<LineageRow>,
    historical: Seq<String>,
    n: int,
)
    ensures
        first_version_error(
            source,
            target,
            fresh_lineage,
            versions,
            fresh_versions,
            lineages,
            historical,
            n,
        ) matches Some(c) ==> c == ErrorCode::AiCloneDagInvalid || c
            == ErrorCode::AiCloneLineageMissing,
    decreases n,
{
    if n > 0 {
        lemma_clone_error_codes(
            source,
            target,
            fresh_lineage,
            versions,
            fresh_versions,
            lineages,
            historical,
            n - 1,
        );
    }
}

/// Plans saving an AI candidate as a new icon made from `source`, checking
/// in turn: the AI state's revision, the pieces' sizes, the editing basis,
/// the new position, the number of pieces, the copy of the AI history, and
/// the candidate's version. The first check that fails is the answer.
pub fn plan_ai_icon_root(
    source: &IconAiState,
    source_order: i64,
    source_name: &str,
    expected_revision: i64,
    rendered_signature: &str,
    current_signature: &str,
    piece_sizes: &Vec<u64>,
    source_crop_rows: usize,
    source_pieces: &Vec<(i64, String)>,
    max_bytes: i64,
    others: &Vec<(String, i64)>,
    versions: &Vec<VersionRow>,
    lineages: &Vec<LineageRow>,
    fresh: &NewIconIds,
) -> (r: Result<AiIconRootPlan, AppError>)
    requires
        orders_can_grow(others@),
        fresh.fresh_pieces@.len() == source_pieces@.len(),
        fresh.fresh_versions@.len() == versions@.len(),
        fresh.historical@.len() == lineages@.len(),
    ensures
        source.revision != expected_revision ==> (r matches Err(e) && e.code
            == ErrorCode::AiRevisionConflict),
        source.revision == expected_revision && !(forall|i: int|
            0 <= i < piece_sizes@.len() ==> piece_sizes@[i] <= byte_limit(max_bytes)) ==> (r matches Err(
            e,
        ) && e.code == ErrorCode::Validation && e.message@
            == "새 AI 아이콘의 미리보기 조각이 모음의 파일 용량 제한을 초과했습니다."@),
        r matches Err(e) && e.code == ErrorCode::AiRevisionConflict ==> source.revision
            != expected_revision,
        r matches Err(e) && e.code == ErrorCode::Validation ==> exists|i: int|
            0 <= i < piece_sizes@.len() && piece_sizes@[i] > byte_limit(max_bytes),
        ({
            let checks_pass = source.revision == expected_revision && (forall|i: int|
                0 <= i < piece_sizes@.len() ==> piece_sizes@[i] <= byte_limit(max_bytes));
            &&& (checks_pass && rendered_signature@ != current_signature@ ==> (r matches Err(e)
                && e.code == ErrorCode::AiNewIconConflict && e.message@
                == changed_basis_message()))
            &&& (checks_pass && rendered_signature@ == current_signature@ ==> match working_clone_refusal(
                source_order,
                source_crop_rows,
                source_pieces@.len(),
                piece_sizes@.len(),
            ) {
                Some(c) => r matches Err(e) && e.code == c && e.message@ == working_clone_message(c),
                None => true,
            })
            &&& (checks_pass && rendered_signature@ == current_signature@ && working_clone_refusal(
                source_order,
                source_crop_rows,
                source_pieces@.len(),
                piece_sizes@.len(),
            ) is None ==> {
                let err = clone_error(
                    *source,
                    fresh.target,
                    fresh.fresh_lineage@,
                    versions@,
                    fresh.fresh_versions@,
                    lineages@,
                    fresh.historical@,
                );
                &&& (err matches Some(c) ==> (r matches Err(e) && e.code == c && e.message@
                    == clone_refusal_message(c)))
                &&& (err is None ==> (r is Ok <==> cloned_revision(*source) < i64::MAX))
                &&& (err is None ==> (r matches Err(e) ==> e.code
                    == ErrorCode::AiRevisionOverflow))
            })
        }),
        r matches Ok(p) ==> {
            &&& source.revision == expected_revision
            &&& rendered_signature@ == current_signature@
            &&& working_clone_refusal(
                source_order,
                source_crop_rows,
                source_pieces@.len(),
                piece_sizes@.len(),
            ) is None
            &&& p.icon_kind@ == "image"@
            &&& p.readiness@ == "working"@
            &&& p.pieces@.len() == source_pieces@.len()
            &&& forall|k: int|
                0 <= k < source_pieces@.len() ==> new_piece_ok(
                    source_pieces@[k],
                    fresh.fresh_pieces@[k]@,
                    #[trigger] p.pieces@[k],
                )
            &&& (trim(source_name@).len() == 0 ==> p.display_name@ == "AI 아이콘"@)
            &&& (trim(source_name@).len() > 0 ==> p.display_name@ == trim(source_name@)
                + " AI"@)
            &&& p.order_index == source_order + 1
            &&& shifts_ok(others@, source_order + 1, p.shifts@)
            &&& lineage_plan_ok(
                *source,
                fresh.target,
                versions@,
                lineages@,
                fresh.fresh_lineage@,
                fresh.fresh_versions@,
                fresh.historical@,
                p.lineage,
            )
            &&& p.child.version_id@ == fresh.child_version@
            &&& ({
                let s = cloned_state(fresh.target, *source, p.lineage);
                &&& p.child.base_source_file_id@ == s.0
                &&& p.child.base_lineage_id@ == s.1
                &&& p.child.base_generation == s.2
                &&& opt_text(p.child.parent_version_id) == s.3
                &&& p.child.next_revision == s.4 + 1
            })
        },
{
    ensure_expected_revision(source.revision, expected_revision)?;
    validate_piece_sizes(max_bytes, piece_sizes)?;
    if !str_eq(rendered_signature, current_signature) {
        return Err(
            AppError::new(
                ErrorCode::AiNewIconConflict,
                "새 아이콘을 준비하는 동안 편집값이 변경되었습니다. 규격화 미리보기를 다시 확인해 주세요.",
            ),
        );
    }
    let order_index = working_clone_order_index(source_order)?;
    if source_crop_rows != 1 {
        return Err(
            AppError::new(ErrorCode::AiNewIconCrop, "원본 아이콘의 크롭 설정을 복제할 수 없습니다."),
        );
    }
    if source_pieces.len() == 0 {
        return Err(
            AppError::new(ErrorCode::AiNewIconPiece, "원본 아이콘의 조각 설정을 찾을 수 없습니다."),
        );
    }
    if piece_sizes.len() != source_pieces.len() {
        return Err(
            AppError::new(
                ErrorCode::AiNewIconPreview,
                "새 AI 아이콘의 미리보기 조각 수가 원본 아이콘과 일치하지 않습니다.",
            ),
        );
    }
    let shifts = shift_orders(others, order_index);
    proof {
        lemma_clone_error_codes(
            *source,
            fresh.target,
            fresh.fresh_lineage@,
            versions@,
            fresh.fresh_versions@,
            lineages@,
            fresh.historical@,
            versions@.len() as int,
        );
    }
    let lineage = plan_lineage_clone(
        source,
        &fresh.target,
        versions,
        lineages,
        fresh.fresh_lineage.as_str(),
        &fresh.fresh_versions,
        &fresh.historical,
    )?;
    let cloned = IconAiState {
        source_file_id: owned(fresh.target.source_file_id.as_str()),
        lineage_id: match &lineage.lineage_bump {
            Some(b) => owned(b.0.as_str()),
            None => owned(fresh.target.lineage_id.as_str()),
        },
        generation: match &lineage.lineage_bump {
            Some(b) => b.1,
            None => fresh.target.generation,
        },
        active_version_id: copy_opt(&lineage.active_version_id),
        revision: lineage.revision,
    };
    let child = plan_candidate_child(&cloned, fresh.child_version.as_str())?;
    Ok(
        AiIconRootPlan {
            display_name: working_clone_name(source_name),
            icon_kind: owned("image"),
            readiness: owned("working"),
            pieces: new_pieces(source_pieces, &fresh.fresh_pieces),
            order_index,
            shifts,
            lineage,
            child,
        },
    )
}

// ---------------------------------------------------------------------------
// Cloning an icon's active optimisation outputs

/// An active output of the source icon, with what was read for it: the
/// optimisation target it was made for, the target the clone would make it
/// for, and whether its file still matches its record.
#[derive(Debug)]
pub struct VariantRow {
    pub variant: ActiveVariant,
    pub source_target: OptimizationTarget,
    pub target: OptimizationTarget,
    pub artifact_matches: bool,
}

/// What becomes of one active output when an icon is cloned.
#[derive(Debug)]
pub enum VariantStep {
    /// The output belongs to no piece or profile: it is left alone.
    Skip,
    /// The output no longer fits its source or the clone: nothing is
    /// written for it.
    Discard { source_piece_id: String, target_piece_id: String },
    /// An output of the same profile and piece was copied already.
    AlreadyCloned,
    /// The output is copied for the clone's piece and profile, in the
    /// format given.
    Copy { target_piece_id: String, target_profile_id: String, format: String },
}

pub enum StepView {
    Skip,
    Discard(Seq<char>, Seq<char>),
    AlreadyCloned,
    Copy(Seq<char>, Seq<char>, Seq<char>),
}

pub open spec fn step_view(s: VariantStep) -> StepView {
    match s {
        VariantStep::Skip => StepView::Skip,
        VariantStep::Discard { source_piece_id, target_piece_id } => StepView::Discard(
            source_piece_id@,
            target_piece_id@,
        ),
        VariantStep::AlreadyCloned => StepView::AlreadyCloned,
        VariantStep::Copy { target_piece_id, target_profile_id, format } => StepView::Copy(
            target_piece_id@,
            target_profile_id@,
            format@,
        ),
    }
}

pub open spec fn steps_view(s: Seq<VariantStep>) -> Seq<StepView> {
    s.map_values(|x: VariantStep| step_view(x))
}

pub type Group = (Seq<char>, Seq<char>);

/// The (profile, piece) group of the source that an output belongs to.
pub open spec fn group_of(v: ActiveVariant) -> Group {
    (v.profile_id->0@, v.piece_id->0@)
}

/// The decision on one output, given the groups already copied: its ids
/// must map to the clone's, its format must be one a clone can hold; then
/// an output that does not fit is discarded, and of those that fit only
/// the first of each group is copied.
pub open spec fn variant_step(
    row: VariantRow,
    piece_map: Seq<(String, String)>,
    profile_map: Option<Seq<(String, String)>>,
    claimed: Seq<Group>,
) -> Result<StepView, ErrorCode> {
    match variant_target_ids(row.variant, piece_map, profile_map) {
        Err(c) => Err(c),
        Ok(None) => Ok(StepView::Skip),
        Ok(Some(ids)) => match variant_extension(row.variant.format@) {
            None => Err(ErrorCode::VariantCloneFailed),
            Some(fmt) => if !source_variant_ok(
                row.variant,
                row.source_target,
                fmt,
                row.artifact_matches,
            ) || !target_variant_ok(row.variant, row.source_target, row.target) {
                Ok(StepView::Discard(row.variant.piece_id->0@, ids.0))
            } else if claimed.contains(group_of(row.variant)) {
                Ok(StepView::AlreadyCloned)
            } else {
                Ok(StepView::Copy(ids.0, ids.1, fmt))
            },
        },
    }
}

/// The decisions on the first `n` outputs and the groups they copied, or
/// the first refusal.
pub open spec fn variant_plan(
    rows: Seq<VariantRow>,
    piece_map: Seq<(String, String)>,
    profile_map: Option<Seq<(String, String)>>,
    n: int,
) -> Result<(Seq<StepView>, Seq<Group>), ErrorCode>
    decreases n,
{
    if n <= 0 {
        Ok((seq![], seq![]))
    } else {
        match variant_plan(rows, piece_map, profile_map, n - 1) {
            Err(c) => Err(c),
            Ok(done) => match variant_step(rows[n - 1], piece_map, profile_map, done.1) {
                Err(c) => Err(c),
                Ok(st) => Ok(
                    (
                        done.0.push(st),
                        if st is Copy {
                            done.1.push(group_of(rows[n - 1].variant))
                        } else {
                            done.1
                        },
                    ),
                ),
            },
        }
    }
}

proof fn lemma_variant_plan_err(
    rows: Seq<VariantRow>,
    piece_map: Seq<(String, String)>,
    profile_map: Option<Seq<(String, String)>>,
    i: int,
    n: int,
)
    requires
        0 <= i <= n,
        variant_plan(rows, piece_map, profile_map, i) is Err,
    ensures
        variant_plan(rows, piece_map, profile_map, n) == variant_plan(
            rows,
            piece_map,
            profile_map,
            i,
        ),
    decreases n - i,
{
    if n > i {
        lemma_variant_plan_err(rows, piece_map, profile_map, i, n - 1);
    }
}

pub open spec fn opt_pairs(m: &Option<Vec<(String, String)>>) -> Option<Seq<(String, String)>> {
    match m {
        Some(v) => Some(v@),
        None => None,
    }
}

pub open spec fn groups_view(v: Seq<(String, String)>) -> Seq<Group> {
    v.map_values(|g: (String, String)| (g.0@, g.1@))
}

/// Decides, output by output, what cloning an icon does with the source's
/// active optimisation outputs: outputs with no piece or profile are left
/// alone, ids that do not map to the clone and formats a clone cannot hold
/// refuse the clone, outputs that no longer fit are discarded, and each
/// (profile, piece) group is copied once, from its first fitting output.
pub fn plan_variant_clone(
    rows: &Vec<VariantRow>,
    piece_map: &Vec<(String, String)>,
    profile_map: &Option<Vec<(String, String)>>,
) -> (r: Result<Vec<VariantStep>, AppError>)
    ensures
        match (r, variant_plan(rows@, piece_map@, opt_pairs(profile_map), rows@.len() as int)) {
            (Ok(steps), Ok(p)) => steps_view(steps@) == p.0,
            (Err(e), Err(c)) => e.code == c,
            _ => false,
        },
{
    let mut steps: Vec<VariantStep> = Vec::new();
    let mut claimed: Vec<(String, String)> = Vec::new();
    let mut i: usize = 0;
    assert(steps_view(steps@) =~= Seq::<StepView>::empty());
    assert(groups_view(claimed@) =~= Seq::<Group>::empty());
    while i < rows.len()
        invariant
            i <= rows@.len(),
            variant_plan(rows@, piece_map@, opt_pairs(profile_map), i as int) == Ok::<
                (Seq<StepView>, Seq<Group>),
                ErrorCode,
            >((steps_view(steps@), groups_view(claimed@))),
        decreases rows@.len() - i,
    {
        let row = &rows[i];
        let ghost done = (steps_view(steps@), groups_view(claimed@));
        let ghost want = variant_step(rows@[i as int], piece_map@, opt_pairs(profile_map), done.1);
        let ids = match map_variant_target(&row.variant, piece_map, profile_map) {
            Ok(ids) => ids,
            Err(e) => {
                proof {
                    lemma_variant_plan_err(
                        rows@,
                        piece_map@,
                        opt_pairs(profile_map),
                        i + 1,
                        rows@.len() as int,
                    );
                }
                return Err(e);
            },
        };
        let step = match ids {
            None => VariantStep::Skip,
            Some((target_piece, target_profile)) => {
                let format = match normalized_variant_format(row.variant.format.as_str()) {
                    Ok(f) => f,
                    Err(e) => {
                        proof {
                            lemma_variant_plan_err(
                                rows@,
                                piece_map@,
                                opt_pairs(profile_map),
                                i + 1,
                                rows@.len() as int,
                            );
                        }
                        return Err(e);
                    },
                };
                let fits = source_variant_compatible(
                    &row.variant,
                    &row.source_target,
                    format.as_str(),
                    row.artifact_matches,
                ) && target_variant_compatible(&row.variant, &row.source_target, &row.target);
                if !fits {
                    let source_piece = match &row.variant.piece_id {
                        Some(p) => owned(p.as_str()),
                        None => owned(""),
                    };
                    VariantStep::Discard { source_piece_id: source_piece, target_piece_id: target_piece }
                } else {
                    let (profile, piece) = match (&row.variant.profile_id, &row.variant.piece_id) {
                        (Some(a), Some(b)) => (a, b),
                        _ => {
                            proof {
                                assert(false);
                            }
                            return Err(
                                AppError::new(
                                    ErrorCode::VariantCloneFailed,
                                    "활성 최적화 결과의 조각 ID를 복제본에 연결할 수 없습니다.",
                                ),
                            );
                        },
                    };
                    let ghost before = claimed@;
                    if claim_variant_group(&mut claimed, profile.as_str(), piece.as_str()) {
                        proof {
                            assert(groups_view(claimed@) == groups_view(before).push(
                                group_of(rows@[i as int].variant),
                            ));
                        }
                        VariantStep::Copy {
                            target_piece_id: target_piece,
                            target_profile_id: target_profile,
                            format,
                        }
                    } else {
                        VariantStep::AlreadyCloned
                    }
                }
            },
        };
        proof {
            assert(want == Ok::<StepView, ErrorCode>(step_view(step)));
        }
        steps.push(step);
        proof {
            assert(steps_view(steps@) =~= done.0.push(step_view(step)));
        }
        i = i + 1;
    }
    Ok(steps)
}

// ---------------------------------------------------------------------------
// A cloned icon's own preview

/// Where a cloned icon's preview is rendered and where it is kept: a staging
/// directory named after the operation, and the `native-clone` directory
/// under the icon's AI preview root.
#[derive(Debug)]
pub struct ClonePreviewPlan {
    pub staging_dir: Vec<PathPart>,
    pub final_dir: Vec<PathPart>,
}

/// Plans the directories of a cloned icon's preview; the operation, the
/// collection and the icon identifiers must each be one path component,
/// checked in that order.
pub fn plan_clone_preview(
    paths: &AppPaths,
    collection_id: &str,
    icon_id: &str,
    operation_id: &str,
) -> (r: Result<ClonePreviewPlan, AppError>)
    ensures
        r matches Ok(p) ==> {
            &&& parts_view(p.staging_dir@) == parts_view(paths.ai_activation_staging_dir@).push(
                PartView::Normal(operation_id@),
            )
            &&& parts_view(p.final_dir@) == parts_view(paths.ai_activation_previews_dir@).push(
                PartView::Normal(collection_id@),
            ).push(PartView::Normal(icon_id@)).push(PartView::Normal("native-clone"@))
        },
        is_plain_name(operation_id@) && is_plain_name(collection_id@) && is_plain_name(icon_id@)
            ==> r is Ok,
        component_refused(operation_id@) || component_refused(collection_id@) || component_refused(
            icon_id@,
        ) ==> r is Err,
        portable_path_text(operation_id@) && portable_path_text(collection_id@) && portable_path_text(
            icon_id@,
        ) ==> (r is Ok <==> (component_accepted(operation_id@) && component_accepted(collection_id@)
            && component_accepted(icon_id@))),
        r matches Err(e) ==> e.code == ErrorCode::PreviewCloneFailed,
        component_refused(operation_id@) ==> (r matches Err(e) && e.message@
            == "clone preview operation ID"@ + "가 안전한 경로 구성 요소가 아닙니다."@),
{
    let operation = safe_component(operation_id, "clone preview operation ID")?;
    let collection = safe_component(collection_id, "collection ID")?;
    let icon = safe_component(icon_id, "icon ID")?;
    let staging_dir = child(&paths.ai_activation_staging_dir, operation);
    let collection_dir = child(&paths.ai_activation_previews_dir, collection);
    let icon_dir = child(&collection_dir, icon);
    let final_dir = child(&icon_dir, "native-clone");
    Ok(ClonePreviewPlan { staging_dir, final_dir })
}

/// What a piece of a cloned icon records once its preview is linked: the
/// rendered piece in the final directory, and the piece ready to export.
#[derive(Debug)]
pub struct PieceLink {
    pub piece_id: String,
    pub generated_preview_path: Vec<PathPart>,
    pub export_status: String,
}

/// The preview paths a cloned icon records once its rendered preview moved
/// from the staging directory to the final one, piece by piece in the order
/// of `piece_ids`: refused when the render made a different number of
/// pieces than the icon has, or put a file outside the staging directory.
pub fn link_clone_preview(
    plan: &ClonePreviewPlan,
    current: &Vec<PathPart>,
    pieces: &Vec<Vec<PathPart>>,
    piece_ids: &Vec<String>,
) -> (r: Result<(Vec<PathPart>, Vec<PieceLink>), AppError>)
    ensures
        pieces@.len() != piece_ids@.len() ==> (r matches Err(e) && e.code
            == ErrorCode::ClonePreviewStructure && e.message@
            == "The rendered clone preview piece count does not match the target icon."@),
        r is Ok <==> (pieces@.len() == piece_ids@.len() && is_prefix_of(
            parts_view(plan.staging_dir@),
            parts_view(current@),
        ) && forall|i: int|
            0 <= i < pieces@.len() ==> is_prefix_of(
                parts_view(plan.staging_dir@),
                parts_view(#[trigger] pieces@[i]@),
            )),
        pieces@.len() == piece_ids@.len() && r is Err ==> r->Err_0.code
            == ErrorCode::ClonePreviewPath,
        r matches Ok(linked) ==> {
            &&& parts_view(linked.0@) == rebased(
                parts_view(current@),
                parts_view(plan.staging_dir@),
                parts_view(plan.final_dir@),
            )
            &&& linked.1@.len() == pieces@.len()
            &&& forall|i: int|
                0 <= i < pieces@.len() ==> {
                    &&& (#[trigger] linked.1@[i]).piece_id@ == piece_ids@[i]@
                    &&& parts_view(linked.1@[i].generated_preview_path@) == rebased(
                        parts_view(pieces@[i]@),
                        parts_view(plan.staging_dir@),
                        parts_view(plan.final_dir@),
                    )
                    &&& linked.1@[i].export_status@ == "ready"@
                }
        },
{
    if pieces.len() != piece_ids.len() {
        return Err(
            AppError::new(
                ErrorCode::ClonePreviewStructure,
                "The rendered clone preview piece count does not match the target icon.",
            ),
        );
    }
    let moved_current = rebase_clone_preview_path(current, &plan.staging_dir, &plan.final_dir)?;
    let mut moved: Vec<PieceLink> = Vec::new();
    let mut i: usize = 0;
    while i < pieces.len()
        invariant
            i <= pieces@.len(),
            pieces@.len() == piece_ids@.len(),
            is_prefix_of(parts_view(plan.staging_dir@), parts_view(current@)),
            moved@.len() == i,
            forall|k: int|
                0 <= k < i ==> is_prefix_of(
                    parts_view(plan.staging_dir@),
                    parts_view(#[trigger] pieces@[k]@),
                ),
            forall|k: int|
                0 <= k < i ==> {
                    &&& (#[trigger] moved@[k]).piece_id@ == piece_ids@[k]@
                    &&& parts_view(moved@[k].generated_preview_path@) == rebased(
                        parts_view(pieces@[k]@),
                        parts_view(plan.staging_dir@),
                        parts_view(plan.final_dir@),
                    )
                    &&& moved@[k].export_status@ == "ready"@
                },
        decreases pieces@.len() - i,
    {
        let p = rebase_clone_preview_path(&pieces[i], &plan.staging_dir, &plan.final_dir)?;
        moved.push(
            PieceLink {
                piece_id: owned(piece_ids[i].as_str()),
                generated_preview_path: p,
                export_status: owned("ready"),
            },
        );
        i = i + 1;
    }
    Ok((moved_current, moved))
}

// ---------------------------------------------------------------------------
// Copying a collection's icons

/// The columns of an icon that a copy keeps, other than its id, its
/// collection, its position and its preview. (Its text overlay's size,
/// position and outline width are floating-point columns the database
/// copies unchanged.)
#[derive(Debug)]
pub struct IconFields {
    pub source_file_id: String,
    pub display_name: String,
    pub icon_kind: String,
    pub readiness: String,
    pub placeholder_text: Option<String>,
    pub shape: String,
    pub cell_width_override: Option<i64>,
    pub cell_height_override: Option<i64>,
    pub thumbnail_path: Option<String>,
    pub thumbnail_override_source_file_id: Option<String>,
    pub thumbnail_override_path: Option<String>,
    pub text_overlay_enabled: i64,
    pub text_overlay_text: String,
    pub text_overlay_font_path: Option<String>,
    pub text_overlay_color: String,
    pub text_overlay_stroke_color: String,
    pub transform_quarter_turns: i64,
    pub transform_flip_horizontal: i64,
    pub transform_flip_vertical: i64,
    pub gif_loop_mode: String,
    pub gif_loop_count: Option<i64>,
    pub gif_pingpong: i64,
}

/// Whether two sets of icon columns hold the same values.
pub open spec fn same_fields(a: IconFields, b: IconFields) -> bool {
    &&& a.source_file_id@ == b.source_file_id@
    &&& a.display_name@ == b.display_name@
    &&& a.icon_kind@ == b.icon_kind@
    &&& a.readiness@ == b.readiness@
    &&& opt_text(a.placeholder_text) == opt_text(b.placeholder_text)
    &&& a.shape@ == b.shape@
    &&& a.cell_width_override == b.cell_width_override
    &&& a.cell_height_override == b.cell_height_override
    &&& opt_text(a.thumbnail_path) == opt_text(b.thumbnail_path)
    &&& opt_text(a.thumbnail_override_source_file_id) == opt_text(
        b.thumbnail_override_source_file_id,
    )
    &&& opt_text(a.thumbnail_override_path) == opt_text(b.thumbnail_override_path)
    &&& a.text_overlay_enabled == b.text_overlay_enabled
    &&& a.text_overlay_text@ == b.text_overlay_text@
    &&& opt_text(a.text_overlay_font_path) == opt_text(b.text_overlay_font_path)
    &&& a.text_overlay_color@ == b.text_overlay_color@
    &&& a.text_overlay_stroke_color@ == b.text_overlay_stroke_color@
    &&& a.transform_quarter_turns == b.transform_quarter_turns
    &&& a.transform_flip_horizontal == b.transform_flip_horizontal
    &&& a.transform_flip_vertical == b.transform_flip_vertical
    &&& a.gif_loop_mode@ == b.gif_loop_mode@
    &&& a.gif_loop_count == b.gif_loop_count
    &&& a.gif_pingpong == b.gif_pingpong
}

fn copy_fields(f: &IconFields) -> (r: IconFields)
    ensures
        same_fields(r, *f),
{
    IconFields {
        source_file_id: f.source_file_id.clone(),
        display_name: f.display_name.clone(),
        icon_kind: f.icon_kind.clone(),
        readiness: f.readiness.clone(),
        placeholder_text: copy_opt(&f.placeholder_text),
        shape: f.shape.clone(),
        cell_width_override: f.cell_width_override,
        cell_height_override: f.cell_height_override,
        thumbnail_path: copy_opt(&f.thumbnail_path),
        thumbnail_override_source_file_id: copy_opt(&f.thumbnail_override_source_file_id),
        thumbnail_override_path: copy_opt(&f.thumbnail_override_path),
        text_overlay_enabled: f.text_overlay_enabled,
        text_overlay_text: f.text_overlay_text.clone(),
        text_overlay_font_path: copy_opt(&f.text_overlay_font_path),
        text_overlay_color: f.text_overlay_color.clone(),
        text_overlay_stroke_color: f.text_overlay_stroke_color.clone(),
        transform_quarter_turns: f.transform_quarter_turns,
        transform_flip_horizontal: f.transform_flip_horizontal,
        transform_flip_vertical: f.transform_flip_vertical,
        gif_loop_mode: f.gif_loop_mode.clone(),
        gif_loop_count: f.gif_loop_count,
        gif_pingpong: f.gif_pingpong,
    }
}

/// An icon's crop setting as a copy keeps it. (The crop rectangle is four
/// floating-point columns the database copies unchanged.)
#[derive(Debug)]
pub struct CropCopy {
    pub crop_mode: String,
    pub preset_position: String,
    pub source_width_at_apply: Option<i64>,
    pub source_height_at_apply: Option<i64>,
    pub viewport_width_at_apply: i64,
    pub viewport_height_at_apply: i64,
}

pub open spec fn same_crop(a: Option<CropCopy>, b: Option<CropCopy>) -> bool {
    match (a, b) {
        (None, None) => true,
        (Some(x), Some(y)) => x.crop_mode@ == y.crop_mode@ && x.preset_position@
            == y.preset_position@ && x.source_width_at_apply == y.source_width_at_apply
            && x.source_height_at_apply == y.source_height_at_apply && x.viewport_width_at_apply
            == y.viewport_width_at_apply && x.viewport_height_at_apply
            == y.viewport_height_at_apply,
        _ => false,
    }
}

fn copy_crop(c: &Option<CropCopy>) -> (r: Option<CropCopy>)
    ensures
        same_crop(r, *c),
{
    match c {
        None => None,
        Some(x) => Some(
            CropCopy {
                crop_mode: x.crop_mode.clone(),
                preset_position: x.preset_position.clone(),
                source_width_at_apply: x.source_width_at_apply,
                source_height_at_apply: x.source_height_at_apply,
                viewport_width_at_apply: x.viewport_width_at_apply,
                viewport_height_at_apply: x.viewport_height_at_apply,
            },
        ),
    }
}

/// An icon's stored effect or motion recipe as a copy keeps it.
#[derive(Debug)]
pub struct RecipeCopy {
    pub recipe_schema: String,
    pub revision: i64,
    pub json: String,
}

pub open spec fn same_recipe(a: Option<RecipeCopy>, b: Option<RecipeCopy>) -> bool {
    match (a, b) {
        (None, None) => true,
        (Some(x), Some(y)) => x.recipe_schema@ == y.recipe_schema@ && x.revision == y.revision
            && x.json@ == y.json@,
        _ => false,
    }
}

fn copy_recipe(c: &Option<RecipeCopy>) -> (r: Option<RecipeCopy>)
    ensures
        same_recipe(r, *c),
{
    match c {
        None => None,
        Some(x) => Some(
            RecipeCopy { recipe_schema: x.recipe_schema.clone(), revision: x.revision, json: x.json.clone() },
        ),
    }
}

/// A piece of an icon being copied, as read.
#[derive(Debug)]
pub struct PieceCopyRow {
    pub id: String,
    pub piece_index: i64,
    pub piece_role: String,
    pub alt_text: String,
}

/// An icon of the collection being copied: its id, its position and its
/// pieces. (Its other columns are copied unchanged by the database.)
#[derive(Debug)]
pub struct IconCopyRow {
    pub id: String,
    pub order_index: i64,
    pub fields: IconFields,
    pub note: Option<String>,
    pub crop: Option<CropCopy>,
    pub effect: Option<RecipeCopy>,
    pub motion: Option<RecipeCopy>,
    pub pieces: Vec<PieceCopyRow>,
}

/// A piece as the copy writes it: a fresh id, the same index, role and alt
/// text, no preview or export yet.
#[derive(Debug)]
pub struct PieceCopy {
    pub source_piece_id: String,
    pub target_piece_id: String,
    pub piece_index: i64,
    pub piece_role: String,
    pub alt_text: String,
    pub generated_preview_path: Option<String>,
    pub last_export_path: Option<String>,
    pub export_status: String,
}

/// An icon as the copy writes it: a fresh id at the same position, the
/// source's columns, note, crop and recipes, no preview until its own is
/// rendered, and its pieces copied.
#[derive(Debug)]
pub struct IconCopy {
    pub source_icon_id: String,
    pub target_icon_id: String,
    pub order_index: i64,
    pub current_preview_path: Option<String>,
    pub fields: IconFields,
    pub note: Option<String>,
    pub crop: Option<CropCopy>,
    pub effect: Option<RecipeCopy>,
    pub motion: Option<RecipeCopy>,
    pub pieces: Vec<PieceCopy>,
}

/// Whether `c` copies the piece `p` under the fresh id `fresh`.
pub open spec fn piece_copied(p: PieceCopyRow, fresh: Seq<char>, c: PieceCopy) -> bool {
    &&& c.source_piece_id@ == p.id@
    &&& c.target_piece_id@ == fresh
    &&& c.piece_index == p.piece_index
    &&& c.piece_role@ == p.piece_role@
    &&& c.alt_text@ == p.alt_text@
    &&& c.generated_preview_path is None
    &&& c.last_export_path is None
    &&& c.export_status@ == "not_exported"@
}

/// Whether `c` copies the icon `i` under the fresh ids given.
pub open spec fn icon_copied(
    i: IconCopyRow,
    fresh_icon: Seq<char>,
    fresh_pieces: Seq<String>,
    c: IconCopy,
) -> bool {
    &&& c.source_icon_id@ == i.id@
    &&& c.target_icon_id@ == fresh_icon
    &&& c.order_index == i.order_index
    &&& c.current_preview_path is None
    &&& same_fields(c.fields, i.fields)
    &&& opt_text(c.note) == opt_text(i.note)
    &&& same_crop(c.crop, i.crop)
    &&& same_recipe(c.effect, i.effect)
    &&& same_recipe(c.motion, i.motion)
    &&& c.pieces@.len() == i.pieces@.len()
    &&& forall|k: int|
        0 <= k < i.pieces@.len() ==> piece_copied(
            i.pieces@[k],
            fresh_pieces[k]@,
            #[trigger] c.pieces@[k],
        )
}

fn copy_pieces(pieces: &Vec<PieceCopyRow>, fresh: &Vec<String>) -> (r: Vec<PieceCopy>)
    requires
        fresh@.len() == pieces@.len(),
    ensures
        r@.len() == pieces@.len(),
        forall|k: int|
            0 <= k < pieces@.len() ==> piece_copied(pieces@[k], fresh@[k]@, #[trigger] r@[k]),
{
    let mut out: Vec<PieceCopy> = Vec::new();
    let mut k: usize = 0;
    while k < pieces.len()
        invariant
            k <= pieces@.len(),
            fresh@.len() == pieces@.len(),
            out@.len() == k,
            forall|j: int|
                0 <= j < k ==> piece_copied(pieces@[j], fresh@[j]@, #[trigger] out@[j]),
        decreases pieces@.len() - k,
    {
        let p = &pieces[k];
        out.push(
            PieceCopy {
                source_piece_id: owned(p.id.as_str()),
                target_piece_id: owned(fresh[k].as_str()),
                piece_index: p.piece_index,
                piece_role: owned(p.piece_role.as_str()),
                alt_text: owned(p.alt_text.as_str()),
                generated_preview_path: None,
                last_export_path: None,
                export_status: owned("not_exported"),
            },
        );
        k = k + 1;
    }
    out
}

/// Plans the copies of a collection's icons into another collection: each
/// icon under its fresh id at its position, with no preview yet, and each
/// of its pieces under its fresh id, not exported and with no preview yet.
pub fn plan_collection_icon_copies(
    icons: &Vec<IconCopyRow>,
    fresh_icon_ids: &Vec<String>,
    fresh_piece_ids: &Vec<Vec<String>>,
) -> (r: Vec<IconCopy>)
    requires
        fresh_icon_ids@.len() == icons@.len(),
        fresh_piece_ids@.len() == icons@.len(),
        forall|i: int|
            0 <= i < icons@.len() ==> (#[trigger] fresh_piece_ids@[i])@.len()
                == icons@[i].pieces@.len(),
    ensures
        r@.len() == icons@.len(),
        forall|i: int|
            0 <= i < icons@.len() ==> icon_copied(
                icons@[i],
                fresh_icon_ids@[i]@,
                fresh_piece_ids@[i]@,
                #[trigger] r@[i],
            ),
{
    let mut out: Vec<IconCopy> = Vec::new();
    let mut i: usize = 0;
    while i < icons.len()
        invariant
            i <= icons@.len(),
            fresh_icon_ids@.len() == icons@.len(),
            fresh_piece_ids@.len() == icons@.len(),
            forall|j: int|
                0 <= j < icons@.len() ==> (#[trigger] fresh_piece_ids@[j])@.len()
                    == icons@[j].pieces@.len(),
            out@.len() == i,
            forall|j: int|
                0 <= j < i ==> icon_copied(
                    icons@[j],
                    fresh_icon_ids@[j]@,
                    fresh_piece_ids@[j]@,
                    #[trigger] out@[j],
                ),
        decreases icons@.len() - i,
    {
        let icon = &icons[i];
        assert(fresh_piece_ids@[i as int]@.len() == icons@[i as int].pieces@.len());
        let pieces = copy_pieces(&icon.pieces, &fresh_piece_ids[i]);
        out.push(
            IconCopy {
                source_icon_id: owned(icon.id.as_str()),
                target_icon_id: owned(fresh_icon_ids[i].as_str()),
                order_index: icon.order_index,
                current_preview_path: None,
                fields: copy_fields(&icon.fields),
                note: copy_opt(&icon.note),
                crop: copy_crop(&icon.crop),
                effect: copy_recipe(&icon.effect),
                motion: copy_recipe(&icon.motion),
                pieces,
            },
        );
        i = i + 1;
    }
    out
}

// ---------------------------------------------------------------------------
// Saving an icon's effects

/// The revision an effect save writes, deciding in the order the save
/// meets its checks: the expected revision must be one that can grow, the
/// editing basis the preview was rendered from must be the current one, and
/// then the stored revision must be the expected one (`stored` is `None`
/// for a missing icon, `Some(None)` for one with no saved recipe).
pub fn plan_effect_save(
    expected_revision: i64,
    rendered_signature: &str,
    current_signature: &str,
    stored: Option<Option<i64>>,
) -> (r: Result<i64, AppError>)
    ensures
        expected_revision < 0 ==> (r matches Err(e) && e.code == ErrorCode::Validation
            && e.message@ == "효과 recipe revision이 올바르지 않습니다."@),
        expected_revision == i64::MAX ==> (r matches Err(e) && e.code == ErrorCode::Validation
            && e.message@ == "효과 revision이 너무 큽니다."@),
        0 <= expected_revision < i64::MAX && rendered_signature@ != current_signature@ ==> (r matches Err(
            e,
        ) && e.code == ErrorCode::Conflict && e.message@
            == "편집 기준이 변경되었습니다. 최신 상태를 다시 불러온 뒤 시도해 주세요."@),
        0 <= expected_revision < i64::MAX && rendered_signature@ == current_signature@ ==> (agrees(
            r,
            saved_revision(expected_revision, stored),
        ) && (r matches Err(e) ==> Some(e.message@) == save_refusal(
            RecipeKind::Effect,
            expected_revision,
            stored,
        ))),
{
    crate::icons::validate_expected_effect_revision(expected_revision)?;
    crate::icons::ensure_signature_unchanged(rendered_signature, current_signature)?;
    crate::effects::next_saved_revision(expected_revision, stored)
}

} // verus!

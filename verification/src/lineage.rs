//! AI history of icons: the revision guard of AI state, and how an icon's
//! AI version graph is cloned onto a new icon that then owns its copy.
//!
//! Cloning reads the source icon's versions and lineages and the target's
//! fresh state, and plans every row the clone writes: version identifiers,
//! parent links, lineage fields and the active state become the target's,
//! while the records they point at are shared.

use vstd::prelude::*;

use crate::error::{AppError, ErrorCode};
use crate::recipes::opt_text;
use crate::text::str_eq;

verus! {

/// A copy of an optional text.
pub(crate) fn copy_opt(o: &Option<String>) -> (r: Option<String>)
    ensures
        opt_text(r) == opt_text(*o),
{
    match o {
        Some(t) => Some(t.clone()),
        None => None,
    }
}

/// Refuses an AI operation planned against a revision that is no longer
/// current.
pub fn ensure_expected_revision(actual: i64, expected: i64) -> (r: Result<(), AppError>)
    ensures
        r is Ok <==> actual == expected,
        r matches Err(e) ==> e.code == ErrorCode::AiRevisionConflict && e.message@
            == "다른 작업에서 AI 적용 상태가 변경되었습니다. 이력을 새로 불러와 주세요."@,
{
    if actual == expected {
        Ok(())
    } else {
        Err(
            AppError::new(
                ErrorCode::AiRevisionConflict,
                "다른 작업에서 AI 적용 상태가 변경되었습니다. 이력을 새로 불러와 주세요.",
            ),
        )
    }
}

/// An icon's source and AI state: its source file, its original lineage and
/// generation, its active version and the revision of its AI state.
#[derive(Debug)]
pub struct IconAiState {
    pub source_file_id: String,
    pub lineage_id: String,
    pub generation: i64,
    pub active_version_id: Option<String>,
    pub revision: i64,
}

/// An AI version of an icon: its identifier, its parent, and the original
/// lineage it was made from.
#[derive(Debug)]
pub struct VersionRow {
    pub id: String,
    pub parent_id: Option<String>,
    pub base_source_file_id: String,
    pub base_lineage_id: String,
    pub base_generation: i64,
    pub candidate_id: Option<String>,
    pub effective_source_file_id: Option<String>,
}

/// A lineage of an icon: an original source file at a generation.
#[derive(Debug)]
pub struct LineageRow {
    pub source_file_id: String,
    pub lineage_id: String,
    pub generation: i64,
}

/// A version as the clone writes it.
#[derive(Debug)]
pub struct VersionCopy {
    pub source_version_id: String,
    pub target_version_id: String,
    pub parent_version_id: Option<String>,
    pub base_source_file_id: String,
    pub base_lineage_id: String,
    pub base_generation: i64,
    pub candidate_id: Option<String>,
    pub effective_source_file_id: Option<String>,
}

/// Every row a clone of AI history writes: the target's new current
/// lineage when its generation must follow the source's, the historical
/// lineages it registers, the versions it copies, and its AI state.
#[derive(Debug)]
pub struct LineageClonePlan {
    pub lineage_bump: Option<(String, i64)>,
    pub new_lineages: Vec<LineageRow>,
    pub versions: Vec<VersionCopy>,
    pub active_version_id: Option<String>,
    pub revision: i64,
}

pub type LineageKey = (Seq<char>, Seq<char>, int);

pub open spec fn row_key(r: LineageRow) -> LineageKey {
    (r.source_file_id@, r.lineage_id@, r.generation as int)
}

pub open spec fn base_key(v: VersionRow) -> LineageKey {
    (v.base_source_file_id@, v.base_lineage_id@, v.base_generation as int)
}

pub open spec fn current_key(s: IconAiState) -> LineageKey {
    (s.source_file_id@, s.lineage_id@, s.generation as int)
}

/// The refusal a clone meets before any row is read: the icons must share
/// their source, the target must be fresh, and the target's generation may
/// not be ahead of the source's.
pub open spec fn clone_precheck(source: IconAiState, target: IconAiState) -> Option<ErrorCode> {
    if source.source_file_id@ != target.source_file_id@ {
        Some(ErrorCode::AiCloneSourceMismatch)
    } else if target.active_version_id is Some || target.revision != 0 {
        Some(ErrorCode::AiCloneTargetNotFresh)
    } else if source.generation != target.generation && source.generation <= target.generation {
        Some(ErrorCode::AiCloneGenerationInvalid)
    } else {
        None
    }
}

/// The target's current lineage once the clone has run: a fresh lineage at
/// the source's generation when the generations differ, its own otherwise.
pub open spec fn target_lineage(
    source: IconAiState,
    target: IconAiState,
    fresh_lineage: Seq<char>,
) -> Seq<char> {
    if source.generation != target.generation {
        fresh_lineage
    } else {
        target.lineage_id@
    }
}

/// The last position of version `id` among the first `n` rows, or -1.
pub open spec fn last_version_upto(rows: Seq<VersionRow>, id: Seq<char>, n: int) -> int
    decreases n,
{
    if n <= 0 {
        -1
    } else if rows[n - 1].id@ == id {
        n - 1
    } else {
        last_version_upto(rows, id, n - 1)
    }
}

/// The identifier the clone gives the version `id` of the source (the last
/// row with that identifier decides), if the source has it.
pub open spec fn version_target(rows: Seq<VersionRow>, fresh: Seq<String>, id: Seq<char>) -> Option<
    Seq<char>,
> {
    let j = last_version_upto(rows, id, rows.len() as int);
    if j < 0 {
        None
    } else {
        Some(fresh[j]@)
    }
}

/// The first position of a lineage key at or after `k`, or -1.
pub open spec fn first_lineage_from(rows: Seq<LineageRow>, key: LineageKey, k: int) -> int
    decreases rows.len() - k,
{
    if k < 0 || k >= rows.len() {
        -1
    } else if row_key(rows[k]) == key {
        k
    } else {
        first_lineage_from(rows, key, k + 1)
    }
}

/// The lineage identifier the clone uses for a lineage of the source (the
/// first row with that key decides): the target's current lineage for the
/// source's current lineage, a fresh historical lineage for any other.
pub open spec fn lineage_target(
    source: IconAiState,
    target: IconAiState,
    fresh_lineage: Seq<char>,
    lineages: Seq<LineageRow>,
    historical: Seq<String>,
    key: LineageKey,
) -> Option<Seq<char>> {
    let k = first_lineage_from(lineages, key, 0);
    if k < 0 {
        None
    } else if key == current_key(source) {
        Some(target_lineage(source, target, fresh_lineage))
    } else {
        Some(historical[k]@)
    }
}

/// The historical lineages the clone registers among the first `n` rows:
/// one per distinct key other than the source's current lineage.
pub open spec fn new_lineages_upto(
    source: IconAiState,
    lineages: Seq<LineageRow>,
    historical: Seq<String>,
    n: int,
) -> Seq<LineageKey>
    decreases n,
{
    if n <= 0 {
        Seq::empty()
    } else {
        let prev = new_lineages_upto(source, lineages, historical, n - 1);
        let k = n - 1;
        let key = row_key(lineages[k]);
        if first_lineage_from(lineages, key, 0) == k && key != current_key(source) {
            prev.push((key.0, historical[k]@, key.2))
        } else {
            prev
        }
    }
}

/// The refusal met on version `i`: its parent is not a version of the
/// source, or its lineage is not one of the source's.
pub open spec fn version_error(
    source: IconAiState,
    target: IconAiState,
    fresh_lineage: Seq<char>,
    versions: Seq<VersionRow>,
    fresh_versions: Seq<String>,
    lineages: Seq<LineageRow>,
    historical: Seq<String>,
    i: int,
) -> Option<ErrorCode> {
    let v = versions[i];
    if v.parent_id is Some && version_target(versions, fresh_versions, v.parent_id->0@) is None {
        Some(ErrorCode::AiCloneDagInvalid)
    } else if lineage_target(source, target, fresh_lineage, lineages, historical, base_key(v))
        is None {
        Some(ErrorCode::AiCloneLineageMissing)
    } else {
        None
    }
}

/// The first refusal met among the first `n` versions.
pub open spec fn first_version_error(
    source: IconAiState,
    target: IconAiState,
    fresh_lineage: Seq<char>,
    versions: Seq<VersionRow>,
    fresh_versions: Seq<String>,
    lineages: Seq<LineageRow>,
    historical: Seq<String>,
    n: int,
) -> Option<ErrorCode>
    decreases n,
{
    if n <= 0 {
        None
    } else {
        let prev = first_version_error(
            source,
            target,
            fresh_lineage,
            versions,
            fresh_versions,
            lineages,
            historical,
            n - 1,
        );
        if prev is Some {
            prev
        } else {
            version_error(
                source,
                target,
                fresh_lineage,
                versions,
                fresh_versions,
                lineages,
                historical,
                n - 1,
            )
        }
    }
}

/// The refusal a clone meets, if any: the prechecks, then each version in
/// order, then the active version, which must be a version of the source.
pub open spec fn clone_error(
    source: IconAiState,
    target: IconAiState,
    fresh_lineage: Seq<char>,
    versions: Seq<VersionRow>,
    fresh_versions: Seq<String>,
    lineages: Seq<LineageRow>,
    historical: Seq<String>,
) -> Option<ErrorCode> {
    let pre = clone_precheck(source, target);
    let ve = first_version_error(
        source,
        target,
        fresh_lineage,
        versions,
        fresh_versions,
        lineages,
        historical,
        versions.len() as int,
    );
    if pre is Some {
        pre
    } else if ve is Some {
        ve
    } else if source.active_version_id is Some && version_target(
        versions,
        fresh_versions,
        source.active_version_id->0@,
    ) is None {
        Some(ErrorCode::AiCloneActiveVersionInvalid)
    } else {
        None
    }
}

/// The message of each refusal of a clone.
pub open spec fn clone_refusal_message(code: ErrorCode) -> Seq<char> {
    if code == ErrorCode::AiCloneSourceMismatch {
        "AI 이력은 같은 원본 소스를 가진 아이콘에만 복제할 수 있습니다."@
    } else if code == ErrorCode::AiCloneTargetNotFresh {
        "AI 이력을 복제할 대상 아이콘의 상태가 이미 변경되었습니다."@
    } else if code == ErrorCode::AiCloneGenerationInvalid {
        "The cloned AI lineage generation cannot be preserved."@
    } else if code == ErrorCode::AiCloneDagInvalid {
        "AI 버전 부모가 현재 원본 계보에 없어 복제할 수 없습니다."@
    } else if code == ErrorCode::AiCloneLineageMissing {
        "The cloned AI version lineage was not registered."@
    } else {
        "활성 AI 버전이 현재 원본 계보에 없어 복제할 수 없습니다."@
    }
}

pub type CopyView = (
    Seq<char>,
    Seq<char>,
    Option<Seq<char>>,
    Seq<char>,
    Seq<char>,
    int,
    Option<Seq<char>>,
    Option<Seq<char>>,
);

pub open spec fn copy_view(c: VersionCopy) -> CopyView {
    (
        c.source_version_id@,
        c.target_version_id@,
        opt_text(c.parent_version_id),
        c.base_source_file_id@,
        c.base_lineage_id@,
        c.base_generation as int,
        opt_text(c.candidate_id),
        opt_text(c.effective_source_file_id),
    )
}

/// The copy the clone writes for version `i` of the source.
pub open spec fn planned_copy(
    source: IconAiState,
    target: IconAiState,
    fresh_lineage: Seq<char>,
    versions: Seq<VersionRow>,
    fresh_versions: Seq<String>,
    lineages: Seq<LineageRow>,
    historical: Seq<String>,
    i: int,
) -> CopyView {
    let v = versions[i];
    (
        v.id@,
        version_target(versions, fresh_versions, v.id@)->0,
        match v.parent_id {
            Some(p) => version_target(versions, fresh_versions, p@),
            None => None,
        },
        v.base_source_file_id@,
        lineage_target(source, target, fresh_lineage, lineages, historical, base_key(v))->0,
        v.base_generation as int,
        opt_text(v.candidate_id),
        opt_text(v.effective_source_file_id),
    )
}

pub open spec fn lineage_row_view(r: LineageRow) -> LineageKey {
    (r.source_file_id@, r.lineage_id@, r.generation as int)
}

/// What a successful clone plan holds, as `plan_lineage_clone` makes it.
pub open spec fn lineage_plan_ok(
    source: IconAiState,
    target: IconAiState,
    versions: Seq<VersionRow>,
    lineages: Seq<LineageRow>,
    fresh_lineage: Seq<char>,
    fresh_versions: Seq<String>,
    historical: Seq<String>,
    plan: LineageClonePlan,
) -> bool {
    &&& (source.generation != target.generation ==> (plan.lineage_bump matches Some(b)
        && b.0@ == fresh_lineage && b.1 == source.generation))
    &&& (source.generation == target.generation ==> plan.lineage_bump is None)
    &&& plan.new_lineages@.map_values(|l: LineageRow| lineage_row_view(l))
        == new_lineages_upto(source, lineages, historical, lineages.len() as int)
    &&& plan.versions@.len() == versions.len()
    &&& forall|i: int|
        0 <= i < versions.len() ==> copy_view(#[trigger] plan.versions@[i]) == planned_copy(
            source,
            target,
            fresh_lineage,
            versions,
            fresh_versions,
            lineages,
            historical,
            i,
        )
    &&& opt_text(plan.active_version_id) == match source.active_version_id {
        Some(a) => version_target(versions, fresh_versions, a@),
        None => None,
    }
    &&& plan.revision == if source.active_version_id is Some && source.revision < 1 {
        1
    } else {
        source.revision
    }
}

/// Plans the clone of a source icon's AI history onto a fresh target icon
/// with the same source. `fresh_lineage`, `fresh_versions` (one per version
/// row) and `historical` (one per lineage row) are new identifiers the
/// clone may use. The plan, or the first refusal, is exactly as
/// `clone_error` and the planned rows describe it.
pub fn plan_lineage_clone(
    source: &IconAiState,
    target: &IconAiState,
    versions: &Vec<VersionRow>,
    lineages: &Vec<LineageRow>,
    fresh_lineage: &str,
    fresh_versions: &Vec<String>,
    historical: &Vec<String>,
) -> (r: Result<LineageClonePlan, AppError>)
    requires
        fresh_versions.len() == versions.len(),
        historical.len() == lineages.len(),
    ensures
        ({
            let err = clone_error(
                *source,
                *target,
                fresh_lineage@,
                versions@,
                fresh_versions@,
                lineages@,
                historical@,
            );
            &&& r is Ok <==> err is None
            &&& r matches Err(e) ==> Some(e.code) == err
            &&& r matches Err(e) ==> e.message@ == clone_refusal_message(e.code)
        }),
        r matches Ok(plan) ==> lineage_plan_ok(
            *source,
            *target,
            versions@,
            lineages@,
            fresh_lineage@,
            fresh_versions@,
            historical@,
            plan,
        ),
{
    if !str_eq(source.source_file_id.as_str(), target.source_file_id.as_str()) {
        return Err(
            AppError::new(
                ErrorCode::AiCloneSourceMismatch,
                "AI 이력은 같은 원본 소스를 가진 아이콘에만 복제할 수 있습니다.",
            ),
        );
    }
    if target.active_version_id.is_some() || target.revision != 0 {
        return Err(
            AppError::new(
                ErrorCode::AiCloneTargetNotFresh,
                "AI 이력을 복제할 대상 아이콘의 상태가 이미 변경되었습니다.",
            ),
        );
    }
    let mut lineage_bump: Option<(String, i64)> = None;
    if source.generation != target.generation {
        if source.generation <= target.generation {
            return Err(
                AppError::new(
                    ErrorCode::AiCloneGenerationInvalid,
                    "The cloned AI lineage generation cannot be preserved.",
                ),
            );
        }
        lineage_bump = Some((String::from_str(fresh_lineage), source.generation));
    }
    let ghost tl = target_lineage(*source, *target, fresh_lineage@);
    let target_lineage_id = if source.generation != target.generation {
        String::from_str(fresh_lineage)
    } else {
        target.lineage_id.clone()
    };
    let new_lineages = plan_new_lineages(source, lineages, historical);
    let mut copies: Vec<VersionCopy> = Vec::new();
    let mut i: usize = 0;
    while i < versions.len()
        invariant
            i <= versions.len(),
            fresh_versions.len() == versions.len(),
            historical.len() == lineages.len(),
            clone_precheck(*source, *target) is None,
            target_lineage_id@ == tl,
            tl == target_lineage(*source, *target, fresh_lineage@),
            first_version_error(
                *source,
                *target,
                fresh_lineage@,
                versions@,
                fresh_versions@,
                lineages@,
                historical@,
                i as int,
            ) is None,
            copies@.len() == i,
            forall|k: int|
                0 <= k < i ==> copy_view(#[trigger] copies@[k]) == planned_copy(
                    *source,
                    *target,
                    fresh_lineage@,
                    versions@,
                    fresh_versions@,
                    lineages@,
                    historical@,
                    k,
                ),
        decreases versions.len() - i,
    {
        let v = &versions[i];
        let own = map_version(versions, fresh_versions, v.id.as_str());
        let parent = match &v.parent_id {
            Some(p) => {
                match map_version(versions, fresh_versions, p.as_str()) {
                    Some(t) => Some(t),
                    None => {
                        proof {
                            lemma_first_error_stable(
                                *source,
                                *target,
                                fresh_lineage@,
                                versions@,
                                fresh_versions@,
                                lineages@,
                                historical@,
                                i + 1,
                                versions@.len() as int,
                            );
                        }
                        return Err(
                            AppError::new(
                                ErrorCode::AiCloneDagInvalid,
                                "AI 버전 부모가 현재 원본 계보에 없어 복제할 수 없습니다.",
                            ),
                        );
                    },
                }
            },
            None => None,
        };
        let lineage = match map_lineage(
            source,
            target,
            &target_lineage_id,
            lineages,
            historical,
            &v.base_source_file_id,
            &v.base_lineage_id,
            v.base_generation,
            Ghost(fresh_lineage@),
        ) {
            Some(l) => l,
            None => {
                proof {
                    lemma_first_error_stable(
                        *source,
                        *target,
                        fresh_lineage@,
                        versions@,
                        fresh_versions@,
                        lineages@,
                        historical@,
                        i + 1,
                        versions@.len() as int,
                    );
                }
                return Err(
                    AppError::new(
                        ErrorCode::AiCloneLineageMissing,
                        "The cloned AI version lineage was not registered.",
                    ),
                );
            },
        };
        proof {
            lemma_last_version_found(versions@, v.id@, versions@.len() as int, i as int);
        }
        let target_id = match own {
            Some(t) => t,
            None => String::new(),
        };
        copies.push(
            VersionCopy {
                source_version_id: v.id.clone(),
                target_version_id: target_id,
                parent_version_id: parent,
                base_source_file_id: v.base_source_file_id.clone(),
                base_lineage_id: lineage,
                base_generation: v.base_generation,
                candidate_id: copy_opt(&v.candidate_id),
                effective_source_file_id: copy_opt(&v.effective_source_file_id),
            },
        );
        i = i + 1;
    }
    let active = match &source.active_version_id {
        Some(a) => {
            match map_version(versions, fresh_versions, a.as_str()) {
                Some(t) => Some(t),
                None => {
                    return Err(
                        AppError::new(
                            ErrorCode::AiCloneActiveVersionInvalid,
                            "활성 AI 버전이 현재 원본 계보에 없어 복제할 수 없습니다.",
                        ),
                    );
                },
            }
        },
        None => None,
    };
    let revision = if active.is_some() && source.revision < 1 {
        1
    } else {
        source.revision
    };
    Ok(
        LineageClonePlan {
            lineage_bump,
            new_lineages,
            versions: copies,
            active_version_id: active,
            revision,
        },
    )
}

proof fn lemma_last_version_bounds(rows: Seq<VersionRow>, id: Seq<char>, n: int)
    requires
        0 <= n <= rows.len(),
    ensures
        -1 <= last_version_upto(rows, id, n) < n,
        last_version_upto(rows, id, n) >= 0 ==> rows[last_version_upto(rows, id, n)].id@ == id,
        last_version_upto(rows, id, n) < 0 ==> forall|k: int| 0 <= k < n ==> rows[k].id@ != id,
    decreases n,
{
    if n > 0 && rows[n - 1].id@ != id {
        lemma_last_version_bounds(rows, id, n - 1);
    }
}

proof fn lemma_last_version_found(rows: Seq<VersionRow>, id: Seq<char>, n: int, i: int)
    requires
        0 <= i < n <= rows.len(),
        rows[i].id@ == id,
    ensures
        last_version_upto(rows, id, n) >= 0,
{
    lemma_last_version_bounds(rows, id, n);
}

/// The identifier the clone gives a source version, if the source has it.
fn map_version(rows: &Vec<VersionRow>, fresh: &Vec<String>, id: &str) -> (r: Option<String>)
    requires
        fresh.len() == rows.len(),
    ensures
        opt_text(r) == version_target(rows@, fresh@, id@),
{
    let mut n = rows.len();
    while n > 0
        invariant
            n <= rows.len(),
            fresh.len() == rows.len(),
            last_version_upto(rows@, id@, rows@.len() as int) == last_version_upto(
                rows@,
                id@,
                n as int,
            ),
        decreases n,
    {
        if str_eq(rows[n - 1].id.as_str(), id) {
            proof {
                lemma_last_version_bounds(rows@, id@, rows@.len() as int);
            }
            return Some(fresh[n - 1].clone());
        }
        n = n - 1;
    }
    None
}

proof fn lemma_first_lineage_bounds(rows: Seq<LineageRow>, key: LineageKey, k: int)
    requires
        0 <= k <= rows.len(),
    ensures
        first_lineage_from(rows, key, k) == -1 || k <= first_lineage_from(rows, key, k) < rows.len(),
        first_lineage_from(rows, key, k) >= 0 ==> row_key(rows[first_lineage_from(rows, key, k)])
            == key,
        first_lineage_from(rows, key, k) >= 0 ==> forall|j: int|
            k <= j < first_lineage_from(rows, key, k) ==> row_key(rows[j]) != key,
        first_lineage_from(rows, key, k) < 0 ==> forall|j: int|
            k <= j < rows.len() ==> row_key(rows[j]) != key,
    decreases rows.len() - k,
{
    if k < rows.len() && row_key(rows[k]) != key {
        lemma_first_lineage_bounds(rows, key, k + 1);
    }
}

/// The first row of `rows` with a lineage key, if any.
fn find_lineage(rows: &Vec<LineageRow>, file: &String, lineage: &String, generation: i64) -> (r:
    Option<usize>)
    ensures
        match r {
            Some(k) => first_lineage_from(rows@, (file@, lineage@, generation as int), 0) == k as int
                && k < rows@.len(),
            None => first_lineage_from(rows@, (file@, lineage@, generation as int), 0) == -1,
        },
{
    let ghost key = (file@, lineage@, generation as int);
    let mut k: usize = 0;
    while k < rows.len()
        invariant
            k <= rows.len(),
            key == (file@, lineage@, generation as int),
            first_lineage_from(rows@, key, 0) == first_lineage_from(rows@, key, k as int),
        decreases rows.len() - k,
    {
        let row = &rows[k];
        let same = str_eq(row.source_file_id.as_str(), file.as_str()) && str_eq(
            row.lineage_id.as_str(),
            lineage.as_str(),
        ) && row.generation == generation;
        proof {
            assert(*row == rows@[k as int]);
            assert(same <==> row_key(rows@[k as int]) == key);
        }
        if same {
            return Some(k);
        }
        k = k + 1;
    }
    None
}

/// The lineage identifier the clone uses for a source lineage, if the
/// source registered it.
fn map_lineage(
    source: &IconAiState,
    target: &IconAiState,
    target_lineage_id: &String,
    lineages: &Vec<LineageRow>,
    historical: &Vec<String>,
    file: &String,
    lineage: &String,
    generation: i64,
    Ghost(fresh_lineage): Ghost<Seq<char>>,
) -> (r: Option<String>)
    requires
        historical.len() == lineages.len(),
        target_lineage_id@ == target_lineage(*source, *target, fresh_lineage),
    ensures
        opt_text(r) == lineage_target(
            *source,
            *target,
            fresh_lineage,
            lineages@,
            historical@,
            (file@, lineage@, generation as int),
        ),
{
    match find_lineage(lineages, file, lineage, generation) {
        None => None,
        Some(k) => {
            if str_eq(file.as_str(), source.source_file_id.as_str()) && str_eq(
                lineage.as_str(),
                source.lineage_id.as_str(),
            ) && generation == source.generation {
                Some(target_lineage_id.clone())
            } else {
                Some(historical[k].clone())
            }
        },
    }
}

/// The historical lineages a clone registers.
fn plan_new_lineages(source: &IconAiState, lineages: &Vec<LineageRow>, historical: &Vec<String>) -> (r:
    Vec<LineageRow>)
    requires
        historical.len() == lineages.len(),
    ensures
        r@.map_values(|l: LineageRow| lineage_row_view(l)) == new_lineages_upto(
            *source,
            lineages@,
            historical@,
            lineages@.len() as int,
        ),
{
    let mut r: Vec<LineageRow> = Vec::new();
    let mut n: usize = 0;
    while n < lineages.len()
        invariant
            n <= lineages.len(),
            historical.len() == lineages.len(),
            r@.map_values(|l: LineageRow| lineage_row_view(l)) == new_lineages_upto(
                *source,
                lineages@,
                historical@,
                n as int,
            ),
        decreases lineages.len() - n,
    {
        let row = &lineages[n];
        let first = find_lineage(lineages, &row.source_file_id, &row.lineage_id, row.generation);
        let is_current = str_eq(row.source_file_id.as_str(), source.source_file_id.as_str())
            && str_eq(row.lineage_id.as_str(), source.lineage_id.as_str()) && row.generation
            == source.generation;
        let ghost before = r@;
        if first == Some(n) && !is_current {
            r.push(
                LineageRow {
                    source_file_id: row.source_file_id.clone(),
                    lineage_id: historical[n].clone(),
                    generation: row.generation,
                },
            );
            proof {
                assert(r@.map_values(|l: LineageRow| lineage_row_view(l)) =~= before.map_values(
                    |l: LineageRow| lineage_row_view(l),
                ).push(lineage_row_view(r@.last())));
            }
        }
        n = n + 1;
    }
    r
}

proof fn lemma_first_error_stable(
    source: IconAiState,
    target: IconAiState,
    fresh_lineage: Seq<char>,
    versions: Seq<VersionRow>,
    fresh_versions: Seq<String>,
    lineages: Seq<LineageRow>,
    historical: Seq<String>,
    n: int,
    m: int,
)
    requires
        0 <= n <= m,
        first_version_error(
            source,
            target,
            fresh_lineage,
            versions,
            fresh_versions,
            lineages,
            historical,
            n,
        ) is Some,
    ensures
        first_version_error(source, target, fresh_lineage, versions, fresh_versions, lineages, historical, m)
            == first_version_error(
            source,
            target,
            fresh_lineage,
            versions,
            fresh_versions,
            lineages,
            historical,
            n,
        ),
    decreases m - n,
{
    if m > n {
        lemma_first_error_stable(
            source,
            target,
            fresh_lineage,
            versions,
            fresh_versions,
            lineages,
            historical,
            n,
            m - 1,
        );
    }
}

/// Whether no identifier occurs twice in the list.
pub open spec fn distinct_ids(v: Seq<String>) -> bool {
    forall|i: int, j: int| 0 <= i < j < v.len() ==> #[trigger] v[i]@ != #[trigger] v[j]@
}

/// A cloned AI history mirrors the source's graph: with distinct version
/// identifiers on both sides, each version's copy gets its own fresh
/// identifier, the copy of a version's parent is the parent of the
/// version's copy, and no two versions share a copy.
pub proof fn lemma_clone_mirrors_version_graph(
    versions: Seq<VersionRow>,
    fresh: Seq<String>,
    i: int,
    j: int,
)
    requires
        fresh.len() == versions.len(),
        distinct_ids(versions.map_values(|v: VersionRow| v.id)),
        distinct_ids(fresh),
        0 <= i < versions.len(),
        0 <= j < versions.len(),
    ensures
        version_target(versions, fresh, versions[i].id@) == Some(fresh[i]@),
        versions[i].parent_id == Some(versions[j].id) ==> version_target(
            versions,
            fresh,
            versions[i].parent_id->0@,
        ) == Some(fresh[j]@),
        i != j ==> version_target(versions, fresh, versions[i].id@) != version_target(
            versions,
            fresh,
            versions[j].id@,
        ),
{
    let ids = versions.map_values(|v: VersionRow| v.id);
    lemma_last_version_bounds(versions, versions[i].id@, versions.len() as int);
    lemma_last_version_bounds(versions, versions[j].id@, versions.len() as int);
    let li = last_version_upto(versions, versions[i].id@, versions.len() as int);
    let lj = last_version_upto(versions, versions[j].id@, versions.len() as int);
    if li != i {
        assert(ids[li]@ == ids[i]@);
        if li < i {
            assert(ids[li]@ != ids[i]@);
        } else {
            assert(ids[i]@ != ids[li]@);
        }
    }
    if lj != j {
        assert(ids[lj]@ == ids[j]@);
        if lj < j {
            assert(ids[lj]@ != ids[j]@);
        } else {
            assert(ids[j]@ != ids[lj]@);
        }
    }
    if i < j {
        assert(fresh[i]@ != fresh[j]@);
    } else if j < i {
        assert(fresh[j]@ != fresh[i]@);
    }
}

/// A cloned history keeps lineages apart: with distinct fresh historical
/// identifiers, none of them the target's current lineage, two different
/// lineages of the source map to two different lineages of the clone.
pub proof fn lemma_clone_keeps_lineages_apart(
    source: IconAiState,
    target: IconAiState,
    fresh_lineage: Seq<char>,
    lineages: Seq<LineageRow>,
    historical: Seq<String>,
    a: LineageKey,
    b: LineageKey,
)
    requires
        historical.len() == lineages.len(),
        distinct_ids(historical),
        forall|k: int|
            0 <= k < historical.len() ==> #[trigger] historical[k]@ != target_lineage(
                source,
                target,
                fresh_lineage,
            ),
        a != b,
        lineage_target(source, target, fresh_lineage, lineages, historical, a) is Some,
        lineage_target(source, target, fresh_lineage, lineages, historical, b) is Some,
    ensures
        lineage_target(source, target, fresh_lineage, lineages, historical, a) != lineage_target(
            source,
            target,
            fresh_lineage,
            lineages,
            historical,
            b,
        ),
{
    lemma_first_lineage_bounds(lineages, a, 0);
    lemma_first_lineage_bounds(lineages, b, 0);
    let ka = first_lineage_from(lineages, a, 0);
    let kb = first_lineage_from(lineages, b, 0);
    assert(ka != kb);
    if a != current_key(source) && b != current_key(source) {
        if ka < kb {
            assert(historical[ka]@ != historical[kb]@);
        } else {
            assert(historical[kb]@ != historical[ka]@);
        }
    }
}

} // verus!

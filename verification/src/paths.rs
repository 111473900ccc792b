//! Paths as sequences of components, and the ownership rules of the
//! directories the library manages: a path is only rebased, accepted or
//! removed when it lies under the root that owns it, component by component.
//!
//! A path is held as the list of its components in the order
//! `std::path::Path::components` yields them; joining two paths is the
//! concatenation of their component lists, which is what pushing the
//! components one after the other onto a `PathBuf` does.

use vstd::prelude::*;

use crate::error::{AppError, ErrorCode};
use crate::names::is_plain_name;

verus! {

/// One component of a path, named as `std::path::Component` names them.
#[derive(Debug)]
pub enum PathPart {
    Prefix(String),
    RootDir,
    CurDir,
    ParentDir,
    Normal(String),
}

/// A path component as a mathematical value.
pub enum PartView {
    Prefix(Seq<char>),
    RootDir,
    CurDir,
    ParentDir,
    Normal(Seq<char>),
}

pub open spec fn part_view(p: PathPart) -> PartView {
    match p {
        PathPart::Prefix(s) => PartView::Prefix(s@),
        PathPart::RootDir => PartView::RootDir,
        PathPart::CurDir => PartView::CurDir,
        PathPart::ParentDir => PartView::ParentDir,
        PathPart::Normal(s) => PartView::Normal(s@),
    }
}

/// The components of a path as mathematical values.
pub open spec fn parts_view(s: Seq<PathPart>) -> Seq<PartView> {
    s.map_values(|p: PathPart| part_view(p))
}

/// Whether `base` is a leading run of the components of `path`, which is what
/// `Path::starts_with` tests.
pub open spec fn is_prefix_of(base: Seq<PartView>, path: Seq<PartView>) -> bool {
    base.len() <= path.len() && path.subrange(0, base.len() as int) == base
}

/// Whether every component is a plain name.
pub open spec fn all_normal(s: Seq<PartView>) -> bool {
    forall|i: int| 0 <= i < s.len() ==> #[trigger] s[i] is Normal
}

/// A copy of a component.
pub fn copy_part(p: &PathPart) -> (r: PathPart)
    ensures
        part_view(r) == part_view(*p),
{
    match p {
        PathPart::Prefix(s) => PathPart::Prefix(s.clone()),
        PathPart::RootDir => PathPart::RootDir,
        PathPart::CurDir => PathPart::CurDir,
        PathPart::ParentDir => PathPart::ParentDir,
        PathPart::Normal(s) => PathPart::Normal(s.clone()),
    }
}

/// Whether two components are the same.
pub fn part_eq(a: &PathPart, b: &PathPart) -> (r: bool)
    ensures
        r == (part_view(*a) == part_view(*b)),
{
    match (a, b) {
        (PathPart::Prefix(x), PathPart::Prefix(y)) => crate::text::str_eq(x.as_str(), y.as_str()),
        (PathPart::RootDir, PathPart::RootDir) => true,
        (PathPart::CurDir, PathPart::CurDir) => true,
        (PathPart::ParentDir, PathPart::ParentDir) => true,
        (PathPart::Normal(x), PathPart::Normal(y)) => crate::text::str_eq(x.as_str(), y.as_str()),
        _ => false,
    }
}

proof fn lemma_parts_view_push(s: Seq<PathPart>, p: PathPart)
    ensures
        parts_view(s.push(p)) == parts_view(s).push(part_view(p)),
{
    assert(parts_view(s.push(p)) =~= parts_view(s).push(part_view(p)));
}

/// The components `v[from..]`, copied.
pub fn parts_from(v: &Vec<PathPart>, from: usize) -> (r: Vec<PathPart>)
    requires
        from <= v.len(),
    ensures
        parts_view(r@) == parts_view(v@).skip(from as int),
{
    let mut r: Vec<PathPart> = Vec::new();
    let mut i = from;
    while i < v.len()
        invariant
            from <= i <= v.len(),
            parts_view(r@) == parts_view(v@).subrange(from as int, i as int),
        decreases v.len() - i,
    {
        let p = copy_part(&v[i]);
        let ghost before = r@;
        r.push(p);
        proof {
            lemma_parts_view_push(before, p);
            assert(parts_view(v@).subrange(from as int, i + 1) =~= parts_view(v@).subrange(
                from as int,
                i as int,
            ).push(part_view(v@[i as int])));
        }
        i = i + 1;
    }
    assert(parts_view(v@).subrange(from as int, v.len() as int) =~= parts_view(v@).skip(
        from as int,
    ));
    r
}

/// A copy of a path.
pub fn copy_parts(v: &Vec<PathPart>) -> (r: Vec<PathPart>)
    ensures
        parts_view(r@) == parts_view(v@),
{
    let r = parts_from(v, 0);
    assert(parts_view(v@).skip(0) =~= parts_view(v@));
    r
}

/// `Path::starts_with`: whether the components of `base` lead those of `path`.
pub fn starts_with_parts(path: &Vec<PathPart>, base: &Vec<PathPart>) -> (r: bool)
    ensures
        r == is_prefix_of(parts_view(base@), parts_view(path@)),
{
    if base.len() > path.len() {
        return false;
    }
    let mut i: usize = 0;
    while i < base.len()
        invariant
            i <= base.len() <= path.len(),
            forall|k: int| 0 <= k < i ==> part_view(#[trigger] path@[k]) == part_view(base@[k]),
        decreases base.len() - i,
    {
        if !part_eq(&path[i], &base[i]) {
            assert(parts_view(path@).subrange(0, base.len() as int)[i as int] == part_view(
                path@[i as int],
            ));
            return false;
        }
        i = i + 1;
    }
    assert(parts_view(path@).subrange(0, base.len() as int) =~= parts_view(base@));
    true
}

/// `Path::strip_prefix`: the components of `path` after those of `base`,
/// when `base` leads `path`.
pub fn strip_prefix_parts(path: &Vec<PathPart>, base: &Vec<PathPart>) -> (r: Option<Vec<PathPart>>)
    ensures
        r is Some <==> is_prefix_of(parts_view(base@), parts_view(path@)),
        r is Some ==> parts_view(r->0@) == parts_view(path@).skip(base@.len() as int),
{
    if starts_with_parts(path, base) {
        Some(parts_from(path, base.len()))
    } else {
        None
    }
}

/// `base` followed by the components of `rel`.
pub fn join_parts(base: &Vec<PathPart>, rel: &Vec<PathPart>) -> (r: Vec<PathPart>)
    ensures
        parts_view(r@) == parts_view(base@) + parts_view(rel@),
{
    let mut r = copy_parts(base);
    let mut i: usize = 0;
    while i < rel.len()
        invariant
            i <= rel.len(),
            parts_view(r@) == parts_view(base@) + parts_view(rel@).subrange(0, i as int),
        decreases rel.len() - i,
    {
        let p = copy_part(&rel[i]);
        let ghost before = r@;
        r.push(p);
        proof {
            lemma_parts_view_push(before, p);
            assert(parts_view(rel@).subrange(0, i + 1) =~= parts_view(rel@).subrange(
                0,
                i as int,
            ).push(part_view(rel@[i as int])));
            assert(parts_view(r@) =~= parts_view(base@) + parts_view(rel@).subrange(0, i + 1));
        }
        i = i + 1;
    }
    assert(parts_view(rel@).subrange(0, rel.len() as int) =~= parts_view(rel@));
    r
}

/// `base` followed by one plain component.
pub fn child(base: &Vec<PathPart>, name: &str) -> (r: Vec<PathPart>)
    ensures
        parts_view(r@) == parts_view(base@).push(PartView::Normal(name@)),
{
    let mut r = copy_parts(base);
    r.push(PathPart::Normal(String::from_str(name)));
    assert(parts_view(r@) =~= parts_view(base@).push(PartView::Normal(name@)));
    r
}

/// Whether every component is a plain name.
pub fn all_normal_parts(path: &Vec<PathPart>) -> (r: bool)
    ensures
        r == all_normal(parts_view(path@)),
{
    let mut i: usize = 0;
    while i < path.len()
        invariant
            i <= path.len(),
            forall|k: int| 0 <= k < i ==> #[trigger] path@[k] is Normal,
        decreases path.len() - i,
    {
        match &path[i] {
            PathPart::Normal(_) => {},
            _ => {
                assert(!(parts_view(path@)[i as int] is Normal));
                return false;
            },
        }
        i = i + 1;
    }
    assert forall|k: int| 0 <= k < parts_view(path@).len() implies #[trigger] parts_view(
        path@,
    )[k] is Normal by {
        assert(path@[k] is Normal);
    }
    true
}

/// What a path is moved to when a directory is rebased: the components
/// `path` has after `from`, placed under `to`.
pub open spec fn rebased(path: Seq<PartView>, from: Seq<PartView>, to: Seq<PartView>) -> Seq<
    PartView,
> {
    to + path.skip(from.len() as int)
}

/// The contract shared by the rebase functions: the path moves under `to`
/// when it lies under `from`, and the call fails with `code` otherwise.
pub open spec fn rebase_result(
    r: Result<Vec<PathPart>, AppError>,
    path: Seq<PathPart>,
    from: Seq<PathPart>,
    to: Seq<PathPart>,
    code: ErrorCode,
) -> bool {
    &&& r is Ok <==> is_prefix_of(parts_view(from), parts_view(path))
    &&& r matches Ok(p) ==> parts_view(p@) == rebased(
        parts_view(path),
        parts_view(from),
        parts_view(to),
    )
    &&& r matches Err(e) ==> e.code == code
}

fn rebase_with(
    path: &Vec<PathPart>,
    from: &Vec<PathPart>,
    to: &Vec<PathPart>,
    code: ErrorCode,
    message: &str,
) -> (r: Result<Vec<PathPart>, AppError>)
    ensures
        rebase_result(r, path@, from@, to@, code),
        r matches Err(e) ==> e.message@ == message@,
{
    match strip_prefix_parts(path, from) {
        Some(relative) => Ok(join_parts(to, &relative)),
        None => Err(AppError::new(code, message)),
    }
}

/// Moves a rendered preview of a new AI icon from its staging directory to
/// the promoted one.
pub fn rebase_artifact_path(path: &Vec<PathPart>, from: &Vec<PathPart>, to: &Vec<PathPart>) -> (r:
    Result<Vec<PathPart>, AppError>)
    ensures
        rebase_result(r, path@, from@, to@, ErrorCode::AiNewIconPath),
        r matches Err(e) ==> e.message@ == "새 AI 아이콘의 미리보기 경로가 staging 바깥을 가리킵니다."@,
{
    rebase_with(
        path,
        from,
        to,
        ErrorCode::AiNewIconPath,
        "새 AI 아이콘의 미리보기 경로가 staging 바깥을 가리킵니다.",
    )
}

/// Moves a rendered clone preview from its staging directory to its final one.
pub fn rebase_clone_preview_path(
    path: &Vec<PathPart>,
    staging: &Vec<PathPart>,
    final_dir: &Vec<PathPart>,
) -> (r: Result<Vec<PathPart>, AppError>)
    ensures
        rebase_result(r, path@, staging@, final_dir@, ErrorCode::ClonePreviewPath),
        r matches Err(e) ==> e.message@ == "A rendered clone preview escaped its staging directory."@,
{
    rebase_with(
        path,
        staging,
        final_dir,
        ErrorCode::ClonePreviewPath,
        "A rendered clone preview escaped its staging directory.",
    )
}

/// Moves a saved effect artifact from its request's staging directory to the
/// promoted one.
pub fn rebase_effect_artifact_path(
    path: &Vec<PathPart>,
    staging_dir: &Vec<PathPart>,
    final_dir: &Vec<PathPart>,
) -> (r: Result<Vec<PathPart>, AppError>)
    ensures
        rebase_result(r, path@, staging_dir@, final_dir@, ErrorCode::EffectArtifactPath),
        r matches Err(e) ==> e.message@ == "효과 저장 결과가 요청 전용 임시 폴더 밖을 가리킵니다."@,
{
    rebase_with(
        path,
        staging_dir,
        final_dir,
        ErrorCode::EffectArtifactPath,
        "효과 저장 결과가 요청 전용 임시 폴더 밖을 가리킵니다.",
    )
}

/// Moves a preview rendered for a source replacement from its staging
/// directory to the final one.
pub fn rebase_preview_artifact(path: &Vec<PathPart>, from: &Vec<PathPart>, to: &Vec<PathPart>) -> (r:
    Result<Vec<PathPart>, AppError>)
    ensures
        rebase_result(r, path@, from@, to@, ErrorCode::SourceReplacePreviewPath),
        r matches Err(e) ==> e.message@ == "원본 교체 미리보기 경로가 staging 디렉터리를 벗어났습니다."@,
{
    rebase_with(
        path,
        from,
        to,
        ErrorCode::SourceReplacePreviewPath,
        "원본 교체 미리보기 경로가 staging 디렉터리를 벗어났습니다.",
    )
}

/// Rebasing a path that lies under `from` and back again gives the path.
pub proof fn lemma_rebase_round_trip(path: Seq<PartView>, from: Seq<PartView>, to: Seq<PartView>)
    requires
        is_prefix_of(from, path),
    ensures
        is_prefix_of(to, rebased(path, from, to)),
        rebased(rebased(path, from, to), to, from) == path,
{
    let moved = rebased(path, from, to);
    assert(moved.subrange(0, to.len() as int) =~= to);
    assert(moved.skip(to.len() as int) =~= path.skip(from.len() as int));
    assert(from + path.skip(from.len() as int) =~= path);
}

/// The error a managed-directory owner reports for a component that is not
/// a plain name.
pub open spec fn unsafe_component_text(code: ErrorCode) -> Seq<char> {
    if code == ErrorCode::AiNewIconPath {
        "새 AI 아이콘 경로에 안전하지 않은 구성 요소가 있습니다."@
    } else {
        "AI 미리보기 경로에 안전하지 않은 구성 요소가 있습니다."@
    }
}

fn unsafe_component_message(code: ErrorCode) -> (m: &'static str)
    ensures
        m@ == unsafe_component_text(code),
{
    match code {
        ErrorCode::AiNewIconPath => "새 AI 아이콘 경로에 안전하지 않은 구성 요소가 있습니다.",
        _ => "AI 미리보기 경로에 안전하지 않은 구성 요소가 있습니다.",
    }
}

/// The message for a managed path outside its allowed root, by the code of
/// the caller: new AI icons or AI previews.
pub open spec fn outside_allowed_text(code: ErrorCode) -> Seq<char> {
    if code == ErrorCode::AiNewIconPath {
        "새 AI 아이콘 경로가 허용된 관리 루트 밖에 있습니다."@
    } else {
        "AI 미리보기 경로가 허용된 관리 루트 밖에 있습니다."@
    }
}

fn outside_allowed_message(code: ErrorCode) -> (m: &'static str)
    ensures
        m@ == outside_allowed_text(code),
{
    match code {
        ErrorCode::AiNewIconPath => "새 AI 아이콘 경로가 허용된 관리 루트 밖에 있습니다.",
        _ => "AI 미리보기 경로가 허용된 관리 루트 밖에 있습니다.",
    }
}

/// The message for a managed path outside the application root, by the code
/// of the caller: new AI icons or AI previews.
pub open spec fn outside_app_text(code: ErrorCode) -> Seq<char> {
    if code == ErrorCode::AiNewIconPath {
        "새 AI 아이콘 경로가 앱 데이터 루트 밖에 있습니다."@
    } else {
        "AI 미리보기 경로가 앱 데이터 루트 밖에 있습니다."@
    }
}

fn outside_app_message(code: ErrorCode) -> (m: &'static str)
    ensures
        m@ == outside_app_text(code),
{
    match code {
        ErrorCode::AiNewIconPath => "새 AI 아이콘 경로가 앱 데이터 루트 밖에 있습니다.",
        _ => "AI 미리보기 경로가 앱 데이터 루트 밖에 있습니다.",
    }
}

/// Accepts a relative path only when each of its components is a plain name
/// (no root, prefix, `.` or `..`).
pub fn validate_relative_components(path: &Vec<PathPart>, code: ErrorCode) -> (r: Result<
    (),
    AppError,
>)
    ensures
        r is Ok <==> all_normal(parts_view(path@)),
        r matches Err(e) ==> e.code == code && e.message@ == unsafe_component_text(code),
{
    if all_normal_parts(path) {
        Ok(())
    } else {
        Err(AppError::new(code, unsafe_component_message(code)))
    }
}

/// The parts of a managed directory relative to the application root: the
/// allowed root's and the target's.
pub struct OwnedDirectoryPlan {
    pub allowed_relative: Vec<PathPart>,
    pub target_relative: Vec<PathPart>,
}

/// The checks made on a managed directory before the file system is touched:
/// the allowed root lies under the application root, the target under the
/// allowed root, and every component in between is a plain name.
pub open spec fn owned_directory_ok(
    app_root: Seq<PartView>,
    allowed_root: Seq<PartView>,
    target: Seq<PartView>,
) -> bool {
    &&& is_prefix_of(app_root, allowed_root)
    &&& all_normal(allowed_root.skip(app_root.len() as int))
    &&& is_prefix_of(allowed_root, target)
    &&& all_normal(target.skip(allowed_root.len() as int))
}

/// Why a managed directory is refused before the file system is touched, in
/// the order the checks are made.
pub open spec fn owned_directory_refusal(
    app_root: Seq<PartView>,
    allowed_root: Seq<PartView>,
    target: Seq<PartView>,
    code: ErrorCode,
) -> Option<Seq<char>> {
    if !is_prefix_of(app_root, allowed_root) {
        Some("AI 미리보기 관리 루트가 앱 데이터 루트 밖에 있습니다."@)
    } else if !all_normal(allowed_root.skip(app_root.len() as int)) {
        Some(unsafe_component_text(code))
    } else if !is_prefix_of(allowed_root, target) {
        Some(outside_allowed_text(code))
    } else if !all_normal(target.skip(allowed_root.len() as int)) {
        Some(unsafe_component_text(code))
    } else {
        None
    }
}

/// Plans the walk to a managed directory: the allowed root and the target
/// relative to the application root, or the error of the first check that
/// fails.
pub fn plan_owned_directory(
    app_root: &Vec<PathPart>,
    allowed_root: &Vec<PathPart>,
    target: &Vec<PathPart>,
    code: ErrorCode,
) -> (r: Result<OwnedDirectoryPlan, AppError>)
    ensures
        r is Ok <==> owned_directory_ok(
            parts_view(app_root@),
            parts_view(allowed_root@),
            parts_view(target@),
        ),
        r matches Ok(plan) ==> parts_view(plan.allowed_relative@) == parts_view(allowed_root@).skip(
            app_root@.len() as int,
        ) && parts_view(plan.target_relative@) == parts_view(target@).skip(app_root@.len() as int),
        r matches Err(e) ==> e.code == code && Some(e.message@) == owned_directory_refusal(
            parts_view(app_root@),
            parts_view(allowed_root@),
            parts_view(target@),
            code,
        ),
{
    let allowed_relative = match strip_prefix_parts(allowed_root, app_root) {
        Some(p) => p,
        None => {
            return Err(
                AppError::new(code, "AI 미리보기 관리 루트가 앱 데이터 루트 밖에 있습니다."),
            );
        },
    };
    validate_relative_components(&allowed_relative, code)?;
    let below_allowed = match strip_prefix_parts(target, allowed_root) {
        Some(p) => p,
        None => {
            return Err(AppError::new(code, outside_allowed_message(code)));
        },
    };
    validate_relative_components(&below_allowed, code)?;
    proof {
        let a = parts_view(app_root@);
        let l = parts_view(allowed_root@);
        let t = parts_view(target@);
        assert(t.subrange(0, a.len() as int) =~= l.subrange(0, a.len() as int));
    }
    let target_relative = match strip_prefix_parts(target, app_root) {
        Some(p) => p,
        None => {
            return Err(AppError::new(code, outside_app_message(code)));
        },
    };
    proof {
        let a = parts_view(app_root@);
        let l = parts_view(allowed_root@);
        let t = parts_view(target@);
        assert(t.skip(a.len() as int) =~= l.skip(a.len() as int) + t.skip(l.len() as int));
        assert forall|i: int| 0 <= i < t.skip(a.len() as int).len() implies #[trigger] t.skip(
            a.len() as int,
        )[i] is Normal by {
            let la = l.skip(a.len() as int);
            if i < la.len() {
                assert(la[i] is Normal);
            } else {
                assert(t.skip(l.len() as int)[i - la.len()] is Normal);
            }
        }
    }
    validate_relative_components(&target_relative, code)?;
    Ok(OwnedDirectoryPlan { allowed_relative, target_relative })
}

/// Whatever real directory the application root resolves to, the walk of a
/// planned managed directory ends under the allowed root resolved the same
/// way: the check the walk makes last never fails.
pub proof fn lemma_owned_directory_stays_in_allowed_root(
    app_root: Seq<PartView>,
    allowed_root: Seq<PartView>,
    target: Seq<PartView>,
    resolved_app_root: Seq<PartView>,
)
    requires
        owned_directory_ok(app_root, allowed_root, target),
    ensures
        is_prefix_of(
            resolved_app_root + allowed_root.skip(app_root.len() as int),
            resolved_app_root + target.skip(app_root.len() as int),
        ),
{
    let la = allowed_root.skip(app_root.len() as int);
    let ta = target.skip(app_root.len() as int);
    assert(ta =~= la + target.skip(allowed_root.len() as int));
    assert((resolved_app_root + ta).subrange(0, (resolved_app_root + la).len() as int)
        =~= resolved_app_root + la);
}

/// The message for a step of the walk that is a link or not a directory.
pub open spec fn link_or_file_text(code: ErrorCode) -> Seq<char> {
    if code == ErrorCode::AiNewIconPath {
        "새 AI 아이콘 경로에 안전하지 않은 링크 또는 파일이 포함되어 있습니다."@
    } else {
        "AI 미리보기 경로에 링크 또는 파일이 포함되어 있습니다."@
    }
}

/// The message for a step of the walk that resolves elsewhere.
pub open spec fn resolved_elsewhere_text(code: ErrorCode) -> Seq<char> {
    if code == ErrorCode::AiNewIconPath {
        "새 AI 아이콘 경로의 정규 위치가 예상된 관리 경로와 다릅니다."@
    } else {
        "AI 미리보기 경로의 실제 위치가 관리 경로와 다릅니다."@
    }
}

fn link_or_file_message(code: ErrorCode) -> (m: &'static str)
    ensures
        m@ == link_or_file_text(code),
{
    match code {
        ErrorCode::AiNewIconPath => "새 AI 아이콘 경로에 안전하지 않은 링크 또는 파일이 포함되어 있습니다.",
        _ => "AI 미리보기 경로에 링크 또는 파일이 포함되어 있습니다.",
    }
}

fn resolved_elsewhere_message(code: ErrorCode) -> (m: &'static str)
    ensures
        m@ == resolved_elsewhere_text(code),
{
    match code {
        ErrorCode::AiNewIconPath => "새 AI 아이콘 경로의 정규 위치가 예상된 관리 경로와 다릅니다.",
        _ => "AI 미리보기 경로의 실제 위치가 관리 경로와 다릅니다.",
    }
}

/// The directories from `start` up towards `root`: `start`, then each parent
/// in turn, while it lies strictly below `root` (none when `start` is not
/// below `root`).
pub open spec fn ancestors_below(start: Seq<PartView>, root: Seq<PartView>) -> Seq<Seq<PartView>> {
    if is_prefix_of(root, start) && start.len() > root.len() {
        Seq::new((start.len() - root.len()) as nat, |i: int| start.subrange(0, start.len() - i))
    } else {
        seq![]
    }
}

/// The directories that emptying a managed directory's ancestors may remove,
/// nearest first: `start` and its parents strictly below `root`.
pub fn ancestors_below_root(start: &Vec<PathPart>, root: &Vec<PathPart>) -> (r: Vec<Vec<PathPart>>)
    ensures
        r@.len() == ancestors_below(parts_view(start@), parts_view(root@)).len(),
        forall|i: int|
            0 <= i < r@.len() ==> parts_view(#[trigger] r@[i]@) == ancestors_below(
                parts_view(start@),
                parts_view(root@),
            )[i],
{
    let mut out: Vec<Vec<PathPart>> = Vec::new();
    if !starts_with_parts(start, root) || start.len() <= root.len() {
        return out;
    }
    let ghost s = parts_view(start@);
    let ghost want = ancestors_below(parts_view(start@), parts_view(root@));
    let mut current = copy_parts(start);
    proof {
        assert(s.subrange(0, s.len() as int) =~= s);
    }
    while current.len() > root.len()
        invariant
            root@.len() < start@.len(),
            s == parts_view(start@),
            s.len() == start@.len(),
            want == ancestors_below(parts_view(start@), parts_view(root@)),
            want.len() == start@.len() - root@.len(),
            root@.len() <= current@.len() <= start@.len(),
            out@.len() == start@.len() - current@.len(),
            parts_view(current@) == s.subrange(0, current@.len() as int),
            forall|i: int| 0 <= i < out@.len() ==> parts_view(#[trigger] out@[i]@) == want[i],
        decreases current.len(),
    {
        let copy = copy_parts(&current);
        proof {
            assert(want[out@.len() as int] == s.subrange(0, current@.len() as int));
        }
        out.push(copy);
        let ghost before = current@;
        current.pop();
        proof {
            assert(current@ =~= before.drop_last());
            assert(parts_view(current@) =~= s.subrange(0, current@.len() as int));
        }
    }
    out
}

/// One step of the walk to a managed directory, once the component exists:
/// it must be a real directory (no link) and resolve to where the walk
/// expects it.
pub fn validate_owned_component(
    is_directory: bool,
    is_link: bool,
    resolved: &Vec<PathPart>,
    expected: &Vec<PathPart>,
    code: ErrorCode,
) -> (r: Result<(), AppError>)
    ensures
        r is Ok <==> (is_directory && !is_link && parts_view(resolved@) == parts_view(expected@)),
        r matches Err(e) ==> e.code == code,
        !is_directory || is_link ==> (r matches Err(e) && e.message@ == link_or_file_text(code)),
        is_directory && !is_link && r is Err ==> r->Err_0.message@ == resolved_elsewhere_text(
            code,
        ),
{
    if !is_directory || is_link {
        return Err(AppError::new(code, link_or_file_message(code)));
    }
    let same = resolved.len() == expected.len() && starts_with_parts(resolved, expected);
    proof {
        if resolved.len() == expected.len() {
            assert(parts_view(resolved@).subrange(0, expected@.len() as int) =~= parts_view(
                resolved@,
            ));
        }
    }
    if !same {
        return Err(AppError::new(code, resolved_elsewhere_message(code)));
    }
    Ok(())
}

/// The directory a managed path is prepared at: after the checks of
/// `plan_owned_directory`, the target's components below the application
/// root, placed under the application root as the file system resolves it.
/// The walk that creates the directory must end exactly there.
pub fn prepare_owned_directory(
    app_root: &Vec<PathPart>,
    allowed_root: &Vec<PathPart>,
    target: &Vec<PathPart>,
    resolved_app_root: &Vec<PathPart>,
    code: ErrorCode,
) -> (r: Result<Vec<PathPart>, AppError>)
    ensures
        r is Ok <==> owned_directory_ok(
            parts_view(app_root@),
            parts_view(allowed_root@),
            parts_view(target@),
        ),
        r matches Ok(p) ==> parts_view(p@) == parts_view(resolved_app_root@) + parts_view(
            target@,
        ).skip(app_root@.len() as int),
        r matches Ok(p) ==> is_prefix_of(
            parts_view(resolved_app_root@) + parts_view(allowed_root@).skip(app_root@.len() as int),
            parts_view(p@),
        ),
        r matches Err(e) ==> e.code == code && Some(e.message@) == owned_directory_refusal(
            parts_view(app_root@),
            parts_view(allowed_root@),
            parts_view(target@),
            code,
        ),
{
    let plan = plan_owned_directory(app_root, allowed_root, target, code)?;
    let p = join_parts(resolved_app_root, &plan.target_relative);
    proof {
        lemma_owned_directory_stays_in_allowed_root(
            parts_view(app_root@),
            parts_view(allowed_root@),
            parts_view(target@),
            parts_view(resolved_app_root@),
        );
    }
    Ok(p)
}

/// Accepts a file for cleanup only when, resolved, it lies under the resolved
/// library root.
pub fn ensure_within_root(root: &Vec<PathPart>, target: &Vec<PathPart>) -> (r: Result<
    (),
    AppError,
>)
    ensures
        r is Ok <==> is_prefix_of(parts_view(root@), parts_view(target@)),
        r matches Err(e) ==> e.code == ErrorCode::Validation && e.message@
            == "앱 라이브러리 밖의 파일은 정리하지 않습니다."@,
{
    if starts_with_parts(target, root) {
        Ok(())
    } else {
        Err(AppError::validation("앱 라이브러리 밖의 파일은 정리하지 않습니다."))
    }
}

/// Whether a path names an existing file inside the library root.
pub fn is_managed_existing_file(is_file: bool, root: &Vec<PathPart>, target: &Vec<PathPart>) -> (r:
    bool)
    ensures
        r == (is_file && is_prefix_of(parts_view(root@), parts_view(target@))),
{
    is_file && ensure_within_root(root, target).is_ok()
}

/// Text that reads as the same single plain component `a`, a separator, and
/// the plain component `b`.
pub open spec fn two_plain_names(text: Seq<char>) -> bool {
    exists|i: int|
        0 < i < text.len() - 1 && text[i] == '/' && #[trigger] is_plain_name(text.subrange(0, i))
            && is_plain_name(text.subrange(i + 1, text.len() as int))
}

/// Whether every platform parses a text the same way: it holds no backslash
/// and no `:` (which start separators and prefixes on Windows) and does not begin
/// with `//` (a network prefix on Windows).
pub open spec fn portable_path_text(t: Seq<char>) -> bool {
    &&& forall|i: int| 0 <= i < t.len() ==> #[trigger] t[i] != '\\' && t[i] != ':'
    &&& !(t.len() >= 2 && t[0] == '/' && t[1] == '/')
}

/// The component a segment between separators gives: none for an empty
/// segment, none for `.` except as the first segment of a relative path,
/// the parent directory for `..`, and a plain component otherwise.
pub open spec fn segment_part(segment: Seq<char>, first: bool) -> Seq<PartView> {
    if segment.len() == 0 {
        seq![]
    } else if segment == seq!['.'] {
        if first {
            seq![PartView::CurDir]
        } else {
            seq![]
        }
    } else if segment == seq!['.', '.'] {
        seq![PartView::ParentDir]
    } else {
        seq![PartView::Normal(segment)]
    }
}

/// The components of the rest of a text, `current` being the segment read so
/// far and `first` whether it is the first segment of a relative path.
pub open spec fn segment_components(rest: Seq<char>, current: Seq<char>, first: bool) -> Seq<
    PartView,
>
    decreases rest.len(),
{
    if rest.len() == 0 {
        segment_part(current, first)
    } else if rest[0] == '/' {
        segment_part(current, first) + segment_components(rest.drop_first(), seq![], false)
    } else {
        segment_components(rest.drop_first(), current.push(rest[0]), first)
    }
}

/// The components `Path::components` documents for a text: the root for a
/// leading `/`, then the text split on `/`, repeated separators and a
/// trailing one ignored, `.` dropped except at the start of a relative path.
pub open spec fn path_components(t: Seq<char>) -> Seq<PartView> {
    if t.len() > 0 && t[0] == '/' {
        seq![PartView::RootDir] + segment_components(t.drop_first(), seq![], false)
    } else {
        segment_components(t, seq![], true)
    }
}

/// `Path::components` of a text, each component taken with its text.
/// Parsing differs between platforms: for a portable text the components
/// are those the documentation gives (`path_components`); for any text, a
/// plain name is one normal component, the empty text has none, `.` and
/// `..` are the current and parent directory, a leading `/` starts a root
/// or prefix, and two plain names around one `/` are two components.
#[verifier::external_body]
pub(crate) fn components_of(text: &str) -> (parts: Vec<PathPart>)
    ensures
        portable_path_text(text@) ==> parts_view(parts@) == path_components(text@),
        is_plain_name(text@) ==> parts_view(parts@) == seq![PartView::Normal(text@)],
        text@.len() == 0 ==> parts@.len() == 0,
        text@ == seq!['.'] ==> parts_view(parts@) == seq![PartView::CurDir],
        text@ == seq!['.', '.'] ==> parts_view(parts@) == seq![PartView::ParentDir],
        text@.len() > 0 && text@[0] == '/' ==> parts@.len() > 0 && !(parts@[0] is Normal),
        two_plain_names(text@) ==> parts@.len() == 2,
{
    std::path::Path::new(text).components().map(|component| match component {
        std::path::Component::Prefix(p) => PathPart::Prefix(
            p.as_os_str().to_string_lossy().to_string(),
        ),
        std::path::Component::RootDir => PathPart::RootDir,
        std::path::Component::CurDir => PathPart::CurDir,
        std::path::Component::ParentDir => PathPart::ParentDir,
        std::path::Component::Normal(n) => PathPart::Normal(n.to_string_lossy().to_string()),
    }).collect()
}

/// Whether a parsed path is exactly one plain component.
pub open spec fn single_normal(parts: Seq<PartView>) -> bool {
    parts.len() == 1 && parts[0] is Normal
}

pub(crate) fn is_single_normal(parts: &Vec<PathPart>) -> (r: bool)
    ensures
        r == single_normal(parts_view(parts@)),
{
    if parts.len() != 1 {
        return false;
    }
    match &parts[0] {
        PathPart::Normal(_) => true,
        _ => false,
    }
}

/// The decision of `safe_component` on the components its text parses to:
/// the text is given back when it is not empty and parses to exactly one
/// plain component.
pub fn safe_component_of<'a>(value: &'a str, parts: &Vec<PathPart>, label: &str) -> (r: Result<
    &'a str,
    AppError,
>)
    ensures
        r is Ok <==> (value@.len() > 0 && single_normal(parts_view(parts@))),
        r matches Ok(v) ==> v@ == value@,
        r matches Err(e) ==> e.code == ErrorCode::PreviewCloneFailed && e.message@ == label@
            + "가 안전한 경로 구성 요소가 아닙니다."@,
{
    if value.unicode_len() == 0 || !is_single_normal(parts) {
        let mut message = String::from_str(label);
        crate::text::push_str(&mut message, "가 안전한 경로 구성 요소가 아닙니다.");
        return Err(AppError { code: ErrorCode::PreviewCloneFailed, message });
    }
    Ok(value)
}

/// A value used as one directory name under a managed root: accepted when it
/// is one plain path component.
pub fn safe_component<'a>(value: &'a str, label: &str) -> (r: Result<&'a str, AppError>)
    ensures
        portable_path_text(value@) ==> (r is Ok <==> (value@.len() > 0 && single_normal(
            path_components(value@),
        ))),
        is_plain_name(value@) ==> (r matches Ok(v) && v@ == value@),
        (value@.len() == 0 || value@ == seq!['.'] || value@ == seq!['.', '.'] || two_plain_names(
            value@,
        ) || (value@.len() > 0 && value@[0] == '/')) ==> r is Err,
        r matches Ok(v) ==> v@ == value@,
        r matches Err(e) ==> e.code == ErrorCode::PreviewCloneFailed && e.message@ == label@
            + "가 안전한 경로 구성 요소가 아닙니다."@,
{
    let parts = components_of(value);
    safe_component_of(value, &parts, label)
}

/// The decision of `validate_path_component` on the components its text
/// parses to: one plain component, and neither `.` nor `..`.
pub fn path_component_verdict(label: &str, value: &str, parts: &Vec<PathPart>) -> (r: Result<
    (),
    AppError,
>)
    ensures
        r is Ok <==> (single_normal(parts_view(parts@)) && value@ != seq!['.'] && value@ != seq![
            '.',
            '.',
        ]),
        r matches Err(e) ==> e.code == ErrorCode::AiNewIconPath && e.message@ == label@
            + "가 안전한 단일 경로 구성요소가 아닙니다."@,
{
    let dot = crate::text::str_eq(value, ".");
    let dot_dot = crate::text::str_eq(value, "..");
    proof {
        reveal_strlit(".");
        reveal_strlit("..");
        assert(".."@ =~= seq!['.', '.']);
        assert("."@ =~= seq!['.']);
    }
    if is_single_normal(parts) && !dot && !dot_dot {
        Ok(())
    } else {
        let mut message = String::from_str(label);
        crate::text::push_str(&mut message, "가 안전한 단일 경로 구성요소가 아닙니다.");
        Err(AppError { code: ErrorCode::AiNewIconPath, message })
    }
}

/// Accepts a value used as one path component of a new AI icon's files.
pub fn validate_path_component(label: &str, value: &str) -> (r: Result<(), AppError>)
    ensures
        portable_path_text(value@) ==> (r is Ok <==> (single_normal(path_components(value@))
            && value@ != seq!['.'] && value@ != seq!['.', '.'])),
        is_plain_name(value@) ==> r is Ok,
        (value@.len() == 0 || value@ == seq!['.'] || value@ == seq!['.', '.'] || two_plain_names(
            value@,
        ) || (value@.len() > 0 && value@[0] == '/')) ==> r is Err,
        r matches Err(e) ==> e.code == ErrorCode::AiNewIconPath && e.message@ == label@
            + "가 안전한 단일 경로 구성요소가 아닙니다."@,
{
    let parts = components_of(value);
    path_component_verdict(label, value, &parts)
}

} // verus!

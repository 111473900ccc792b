//! Effect previews and saved effect artifacts: which names their directories
//! may have, which completed previews are pruned, and which directories a
//! request or a save owns and may therefore remove.

use vstd::prelude::*;

use crate::error::{AppError, ErrorCode};
use crate::paths::{
    child, components_of, copy_parts, is_prefix_of, is_single_normal, part_view, parts_view, PartView,
    PathPart,
};
use crate::snapshots::{
    key_less, key_lt, lemma_key_lt_irreflexive, lemma_key_lt_total, lemma_key_lt_transitive,
};
use crate::text::{
    chars_of, decimal, ends_with_seq, is_ascii_alphanumeric, is_ascii_digit, is_ascii_hexdigit,
    signed_decimal, starts_with_seq, str_eq,
};

verus! {

/// Characters allowed in an icon identifier used as a preview directory.
pub open spec fn is_component_char(c: char) -> bool {
    is_ascii_alphanumeric(c) || c == '_' || c == '-'
}

/// Characters allowed in a request or save token.
pub open spec fn is_token_char(c: char) -> bool {
    is_ascii_alphanumeric(c) || c == '_'
}

fn is_component_char_exec(c: char) -> (r: bool)
    ensures
        r == is_component_char(c),
{
    ('0' <= c && c <= '9') || ('a' <= c && c <= 'z') || ('A' <= c && c <= 'Z') || c == '_' || c
        == '-'
}

fn is_token_char_exec(c: char) -> (r: bool)
    ensures
        r == is_token_char(c),
{
    ('0' <= c && c <= '9') || ('a' <= c && c <= 'z') || ('A' <= c && c <= 'Z') || c == '_'
}

fn is_hex_exec(c: char) -> (r: bool)
    ensures
        r == is_ascii_hexdigit(c),
{
    ('0' <= c && c <= '9') || ('a' <= c && c <= 'f') || ('A' <= c && c <= 'F')
}

/// Whether a text may name a directory of the effect previews: one to 160
/// ASCII letters, digits, `_` or `-`. (Such a text is one plain path
/// component on every platform, and its byte length is its length.)
pub open spec fn safe_preview_component(v: Seq<char>) -> bool {
    &&& 0 < v.len() <= 160
    &&& forall|i: int| 0 <= i < v.len() ==> is_component_char(#[trigger] v[i])
}

/// Whether all characters of `v[from..to]` satisfy the check of `kind`:
/// 0 for component characters, 1 for token characters, 2 for hexadecimal
/// digits, 3 for decimal digits.
pub open spec fn all_of_kind(v: Seq<char>, from: int, to: int, kind: int) -> bool {
    forall|i: int| from <= i < to ==> char_of_kind(#[trigger] v[i], kind)
}

pub open spec fn char_of_kind(c: char, kind: int) -> bool {
    if kind == 0 {
        is_component_char(c)
    } else if kind == 1 {
        is_token_char(c)
    } else if kind == 2 {
        is_ascii_hexdigit(c)
    } else {
        is_ascii_digit(c)
    }
}

fn all_chars_of_kind(v: &Vec<char>, from: usize, to: usize, kind: u8) -> (r: bool)
    requires
        from <= to <= v.len(),
        kind <= 3,
    ensures
        r == all_of_kind(v@, from as int, to as int, kind as int),
{
    let mut i = from;
    while i < to
        invariant
            from <= i <= to <= v.len(),
            kind <= 3,
            all_of_kind(v@, from as int, i as int, kind as int),
        decreases to - i,
    {
        let c = v[i];
        let ok = if kind == 0 {
            is_component_char_exec(c)
        } else if kind == 1 {
            is_token_char_exec(c)
        } else if kind == 2 {
            is_hex_exec(c)
        } else {
            '0' <= c && c <= '9'
        };
        if !ok {
            assert(!char_of_kind(v@[i as int], kind as int));
            return false;
        }
        i = i + 1;
    }
    true
}

/// Whether an icon identifier may name its effect preview directory.
pub fn is_safe_effect_preview_component(value: &str) -> (r: bool)
    ensures
        r == safe_preview_component(value@),
{
    let v = chars_of(value);
    if v.len() == 0 || v.len() > 160 {
        return false;
    }
    let allowed = all_chars_of_kind(&v, 0, v.len(), 0);
    if !allowed {
        return false;
    }
    proof {
        assert forall|i: int| 0 <= i < value@.len() implies #[trigger] value@[i] != '/'
            && value@[i] != '\\' && value@[i] != ':' by {
            assert(char_of_kind(v@[i], 0));
        }
        if value@ == seq!['.'] || value@ == seq!['.', '.'] {
            assert(char_of_kind(v@[0], 0));
        }
        assert forall|i: int| 0 <= i < value@.len() implies is_component_char(
            #[trigger] value@[i],
        ) by {
            assert(char_of_kind(v@[i], 0));
        }
    }
    let parts = components_of(value);
    is_single_normal(&parts)
}

/// Whether a text is a preview signature: 64 hexadecimal digits.
pub open spec fn preview_signature(v: Seq<char>) -> bool {
    v.len() == 64 && all_of_kind(v, 0, 64, 2)
}

/// Whether a text is an effect preview signature.
pub fn is_safe_effect_preview_signature(value: &str) -> (r: bool)
    ensures
        r == preview_signature(value@),
{
    let v = chars_of(value);
    v.len() == 64 && all_chars_of_kind(&v, 0, 64, 2)
}

/// Whether a text is a preview request token: `fxpreview_` followed by
/// letters, digits and `_`, at most 128 characters in all.
pub open spec fn preview_request_name(v: Seq<char>) -> bool {
    starts_with_seq(v, "fxpreview_"@) && v.len() <= 128 && all_of_kind(v, 0, v.len() as int, 1)
}

/// Whether a text is an effect preview request token.
pub fn is_safe_effect_preview_request_name(value: &str) -> (r: bool)
    ensures
        r == preview_request_name(value@),
{
    let v = chars_of(value);
    let prefix = chars_of("fxpreview_");
    crate::text::occurs_at_exec(&v, &prefix, 0) && v.len() <= 128 && all_chars_of_kind(
        &v,
        0,
        v.len(),
        1,
    )
}

/// An error about an effect preview's path.
pub fn effect_preview_path_error(message: &str) -> (e: AppError)
    ensures
        e.code == ErrorCode::EffectPreviewPath,
        e.message@ == message@,
{
    AppError::new(ErrorCode::EffectPreviewPath, message)
}

/// The index of the first `-` in `s` at or after `from`, or the length of `s`
/// when there is none.
pub open spec fn dash_from(s: Seq<char>, from: int) -> int
    decreases s.len() - from,
{
    if from >= s.len() || from < 0 {
        s.len() as int
    } else if s[from] == '-' {
        from
    } else {
        dash_from(s, from + 1)
    }
}

/// Whether a directory name is one an effect save made: split at its first
/// two `-`, a revision of decimal digits, a 16-digit hexadecimal signature
/// prefix and a token that starts with `fxsave_` and has only letters,
/// digits and `_`.
pub open spec fn effect_dir_name(name: Seq<char>) -> bool {
    let i = dash_from(name, 0);
    let j = dash_from(name, i + 1);
    &&& i < name.len()
    &&& j < name.len()
    &&& i > 0
    &&& all_of_kind(name, 0, i, 3)
    &&& j - (i + 1) == 16
    &&& all_of_kind(name, i + 1, j, 2)
    &&& starts_with_seq(name.subrange(j + 1, name.len() as int), "fxsave_"@)
    &&& all_of_kind(name, j + 1, name.len() as int, 1)
}

proof fn lemma_dash_from_bounds(s: Seq<char>, from: int)
    requires
        0 <= from,
    ensures
        from <= dash_from(s, from) <= s.len() || (from > s.len() && dash_from(s, from) == s.len()),
        dash_from(s, from) < s.len() ==> s[dash_from(s, from)] == '-',
        forall|k: int| from <= k < dash_from(s, from) ==> s[k] != '-',
    decreases s.len() - from,
{
    if from < s.len() && s[from] != '-' {
        lemma_dash_from_bounds(s, from + 1);
    }
}

fn first_dash(v: &Vec<char>, from: usize) -> (r: usize)
    requires
        from <= v.len(),
    ensures
        r == dash_from(v@, from as int),
        from <= r <= v.len(),
{
    let mut i = from;
    while i < v.len() && v[i] != '-'
        invariant
            from <= i <= v.len(),
            dash_from(v@, from as int) == dash_from(v@, i as int),
        decreases v.len() - i,
    {
        i = i + 1;
    }
    proof {
        lemma_dash_from_bounds(v@, from as int);
    }
    i
}

/// Whether a directory name is one an effect save made.
pub fn is_effect_dir_name(name: &str) -> (r: bool)
    ensures
        r == effect_dir_name(name@),
{
    let v = chars_of(name);
    let i = first_dash(&v, 0);
    if i >= v.len() {
        return false;
    }
    let j = first_dash(&v, i + 1);
    if j >= v.len() {
        return false;
    }
    let token = crate::text::string_from_range(&v, j + 1, v.len());
    let token_chars = chars_of(token.as_str());
    let prefix = chars_of("fxsave_");
    i > 0 && all_chars_of_kind(&v, 0, i, 3) && j - (i + 1) == 16 && all_chars_of_kind(
        &v,
        i + 1,
        j,
        2,
    ) && crate::text::occurs_at_exec(&token_chars, &prefix, 0) && all_chars_of_kind(
        &v,
        j + 1,
        v.len(),
        1,
    )
}

/// Whether a directory directly under the effect root is one an effect save
/// made.
pub open spec fn owned_effect_dir(effect_root: Seq<PartView>, candidate: Seq<PartView>) -> bool {
    &&& candidate.len() == effect_root.len() + 1
    &&& candidate.subrange(0, effect_root.len() as int) == effect_root
    &&& candidate.last() matches PartView::Normal(name) && effect_dir_name(name)
}

/// Whether `candidate` is a directory an effect save made under the effect
/// root.
pub fn is_owned_effect_preview_directory(effect_root: &Vec<PathPart>, candidate: &Vec<PathPart>) -> (r:
    bool)
    ensures
        r == owned_effect_dir(parts_view(effect_root@), parts_view(candidate@)),
{
    let relative = match crate::paths::strip_prefix_parts(candidate, effect_root) {
        Some(rel) => rel,
        None => {
            return false;
        },
    };
    proof {
        assert(parts_view(relative@).len() == relative@.len());
        assert(parts_view(candidate@).len() == candidate@.len());
    }
    if relative.len() != 1 {
        return false;
    }
    proof {
        assert(parts_view(relative@)[0] == parts_view(candidate@)[effect_root@.len() as int]);
    }
    match &relative[0] {
        PathPart::Normal(name) => is_effect_dir_name(name.as_str()),
        _ => false,
    }
}

/// The signature and token names of a preview request's directory:
/// `candidate` lies exactly two plain components below the icon's preview
/// root, a signature and then a request token.
pub open spec fn request_dir_names(icon_root: Seq<PartView>, candidate: Seq<PartView>) -> Option<
    (Seq<char>, Seq<char>),
> {
    let n = icon_root.len() as int;
    if candidate.len() == n + 2 && candidate.subrange(0, n) == icon_root && candidate[n] is Normal
        && candidate[n + 1] is Normal && preview_signature(candidate[n]->Normal_0)
        && preview_request_name(candidate[n + 1]->Normal_0) {
        Some((candidate[n]->Normal_0, candidate[n + 1]->Normal_0))
    } else {
        None
    }
}

/// The request directory that `candidate` names under the icon's preview
/// root, if it names one: two plain components, a signature and a request
/// token, and nothing after them.
pub fn request_dir_of(icon_root: &Vec<PathPart>, candidate: &Vec<PathPart>) -> (r: Option<RequestDir>)
    ensures
        match r {
            Some(d) => request_dir_names(parts_view(icon_root@), parts_view(candidate@)) == Some(
                dir_view(d),
            ),
            None => request_dir_names(parts_view(icon_root@), parts_view(candidate@)) is None,
        },
{
    let ghost n = icon_root@.len() as int;
    let relative = match crate::paths::strip_prefix_parts(candidate, icon_root) {
        Some(rel) => rel,
        None => {
            return None;
        },
    };
    proof {
        assert(parts_view(relative@).len() == relative@.len());
        assert(parts_view(candidate@).len() == candidate@.len());
        assert(parts_view(icon_root@).len() == icon_root@.len());
    }
    if relative.len() != 2 {
        return None;
    }
    proof {
        assert(parts_view(relative@)[0] == parts_view(candidate@)[n]);
        assert(parts_view(relative@)[1] == parts_view(candidate@)[n + 1]);
    }
    let signature = match &relative[0] {
        PathPart::Normal(name) => name,
        _ => {
            return None;
        },
    };
    let request = match &relative[1] {
        PathPart::Normal(name) => name,
        _ => {
            return None;
        },
    };
    if !is_safe_effect_preview_signature(signature.as_str())
        || !is_safe_effect_preview_request_name(request.as_str()) {
        return None;
    }
    Some(RequestDir { signature: signature.clone(), request: request.clone() })
}

// ---------------------------------------------------------------------------
// Warnings of a rendered preview

/// A warning shown with a rendered effect preview.
#[derive(Debug, PartialEq, Eq, Structural)]
pub enum PreviewWarning {
    /// The largest rendered piece is over the collection's byte limit.
    OversizedPiece { largest: i64, limit: i64 },
    /// An outline or a shadow is drawn inside the canvas and may be cut at
    /// its edges.
    EdgeClipping,
    /// A costly effect ran over every frame of an animation.
    CostlyAnimation { frames: i64 },
}

/// The number of frames a preview reports: at least one, at most `i64::MAX`.
pub open spec fn reported_frames(frames: usize) -> i64 {
    if frames > i64::MAX {
        i64::MAX
    } else if frames < 1 {
        1
    } else {
        frames as i64
    }
}

/// The number of frames a preview reports.
pub fn preview_frame_count(frames: usize) -> (r: i64)
    ensures
        r == reported_frames(frames),
{
    if frames as u64 > 9223372036854775807u64 {
        9223372036854775807i64
    } else if frames < 1 {
        1
    } else {
        frames as i64
    }
}

/// The largest of the pieces' byte sizes, or 0 when there are none.
pub fn largest_piece_size(sizes: &Vec<i64>) -> (r: i64)
    ensures
        sizes@.len() == 0 ==> r == 0,
        sizes@.len() > 0 ==> sizes@.contains(r),
        forall|i: int| 0 <= i < sizes@.len() ==> sizes@[i] <= r,
{
    let mut best: i64 = 0;
    let mut i: usize = 0;
    while i < sizes.len()
        invariant
            i <= sizes@.len(),
            i == 0 ==> best == 0,
            i > 0 ==> sizes@.subrange(0, i as int).contains(best),
            forall|j: int| 0 <= j < i ==> sizes@[j] <= best,
        decreases sizes@.len() - i,
    {
        if i == 0 || sizes[i] > best {
            best = sizes[i];
            proof {
                assert(sizes@.subrange(0, i + 1)[i as int] == best);
            }
        } else {
            proof {
                let k = choose|k: int| 0 <= k < i && sizes@.subrange(0, i as int)[k] == best;
                assert(sizes@.subrange(0, i + 1)[k] == best);
            }
        }
        i = i + 1;
    }
    if i > 0 {
        proof {
            assert(sizes@.subrange(0, i as int) =~= sizes@);
        }
    }
    best
}

/// The warnings of a rendered preview, in the order they are shown.
pub open spec fn preview_warnings_spec(
    largest_piece: i64,
    max_bytes: i64,
    edge_effect_enabled: bool,
    blur_enabled: bool,
    frames: i64,
) -> Seq<PreviewWarning> {
    let oversized: Seq<PreviewWarning> = if largest_piece > max_bytes {
        seq![PreviewWarning::OversizedPiece { largest: largest_piece, limit: max_bytes }]
    } else {
        seq![]
    };
    let clipping: Seq<PreviewWarning> = if edge_effect_enabled {
        seq![PreviewWarning::EdgeClipping]
    } else {
        seq![]
    };
    let costly: Seq<PreviewWarning> = if frames > 1 && (edge_effect_enabled || blur_enabled) {
        seq![PreviewWarning::CostlyAnimation { frames }]
    } else {
        seq![]
    };
    oversized + clipping + costly
}

/// The warnings of a rendered preview: the largest piece over the byte
/// limit, an enabled outline or shadow (which may be cut at the canvas
/// edge), and a blur, outline or shadow run over more than one frame.
pub fn preview_warnings(
    largest_piece: i64,
    max_bytes: i64,
    edge_effect_enabled: bool,
    blur_enabled: bool,
    frames: i64,
) -> (r: Vec<PreviewWarning>)
    ensures
        r@ == preview_warnings_spec(
            largest_piece,
            max_bytes,
            edge_effect_enabled,
            blur_enabled,
            frames,
        ),
{
    let mut warnings: Vec<PreviewWarning> = Vec::new();
    if largest_piece > max_bytes {
        warnings.push(PreviewWarning::OversizedPiece { largest: largest_piece, limit: max_bytes });
    }
    let ghost first = warnings@;
    if edge_effect_enabled {
        warnings.push(PreviewWarning::EdgeClipping);
    }
    let ghost second = warnings@;
    if frames > 1 && (edge_effect_enabled || blur_enabled) {
        warnings.push(PreviewWarning::CostlyAnimation { frames });
    }
    proof {
        let spec_first: Seq<PreviewWarning> = if largest_piece > max_bytes {
            seq![PreviewWarning::OversizedPiece { largest: largest_piece, limit: max_bytes }]
        } else {
            seq![]
        };
        assert(first =~= spec_first);
    }
    assert(warnings@ =~= preview_warnings_spec(
        largest_piece,
        max_bytes,
        edge_effect_enabled,
        blur_enabled,
        frames,
    ));
    warnings
}

/// `Path::parent` on components: the path without its last component, or
/// `None` when it is empty or ends in a root or a prefix.
pub open spec fn parent_of(p: Seq<PartView>) -> Option<Seq<PartView>> {
    if p.len() == 0 || p.last() is RootDir || p.last() is Prefix {
        None
    } else {
        Some(p.drop_last())
    }
}

/// The directory of the previous effect preview that a new save may clean
/// up: the parent of the previous preview's file, when it is not the
/// current directory and is a directory an effect save made under the
/// effect root.
pub open spec fn previous_dir_to_clean(
    effect_root: Seq<PartView>,
    previous: Option<Seq<PartView>>,
    current: Seq<PartView>,
) -> Option<Seq<PartView>> {
    match previous {
        None => None,
        Some(p) => match parent_of(p) {
            None => None,
            Some(dir) => if dir != current && owned_effect_dir(effect_root, dir) {
                Some(dir)
            } else {
                None
            },
        },
    }
}

/// The directory of the previous effect preview that a new save may clean
/// up, if any.
pub fn previous_preview_dir(
    effect_root: &Vec<PathPart>,
    previous: Option<&Vec<PathPart>>,
    current: &Vec<PathPart>,
) -> (r: Option<Vec<PathPart>>)
    ensures
        match r {
            Some(d) => previous_dir_to_clean(
                parts_view(effect_root@),
                match previous {
                    Some(p) => Some(parts_view(p@)),
                    None => None,
                },
                parts_view(current@),
            ) == Some(parts_view(d@)),
            None => previous_dir_to_clean(
                parts_view(effect_root@),
                match previous {
                    Some(p) => Some(parts_view(p@)),
                    None => None,
                },
                parts_view(current@),
            ) is None,
        },
{
    let previous = match previous {
        Some(p) => p,
        None => {
            return None;
        },
    };
    let n = previous.len();
    if n == 0 {
        return None;
    }
    proof {
        assert(parts_view(previous@).last() == part_view(previous@[n - 1]));
    }
    match &previous[n - 1] {
        PathPart::RootDir | PathPart::Prefix(_) => {
            return None;
        },
        _ => {},
    }
    let mut dir: Vec<PathPart> = Vec::new();
    let mut i: usize = 0;
    while i < n - 1
        invariant
            n == previous@.len(),
            n >= 1,
            i <= n - 1,
            dir@.len() == i,
            parts_view(dir@) == parts_view(previous@).subrange(0, i as int),
        decreases n - 1 - i,
    {
        let c = crate::paths::copy_part(&previous[i]);
        let ghost before = dir@;
        dir.push(c);
        proof {
            assert forall|k: int| 0 <= k < i + 1 implies #[trigger] parts_view(dir@)[k]
                == parts_view(previous@).subrange(0, i + 1)[k] by {
                if k < i {
                    assert(dir@[k] == before[k]);
                    assert(parts_view(before)[k] == parts_view(previous@).subrange(0, i as int)[k]);
                } else {
                    assert(dir@[k] == c);
                }
            }
            assert(parts_view(dir@) =~= parts_view(previous@).subrange(0, i + 1));
        }
        i = i + 1;
    }
    proof {
        assert(parts_view(previous@).drop_last() =~= parts_view(previous@).subrange(
            0,
            n - 1,
        ));
    }
    let same = dir.len() == current.len() && crate::paths::starts_with_parts(&dir, current);
    proof {
        if dir.len() == current.len() {
            assert(parts_view(dir@).subrange(0, current@.len() as int) =~= parts_view(dir@));
        }
        if parts_view(dir@) == parts_view(current@) {
            assert(dir@.len() == current@.len());
        }
    }
    if same || !is_owned_effect_preview_directory(effect_root, &dir) {
        return None;
    }
    Some(dir)
}

/// Whether any stored preview path lies in `directory`.
pub fn directory_is_referenced(referenced: &Vec<Vec<PathPart>>, directory: &Vec<PathPart>) -> (r:
    bool)
    ensures
        r == exists|i: int|
            0 <= i < referenced@.len() && is_prefix_of(
                parts_view(directory@),
                parts_view(#[trigger] referenced@[i]@),
            ),
{
    let mut i: usize = 0;
    while i < referenced.len()
        invariant
            i <= referenced@.len(),
            forall|k: int|
                0 <= k < i ==> !is_prefix_of(
                    parts_view(directory@),
                    parts_view(#[trigger] referenced@[k]@),
                ),
        decreases referenced@.len() - i,
    {
        if crate::paths::starts_with_parts(&referenced[i], directory) {
            return true;
        }
        i = i + 1;
    }
    false
}

// ---------------------------------------------------------------------------
// Pruning completed previews

/// A preview request's directory, by its signature and token names under the
/// icon's preview root.
#[derive(Debug)]
pub struct RequestDir {
    pub signature: String,
    pub request: String,
}

/// A completed preview request and when it completed (in nanoseconds from
/// the Unix epoch).
#[derive(Debug)]
pub struct CompletedRequest {
    pub dir: RequestDir,
    pub completed_at: i128,
}

pub type RequestView = (Seq<char>, Seq<char>, int);

pub open spec fn dir_view(d: RequestDir) -> (Seq<char>, Seq<char>) {
    (d.signature@, d.request@)
}

pub open spec fn request_view(r: CompletedRequest) -> RequestView {
    (r.dir.signature@, r.dir.request@, r.completed_at as int)
}

pub open spec fn requests_view(s: Seq<CompletedRequest>) -> Seq<RequestView> {
    s.map_values(|r: CompletedRequest| request_view(r))
}

pub open spec fn dirs_view(s: Seq<RequestDir>) -> Seq<(Seq<char>, Seq<char>)> {
    s.map_values(|d: RequestDir| dir_view(d))
}

/// Whether `a` comes strictly before `b` when previews are listed newest
/// first, ties broken by path, larger first.
pub open spec fn newer(a: RequestView, b: RequestView) -> bool {
    ||| a.2 > b.2
    ||| (a.2 == b.2 && key_lt(b.0, a.0))
    ||| (a.2 == b.2 && b.0 == a.0 && key_lt(b.1, a.1))
}

/// Puts a request into a newest-first list, after the requests it does not
/// come before.
pub open spec fn insert_request(s: Seq<RequestView>, x: RequestView) -> Seq<RequestView>
    decreases s.len(),
{
    if s.len() == 0 {
        seq![x]
    } else if newer(x, s[0]) {
        seq![x] + s
    } else {
        seq![s[0]] + insert_request(s.drop_first(), x)
    }
}

/// The requests newest first, as a stable sort orders them.
pub open spec fn newest_first(s: Seq<RequestView>) -> Seq<RequestView>
    decreases s.len(),
{
    if s.len() == 0 {
        Seq::empty()
    } else {
        insert_request(newest_first(s.drop_last()), s.last())
    }
}

/// The directories of the requests, in order, other than `current`.
pub open spec fn other_dirs(s: Seq<RequestView>, current: (Seq<char>, Seq<char>)) -> Seq<
    (Seq<char>, Seq<char>),
>
    decreases s.len(),
{
    if s.len() == 0 {
        Seq::empty()
    } else {
        let rest = other_dirs(s.drop_last(), current);
        if (s.last().0, s.last().1) == current {
            rest
        } else {
            rest.push((s.last().0, s.last().1))
        }
    }
}

/// How many completed previews an icon keeps, the current one included.
pub open spec fn kept_previews() -> nat {
    8
}

/// The completed previews pruned: all but the current one and the newest
/// seven others.
pub open spec fn pruned(candidates: Seq<RequestView>, current: (Seq<char>, Seq<char>)) -> Seq<
    (Seq<char>, Seq<char>),
> {
    let others = other_dirs(newest_first(candidates), current);
    if others.len() <= kept_previews() - 1 {
        Seq::empty()
    } else {
        others.subrange(kept_previews() - 1, others.len() as int)
    }
}

fn copy_dir(d: &RequestDir) -> (r: RequestDir)
    ensures
        dir_view(r) == dir_view(*d),
{
    RequestDir { signature: d.signature.clone(), request: d.request.clone() }
}

fn copy_request(r: &CompletedRequest) -> (c: CompletedRequest)
    ensures
        request_view(c) == request_view(*r),
{
    CompletedRequest { dir: copy_dir(&r.dir), completed_at: r.completed_at }
}

fn newer_exec(a: &CompletedRequest, b: &CompletedRequest) -> (r: bool)
    ensures
        r == newer(request_view(*a), request_view(*b)),
{
    if a.completed_at != b.completed_at {
        return a.completed_at > b.completed_at;
    }
    if key_less(b.dir.signature.as_str(), a.dir.signature.as_str()) {
        return true;
    }
    str_eq(b.dir.signature.as_str(), a.dir.signature.as_str()) && key_less(
        b.dir.request.as_str(),
        a.dir.request.as_str(),
    )
}

/// Inserts a request into a newest-first list.
fn insert_newest_first(out: &mut Vec<CompletedRequest>, x: CompletedRequest)
    ensures
        requests_view(final(out)@) == insert_request(requests_view(old(out)@), request_view(x)),
{
    let ghost s = requests_view(out@);
    let ghost e = request_view(x);
    proof {
        assert(s.subrange(0, s.len() as int) =~= s);
        assert(s.subrange(0, 0) + insert_request(s, e) =~= insert_request(s, e));
    }
    let mut j: usize = 0;
    while j < out.len()
        invariant
            j <= out.len(),
            s == requests_view(out@),
            s.len() == out@.len(),
            e == request_view(x),
            insert_request(s, e) == s.subrange(0, j as int) + insert_request(
                s.subrange(j as int, s.len() as int),
                e,
            ),
        ensures
            j <= out.len(),
            s == requests_view(out@),
            s.len() == out@.len(),
            insert_request(s, e) == s.subrange(0, j as int) + insert_request(
                s.subrange(j as int, s.len() as int),
                e,
            ),
            j < out.len() ==> newer(e, s[j as int]),
        decreases out.len() - j,
    {
        if newer_exec(&x, &out[j]) {
            break;
        }
        proof {
            let t = s.subrange(j as int, s.len() as int);
            assert(t[0] == s[j as int]);
            assert(t.drop_first() =~= s.subrange(j + 1, s.len() as int));
            assert(s.subrange(0, j + 1) =~= s.subrange(0, j as int) + seq![s[j as int]]);
        }
        j = j + 1;
    }
    let ghost old_v = out@;
    proof {
        if j < out.len() {
            let t = s.subrange(j as int, s.len() as int);
            assert(t[0] == s[j as int]);
        } else {
            assert(s.subrange(j as int, s.len() as int) =~= Seq::<RequestView>::empty());
        }
        assert(insert_request(s, e) =~= s.subrange(0, j as int) + seq![e] + s.subrange(
            j as int,
            s.len() as int,
        ));
    }
    out.insert(j, x);
    proof {
        assert forall|k: int| 0 <= k < out@.len() implies #[trigger] requests_view(out@)[k]
            == insert_request(s, e)[k] by {
            if k < j {
                assert(out@[k] == old_v[k]);
            } else if k > j {
                assert(out@[k] == old_v[k - 1]);
            }
        }
        assert(requests_view(out@) =~= insert_request(s, e));
    }
}

/// The completed preview requests newest first.
pub fn sort_newest_first(candidates: &Vec<CompletedRequest>) -> (r: Vec<CompletedRequest>)
    ensures
        requests_view(r@) == newest_first(requests_view(candidates@)),
{
    let mut out: Vec<CompletedRequest> = Vec::new();
    let mut i: usize = 0;
    while i < candidates.len()
        invariant
            i <= candidates.len(),
            requests_view(out@) == newest_first(requests_view(candidates@.subrange(0, i as int))),
        decreases candidates.len() - i,
    {
        let c = copy_request(&candidates[i]);
        insert_newest_first(&mut out, c);
        proof {
            let p = requests_view(candidates@.subrange(0, i + 1));
            assert(p.drop_last() =~= requests_view(candidates@.subrange(0, i as int)));
            assert(p.last() == request_view(candidates@[i as int]));
        }
        i = i + 1;
    }
    assert(candidates@.subrange(0, i as int) =~= candidates@);
    out
}

/// The completed preview requests of an icon to remove: every one but the
/// current request and the newest seven others.
pub fn prune_completed_effect_preview_requests(
    candidates: &Vec<CompletedRequest>,
    current: &RequestDir,
) -> (r: Vec<RequestDir>)
    ensures
        dirs_view(r@) == pruned(requests_view(candidates@), dir_view(*current)),
{
    let sorted = sort_newest_first(candidates);
    let ghost sv = requests_view(sorted@);
    let ghost cur = dir_view(*current);
    let mut removed: Vec<RequestDir> = Vec::new();
    let mut others: usize = 0;
    let mut i: usize = 0;
    while i < sorted.len()
        invariant
            i <= sorted.len(),
            sv == requests_view(sorted@),
            cur == dir_view(*current),
            others == other_dirs(sv.subrange(0, i as int), cur).len(),
            others <= i,
            dirs_view(removed@) == (if others <= 7 {
                Seq::empty()
            } else {
                other_dirs(sv.subrange(0, i as int), cur).subrange(7, others as int)
            }),
        decreases sorted.len() - i,
    {
        let is_current = str_eq(sorted[i].dir.signature.as_str(), current.signature.as_str())
            && str_eq(sorted[i].dir.request.as_str(), current.request.as_str());
        proof {
            let p = sv.subrange(0, i + 1);
            assert(p.drop_last() =~= sv.subrange(0, i as int));
            assert(p.last() == sv[i as int]);
        }
        if !is_current {
            let ghost before = removed@;
            let ghost prev = other_dirs(sv.subrange(0, i as int), cur);
            if others >= 7 {
                let d = copy_dir(&sorted[i].dir);
                removed.push(d);
                proof {
                    let now = other_dirs(sv.subrange(0, i + 1), cur);
                    assert(now == prev.push((sv[i as int].0, sv[i as int].1)));
                    assert(dirs_view(removed@) =~= dirs_view(before).push(dir_view(d)));
                    if others == 7 {
                        assert(now.subrange(7, others + 1) =~= seq![(sv[i as int].0, sv[i as int].1)]);
                    } else {
                        assert(now.subrange(7, others + 1) =~= prev.subrange(7, others as int).push(
                            (sv[i as int].0, sv[i as int].1),
                        ));
                    }
                }
            }
            others = others + 1;
        }
        i = i + 1;
    }
    assert(sv.subrange(0, i as int) =~= sv);
    removed
}

/// The current request is never pruned, and a pruned request is never one of
/// the newest seven others.
pub proof fn lemma_current_preview_survives(
    candidates: Seq<RequestView>,
    current: (Seq<char>, Seq<char>),
)
    ensures
        !pruned(candidates, current).contains(current),
        pruned(candidates, current).len() == if other_dirs(newest_first(candidates), current).len()
            <= 7 {
            0
        } else {
            other_dirs(newest_first(candidates), current).len() - 7
        },
{
    let others = other_dirs(newest_first(candidates), current);
    lemma_other_dirs_exclude(newest_first(candidates), current);
    if others.len() > 7 {
        let p = others.subrange(7, others.len() as int);
        if p.contains(current) {
            let k = choose|k: int| 0 <= k < p.len() && p[k] == current;
            assert(others[k + 7] == current);
        }
    }
}

proof fn lemma_other_dirs_exclude(s: Seq<RequestView>, current: (Seq<char>, Seq<char>))
    ensures
        forall|k: int|
            0 <= k < other_dirs(s, current).len() ==> #[trigger] other_dirs(s, current)[k]
                != current,
    decreases s.len(),
{
    if s.len() > 0 {
        lemma_other_dirs_exclude(s.drop_last(), current);
        let rest = other_dirs(s.drop_last(), current);
        if (s.last().0, s.last().1) != current {
            let all = rest.push((s.last().0, s.last().1));
            assert forall|k: int| 0 <= k < all.len() implies #[trigger] all[k] != current by {
                if k < rest.len() {
                    assert(all[k] == rest[k]);
                }
            }
        }
    }
}

/// Whether no request of the list is newer than one listed before it.
pub open spec fn listed_newest_first(s: Seq<RequestView>) -> bool {
    forall|i: int, j: int| 0 <= i < j < s.len() ==> !newer(#[trigger] s[j], #[trigger] s[i])
}

proof fn lemma_newer_transitive(a: RequestView, b: RequestView, c: RequestView)
    requires
        newer(a, b),
        newer(b, c),
    ensures
        newer(a, c),
{
    if a.2 == b.2 && b.2 == c.2 {
        if key_lt(b.0, a.0) && key_lt(c.0, b.0) {
            lemma_key_lt_transitive(c.0, b.0, a.0);
        } else if key_lt(b.0, a.0) {
        } else if key_lt(c.0, b.0) {
        } else {
            lemma_key_lt_transitive(c.1, b.1, a.1);
        }
    }
}

proof fn lemma_insert_request_sorted(s: Seq<RequestView>, x: RequestView)
    requires
        listed_newest_first(s),
    ensures
        listed_newest_first(insert_request(s, x)),
        insert_request(s, x).len() == s.len() + 1,
        forall|k: int|
            0 <= k < insert_request(s, x).len() ==> #[trigger] insert_request(s, x)[k] == x
                || s.contains(insert_request(s, x)[k]),
    decreases s.len(),
{
    let r = insert_request(s, x);
    if s.len() == 0 {
    } else if newer(x, s[0]) {
        assert forall|i: int, j: int| 0 <= i < j < r.len() implies !newer(
            #[trigger] r[j],
            #[trigger] r[i],
        ) by {
            assert(r[j] == s[j - 1]);
            if i > 0 {
                assert(r[i] == s[i - 1]);
            } else if newer(r[j], x) {
                if j - 1 == 0 {
                    lemma_newer_transitive(x, s[0], x);
                    lemma_newer_irreflexive(x);
                } else {
                    lemma_newer_transitive(s[j - 1], x, s[0]);
                }
            }
        }
        assert forall|k: int| 0 <= k < r.len() implies #[trigger] r[k] == x || s.contains(r[k]) by {
            if k > 0 {
                assert(r[k] == s[k - 1]);
            }
        }
    } else {
        let t = s.drop_first();
        assert forall|i: int, j: int| 0 <= i < j < t.len() implies !newer(
            #[trigger] t[j],
            #[trigger] t[i],
        ) by {
            assert(t[i] == s[i + 1]);
            assert(t[j] == s[j + 1]);
        }
        lemma_insert_request_sorted(t, x);
        let rt = insert_request(t, x);
        assert forall|k: int| 0 <= k < r.len() implies #[trigger] r[k] == x || s.contains(r[k]) by {
            if k == 0 {
                assert(r[0] == s[0]);
            } else {
                assert(r[k] == rt[k - 1]);
                if rt[k - 1] != x {
                    let m = choose|m: int| 0 <= m < t.len() && t[m] == rt[k - 1];
                    assert(s[m + 1] == t[m]);
                }
            }
        }
        assert forall|i: int, j: int| 0 <= i < j < r.len() implies !newer(
            #[trigger] r[j],
            #[trigger] r[i],
        ) by {
            assert(r[j] == rt[j - 1]);
            if i > 0 {
                assert(r[i] == rt[i - 1]);
            } else {
                assert(r[0] == s[0]);
                if rt[j - 1] != x {
                    let m = choose|m: int| 0 <= m < t.len() && t[m] == rt[j - 1];
                    assert(s[m + 1] == t[m]);
                }
            }
        }
    }
}

proof fn lemma_newer_irreflexive(a: RequestView)
    ensures
        !newer(a, a),
{
    lemma_key_lt_irreflexive(a.0);
    lemma_key_lt_irreflexive(a.1);
}

/// Completed previews are considered newest first: in the order pruning
/// walks them, no request is newer than one before it, and the order holds
/// exactly the requests found.
pub proof fn lemma_previews_listed_newest_first(s: Seq<RequestView>)
    ensures
        listed_newest_first(newest_first(s)),
        newest_first(s).len() == s.len(),
        forall|k: int| 0 <= k < s.len() ==> s.contains(#[trigger] newest_first(s)[k]),
    decreases s.len(),
{
    if s.len() > 0 {
        let prev = s.drop_last();
        lemma_previews_listed_newest_first(prev);
        lemma_insert_request_sorted(newest_first(prev), s.last());
        let r = newest_first(s);
        assert forall|k: int| 0 <= k < s.len() implies s.contains(#[trigger] r[k]) by {
            if r[k] == s.last() {
                assert(s[s.len() - 1] == s.last());
            } else {
                let np = newest_first(prev);
                let m = choose|m: int| 0 <= m < np.len() && np[m] == r[k];
                assert(prev.contains(np[m]));
                let n = choose|n: int| 0 <= n < prev.len() && prev[n] == np[m];
                assert(s[n] == prev[n]);
            }
        }
    }
}

// ---------------------------------------------------------------------------
// Ownership of preview requests and effect saves

/// A preview request being rendered: its directory under the icon's preview
/// root, and whether it completed. An incomplete request's directory is
/// removed when the request is dropped.
#[derive(Debug)]
pub struct OwnedEffectPreviewRequest {
    pub icon_root: Vec<PathPart>,
    pub request_dir: Vec<PathPart>,
    pub completed: bool,
}

impl OwnedEffectPreviewRequest {
    /// A request just created, not completed.
    pub fn new(icon_root: Vec<PathPart>, request_dir: Vec<PathPart>) -> (r: Self)
        ensures
            r.icon_root == icon_root,
            r.request_dir == request_dir,
            !r.completed,
    {
        OwnedEffectPreviewRequest { icon_root, request_dir, completed: false }
    }

    /// The request's directory.
    pub fn directory(&self) -> (d: &Vec<PathPart>)
        ensures
            *d == self.request_dir,
    {
        &self.request_dir
    }

    /// The icon's preview root.
    pub fn icon_root(&self) -> (d: &Vec<PathPart>)
        ensures
            *d == self.icon_root,
    {
        &self.icon_root
    }

    /// Records that the request's completion marker was written.
    pub fn record_completed(&mut self)
        ensures
            final(self).completed,
            final(self).icon_root == old(self).icon_root,
            final(self).request_dir == old(self).request_dir,
    {
        self.completed = true;
    }

    /// Whether dropping the request removes its directory.
    pub fn removes_on_drop(&self) -> (r: bool)
        ensures
            r == !self.completed,
    {
        !self.completed
    }
}

/// The artifacts of an effect save: rendered into a staging directory of its
/// own, then promoted into a final directory named after the revision, the
/// signature prefix and the save's token. Unless kept, what it owns is
/// removed when it is dropped.
#[derive(Debug)]
pub struct OwnedEffectArtifact {
    pub effect_root: Vec<PathPart>,
    pub signature_prefix: String,
    pub request_token: String,
    pub staging_dir: Vec<PathPart>,
    pub final_dir: Option<Vec<PathPart>>,
    pub keep_final: bool,
}

/// Whether the first sixteen bytes of a signature end on a character
/// boundary (which a text shorter than sixteen bytes has not).
pub open spec fn signature_prefix_ok(signature: &str) -> bool {
    vstd::utf8::is_char_boundary(vstd::utf8::encode_utf8(signature@), 16)
}

/// The prefix of an effect signature used in saved directories' names.
pub fn signature_prefix(signature: &str) -> (r: Result<String, AppError>)
    ensures
        r is Ok <==> signature_prefix_ok(signature),
        r matches Ok(p) ==> vstd::utf8::encode_utf8(p@) == vstd::utf8::encode_utf8(signature@).subrange(0, 16),
        r matches Err(e) ==> e.code == ErrorCode::Validation && e.message@
            == "effect signature is too short"@,
{
    if !signature.is_char_boundary(16) {
        return Err(AppError::validation("effect signature is too short"));
    }
    let (head, _) = signature.split_at(16);
    Ok(head.to_owned())
}

/// The name of a save's final directory.
pub open spec fn final_dir_name(revision: int, prefix: Seq<char>, token: Seq<char>) -> Seq<char> {
    signed_decimal(revision) + seq!['-'] + prefix + seq!['-'] + token
}

proof fn lemma_decimal_digits(n: nat)
    ensures
        decimal(n).len() > 0,
        forall|k: int| 0 <= k < decimal(n).len() ==> is_ascii_digit(#[trigger] decimal(n)[k]),
    decreases n,
{
    if n >= 10 {
        lemma_decimal_digits(n / 10);
        let d = decimal(n / 10);
        assert forall|k: int| 0 <= k < decimal(n).len() implies is_ascii_digit(
            #[trigger] decimal(n)[k],
        ) by {
            if k < d.len() {
                assert(decimal(n)[k] == d[k]);
            }
        }
    }
}

proof fn lemma_dash_at(s: Seq<char>, from: int, k: int)
    requires
        0 <= from <= k < s.len(),
        s[k] == '-',
        forall|m: int| from <= m < k ==> s[m] != '-',
    ensures
        dash_from(s, from) == k,
    decreases k - from,
{
    if from < k {
        lemma_dash_at(s, from + 1, k);
    }
}

/// What a save is promoted to is a directory a later listing takes for an
/// effect save: the name made of a revision (not negative), a 16-digit
/// hexadecimal signature prefix and a save token (`fxsave_` followed by
/// letters, digits and `_`) is a saved effect directory's name.
pub proof fn lemma_promoted_name_is_listed(revision: int, prefix: Seq<char>, token: Seq<char>)
    requires
        revision >= 0,
        prefix.len() == 16,
        forall|k: int| 0 <= k < 16 ==> is_ascii_hexdigit(#[trigger] prefix[k]),
        starts_with_seq(token, "fxsave_"@),
        forall|k: int| 0 <= k < token.len() ==> is_token_char(#[trigger] token[k]),
    ensures
        effect_dir_name(final_dir_name(revision, prefix, token)),
{
    let d = signed_decimal(revision);
    lemma_decimal_digits(revision as nat);
    let name = final_dir_name(revision, prefix, token);
    let i = d.len() as int;
    let j = i + 17;
    assert(name.len() == j + 1 + token.len());
    assert forall|m: int| 0 <= m < i implies name[m] == d[m] by {}
    assert(name[i] == '-');
    assert forall|m: int| i + 1 <= m < j implies name[m] == prefix[m - i - 1] by {}
    assert(name[j] == '-');
    assert forall|m: int| j + 1 <= m < name.len() implies name[m] == token[m - j - 1] by {}
    lemma_dash_at(name, 0, i);
    lemma_dash_at(name, i + 1, j);
    assert(name.subrange(j + 1, name.len() as int) =~= token);
    assert(all_of_kind(name, 0, i, 3));
    assert(all_of_kind(name, i + 1, j, 2));
    assert(all_of_kind(name, j + 1, name.len() as int, 1)) by {
        assert forall|m: int| j + 1 <= m < name.len() implies char_of_kind(#[trigger] name[m], 1) by {
            assert(is_token_char(token[m - j - 1]));
        }
    }
}

/// Whether `path` is a directory directly under the effect root whose name
/// ends with `-` and the save's token.
pub open spec fn owns_final(effect_root: Seq<PartView>, token: Seq<char>, path: Seq<PartView>) -> bool {
    &&& path.len() > 0
    &&& path.drop_last() == effect_root
    &&& path.last() matches PartView::Normal(name) && ends_with_seq(name, seq!['-'] + token)
}

/// A save owns the directory it is promoted to, and never the staging
/// directory's `.staging` name: the final directory lies directly under the
/// effect root and its name ends with `-` and the save's token.
pub proof fn lemma_promoted_dir_is_owned(
    effect_root: Seq<PartView>,
    revision: int,
    prefix: Seq<char>,
    token: Seq<char>,
)
    ensures
        owns_final(
            effect_root,
            token,
            effect_root.push(PartView::Normal(final_dir_name(revision, prefix, token))),
        ),
        !owns_final(effect_root, token, effect_root.push(PartView::Normal(".staging"@))),
{
    let name = final_dir_name(revision, prefix, token);
    let suffix = seq!['-'] + token;
    let head = signed_decimal(revision) + seq!['-'] + prefix;
    assert(name =~= head + suffix);
    assert(name.subrange(name.len() - suffix.len(), name.len() as int) =~= suffix);
    assert(effect_root.push(PartView::Normal(name)).drop_last() =~= effect_root);
    reveal_strlit(".staging");
    let staging = ".staging"@;
    if ends_with_seq(staging, suffix) {
        let k = staging.len() - suffix.len();
        assert(staging.subrange(k, staging.len() as int)[0] == '-');
        assert(staging[k] == '-');
    }
}

impl OwnedEffectArtifact {
    /// A save whose staging directory was just created.
    pub fn new(
        effect_root: Vec<PathPart>,
        signature_prefix: String,
        request_token: String,
        staging_dir: Vec<PathPart>,
    ) -> (r: Self)
        ensures
            r.effect_root == effect_root,
            r.signature_prefix == signature_prefix,
            r.request_token == request_token,
            r.staging_dir == staging_dir,
            r.final_dir is None,
            !r.keep_final,
    {
        OwnedEffectArtifact {
            effect_root,
            signature_prefix,
            request_token,
            staging_dir,
            final_dir: None,
            keep_final: false,
        }
    }

    /// The save's staging directory.
    pub fn staging_dir(&self) -> (d: &Vec<PathPart>)
        ensures
            *d == self.staging_dir,
    {
        &self.staging_dir
    }

    /// Keeps the promoted directory when the save is dropped.
    pub fn keep_final(&mut self)
        ensures
            final(self).keep_final,
            final(self).effect_root == old(self).effect_root,
            final(self).signature_prefix == old(self).signature_prefix,
            final(self).request_token == old(self).request_token,
            final(self).staging_dir == old(self).staging_dir,
            final(self).final_dir == old(self).final_dir,
    {
        self.keep_final = true;
    }

    /// Whether the staging directory is the save's own:
    /// `effect_root/.staging/token`.
    pub fn owns_staging_dir(&self) -> (r: bool)
        ensures
            r == (parts_view(self.staging_dir@) == parts_view(self.effect_root@).push(
                PartView::Normal(".staging"@),
            ).push(PartView::Normal(self.request_token@))),
    {
        let staging_root = child(&self.effect_root, ".staging");
        let own = child(&staging_root, self.request_token.as_str());
        let same = self.staging_dir.len() == own.len() && crate::paths::starts_with_parts(
            &self.staging_dir,
            &own,
        );
        proof {
            assert(parts_view(self.staging_dir@).len() == self.staging_dir@.len());
            assert(parts_view(own@).len() == own@.len());
            if self.staging_dir.len() == own.len() {
                assert(parts_view(self.staging_dir@).subrange(0, own@.len() as int) =~= parts_view(
                    self.staging_dir@,
                ));
            }
        }
        same
    }

    /// Whether `path` is a final directory of this save: directly under the
    /// effect root, with a name ending in `-` and the save's token.
    pub fn owns_final_dir(&self, path: &Vec<PathPart>) -> (r: bool)
        ensures
            r == owns_final(parts_view(self.effect_root@), self.request_token@, parts_view(path@)),
    {
        if path.len() == 0 {
            return false;
        }
        let last = path.len() - 1;
        let mut parent = crate::paths::parts_from(path, 0);
        let ghost whole = parent@;
        let _ = parent.pop();
        proof {
            assert(parts_view(path@).skip(0) =~= parts_view(path@));
            assert(parts_view(whole).len() == whole.len());
            assert forall|k: int| 0 <= k < parent@.len() implies #[trigger] parts_view(parent@)[k]
                == parts_view(path@).drop_last()[k] by {
                assert(parent@[k] == whole[k]);
                assert(parts_view(whole)[k] == parts_view(path@)[k]);
            }
            assert(parts_view(parent@) =~= parts_view(path@).drop_last());
            assert(parts_view(parent@).len() == parent@.len());
            assert(parts_view(self.effect_root@).len() == self.effect_root@.len());
        }
        let same_parent = parent.len() == self.effect_root.len() && crate::paths::starts_with_parts(
            &parent,
            &self.effect_root,
        );
        proof {
            if parent.len() == self.effect_root.len() {
                assert(parts_view(parent@).subrange(0, self.effect_root@.len() as int) =~= parts_view(
                    parent@,
                ));
            }
            assert(parts_view(path@).last() == crate::paths::part_view(path@[last as int]));
        }
        if !same_parent {
            return false;
        }
        match &path[last] {
            PathPart::Normal(name) => {
                let mut suffix = String::from_str("-");
                crate::text::push_str(&mut suffix, self.request_token.as_str());
                let n = chars_of(name.as_str());
                let s = chars_of(suffix.as_str());
                proof {
                    reveal_strlit("-");
                    assert(s@ =~= seq!['-'] + self.request_token@);
                    assert(parts_view(path@).last() == PartView::Normal(name@));
                }
                if s.len() > n.len() {
                    return false;
                }
                crate::text::occurs_at_exec(&n, &s, n.len() - s.len())
            },
            _ => false,
        }
    }

    /// Where the save is promoted for a revision, or the error when it was
    /// already promoted.
    pub fn promotion_dir(&self, revision: i64) -> (r: Result<Vec<PathPart>, AppError>)
        ensures
            self.final_dir is Some ==> (r matches Err(e) && e.code == ErrorCode::EffectArtifactState
                && e.message@ == "효과 저장 결과가 이미 승격되었습니다."@),
            self.final_dir is None ==> (r matches Ok(p) && parts_view(p@) == parts_view(
                self.effect_root@,
            ).push(
                PartView::Normal(
                    final_dir_name(revision as int, self.signature_prefix@, self.request_token@),
                ),
            )),
    {
        if self.final_dir.is_some() {
            return Err(
                AppError::new(ErrorCode::EffectArtifactState, "효과 저장 결과가 이미 승격되었습니다."),
            );
        }
        let mut name = String::new();
        crate::text::push_signed_decimal(&mut name, revision);
        crate::text::push_str(&mut name, "-");
        crate::text::push_str(&mut name, self.signature_prefix.as_str());
        crate::text::push_str(&mut name, "-");
        crate::text::push_str(&mut name, self.request_token.as_str());
        proof {
            reveal_strlit("-");
            assert(name@ =~= final_dir_name(
                revision as int,
                self.signature_prefix@,
                self.request_token@,
            ));
        }
        Ok(child(&self.effect_root, name.as_str()))
    }

    /// Records the directory the save was promoted to.
    pub fn record_promotion(&mut self, final_dir: Vec<PathPart>)
        ensures
            final(self).final_dir == Some(final_dir),
            final(self).effect_root == old(self).effect_root,
            final(self).signature_prefix == old(self).signature_prefix,
            final(self).request_token == old(self).request_token,
            final(self).staging_dir == old(self).staging_dir,
            final(self).keep_final == old(self).keep_final,
    {
        self.final_dir = Some(final_dir);
    }

    /// The directories removed when the save is dropped: none when it is
    /// kept; otherwise the promoted directory when the save owns it, then
    /// the staging directory when the save owns it.
    pub fn drop_removals(&self) -> (r: Vec<Vec<PathPart>>)
        ensures
            self.keep_final ==> r@.len() == 0,
            !self.keep_final ==> r@.map_values(|p: Vec<PathPart>| parts_view(p@)) == (match self.final_dir {
                Some(f) if owns_final(
                    parts_view(self.effect_root@),
                    self.request_token@,
                    parts_view(f@),
                ) => seq![parts_view(f@)],
                _ => Seq::empty(),
            }) + (if parts_view(self.staging_dir@) == parts_view(self.effect_root@).push(
                PartView::Normal(".staging"@),
            ).push(PartView::Normal(self.request_token@)) {
                seq![parts_view(self.staging_dir@)]
            } else {
                Seq::empty()
            }),
    {
        let mut r: Vec<Vec<PathPart>> = Vec::new();
        if self.keep_final {
            return r;
        }
        match &self.final_dir {
            Some(f) => {
                if self.owns_final_dir(f) {
                    r.push(copy_parts(f));
                }
            },
            None => {},
        }
        let ghost first = r@;
        if self.owns_staging_dir() {
            r.push(copy_parts(&self.staging_dir));
        }
        proof {
            let views = r@.map_values(|p: Vec<PathPart>| parts_view(p@));
            let a = first.map_values(|p: Vec<PathPart>| parts_view(p@));
            if r@.len() > first.len() {
                assert(r@ == first.push(r@.last()));
                assert(views =~= a.push(parts_view(self.staging_dir@)));
            } else {
                assert(views =~= a);
            }
        }
        r
    }
}

} // verus!

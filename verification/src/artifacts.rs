//! Where the files of cloned icons and collections live, which of them a
//! clean-up may remove, and how a cloned optimisation output is named and
//! checked.

use sha2::Digest;
use vstd::prelude::*;

use crate::error::{AppError, ErrorCode};
use crate::formats::ExportProfileDto;
use crate::names::is_plain_name;
use crate::paths::{
    child, copy_parts, parts_view, path_components, portable_path_text, safe_component,
    single_normal, two_plain_names, PartView, PathPart,
};
use crate::text::{chars_eq_str, folded, folded_chars, owned, str_eq};

verus! {

/// The directories of the application's library.
#[derive(Debug)]
pub struct AppPaths {
    pub root: Vec<PathPart>,
    pub collection_previews_dir: Vec<PathPart>,
    pub processed_variants_dir: Vec<PathPart>,
    pub ai_activation_previews_dir: Vec<PathPart>,
    pub ai_activation_staging_dir: Vec<PathPart>,
    pub temp_import_dir: Vec<PathPart>,
    pub temp_export_dir: Vec<PathPart>,
}

/// Texts that no platform reads as one plain path component.
pub open spec fn component_refused(v: Seq<char>) -> bool {
    ||| v.len() == 0
    ||| v == seq!['.']
    ||| v == seq!['.', '.']
    ||| two_plain_names(v)
    ||| (v.len() > 0 && v[0] == '/')
}

/// Whether a text that every platform parses alike is taken as one
/// directory name: it is not empty and parses to exactly one plain
/// component.
pub open spec fn component_accepted(v: Seq<char>) -> bool {
    v.len() > 0 && single_normal(path_components(v))
}

/// The directory name under which cloned outputs are kept apart.
pub open spec fn cloned_dir_name() -> Seq<char> {
    "cloned"@
}

/// The contract of a directory made of a base and two identifiers: it is
/// `base/first/second` whenever it is given, it is given for plain names,
/// it is refused for texts no platform reads as one component, and for
/// texts every platform parses alike it is given exactly when both are
/// taken as one directory name.
pub open spec fn id_dir_result(
    r: Result<Vec<PathPart>, AppError>,
    base: Seq<PartView>,
    first: Seq<char>,
    second: Seq<char>,
) -> bool {
    &&& r matches Ok(p) ==> parts_view(p@) == base.push(PartView::Normal(first)).push(
        PartView::Normal(second),
    )
    &&& (is_plain_name(first) && is_plain_name(second)) ==> r is Ok
    &&& (component_refused(first) || component_refused(second)) ==> r is Err
    &&& (portable_path_text(first) && portable_path_text(second)) ==> (r is Ok <==> (
    component_accepted(first) && component_accepted(second)))
    &&& r matches Err(e) ==> e.code == ErrorCode::PreviewCloneFailed
    &&& r matches Err(e) ==> (e.message@ == "모음 ID"@ + "가 안전한 경로 구성 요소가 아닙니다."@
        || e.message@ == "아이콘 ID"@ + "가 안전한 경로 구성 요소가 아닙니다."@)
    &&& component_refused(first) ==> (r matches Err(e) && e.message@ == "모음 ID"@
        + "가 안전한 경로 구성 요소가 아닙니다."@)
}

/// The preview directory of an icon of a collection.
pub fn icon_preview_root(paths: &AppPaths, collection_id: &str, icon_id: &str) -> (r: Result<
    Vec<PathPart>,
    AppError,
>)
    ensures
        id_dir_result(r, parts_view(paths.collection_previews_dir@), collection_id@, icon_id@),
{
    let collection_component = safe_component(collection_id, "모음 ID")?;
    let icon_component = safe_component(icon_id, "아이콘 ID")?;
    let c = child(&paths.collection_previews_dir, collection_component);
    Ok(child(&c, icon_component))
}

/// The directory of an icon's cloned optimisation outputs.
pub fn cloned_variant_icon_root(paths: &AppPaths, collection_id: &str, icon_id: &str) -> (r: Result<
    Vec<PathPart>,
    AppError,
>)
    ensures
        id_dir_result(
            r,
            parts_view(paths.processed_variants_dir@).push(PartView::Normal(cloned_dir_name())),
            collection_id@,
            icon_id@,
        ),
{
    let collection_component = safe_component(collection_id, "모음 ID")?;
    let icon_component = safe_component(icon_id, "아이콘 ID")?;
    let base = child(&paths.processed_variants_dir, "cloned");
    let c = child(&base, collection_component);
    Ok(child(&c, icon_component))
}

/// A directory a clean-up removes, with the root it must stay under.
#[derive(Debug)]
pub struct RemovalTarget {
    pub allowed_root: Vec<PathPart>,
    pub target: Vec<PathPart>,
}

pub open spec fn removal_view(t: RemovalTarget) -> (Seq<PartView>, Seq<PartView>) {
    (parts_view(t.allowed_root@), parts_view(t.target@))
}

pub open spec fn removals_view(s: Seq<RemovalTarget>) -> Seq<(Seq<PartView>, Seq<PartView>)> {
    s.map_values(|t: RemovalTarget| removal_view(t))
}

/// The directories holding what cloning made for an icon: its cloned
/// previews, its cloned optimisation outputs and its AI activation previews.
pub open spec fn icon_clone_dirs(paths: AppPaths, collection_id: Seq<char>, icon_id: Seq<char>) -> Seq<
    (Seq<PartView>, Seq<PartView>),
> {
    let c = PartView::Normal(collection_id);
    let i = PartView::Normal(icon_id);
    seq![
        (
            parts_view(paths.collection_previews_dir@),
            parts_view(paths.collection_previews_dir@).push(c).push(i).push(
                PartView::Normal(cloned_dir_name()),
            ),
        ),
        (
            parts_view(paths.processed_variants_dir@),
            parts_view(paths.processed_variants_dir@).push(PartView::Normal(cloned_dir_name())).push(
                c,
            ).push(i),
        ),
        (
            parts_view(paths.ai_activation_previews_dir@),
            parts_view(paths.ai_activation_previews_dir@).push(c).push(i),
        ),
    ]
}

/// The directories a clean-up after a failed icon clone removes, each with
/// the root it must stay under: all three for identifiers that are plain
/// names, none when either identifier is refused as a component.
pub fn cleanup_cloned_icon_previews(paths: &AppPaths, collection_id: &str, icon_id: &str) -> (r: Vec<
    RemovalTarget,
>)
    ensures
        (is_plain_name(collection_id@) && is_plain_name(icon_id@)) ==> removals_view(r@)
            == icon_clone_dirs(*paths, collection_id@, icon_id@),
        (component_refused(collection_id@) || component_refused(icon_id@)) ==> r@.len() == 0,
        (portable_path_text(collection_id@) && portable_path_text(icon_id@)) ==> (if component_accepted(
            collection_id@,
        ) && component_accepted(icon_id@) {
            removals_view(r@) == icon_clone_dirs(*paths, collection_id@, icon_id@)
        } else {
            r@.len() == 0
        }),
        forall|k: int|
            0 <= k < r@.len() ==> icon_clone_dirs(*paths, collection_id@, icon_id@).contains(
                #[trigger] removals_view(r@)[k],
            ),
{
    let ghost dirs = icon_clone_dirs(*paths, collection_id@, icon_id@);
    let mut r: Vec<RemovalTarget> = Vec::new();
    let mut taken: usize = 0;
    if let Ok(target) = icon_preview_root(paths, collection_id, icon_id) {
        let t = child(&target, "cloned");
        r.push(RemovalTarget { allowed_root: copy_parts(&paths.collection_previews_dir), target: t });
        assert(removal_view(r@[0]) == dirs[0]);
        taken = 1;
    }
    let ghost after_first = r@;
    if let Ok(target) = cloned_variant_icon_root(paths, collection_id, icon_id) {
        r.push(RemovalTarget { allowed_root: copy_parts(&paths.processed_variants_dir), target });
        assert(removal_view(r@[taken as int]) == dirs[1]);
        taken = taken + 1;
    }
    let ghost after_second = r@;
    match (safe_component(collection_id, "collection ID"), safe_component(icon_id, "icon ID")) {
        (Ok(c), Ok(i)) => {
            let a = child(&paths.ai_activation_previews_dir, c);
            let t = child(&a, i);
            r.push(RemovalTarget { allowed_root: copy_parts(&paths.ai_activation_previews_dir), target: t });
            assert(removal_view(r@[taken as int]) == dirs[2]);
        },
        _ => {},
    }
    proof {
        assert forall|k: int| 0 <= k < r@.len() implies dirs.contains(
            #[trigger] removals_view(r@)[k],
        ) by {
            if k < after_first.len() {
                assert(r@[k] == after_first[k]);
                assert(removals_view(r@)[k] == dirs[0]);
            } else if k < after_second.len() {
                assert(r@[k] == after_second[k]);
                assert(removals_view(r@)[k] == dirs[1]);
            } else {
                assert(removals_view(r@)[k] == dirs[2]);
            }
        }
        if (is_plain_name(collection_id@) && is_plain_name(icon_id@)) || (portable_path_text(
            collection_id@,
        ) && portable_path_text(icon_id@) && component_accepted(collection_id@)
            && component_accepted(icon_id@)) {
            assert(removals_view(r@) =~= dirs);
        }
    }
    r
}

/// The directories holding what cloning made for a collection.
pub open spec fn collection_clone_dirs(paths: AppPaths, collection_id: Seq<char>) -> Seq<
    (Seq<PartView>, Seq<PartView>),
> {
    let c = PartView::Normal(collection_id);
    seq![
        (
            parts_view(paths.collection_previews_dir@),
            parts_view(paths.collection_previews_dir@).push(c),
        ),
        (
            parts_view(paths.processed_variants_dir@),
            parts_view(paths.processed_variants_dir@).push(PartView::Normal(cloned_dir_name())).push(
                c,
            ),
        ),
        (
            parts_view(paths.ai_activation_previews_dir@),
            parts_view(paths.ai_activation_previews_dir@).push(c),
        ),
    ]
}

/// The directories a clean-up after a failed collection clone removes, each
/// with the root it must stay under: all three for a collection identifier
/// given as a component, none otherwise.
pub fn cleanup_cloned_collection_previews(paths: &AppPaths, collection_id: &str) -> (r: Vec<
    RemovalTarget,
>)
    ensures
        r@.len() == 0 || removals_view(r@) == collection_clone_dirs(*paths, collection_id@),
        is_plain_name(collection_id@) ==> removals_view(r@) == collection_clone_dirs(
            *paths,
            collection_id@,
        ),
        component_refused(collection_id@) ==> r@.len() == 0,
        portable_path_text(collection_id@) ==> (if component_accepted(collection_id@) {
            removals_view(r@) == collection_clone_dirs(*paths, collection_id@)
        } else {
            r@.len() == 0
        }),
{
    let mut r: Vec<RemovalTarget> = Vec::new();
    let c = match safe_component(collection_id, "collection ID") {
        Ok(c) => c,
        Err(_) => {
            return r;
        },
    };
    r.push(
        RemovalTarget {
            allowed_root: copy_parts(&paths.collection_previews_dir),
            target: child(&paths.collection_previews_dir, c),
        },
    );
    let v = child(&paths.processed_variants_dir, "cloned");
    r.push(
        RemovalTarget {
            allowed_root: copy_parts(&paths.processed_variants_dir),
            target: child(&v, c),
        },
    );
    r.push(
        RemovalTarget {
            allowed_root: copy_parts(&paths.ai_activation_previews_dir),
            target: child(&paths.ai_activation_previews_dir, c),
        },
    );
    assert(removals_view(r@) =~= collection_clone_dirs(*paths, collection_id@));
    r
}

/// The file extension of a cloned optimisation output, by its recorded
/// format: `gif`, `png` or `jpg` (for `jpg` and `jpeg`), read trimmed and
/// lower-cased.
pub open spec fn variant_extension(format: Seq<char>) -> Option<Seq<char>> {
    let f = folded(format);
    if f == "gif"@ {
        Some("gif"@)
    } else if f == "png"@ {
        Some("png"@)
    } else if f == "jpg"@ || f == "jpeg"@ {
        Some("jpg"@)
    } else {
        None
    }
}

/// The extension a cloned optimisation output gets from its recorded format,
/// trimmed and in any case: `gif` for gif, `png` for png, `jpg` for jpg and
/// jpeg; every other format is refused.
pub proof fn lemma_variant_extension_by_format(format: Seq<char>)
    ensures
        folded(format) == "gif"@ ==> variant_extension(format) == Some("gif"@),
        folded(format) == "png"@ ==> variant_extension(format) == Some("png"@),
        (folded(format) == "jpg"@ || folded(format) == "jpeg"@) ==> variant_extension(format)
            == Some("jpg"@),
        (folded(format) != "gif"@ && folded(format) != "png"@ && folded(format) != "jpg"@
            && folded(format) != "jpeg"@) ==> variant_extension(format) is None,
{
    reveal_strlit("gif");
    reveal_strlit("png");
    reveal_strlit("jpg");
    reveal_strlit("jpeg");
    assert("png"@[0] != "gif"@[0]);
    assert("jpg"@[0] != "gif"@[0] && "jpg"@[0] != "png"@[0]);
    assert("jpeg"@.len() != "gif"@.len() && "jpeg"@.len() != "png"@.len());
}

/// The extension of a cloned optimisation output; other formats are refused.
pub fn normalized_variant_format(format: &str) -> (r: Result<String, AppError>)
    ensures
        match variant_extension(format@) {
            Some(x) => r matches Ok(s) && s@ == x,
            None => r matches Err(e) && e.code == ErrorCode::VariantCloneFailed && e.message@
                == "복제할 활성 최적화 파일 형식이 지원되지 않습니다."@,
        },
{
    let f = folded_chars(format);
    if chars_eq_str(&f, "gif") {
        Ok(owned("gif"))
    } else if chars_eq_str(&f, "png") {
        Ok(owned("png"))
    } else if chars_eq_str(&f, "jpg") || chars_eq_str(&f, "jpeg") {
        Ok(owned("jpg"))
    } else {
        Err(
            AppError::new(
                ErrorCode::VariantCloneFailed,
                "복제할 활성 최적화 파일 형식이 지원되지 않습니다.",
            ),
        )
    }
}

/// The output an optimisation aims at: the source it is made from (file,
/// content and crop digests), the profile digest, its format and cell, and
/// the export profile it serves.
#[derive(Debug)]
pub struct OptimizationTarget {
    pub source_file_id: String,
    pub source_hash: String,
    pub crop_hash: String,
    pub profile_hash: String,
    pub output_format: String,
    pub cell_width: i64,
    pub cell_height: i64,
    pub profile: ExportProfileDto,
}

/// Whether the string lists hold the same texts in the same order.
pub open spec fn same_texts(a: Seq<String>, b: Seq<String>) -> bool {
    a.len() == b.len() && forall|i: int| 0 <= i < a.len() ==> #[trigger] a[i]@ == b[i]@
}

fn texts_equal(a: &Vec<String>, b: &Vec<String>) -> (r: bool)
    ensures
        r == same_texts(a@, b@),
{
    if a.len() != b.len() {
        return false;
    }
    let mut i: usize = 0;
    while i < a.len()
        invariant
            i <= a.len(),
            a.len() == b.len(),
            forall|k: int| 0 <= k < i ==> #[trigger] a@[k]@ == b@[k]@,
        decreases a.len() - i,
    {
        if !str_eq(a[i].as_str(), b[i].as_str()) {
            return false;
        }
        i = i + 1;
    }
    true
}

/// Whether an optimisation output made for `source` also serves `target`.
pub open spec fn profiles_compatible(source: OptimizationTarget, target: OptimizationTarget) -> bool {
    &&& source.output_format@ == target.output_format@
    &&& source.cell_width == target.cell_width
    &&& source.cell_height == target.cell_height
    &&& source.profile.target_format@ == target.profile.target_format@
    &&& source.profile.target_cell_width == target.profile.target_cell_width
    &&& source.profile.target_cell_height == target.profile.target_cell_height
    &&& source.profile.max_bytes == target.profile.max_bytes
    &&& same_texts(source.profile.allowed_formats@, target.profile.allowed_formats@)
}

/// Whether an optimisation output made for `source` may be reused for
/// `target`: same output format and cell, and the same profile settings.
pub fn output_profiles_are_compatible(source: &OptimizationTarget, target: &OptimizationTarget) -> (r:
    bool)
    ensures
        r == profiles_compatible(*source, *target),
{
    str_eq(source.output_format.as_str(), target.output_format.as_str()) && source.cell_width
        == target.cell_width && source.cell_height == target.cell_height && str_eq(
        source.profile.target_format.as_str(),
        target.profile.target_format.as_str(),
    ) && source.profile.target_cell_width == target.profile.target_cell_width
        && source.profile.target_cell_height == target.profile.target_cell_height
        && source.profile.max_bytes == target.profile.max_bytes && texts_equal(
        &source.profile.allowed_formats,
        &target.profile.allowed_formats,
    )
}

/// An optimisation output is reused only under the same settings: two
/// targets are compatible exactly when they have the same output format and
/// cell, and their profiles the same target format, target cell, size limit
/// and allowed formats in the same order. In particular targets whose
/// profiles differ in their size limit are never compatible.
pub proof fn lemma_compatible_means_same_settings(a: OptimizationTarget, b: OptimizationTarget)
    ensures
        profiles_compatible(a, b) <==> {
            &&& a.output_format@ == b.output_format@
            &&& a.cell_width == b.cell_width
            &&& a.cell_height == b.cell_height
            &&& a.profile.target_format@ == b.profile.target_format@
            &&& a.profile.target_cell_width == b.profile.target_cell_width
            &&& a.profile.target_cell_height == b.profile.target_cell_height
            &&& a.profile.max_bytes == b.profile.max_bytes
            &&& a.profile.allowed_formats@.len() == b.profile.allowed_formats@.len()
            &&& forall|i: int|
                0 <= i < a.profile.allowed_formats@.len() ==> #[trigger] a.profile.allowed_formats@[i]@
                    == b.profile.allowed_formats@[i]@
        },
        a.profile.max_bytes != b.profile.max_bytes ==> !profiles_compatible(a, b),
{
}

/// Compatibility of optimisation targets is an equivalence: every target is
/// compatible with itself, and the relation is symmetric and transitive.
pub proof fn lemma_compatibility_is_equivalence(
    a: OptimizationTarget,
    b: OptimizationTarget,
    c: OptimizationTarget,
)
    ensures
        profiles_compatible(a, a),
        profiles_compatible(a, b) ==> profiles_compatible(b, a),
        profiles_compatible(a, b) && profiles_compatible(b, c) ==> profiles_compatible(a, c),
{
}

/// The SHA-256 digest of a byte string.
pub uninterp spec fn sha256(bytes: Seq<u8>) -> Seq<u8>;

/// `sha2::Sha256::digest`: claimed to give the SHA-256 digest of `bytes`
/// (named `sha256`), which is 32 bytes long.
#[verifier::external_body]
fn sha256_digest(bytes: &[u8]) -> (d: Vec<u8>)
    ensures
        d@ == sha256(bytes@),
        d@.len() == 32,
{
    sha2::Sha256::digest(bytes).to_vec()
}

/// The lower-case hexadecimal digit of a value below sixteen.
pub open spec fn hex_digit(n: int) -> char {
    if n < 10 {
        ((48 + n) as u8) as char
    } else {
        ((87 + n) as u8) as char
    }
}

/// Lower-case hexadecimal rendering of bytes, two digits per byte, as the
/// `{:x}` format of a digest writes it.
pub open spec fn lower_hex(bytes: Seq<u8>) -> Seq<char>
    decreases bytes.len(),
{
    if bytes.len() == 0 {
        Seq::empty()
    } else {
        lower_hex(bytes.drop_last()) + seq![
            hex_digit(bytes.last() as int / 16),
            hex_digit(bytes.last() as int % 16),
        ]
    }
}

fn hex_digit_exec(n: u8) -> (c: char)
    requires
        n < 16,
    ensures
        c == hex_digit(n as int),
{
    if n < 10 {
        (48u8 + n) as char
    } else {
        (87u8 + n) as char
    }
}

/// The SHA-256 digest of a file's bytes as lower-case hexadecimal text.
pub fn sha256_hex(bytes: &Vec<u8>) -> (r: String)
    ensures
        r@ == lower_hex(sha256(bytes@)),
{
    let d = sha256_digest(bytes.as_slice());
    let mut r = String::new();
    let mut i: usize = 0;
    while i < d.len()
        invariant
            i <= d.len(),
            r@ == lower_hex(d@.subrange(0, i as int)),
        decreases d.len() - i,
    {
        let b = d[i];
        let hi = hex_digit_exec(b / 16);
        let lo = hex_digit_exec(b % 16);
        crate::text::push_char(&mut r, hi);
        crate::text::push_char(&mut r, lo);
        proof {
            let s = d@.subrange(0, i + 1);
            assert(s.drop_last() =~= d@.subrange(0, i as int));
            assert(r@ =~= lower_hex(s));
        }
        i = i + 1;
    }
    assert(d@.subrange(0, d@.len() as int) =~= d@);
    r
}

// ---------------------------------------------------------------------------
// Cloning active optimisation outputs

/// An active optimisation output of an icon, as far as cloning reads it.
#[derive(Debug)]
pub struct ActiveVariant {
    pub piece_id: Option<String>,
    pub profile_id: Option<String>,
    pub format: String,
    pub source_file_id: Option<String>,
    pub source_hash: String,
    pub crop_hash: String,
    pub profile_hash: String,
    pub width: i64,
    pub height: i64,
}

/// The value of the last pair with `key`, as a map built by inserting the
/// pairs in order holds it.
pub open spec fn map_lookup(pairs: Seq<(String, String)>, key: Seq<char>) -> Option<Seq<char>>
    decreases pairs.len(),
{
    if pairs.len() == 0 {
        None
    } else if pairs.last().0@ == key {
        Some(pairs.last().1@)
    } else {
        map_lookup(pairs.drop_last(), key)
    }
}

fn lookup(pairs: &Vec<(String, String)>, key: &str) -> (r: Option<String>)
    ensures
        match r {
            Some(v) => map_lookup(pairs@, key@) == Some(v@),
            None => map_lookup(pairs@, key@) is None,
        },
{
    let mut n = pairs.len();
    assert(pairs@.subrange(0, n as int) =~= pairs@);
    while n > 0
        invariant
            n <= pairs.len(),
            map_lookup(pairs@, key@) == map_lookup(pairs@.subrange(0, n as int), key@),
        decreases n,
    {
        proof {
            let p = pairs@.subrange(0, n as int);
            assert(p.drop_last() =~= pairs@.subrange(0, n - 1));
            assert(p.last() == pairs@[n - 1]);
        }
        if str_eq(pairs[n - 1].0.as_str(), key) {
            return Some(pairs[n - 1].1.clone());
        }
        n = n - 1;
    }
    proof {
        assert(pairs@.subrange(0, 0) =~= Seq::<(String, String)>::empty());
    }
    None
}

/// The piece and profile of the clone an active output belongs to: skipped
/// (`None`) when the output names no piece or no profile; refused when its
/// piece has no copy, or when profiles were copied and its profile has none.
pub open spec fn variant_target_ids(
    v: ActiveVariant,
    piece_map: Seq<(String, String)>,
    profile_map: Option<Seq<(String, String)>>,
) -> Result<Option<(Seq<char>, Seq<char>)>, ErrorCode> {
    if v.piece_id is None || v.profile_id is None {
        Ok(None)
    } else {
        let piece = v.piece_id->0@;
        let profile = v.profile_id->0@;
        match map_lookup(piece_map, piece) {
            None => Err(ErrorCode::VariantCloneFailed),
            Some(target_piece) => match profile_map {
                None => Ok(Some((target_piece, profile))),
                Some(m) => match map_lookup(m, profile) {
                    None => Err(ErrorCode::VariantCloneFailed),
                    Some(target_profile) => Ok(Some((target_piece, target_profile))),
                },
            },
        }
    }
}

/// Where an active output of the source icon goes in the clone: the copied
/// piece and the profile (copied, or the same when profiles are shared).
pub fn map_variant_target(
    variant: &ActiveVariant,
    piece_map: &Vec<(String, String)>,
    profile_map: &Option<Vec<(String, String)>>,
) -> (r: Result<Option<(String, String)>, AppError>)
    ensures
        match (r, variant_target_ids(
            *variant,
            piece_map@,
            match profile_map {
                Some(m) => Some(m@),
                None => None,
            },
        )) {
            (Ok(None), Ok(None)) => true,
            (Ok(Some(ids)), Ok(Some(want))) => ids.0@ == want.0 && ids.1@ == want.1,
            (Err(e), Err(code)) => e.code == code,
            _ => false,
        },
        r matches Err(e) ==> (match map_lookup(piece_map@, variant.piece_id->0@) {
            None => e.message@ == "활성 최적화 결과의 조각 ID를 복제본에 연결할 수 없습니다."@,
            Some(_) => e.message@ == "활성 최적화 결과의 프로필 ID를 복제본에 연결할 수 없습니다."@,
        }),
{
    let (piece, profile) = match (&variant.piece_id, &variant.profile_id) {
        (Some(piece), Some(profile)) => (piece, profile),
        _ => {
            return Ok(None);
        },
    };
    let target_piece = match lookup(piece_map, piece.as_str()) {
        Some(p) => p,
        None => {
            return Err(
                AppError::new(
                    ErrorCode::VariantCloneFailed,
                    "활성 최적화 결과의 조각 ID를 복제본에 연결할 수 없습니다.",
                ),
            );
        },
    };
    match profile_map {
        None => Ok(Some((target_piece, profile.clone()))),
        Some(m) => match lookup(m, profile.as_str()) {
            Some(target_profile) => Ok(Some((target_piece, target_profile))),
            None => Err(
                AppError::new(
                    ErrorCode::VariantCloneFailed,
                    "활성 최적화 결과의 프로필 ID를 복제본에 연결할 수 없습니다.",
                ),
            ),
        },
    }
}

/// Whether an active output still matches what its source icon would make
/// now: same source file, same digests, the recorded format, and a file on
/// disk that matches its record (`artifact_matches`).
pub open spec fn source_variant_ok(
    v: ActiveVariant,
    source: OptimizationTarget,
    format: Seq<char>,
    artifact_matches: bool,
) -> bool {
    &&& v.source_file_id matches Some(f) && f@ == source.source_file_id@
    &&& source.source_hash@ == v.source_hash@
    &&& source.crop_hash@ == v.crop_hash@
    &&& source.profile_hash@ == v.profile_hash@
    &&& source.output_format@ == format
    &&& artifact_matches
}

/// Whether an active output of the source icon is still current for it.
pub fn source_variant_compatible(
    variant: &ActiveVariant,
    source: &OptimizationTarget,
    format: &str,
    artifact_matches: bool,
) -> (r: bool)
    ensures
        r == source_variant_ok(*variant, *source, format@, artifact_matches),
{
    let same_file = match &variant.source_file_id {
        Some(f) => str_eq(f.as_str(), source.source_file_id.as_str()),
        None => false,
    };
    same_file && str_eq(source.source_hash.as_str(), variant.source_hash.as_str()) && str_eq(
        source.crop_hash.as_str(),
        variant.crop_hash.as_str(),
    ) && str_eq(source.profile_hash.as_str(), variant.profile_hash.as_str()) && str_eq(
        source.output_format.as_str(),
        format,
    ) && artifact_matches
}

/// The size of a file as an optimisation output records it: its length in
/// bytes, or the largest `i64` when the length does not fit one.
pub open spec fn recorded_file_size(len: u64) -> int {
    if len <= i64::MAX {
        len as int
    } else {
        i64::MAX as int
    }
}

/// Whether an output file on disk is the one its record describes: the
/// record has a digest, the file's metadata was read and its size is the
/// recorded one, the file was analysed and has the recorded dimensions, and
/// its SHA-256 digest in lower-case hexadecimal is the recorded digest.
pub open spec fn variant_artifact_ok(
    expected_sha256: Option<Seq<char>>,
    file_len: Option<u64>,
    byte_size: i64,
    analyzed: Option<(i64, i64)>,
    width: i64,
    height: i64,
    contents: Seq<u8>,
) -> bool {
    &&& expected_sha256 is Some
    &&& file_len matches Some(len) && recorded_file_size(len) == byte_size
    &&& analyzed == Some((width, height))
    &&& lower_hex(sha256(contents)) == expected_sha256->0
}

/// Whether an output file on disk is the one its record describes, from what
/// was read of it: its length (`None` when its metadata could not be read),
/// its analysed dimensions (`None` when it could not be analysed), and its
/// bytes. The checks run in that order and stop at the first that fails; a
/// failure to read the bytes is an error, reported only when every check
/// before the digest passed.
pub fn variant_artifact_matches(
    expected_sha256: &Option<String>,
    file_len: Option<u64>,
    byte_size: i64,
    analyzed: Option<(i64, i64)>,
    width: i64,
    height: i64,
    contents: Result<Vec<u8>, AppError>,
) -> (r: Result<bool, AppError>)
    ensures
        r is Err <==> (expected_sha256 is Some && file_len is Some && recorded_file_size(
            file_len->0,
        ) == byte_size && analyzed == Some((width, height)) && contents is Err),
        r matches Err(e) ==> contents == Err::<Vec<u8>, AppError>(e),
        r matches Ok(b) ==> b == variant_artifact_ok(
            match expected_sha256 {
                Some(t) => Some(t@),
                None => None,
            },
            file_len,
            byte_size,
            analyzed,
            width,
            height,
            match contents {
                Ok(c) => c@,
                Err(_) => Seq::empty(),
            },
        ),
{
    let expected = match expected_sha256 {
        Some(t) => t,
        None => {
            return Ok(false);
        },
    };
    let len = match file_len {
        Some(n) => n,
        None => {
            return Ok(false);
        },
    };
    let size: i64 = if len <= 9223372036854775807u64 {
        len as i64
    } else {
        9223372036854775807i64
    };
    if size != byte_size {
        return Ok(false);
    }
    match analyzed {
        Some((w, h)) => {
            if w != width || h != height {
                return Ok(false);
            }
        },
        None => {
            return Ok(false);
        },
    }
    match contents {
        Ok(bytes) => {
            let digest = sha256_hex(&bytes);
            Ok(str_eq(digest.as_str(), expected.as_str()))
        },
        Err(e) => Err(e),
    }
}

/// Whether an output made for the source also serves the clone: the same
/// source and crop, compatible profiles, and the clone's cell size.
pub open spec fn target_variant_ok(
    v: ActiveVariant,
    source: OptimizationTarget,
    target: OptimizationTarget,
) -> bool {
    &&& target.source_file_id@ == source.source_file_id@
    &&& target.source_hash@ == source.source_hash@
    &&& target.crop_hash@ == source.crop_hash@
    &&& profiles_compatible(source, target)
    &&& v.width == target.cell_width
    &&& v.height == target.cell_height
}

/// Whether an active output of the source icon may be cloned for the target.
pub fn target_variant_compatible(
    variant: &ActiveVariant,
    source: &OptimizationTarget,
    target: &OptimizationTarget,
) -> (r: bool)
    ensures
        r == target_variant_ok(*variant, *source, *target),
{
    str_eq(target.source_file_id.as_str(), source.source_file_id.as_str()) && str_eq(
        target.source_hash.as_str(),
        source.source_hash.as_str(),
    ) && str_eq(target.crop_hash.as_str(), source.crop_hash.as_str())
        && output_profiles_are_compatible(source, target) && variant.width == target.cell_width
        && variant.height == target.cell_height
}

/// Claims a (profile, piece) group for the clone: true the first time, when
/// the group is recorded; false when it was claimed before.
pub fn claim_variant_group(claimed: &mut Vec<(String, String)>, profile_id: &str, piece_id: &str) -> (r:
    bool)
    ensures
        r == !old(claimed)@.map_values(|g: (String, String)| (g.0@, g.1@)).contains(
            (profile_id@, piece_id@),
        ),
        r ==> final(claimed)@.map_values(|g: (String, String)| (g.0@, g.1@)) == old(
            claimed,
        )@.map_values(|g: (String, String)| (g.0@, g.1@)).push((profile_id@, piece_id@)),
        !r ==> final(claimed)@ == old(claimed)@,
{
    let ghost views = claimed@.map_values(|g: (String, String)| (g.0@, g.1@));
    let mut i: usize = 0;
    while i < claimed.len()
        invariant
            i <= claimed.len(),
            views == claimed@.map_values(|g: (String, String)| (g.0@, g.1@)),
            forall|k: int| 0 <= k < i ==> #[trigger] views[k] != (profile_id@, piece_id@),
        decreases claimed.len() - i,
    {
        if str_eq(claimed[i].0.as_str(), profile_id) && str_eq(claimed[i].1.as_str(), piece_id) {
            assert(views[i as int] == (profile_id@, piece_id@));
            return false;
        }
        i = i + 1;
    }
    claimed.push((String::from_str(profile_id), String::from_str(piece_id)));
    proof {
        assert(claimed@.map_values(|g: (String, String)| (g.0@, g.1@)) =~= views.push(
            (profile_id@, piece_id@),
        ));
    }
    true
}

} // verus!

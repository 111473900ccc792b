//! The editor's checks: which crop settings may be applied, which text
//! overlays may be saved, which rendered outputs are accepted, and how the
//! rendered files of an effect save move when it is promoted.

use vstd::prelude::*;

use crate::error::{AppError, ErrorCode};
use crate::formats::{stored_dimensions_ok, validate_import_dimensions, ImportLimits};
use crate::paths::{is_prefix_of, parts_view, rebase_effect_artifact_path, rebased, PartView, PathPart};
use crate::text::{chars_eq_str, chars_of, lower_ascii, lower_char_exec};

verus! {

/// The crop settings of an icon as the editor submits them, except the crop
/// rectangle and the transform, which are checked on their own.
#[derive(Debug)]
pub struct ApplyCropSettings {
    pub shape: String,
    pub crop_mode: String,
    pub preset_position: String,
    pub cell_width: i64,
    pub cell_height: i64,
    pub piece_ids: Vec<String>,
    pub gif_loop_mode: String,
    pub gif_loop_count: Option<i64>,
}

pub open spec fn is_shape(s: Seq<char>) -> bool {
    s == "single"@ || s == "horizontal_double"@ || s == "vertical_double"@
}

pub open spec fn is_crop_mode(s: Seq<char>) -> bool {
    s == "free"@ || s == "fixed"@
}

pub open spec fn is_preset_position(s: Seq<char>) -> bool {
    ||| s == "center"@
    ||| s == "top_left"@
    ||| s == "top"@
    ||| s == "top_right"@
    ||| s == "left"@
    ||| s == "right"@
    ||| s == "bottom_left"@
    ||| s == "bottom"@
    ||| s == "bottom_right"@
    ||| s == "custom"@
}

pub open spec fn is_loop_mode(s: Seq<char>) -> bool {
    s == "preserve"@ || s == "infinite"@ || s == "once"@ || s == "count"@ || s == "pingpong"@
}

/// The choices of a crop that are made by name: shape, mode, position and
/// GIF loop, with a positive count for a counted loop.
pub open spec fn crop_choices_ok(s: ApplyCropSettings) -> bool {
    &&& is_shape(s.shape@)
    &&& is_crop_mode(s.crop_mode@)
    &&& is_preset_position(s.preset_position@)
    &&& is_loop_mode(s.gif_loop_mode@)
    &&& !(s.gif_loop_mode@ == "count"@ && match s.gif_loop_count {
        Some(n) => n <= 0,
        None => true,
    })
}

/// How many pieces an icon of a shape has.
pub open spec fn piece_count(shape: Seq<char>) -> nat {
    if shape == "single"@ {
        1
    } else {
        2
    }
}

/// Whether no text occurs twice.
pub open spec fn distinct_texts(v: Seq<String>) -> bool {
    forall|i: int, j: int| 0 <= i < j < v.len() ==> #[trigger] v[i]@ != #[trigger] v[j]@
}

/// Whether the submitted piece order fits the shape: no more pieces than the
/// shape has, none twice.
pub open spec fn piece_order_ok(s: ApplyCropSettings) -> bool {
    s.piece_ids@.len() <= piece_count(s.shape@) && distinct_texts(s.piece_ids@)
}

/// Why named crop choices are refused, in the order they are checked.
pub open spec fn crop_choices_refusal(s: ApplyCropSettings) -> Option<Seq<char>> {
    if !is_shape(s.shape@) {
        Some("지원하지 않는 아이콘 모양입니다."@)
    } else if !is_crop_mode(s.crop_mode@) {
        Some("지원하지 않는 크롭 모드입니다."@)
    } else if !is_preset_position(s.preset_position@) {
        Some("지원하지 않는 크롭 위치입니다."@)
    } else if !is_loop_mode(s.gif_loop_mode@) {
        Some("지원하지 않는 GIF 반복 설정입니다."@)
    } else if !crop_choices_ok(s) {
        Some("사용자 지정 반복 횟수는 1 이상이어야 합니다."@)
    } else {
        None
    }
}

/// Why a piece order is refused, in the order it is checked.
pub open spec fn piece_order_refusal(s: ApplyCropSettings) -> Option<Seq<char>> {
    if s.piece_ids@.len() > piece_count(s.shape@) {
        Some("아이콘 조각 순서가 현재 모양과 일치하지 않습니다."@)
    } else if !distinct_texts(s.piece_ids@) {
        Some("같은 아이콘 조각을 두 위치에 배치할 수 없습니다."@)
    } else {
        None
    }
}

/// The named crop choices that are accepted. Shapes: `single` (one piece),
/// `horizontal_double` and `vertical_double` (two pieces each). Crop modes:
/// `free` and `fixed`. Positions: `center`, the four sides `top`, `left`,
/// `right`, `bottom`, the four corners `top_left`, `top_right`,
/// `bottom_left`, `bottom_right`, and `custom`. GIF loops: `preserve`,
/// `infinite`, `once`, `pingpong`, and `count` with a count of at least 1.
/// Anything else is refused.
pub proof fn lemma_crop_choices(s: ApplyCropSettings)
    ensures
        crop_choices_ok(s) <==> {
            &&& (s.shape@ == "single"@ || s.shape@ == "horizontal_double"@ || s.shape@
                == "vertical_double"@)
            &&& (s.crop_mode@ == "free"@ || s.crop_mode@ == "fixed"@)
            &&& (s.preset_position@ == "center"@ || s.preset_position@ == "top"@
                || s.preset_position@ == "left"@ || s.preset_position@ == "right"@
                || s.preset_position@ == "bottom"@ || s.preset_position@ == "top_left"@
                || s.preset_position@ == "top_right"@ || s.preset_position@ == "bottom_left"@
                || s.preset_position@ == "bottom_right"@ || s.preset_position@ == "custom"@)
            &&& (s.gif_loop_mode@ == "preserve"@ || s.gif_loop_mode@ == "infinite"@
                || s.gif_loop_mode@ == "once"@ || s.gif_loop_mode@ == "pingpong"@ || (
            s.gif_loop_mode@ == "count"@ && s.gif_loop_count is Some && s.gif_loop_count->0 >= 1))
        },
        piece_count("single"@) == 1,
        piece_count("horizontal_double"@) == 2,
        piece_count("vertical_double"@) == 2,
{
    reveal_strlit("single");
    reveal_strlit("horizontal_double");
    reveal_strlit("vertical_double");
    reveal_strlit("count");
    reveal_strlit("preserve");
    reveal_strlit("infinite");
    reveal_strlit("once");
    reveal_strlit("pingpong");
    assert("horizontal_double"@.len() != "single"@.len());
    assert("vertical_double"@.len() != "single"@.len());
    assert("preserve"@.len() != "count"@.len());
    assert("infinite"@.len() != "count"@.len());
    assert("once"@.len() != "count"@.len());
    assert("pingpong"@.len() != "count"@.len());
}

fn one_of(v: &Vec<char>, a: &str, b: &str, c: &str) -> (r: bool)
    ensures
        r == (v@ == a@ || v@ == b@ || v@ == c@),
{
    chars_eq_str(v, a) || chars_eq_str(v, b) || chars_eq_str(v, c)
}

fn choices_named(s: &ApplyCropSettings) -> (r: Result<(), AppError>)
    ensures
        r is Ok <==> crop_choices_ok(*s),
        r matches Err(e) ==> e.code == ErrorCode::Validation && Some(e.message@)
            == crop_choices_refusal(*s),
{
    let shape = chars_of(s.shape.as_str());
    if !one_of(&shape, "single", "horizontal_double", "vertical_double") {
        return Err(AppError::validation("지원하지 않는 아이콘 모양입니다."));
    }
    let mode = chars_of(s.crop_mode.as_str());
    if !(chars_eq_str(&mode, "free") || chars_eq_str(&mode, "fixed")) {
        return Err(AppError::validation("지원하지 않는 크롭 모드입니다."));
    }
    let p = chars_of(s.preset_position.as_str());
    if !(one_of(&p, "center", "top_left", "top") || one_of(&p, "top_right", "left", "right")
        || one_of(&p, "bottom_left", "bottom", "bottom_right") || chars_eq_str(&p, "custom")) {
        return Err(AppError::validation("지원하지 않는 크롭 위치입니다."));
    }
    let l = chars_of(s.gif_loop_mode.as_str());
    if !(one_of(&l, "preserve", "infinite", "once") || chars_eq_str(&l, "count") || chars_eq_str(&l, "pingpong")) {
        return Err(AppError::validation("지원하지 않는 GIF 반복 설정입니다."));
    }
    let count = match s.gif_loop_count {
        Some(n) => n,
        None => 0,
    };
    if chars_eq_str(&l, "count") && count <= 0 {
        return Err(AppError::validation("사용자 지정 반복 횟수는 1 이상이어야 합니다."));
    }
    Ok(())
}

fn texts_distinct(v: &Vec<String>) -> (r: bool)
    ensures
        r == distinct_texts(v@),
{
    let mut i: usize = 0;
    while i < v.len()
        invariant
            i <= v.len(),
            forall|a: int, b: int| 0 <= a < b < v.len() && a < i ==> v@[a]@ != v@[b]@,
        decreases v.len() - i,
    {
        let mut j: usize = i + 1;
        while j < v.len()
            invariant
                i < v.len(),
                i + 1 <= j <= v.len(),
                forall|a: int, b: int| 0 <= a < b < v.len() && a < i ==> v@[a]@ != v@[b]@,
                forall|b: int| i < b < j ==> v@[i as int]@ != v@[b]@,
            decreases v.len() - j,
        {
            if crate::text::str_eq(v[i].as_str(), v[j].as_str()) {
                return false;
            }
            j = j + 1;
        }
        i = i + 1;
    }
    true
}

/// The decision on crop settings, given the verdicts on the crop rectangle
/// and on the transform: the named choices first, then the cell against the
/// limits, then the rectangle, then the transform, then the piece order.
/// The verdicts are handed back as they are; every other refusal is a
/// validation error.
pub fn validate_apply_payload(
    settings: &ApplyCropSettings,
    limits: ImportLimits,
    crop_rect: Result<(), AppError>,
    transform: Result<(), AppError>,
) -> (r: Result<(), AppError>)
    ensures
        r is Ok <==> (crop_choices_ok(*settings) && stored_dimensions_ok(
            limits,
            settings.cell_width,
            settings.cell_height,
        ) && crop_rect is Ok && transform is Ok && piece_order_ok(*settings)),
        (crop_choices_ok(*settings) && stored_dimensions_ok(
            limits,
            settings.cell_width,
            settings.cell_height,
        ) && crop_rect is Err) ==> r == crop_rect,
        (crop_choices_ok(*settings) && stored_dimensions_ok(
            limits,
            settings.cell_width,
            settings.cell_height,
        ) && crop_rect is Ok && transform is Err) ==> r == transform,
        !(crop_choices_ok(*settings) && stored_dimensions_ok(
            limits,
            settings.cell_width,
            settings.cell_height,
        )) ==> (r matches Err(e) && e.code == ErrorCode::Validation),
        !crop_choices_ok(*settings) ==> (r matches Err(e) && Some(e.message@)
            == crop_choices_refusal(*settings)),
        (crop_choices_ok(*settings) && !stored_dimensions_ok(
            limits,
            settings.cell_width,
            settings.cell_height,
        )) ==> (r matches Err(e) && Some(e.message@) == crate::formats::stored_dimension_refusal(
            limits,
            settings.cell_width,
            settings.cell_height,
            "셀 너비가 올바르지 않습니다."@,
            "셀 높이가 올바르지 않습니다."@,
        )),
        (crop_choices_ok(*settings) && stored_dimensions_ok(
            limits,
            settings.cell_width,
            settings.cell_height,
        ) && crop_rect is Ok && transform is Ok && !piece_order_ok(*settings)) ==> (r matches Err(
            e,
        ) && e.code == ErrorCode::Validation && Some(e.message@) == piece_order_refusal(
            *settings,
        )),
{
    choices_named(settings)?;
    if settings.cell_width < 0 || settings.cell_width > u32::MAX as i64 {
        return Err(AppError::validation("셀 너비가 올바르지 않습니다."));
    }
    if settings.cell_height < 0 || settings.cell_height > u32::MAX as i64 {
        return Err(AppError::validation("셀 높이가 올바르지 않습니다."));
    }
    validate_import_dimensions(limits, settings.cell_width as u32, settings.cell_height as u32)?;
    if crop_rect.is_err() {
        return crop_rect;
    }
    if transform.is_err() {
        return transform;
    }
    let single = crate::text::str_eq(settings.shape.as_str(), "single");
    let expected: usize = if single {
        1
    } else {
        2
    };
    if settings.piece_ids.len() > expected {
        return Err(AppError::validation("아이콘 조각 순서가 현재 모양과 일치하지 않습니다."));
    }
    if !texts_distinct(&settings.piece_ids) {
        return Err(AppError::validation("같은 아이콘 조각을 두 위치에 배치할 수 없습니다."));
    }
    Ok(())
}

/// The most characters an overlay text may have.
pub open spec fn overlay_text_limit() -> nat {
    120
}

/// The decision on a text overlay, given the verdicts on its numeric
/// settings (font size within 1 to 512, position within 0 to 1, outline
/// within 0 to 64) and on building its render spec: the text length first,
/// then the size, the position and the outline, each a validation error,
/// then the render spec's verdict as it is.
pub fn validate_text_overlay_payload(
    text: &str,
    font_size_in_range: bool,
    position_in_range: bool,
    stroke_width_in_range: bool,
    render_spec: Result<(), AppError>,
) -> (r: Result<(), AppError>)
    ensures
        r is Ok <==> (text@.len() <= overlay_text_limit() && font_size_in_range
            && position_in_range && stroke_width_in_range && render_spec is Ok),
        !(text@.len() <= overlay_text_limit() && font_size_in_range && position_in_range
            && stroke_width_in_range) ==> (r matches Err(e) && e.code == ErrorCode::Validation),
        (text@.len() <= overlay_text_limit() && font_size_in_range && position_in_range
            && stroke_width_in_range) ==> r == render_spec,
        text@.len() > overlay_text_limit() ==> (r matches Err(e) && e.message@
            == "텍스트는 120자 이하로 입력해 주세요."@),
        (text@.len() <= overlay_text_limit() && !font_size_in_range) ==> (r matches Err(e)
            && e.message@ == "글자 크기는 1~512px 사이여야 합니다."@),
        (text@.len() <= overlay_text_limit() && font_size_in_range && !position_in_range) ==> (r
            matches Err(e) && e.message@ == "텍스트 위치는 0~100% 범위여야 합니다."@),
        (text@.len() <= overlay_text_limit() && font_size_in_range && position_in_range
            && !stroke_width_in_range) ==> (r matches Err(e) && e.message@
            == "외곽선 두께는 0~64px 사이여야 합니다."@),
{
    if text.unicode_len() > 120 {
        return Err(AppError::validation("텍스트는 120자 이하로 입력해 주세요."));
    }
    if !font_size_in_range {
        return Err(AppError::validation("글자 크기는 1~512px 사이여야 합니다."));
    }
    if !position_in_range {
        return Err(AppError::validation("텍스트 위치는 0~100% 범위여야 합니다."));
    }
    if !stroke_width_in_range {
        return Err(AppError::validation("외곽선 두께는 0~64px 사이여야 합니다."));
    }
    render_spec
}

/// The index of the last `.` in `s`, if any.
pub open spec fn last_dot(s: Seq<char>) -> Option<int>
    decreases s.len(),
{
    if s.len() == 0 {
        None
    } else if s.last() == '.' {
        Some(s.len() - 1)
    } else {
        last_dot(s.drop_last())
    }
}

/// `Path::extension` of a path: the text after the last `.` of its final
/// plain component, unless that `.` leads the name.
pub open spec fn extension(path: Seq<PartView>) -> Option<Seq<char>> {
    if path.len() > 0 && path.last() is Normal {
        let name = path.last()->Normal_0;
        match last_dot(name) {
            Some(i) => if i == 0 {
                None
            } else {
                Some(name.subrange(i + 1, name.len() as int))
            },
            None => None,
        }
    } else {
        None
    }
}

/// Whether a rendered output has the `png` or `gif` extension, in any case.
pub open spec fn rendered_format_ok(path: Seq<PartView>) -> bool {
    let e = match extension(path) {
        Some(x) => lower_ascii(x),
        None => Seq::empty(),
    };
    e == "png"@ || e == "gif"@
}

/// A rendered output is accepted exactly when its final component has the
/// extension `png` or `gif`, in any case; one without an extension is
/// refused.
pub proof fn lemma_rendered_formats(path: Seq<PartView>)
    ensures
        extension(path) matches Some(x) ==> (rendered_format_ok(path) <==> (lower_ascii(x)
            == "png"@ || lower_ascii(x) == "gif"@)),
        extension(path) is None ==> !rendered_format_ok(path),
{
    reveal_strlit("png");
    reveal_strlit("gif");
    assert("png"@.len() > 0 && "gif"@.len() > 0);
}

proof fn lemma_last_dot(s: Seq<char>)
    ensures
        match last_dot(s) {
            Some(i) => 0 <= i < s.len() && s[i] == '.' && forall|k: int|
                i < k < s.len() ==> s[k] != '.',
            None => forall|k: int| 0 <= k < s.len() ==> s[k] != '.',
        },
    decreases s.len(),
{
    if s.len() > 0 && s.last() != '.' {
        let t = s.drop_last();
        lemma_last_dot(t);
        match last_dot(t) {
            Some(i) => {
                assert forall|k: int| i < k < s.len() implies s[k] != '.' by {
                    if k < t.len() {
                        assert(s[k] == t[k]);
                    }
                }
            },
            None => {
                assert forall|k: int| 0 <= k < s.len() implies s[k] != '.' by {
                    if k < t.len() {
                        assert(s[k] == t[k]);
                    }
                }
            },
        }
    }
}

fn last_dot_exec(v: &Vec<char>) -> (r: Option<usize>)
    ensures
        match r {
            Some(i) => last_dot(v@) == Some(i as int) && i < v@.len(),
            None => last_dot(v@) is None,
        },
{
    let mut n = v.len();
    assert(v@.subrange(0, v@.len() as int) =~= v@);
    while n > 0 && v[n - 1] != '.'
        invariant
            n <= v.len(),
            last_dot(v@) == last_dot(v@.subrange(0, n as int)),
        decreases n,
    {
        proof {
            assert(v@.subrange(0, n as int).drop_last() =~= v@.subrange(0, n - 1));
        }
        n = n - 1;
    }
    if n == 0 {
        assert(v@.subrange(0, 0) =~= Seq::<char>::empty());
        None
    } else {
        Some(n - 1)
    }
}

/// Accepts a rendered output only as a PNG or GIF file.
pub fn validate_generated_piece_format(path: &Vec<PathPart>) -> (r: Result<(), AppError>)
    ensures
        r is Ok <==> rendered_format_ok(parts_view(path@)),
        r matches Err(e) ==> e.code == ErrorCode::Validation && e.message@
            == "처리된 미리보기는 png 또는 gif 형식이어야 합니다."@,
{
    let mut ext: Vec<char> = Vec::new();
    if path.len() > 0 {
        proof {
            assert(parts_view(path@).last() == crate::paths::part_view(path@[path@.len() - 1]));
        }
        match &path[path.len() - 1] {
            PathPart::Normal(name) => {
                let v = chars_of(name.as_str());
                match last_dot_exec(&v) {
                    Some(i) => {
                        assert(i < v.len());
                        if i > 0 {
                            let mut k = i + 1;
                            while k < v.len()
                                invariant
                                    i + 1 <= k <= v.len(),
                                    ext@ == lower_ascii(v@.subrange(i + 1, k as int)),
                                decreases v.len() - k,
                            {
                                ext.push(lower_char_exec(v[k]));
                                assert(ext@ =~= lower_ascii(v@.subrange(i + 1, k + 1)));
                                k = k + 1;
                            }
                        }
                    },
                    None => {},
                }
            },
            _ => {},
        }
    }
    proof {
        let e = match extension(parts_view(path@)) {
            Some(x) => lower_ascii(x),
            None => Seq::<char>::empty(),
        };
        assert(ext@ =~= e);
    }
    if chars_eq_str(&ext, "png") || chars_eq_str(&ext, "gif") {
        Ok(())
    } else {
        Err(AppError::validation("처리된 미리보기는 png 또는 gif 형식이어야 합니다."))
    }
}

/// The files an effect render produced.
#[derive(Debug)]
pub struct GeneratedPreview {
    pub current_preview_path: Vec<PathPart>,
    pub poster_path: Vec<PathPart>,
    pub piece_paths: Vec<Vec<PathPart>>,
}

/// Whether every path of the list passes the format check.
pub open spec fn all_formats_ok(paths: Seq<Vec<PathPart>>) -> bool {
    forall|i: int| 0 <= i < paths.len() ==> rendered_format_ok(parts_view(#[trigger] paths[i]@))
}

/// Accepts a render's current preview and its pieces only as PNG or GIF
/// files.
pub fn validate_generated_piece_formats(preview: &GeneratedPreview) -> (r: Result<(), AppError>)
    ensures
        r is Ok <==> (rendered_format_ok(parts_view(preview.current_preview_path@)) && all_formats_ok(
            preview.piece_paths@,
        )),
        r matches Err(e) ==> e.code == ErrorCode::Validation && e.message@
            == "처리된 미리보기는 png 또는 gif 형식이어야 합니다."@,
{
    validate_generated_piece_format(&preview.current_preview_path)?;
    let mut i: usize = 0;
    while i < preview.piece_paths.len()
        invariant
            i <= preview.piece_paths.len(),
            all_formats_ok(preview.piece_paths@.subrange(0, i as int)),
        decreases preview.piece_paths.len() - i,
    {
        let checked = validate_generated_piece_format(&preview.piece_paths[i]);
        if checked.is_err() {
            return checked;
        }
        proof {
            let s = preview.piece_paths@.subrange(0, i + 1);
            assert forall|k: int| 0 <= k < s.len() implies rendered_format_ok(
                parts_view(#[trigger] s[k]@),
            ) by {
                if k < i {
                    assert(s[k] == preview.piece_paths@.subrange(0, i as int)[k]);
                }
            }
        }
        i = i + 1;
    }
    assert(preview.piece_paths@.subrange(0, i as int) =~= preview.piece_paths@);
    Ok(())
}

/// Whether every path of the list lies under `from`.
pub open spec fn all_under(paths: Seq<Vec<PathPart>>, from: Seq<PartView>) -> bool {
    forall|i: int| 0 <= i < paths.len() ==> is_prefix_of(from, parts_view(#[trigger] paths[i]@))
}

/// Moves the files of a render from the save's staging directory to its
/// promoted one. It fails, with the code of effect artifact paths, when a
/// file lies outside the staging directory.
pub fn rebase_generated_preview(
    generated: &mut GeneratedPreview,
    staging_dir: &Vec<PathPart>,
    final_dir: &Vec<PathPart>,
) -> (r: Result<(), AppError>)
    ensures
        r is Ok <==> (is_prefix_of(parts_view(staging_dir@), parts_view(old(generated).current_preview_path@))
            && is_prefix_of(parts_view(staging_dir@), parts_view(old(generated).poster_path@))
            && all_under(old(generated).piece_paths@, parts_view(staging_dir@))),
        r is Ok ==> {
            &&& parts_view(final(generated).current_preview_path@) == rebased(
                parts_view(old(generated).current_preview_path@),
                parts_view(staging_dir@),
                parts_view(final_dir@),
            )
            &&& parts_view(final(generated).poster_path@) == rebased(
                parts_view(old(generated).poster_path@),
                parts_view(staging_dir@),
                parts_view(final_dir@),
            )
            &&& final(generated).piece_paths@.len() == old(generated).piece_paths@.len()
            &&& forall|i: int|
                0 <= i < old(generated).piece_paths@.len() ==> parts_view(
                    #[trigger] final(generated).piece_paths@[i]@,
                ) == rebased(
                    parts_view(old(generated).piece_paths@[i]@),
                    parts_view(staging_dir@),
                    parts_view(final_dir@),
                )
        },
        r matches Err(e) ==> e.code == ErrorCode::EffectArtifactPath && e.message@
            == "효과 저장 결과가 요청 전용 임시 폴더 밖을 가리킵니다."@,
{
    let current = rebase_effect_artifact_path(&generated.current_preview_path, staging_dir, final_dir)?;
    generated.current_preview_path = current;
    let poster = rebase_effect_artifact_path(&generated.poster_path, staging_dir, final_dir)?;
    generated.poster_path = poster;
    let ghost pieces = generated.piece_paths@;
    let mut moved: Vec<Vec<PathPart>> = Vec::new();
    let mut i: usize = 0;
    while i < generated.piece_paths.len()
        invariant
            i <= generated.piece_paths.len(),
            generated.piece_paths@ == pieces,
            pieces == old(generated).piece_paths@,
            moved@.len() == i,
            all_under(pieces.subrange(0, i as int), parts_view(staging_dir@)),
            forall|k: int|
                0 <= k < i ==> parts_view(#[trigger] moved@[k]@) == rebased(
                    parts_view(pieces[k]@),
                    parts_view(staging_dir@),
                    parts_view(final_dir@),
                ),
        decreases generated.piece_paths.len() - i,
    {
        let p = rebase_effect_artifact_path(&generated.piece_paths[i], staging_dir, final_dir);
        match p {
            Ok(q) => {
                moved.push(q);
            },
            Err(e) => {
                proof {
                    assert(!is_prefix_of(parts_view(staging_dir@), parts_view(pieces[i as int]@)));
                }
                return Err(e);
            },
        }
        proof {
            let s = pieces.subrange(0, i + 1);
            assert forall|k: int| 0 <= k < s.len() implies is_prefix_of(
                parts_view(staging_dir@),
                parts_view(#[trigger] s[k]@),
            ) by {
                if k < i {
                    assert(s[k] == pieces.subrange(0, i as int)[k]);
                }
            }
        }
        i = i + 1;
    }
    assert(pieces.subrange(0, i as int) =~= pieces);
    generated.piece_paths = moved;
    Ok(())
}

} // verus!

//! Export settings of collections and of their export profiles: the formats
//! and file-name modes they accept, the dimension limits they are held to,
//! and how stored values are read back in normal form.

use vstd::prelude::*;

use crate::error::{AppError, ErrorCode};
use crate::text::{chars_eq_str, folded, folded_chars, owned};

verus! {

/// The dimension limits of imported and exported images.
#[derive(Clone, Copy, Debug)]
pub struct ImportLimits {
    pub max_width: u32,
    pub max_height: u32,
    pub max_pixels: u64,
}

/// Whether an image of `width` by `height` pixels is within the limits.
pub open spec fn dimensions_within(limits: ImportLimits, width: int, height: int) -> bool {
    &&& 1 <= width <= limits.max_width
    &&& 1 <= height <= limits.max_height
    &&& width * height <= limits.max_pixels
}

/// Why image dimensions are refused, if they are: a side out of range, or
/// too many pixels.
pub open spec fn dimension_refusal(limits: ImportLimits, width: int, height: int) -> Option<
    Seq<char>,
> {
    if width < 1 || height < 1 || width > limits.max_width || height > limits.max_height {
        Some("이미지 크기가 허용 범위를 벗어났습니다."@)
    } else if width * height > limits.max_pixels {
        Some("이미지 픽셀 수가 허용 범위를 벗어났습니다."@)
    } else {
        None
    }
}

/// Accepts image dimensions within the limits.
pub fn validate_import_dimensions(limits: ImportLimits, width: u32, height: u32) -> (r: Result<
    (),
    AppError,
>)
    ensures
        r is Ok <==> dimensions_within(limits, width as int, height as int),
        r matches Err(e) ==> e.code == ErrorCode::Validation && Some(e.message@)
            == dimension_refusal(limits, width as int, height as int),
{
    if width == 0 || height == 0 || width > limits.max_width || height > limits.max_height {
        return Err(AppError::validation("이미지 크기가 허용 범위를 벗어났습니다."));
    }
    let w: u64 = width as u64;
    let h: u64 = height as u64;
    assert(w * h <= 0xffff_ffff * 0xffff_ffff) by (nonlinear_arith)
        requires
            w <= 0xffff_ffff,
            h <= 0xffff_ffff,
    ;
    let pixels: u64 = w * h;
    if pixels > limits.max_pixels {
        return Err(AppError::validation("이미지 픽셀 수가 허용 범위를 벗어났습니다."));
    }
    Ok(())
}

/// Whether a stored dimension converts to `u32` and, with its partner, lies
/// within the limits.
pub open spec fn stored_dimensions_ok(limits: ImportLimits, width: i64, height: i64) -> bool {
    0 <= width <= u32::MAX && 0 <= height <= u32::MAX && dimensions_within(
        limits,
        width as int,
        height as int,
    )
}

/// Why stored dimensions are refused, if they are: a side that does not fit
/// `u32` (with the message given for it), or the limits.
pub open spec fn stored_dimension_refusal(
    limits: ImportLimits,
    width: i64,
    height: i64,
    width_message: Seq<char>,
    height_message: Seq<char>,
) -> Option<Seq<char>> {
    if width < 0 || width > u32::MAX {
        Some(width_message)
    } else if height < 0 || height > u32::MAX {
        Some(height_message)
    } else {
        dimension_refusal(limits, width as int, height as int)
    }
}

fn validate_stored_dimensions(
    limits: ImportLimits,
    width: i64,
    height: i64,
    width_message: &str,
    height_message: &str,
) -> (r: Result<(), AppError>)
    ensures
        r is Ok <==> stored_dimensions_ok(limits, width, height),
        r matches Err(e) ==> e.code == ErrorCode::Validation && Some(e.message@)
            == stored_dimension_refusal(limits, width, height, width_message@, height_message@),
{
    if width < 0 || width > u32::MAX as i64 {
        return Err(AppError::validation(width_message));
    }
    if height < 0 || height > u32::MAX as i64 {
        return Err(AppError::validation(height_message));
    }
    validate_import_dimensions(limits, width as u32, height as u32)
}

/// The export formats a setting may name.
pub open spec fn is_export_format(f: Seq<char>) -> bool {
    f == "jpg"@ || f == "jpeg"@ || f == "png"@ || f == "gif"@ || f == "source"@
}

/// The file-name modes of an export.
pub open spec fn is_filename_mode(m: Seq<char>) -> bool {
    m == "sequence"@ || m == "alt"@
}

fn export_format_named(f: &str) -> (r: bool)
    ensures
        r == is_export_format(f@),
{
    let v = crate::text::chars_of(f);
    chars_eq_str(&v, "jpg") || chars_eq_str(&v, "jpeg") || chars_eq_str(&v, "png")
        || chars_eq_str(&v, "gif") || chars_eq_str(&v, "source")
}

/// The normal form of a stored export format: trimmed and lower-cased,
/// `jpeg` read as `jpg`, and anything unknown read as `png`.
pub open spec fn normal_format(f: Seq<char>) -> Seq<char> {
    let t = folded(f);
    if t == "jpeg"@ || t == "jpg"@ {
        "jpg"@
    } else if t == "gif"@ {
        "gif"@
    } else if t == "source"@ {
        "source"@
    } else {
        "png"@
    }
}

/// ASCII upper-casing of a character, as `char::to_ascii_uppercase` does it.
pub open spec fn upper_char(c: char) -> char {
    if crate::text::is_ascii_lower(c) {
        ((c as u32 - 32) as u8) as char
    } else {
        c
    }
}

/// ASCII upper-casing of a text, as `str::to_ascii_uppercase` does it.
pub open spec fn upper_ascii(s: Seq<char>) -> Seq<char> {
    s.map_values(|c: char| upper_char(c))
}

proof fn lemma_literal_folded(x: Seq<char>)
    requires
        x.len() > 0,
        forall|i: int| 0 <= i < x.len() ==> #[trigger] crate::text::is_ascii_lower(x[i]),
    ensures
        folded(x) == x,
{
    assert(crate::text::is_ascii_lower(x[0]));
    assert(crate::text::is_ascii_lower(x[x.len() - 1]));
    assert(!crate::text::is_white_space(x[0]));
    assert(!crate::text::is_white_space(x.last()));
    assert(crate::text::trim_start(x) == x);
    assert(crate::text::trim_end(x) == x);
    assert forall|i: int| 0 <= i < x.len() implies crate::text::lower_char(x[i]) == x[i] by {
        assert(crate::text::is_ascii_lower(x[i]));
    }
    assert(crate::text::lower_ascii(x) =~= x);
}

/// The normal form of an export format is a fixed point: it is one of
/// `jpg`, `gif`, `source` and `png`, and normalising it again changes
/// nothing.
pub proof fn lemma_normal_format_is_fixed_point(f: Seq<char>)
    ensures
        normal_format(f) == "jpg"@ || normal_format(f) == "gif"@ || normal_format(f)
            == "source"@ || normal_format(f) == "png"@,
        normal_format(normal_format(f)) == normal_format(f),
{
    reveal_strlit("jpg");
    reveal_strlit("jpeg");
    reveal_strlit("gif");
    reveal_strlit("source");
    reveal_strlit("png");
    let n = normal_format(f);
    lemma_literal_folded(n);
}

proof fn lemma_trim_start_upper(s: Seq<char>)
    ensures
        crate::text::trim_start(upper_ascii(s)) == upper_ascii(crate::text::trim_start(s)),
    decreases s.len(),
{
    if s.len() > 0 {
        assert(upper_ascii(s).drop_first() =~= upper_ascii(s.drop_first()));
        lemma_trim_start_upper(s.drop_first());
    }
}

proof fn lemma_trim_end_upper(s: Seq<char>)
    ensures
        crate::text::trim_end(upper_ascii(s)) == upper_ascii(crate::text::trim_end(s)),
    decreases s.len(),
{
    if s.len() > 0 {
        assert(upper_ascii(s).drop_last() =~= upper_ascii(s.drop_last()));
        lemma_trim_end_upper(s.drop_last());
    }
}

/// Upper-casing an export format does not change its normal form.
pub proof fn lemma_normal_format_ignores_upper_case(f: Seq<char>)
    ensures
        normal_format(upper_ascii(f)) == normal_format(f),
{
    lemma_trim_start_upper(f);
    lemma_trim_end_upper(crate::text::trim_start(f));
    let t = crate::text::trim(f);
    assert(crate::text::trim(upper_ascii(f)) == upper_ascii(t));
    assert forall|i: int| 0 <= i < t.len() implies crate::text::lower_char(
        #[trigger] upper_ascii(t)[i],
    ) == crate::text::lower_char(t[i]) by {
        let c = t[i];
        if crate::text::is_ascii_lower(c) {
            assert(97 <= c as u32 <= 122);
        }
    }
    assert(crate::text::lower_ascii(upper_ascii(t)) =~= crate::text::lower_ascii(t));
}

/// The target format of an export profile in normal form.
pub fn normalized_target_format(format: &str) -> (r: String)
    ensures
        r@ == normal_format(format@),
{
    let t = folded_chars(format);
    if chars_eq_str(&t, "jpeg") || chars_eq_str(&t, "jpg") {
        owned("jpg")
    } else if chars_eq_str(&t, "gif") {
        owned("gif")
    } else if chars_eq_str(&t, "source") {
        owned("source")
    } else {
        owned("png")
    }
}

/// The export format of a collection in normal form.
pub fn normalized_export_format(format: &str) -> (r: String)
    ensures
        r@ == normal_format(format@),
{
    normalized_target_format(format)
}

/// A flag as the integer the database stores.
pub fn bool_to_i64(value: bool) -> (r: i64)
    ensures
        r == (if value {
            1i64
        } else {
            0i64
        }),
{
    if value {
        1
    } else {
        0
    }
}

/// The settings a user saves for an export.
#[derive(Debug)]
pub struct ExportRequestPayload {
    pub profile_id: String,
    pub target_format: String,
    pub target_cell_width: i64,
    pub target_cell_height: i64,
    pub max_bytes: i64,
    pub filename_mode: String,
    pub include_alt_txt: bool,
    pub strict_warnings: bool,
    pub output_directory: Option<String>,
    pub open_folder_after_export: bool,
    pub open_alt_txt_after_export: bool,
    pub excluded_piece_ids: Vec<String>,
    pub resize_filter: String,
}

/// Whether export settings may be saved to a profile.
pub open spec fn profile_settings_ok(p: ExportRequestPayload, limits: ImportLimits) -> bool {
    &&& is_export_format(p.target_format@)
    &&& is_filename_mode(p.filename_mode@)
    &&& stored_dimensions_ok(limits, p.target_cell_width, p.target_cell_height)
    &&& p.max_bytes > 0
}

/// Why export settings are refused, checked in order: the format, the
/// file-name mode, the cell, the size limit.
pub open spec fn profile_settings_refusal(p: ExportRequestPayload, limits: ImportLimits) -> Option<
    Seq<char>,
> {
    if !is_export_format(p.target_format@) {
        Some("지원하지 않는 내보내기 형식입니다."@)
    } else if !is_filename_mode(p.filename_mode@) {
        Some("지원하지 않는 파일명 방식입니다."@)
    } else if !stored_dimensions_ok(limits, p.target_cell_width, p.target_cell_height) {
        stored_dimension_refusal(
            limits,
            p.target_cell_width,
            p.target_cell_height,
            "프로필 기준 너비가 올바르지 않습니다."@,
            "프로필 기준 높이가 올바르지 않습니다."@,
        )
    } else if p.max_bytes <= 0 {
        Some("파일 용량 제한은 1바이트 이상이어야 합니다."@)
    } else {
        None
    }
}

/// How a stored export format is read, trimmed and in any case: `jpg` and
/// `jpeg` as `jpg`, `gif` as `gif`, `source` as `source`, and everything
/// else as `png`.
pub proof fn lemma_normal_format_by_name(f: Seq<char>)
    ensures
        (folded(f) == "jpg"@ || folded(f) == "jpeg"@) ==> normal_format(f) == "jpg"@,
        folded(f) == "gif"@ ==> normal_format(f) == "gif"@,
        folded(f) == "source"@ ==> normal_format(f) == "source"@,
        (folded(f) != "jpg"@ && folded(f) != "jpeg"@ && folded(f) != "gif"@ && folded(f)
            != "source"@) ==> normal_format(f) == "png"@,
{
    reveal_strlit("jpg");
    reveal_strlit("jpeg");
    reveal_strlit("gif");
    reveal_strlit("source");
    assert("gif"@.len() != "jpeg"@.len() && "gif"@[0] != "jpg"@[0]);
    assert("source"@.len() != "jpeg"@.len() && "source"@.len() != "jpg"@.len() && "source"@.len()
        != "gif"@.len());
}

/// A profile whose stored list of allowed formats cannot be read allows
/// `jpg` (listed for `jpg` and for `jpeg`), `png` and `gif`, in that order.
pub proof fn lemma_unreadable_allowed_formats(text: Seq<char>)
    ensures
        json_string_list(text) is None ==> allowed_formats_of(text) == seq![
            "jpg"@,
            "jpg"@,
            "png"@,
            "gif"@,
        ],
{
    if json_string_list(text) is None {
        reveal_strlit("jpg");
        reveal_strlit("jpeg");
        reveal_strlit("png");
        reveal_strlit("gif");
        reveal_strlit("source");
        let d = default_allowed_formats();
        lemma_normal_format_by_name("jpg"@);
        lemma_normal_format_by_name("jpeg"@);
        lemma_normal_format_by_name("png"@);
        lemma_normal_format_by_name("gif"@);
        lemma_literal_folded_lower("jpg"@);
        lemma_literal_folded_lower("jpeg"@);
        lemma_literal_folded_lower("png"@);
        lemma_literal_folded_lower("gif"@);
        let a = allowed_formats_of(text);
        assert(a.len() == 4);
        assert(a[0] == normal_format(d[0]));
        assert(a[1] == normal_format(d[1]));
        assert(a[2] == normal_format(d[2]));
        assert(a[3] == normal_format(d[3]));
        assert("png"@.len() != "jpeg"@.len() && "png"@[0] != "jpg"@[0] && "png"@[0] != "gif"@[0]);
        assert("png"@.len() != "source"@.len());
        assert(a =~= seq!["jpg"@, "jpg"@, "png"@, "gif"@]);
    }
}

proof fn lemma_literal_folded_lower(x: Seq<char>)
    requires
        x == "jpg"@ || x == "jpeg"@ || x == "png"@ || x == "gif"@,
    ensures
        folded(x) == x,
{
    reveal_strlit("jpg");
    reveal_strlit("jpeg");
    reveal_strlit("png");
    reveal_strlit("gif");
    lemma_literal_folded(x);
}

/// Export settings name one of the formats `jpg`, `jpeg`, `png`, `gif` and
/// `source`, and one of the file-name modes `sequence` and `alt`; nothing
/// else is saved. Every normal form of a stored format is a format the
/// settings may name, so settings holding a normalised format, a known mode,
/// a valid cell and a positive size limit are saved, for a profile and for a
/// collection alike.
pub proof fn lemma_export_settings_formats(
    p: ExportRequestPayload,
    c: UpdateCollectionSettingsPayload,
    limits: ImportLimits,
    stored: Seq<char>,
)
    ensures
        profile_settings_ok(p, limits) <==> {
            &&& (p.target_format@ == "jpg"@ || p.target_format@ == "jpeg"@ || p.target_format@
                == "png"@ || p.target_format@ == "gif"@ || p.target_format@ == "source"@)
            &&& (p.filename_mode@ == "sequence"@ || p.filename_mode@ == "alt"@)
            &&& stored_dimensions_ok(limits, p.target_cell_width, p.target_cell_height)
            &&& p.max_bytes > 0
        },
        collection_settings_ok(c, limits) <==> {
            &&& stored_dimensions_ok(limits, c.default_cell_width, c.default_cell_height)
            &&& stored_dimensions_ok(limits, c.preview_width, c.preview_height)
            &&& c.max_bytes > 0
            &&& (c.export_format@ == "jpg"@ || c.export_format@ == "jpeg"@ || c.export_format@
                == "png"@ || c.export_format@ == "gif"@ || c.export_format@ == "source"@)
        },
        (p.target_format@ == normal_format(stored) && (p.filename_mode@ == "sequence"@
            || p.filename_mode@ == "alt"@) && stored_dimensions_ok(
            limits,
            p.target_cell_width,
            p.target_cell_height,
        ) && p.max_bytes > 0) ==> profile_settings_ok(p, limits),
        (c.export_format@ == normal_format(stored) && stored_dimensions_ok(
            limits,
            c.default_cell_width,
            c.default_cell_height,
        ) && stored_dimensions_ok(limits, c.preview_width, c.preview_height) && c.max_bytes > 0)
            ==> collection_settings_ok(c, limits),
{
    lemma_normal_format_is_fixed_point(stored);
}

/// Accepts export settings whose format and file-name mode are known, whose
/// cell fits `u32` and the limits, and whose size limit is positive.
pub fn validate_profile_settings(payload: &ExportRequestPayload, limits: ImportLimits) -> (r: Result<
    (),
    AppError,
>)
    ensures
        r is Ok <==> profile_settings_ok(*payload, limits),
        r matches Err(e) ==> e.code == ErrorCode::Validation && Some(e.message@)
            == profile_settings_refusal(*payload, limits),
{
    if !export_format_named(payload.target_format.as_str()) {
        return Err(AppError::validation("지원하지 않는 내보내기 형식입니다."));
    }
    let mode = crate::text::chars_of(payload.filename_mode.as_str());
    if !(chars_eq_str(&mode, "sequence") || chars_eq_str(&mode, "alt")) {
        return Err(AppError::validation("지원하지 않는 파일명 방식입니다."));
    }
    validate_stored_dimensions(
        limits,
        payload.target_cell_width,
        payload.target_cell_height,
        "프로필 기준 너비가 올바르지 않습니다.",
        "프로필 기준 높이가 올바르지 않습니다.",
    )?;
    if payload.max_bytes <= 0 {
        return Err(AppError::validation("파일 용량 제한은 1바이트 이상이어야 합니다."));
    }
    Ok(())
}

/// The sizes and format a user saves for a collection.
#[derive(Debug)]
pub struct UpdateCollectionSettingsPayload {
    pub default_cell_width: i64,
    pub default_cell_height: i64,
    pub preview_width: i64,
    pub preview_height: i64,
    pub export_format: String,
    pub max_bytes: i64,
}

/// Whether collection settings may be saved.
pub open spec fn collection_settings_ok(
    p: UpdateCollectionSettingsPayload,
    limits: ImportLimits,
) -> bool {
    &&& stored_dimensions_ok(limits, p.default_cell_width, p.default_cell_height)
    &&& stored_dimensions_ok(limits, p.preview_width, p.preview_height)
    &&& p.max_bytes > 0
    &&& is_export_format(p.export_format@)
}

/// Why collection settings are refused, checked in order: the cell, the
/// preview, the size limit, the format.
pub open spec fn collection_settings_refusal(
    p: UpdateCollectionSettingsPayload,
    limits: ImportLimits,
) -> Option<Seq<char>> {
    if !stored_dimensions_ok(limits, p.default_cell_width, p.default_cell_height) {
        stored_dimension_refusal(
            limits,
            p.default_cell_width,
            p.default_cell_height,
            "모음 기준 너비가 올바르지 않습니다."@,
            "모음 기준 높이가 올바르지 않습니다."@,
        )
    } else if !stored_dimensions_ok(limits, p.preview_width, p.preview_height) {
        stored_dimension_refusal(
            limits,
            p.preview_width,
            p.preview_height,
            "모음 표시 너비가 올바르지 않습니다."@,
            "모음 표시 높이가 올바르지 않습니다."@,
        )
    } else if p.max_bytes <= 0 {
        Some("파일 용량 제한은 1바이트 이상이어야 합니다."@)
    } else if !is_export_format(p.export_format@) {
        Some("지원하지 않는 기본 내보내기 형식입니다."@)
    } else {
        None
    }
}

/// Accepts collection settings whose cell and preview sizes fit `u32` and
/// the limits, whose size limit is positive and whose format is known.
pub fn validate_collection_settings(
    payload: &UpdateCollectionSettingsPayload,
    limits: ImportLimits,
) -> (r: Result<(), AppError>)
    ensures
        r is Ok <==> collection_settings_ok(*payload, limits),
        r matches Err(e) ==> e.code == ErrorCode::Validation && Some(e.message@)
            == collection_settings_refusal(*payload, limits),
{
    validate_stored_dimensions(
        limits,
        payload.default_cell_width,
        payload.default_cell_height,
        "모음 기준 너비가 올바르지 않습니다.",
        "모음 기준 높이가 올바르지 않습니다.",
    )?;
    validate_stored_dimensions(
        limits,
        payload.preview_width,
        payload.preview_height,
        "모음 표시 너비가 올바르지 않습니다.",
        "모음 표시 높이가 올바르지 않습니다.",
    )?;
    if payload.max_bytes <= 0 {
        return Err(AppError::validation("파일 용량 제한은 1바이트 이상이어야 합니다."));
    }
    if !export_format_named(payload.export_format.as_str()) {
        return Err(AppError::validation("지원하지 않는 기본 내보내기 형식입니다."));
    }
    Ok(())
}

/// An export profile of a collection.
#[derive(Debug)]
pub struct ExportProfileDto {
    pub id: String,
    pub collection_id: String,
    pub name: String,
    pub profile_type: String,
    pub target_format: String,
    pub target_cell_width: i64,
    pub target_cell_height: i64,
    pub preview_width: i64,
    pub preview_height: i64,
    pub max_bytes: i64,
    pub allowed_formats: Vec<String>,
    pub filename_mode: String,
    pub include_alt_txt: bool,
    pub strict_warnings: bool,
    pub created_at: String,
    pub updated_at: String,
}

/// An export profile's row as the database stores it.
#[derive(Debug)]
pub struct ExportProfileColumns {
    pub id: String,
    pub collection_id: String,
    pub name: String,
    pub profile_type: String,
    pub target_format: String,
    pub target_cell_width: i64,
    pub target_cell_height: i64,
    pub preview_width: i64,
    pub preview_height: i64,
    pub max_bytes: i64,
    pub allowed_formats_json: String,
    pub filename_mode: String,
    pub include_alt_txt: i64,
    pub strict_warnings: i64,
    pub created_at: String,
    pub updated_at: String,
}

/// The texts of a list of strings.
pub open spec fn string_views(v: Seq<String>) -> Seq<Seq<char>> {
    v.map_values(|s: String| s@)
}

/// What `serde_json::from_str::<Vec<String>>` reads from a text: the list of
/// strings, or `None` where the text is not a JSON array of strings.
pub uninterp spec fn json_string_list(text: Seq<char>) -> Option<Seq<Seq<char>>>;

/// A hexadecimal digit as `serde_json` writes it: `0`-`9`, then `a`-`f`.
pub open spec fn json_hex_digit(n: int) -> char {
    if n < 10 {
        ((48 + n) as u8) as char
    } else {
        ((87 + n) as u8) as char
    }
}

/// How `serde_json` writes one character inside a string: `"` and `\`
/// behind a backslash, backspace, tab, newline, form feed and carriage
/// return as `\b`, `\t`, `\n`, `\f`, `\r`, the other control characters
/// below 0x20 as `\u00` and two lower-case hexadecimal digits, and every
/// other character as it is.
pub open spec fn json_escaped_char(c: char) -> Seq<char> {
    if c == '"' {
        seq!['\\', '"']
    } else if c == '\\' {
        seq!['\\', '\\']
    } else if c == '\u{8}' {
        seq!['\\', 'b']
    } else if c == '\t' {
        seq!['\\', 't']
    } else if c == '\n' {
        seq!['\\', 'n']
    } else if c == '\u{c}' {
        seq!['\\', 'f']
    } else if c == '\r' {
        seq!['\\', 'r']
    } else if (c as u32) < 0x20 {
        seq![
            '\\',
            'u',
            '0',
            '0',
            json_hex_digit((c as u32) as int / 16),
            json_hex_digit((c as u32) as int % 16),
        ]
    } else {
        seq![c]
    }
}

/// The characters of a string as `serde_json` writes them inside quotes.
pub open spec fn json_escaped(s: Seq<char>) -> Seq<char>
    decreases s.len(),
{
    if s.len() == 0 {
        Seq::empty()
    } else {
        json_escaped(s.drop_last()) + json_escaped_char(s.last())
    }
}

/// A string as `serde_json` writes it: quoted and escaped.
pub open spec fn json_string_text(s: Seq<char>) -> Seq<char> {
    seq!['"'] + json_escaped(s) + seq!['"']
}

/// The strings written one after the other, separated by commas.
pub open spec fn json_joined(items: Seq<Seq<char>>) -> Seq<char>
    decreases items.len(),
{
    if items.len() == 0 {
        Seq::empty()
    } else if items.len() == 1 {
        json_string_text(items[0])
    } else {
        json_joined(items.drop_last()) + seq![','] + json_string_text(items.last())
    }
}

/// What `serde_json::to_string` writes for a list of strings: the compact
/// JSON array of the quoted, escaped strings.
pub open spec fn json_list_text(items: Seq<Seq<char>>) -> Seq<char> {
    seq!['['] + json_joined(items) + seq![']']
}

/// `serde_json::from_str::<Vec<String>>`, its error dropped.
#[verifier::external_body]
fn parse_string_list(text: &str) -> (r: Option<Vec<String>>)
    ensures
        match r {
            Some(v) => json_string_list(text@) == Some(string_views(v@)),
            None => json_string_list(text@) is None,
        },
{
    serde_json::from_str::<Vec<String>>(text).ok()
}

/// `serde_json::to_string` of a list of strings, its error dropped: claimed
/// to give the compact JSON array text, which writing into memory never
/// fails to produce.
#[verifier::external_body]
fn string_list_text(items: &Vec<String>) -> (r: Option<String>)
    ensures
        r is Some,
        r->0@ == json_list_text(string_views(items@)),
{
    serde_json::to_string(items).ok()
}

/// The formats an export profile allows when its stored list is unreadable.
pub open spec fn default_allowed_formats() -> Seq<Seq<char>> {
    seq!["jpg"@, "jpeg"@, "png"@, "gif"@]
}

/// The allowed formats read from their stored JSON text: the stored list, or
/// the default list when the text is not a list of strings, each in normal
/// form.
pub open spec fn allowed_formats_of(text: Seq<char>) -> Seq<Seq<char>> {
    let listed = match json_string_list(text) {
        Some(l) => l,
        None => default_allowed_formats(),
    };
    listed.map_values(|f: Seq<char>| normal_format(f))
}

fn default_format_list() -> (r: Vec<String>)
    ensures
        string_views(r@) == default_allowed_formats(),
{
    let mut r: Vec<String> = Vec::new();
    r.push(owned("jpg"));
    r.push(owned("jpeg"));
    r.push(owned("png"));
    r.push(owned("gif"));
    assert(string_views(r@) =~= default_allowed_formats());
    r
}

/// The allowed formats of a profile read from their stored JSON text.
pub fn allowed_formats_from_json(value: &str) -> (r: Vec<String>)
    ensures
        string_views(r@) == allowed_formats_of(value@),
{
    let listed = match parse_string_list(value) {
        Some(l) => l,
        None => default_format_list(),
    };
    let ghost listed_views = string_views(listed@);
    assert(listed_views == match json_string_list(value@) {
        Some(l) => l,
        None => default_allowed_formats(),
    });
    let mut r: Vec<String> = Vec::new();
    let mut i: usize = 0;
    while i < listed.len()
        invariant
            i <= listed.len(),
            listed_views == string_views(listed@),
            r.len() == i,
            string_views(r@) == listed_views.subrange(0, i as int).map_values(
                |f: Seq<char>| normal_format(f),
            ),
        decreases listed.len() - i,
    {
        let f = normalized_target_format(listed[i].as_str());
        let ghost before = r@;
        r.push(f);
        proof {
            let want = listed_views.subrange(0, i + 1).map_values(|f: Seq<char>| normal_format(f));
            assert forall|k: int| 0 <= k < i + 1 implies #[trigger] string_views(r@)[k] == want[k] by {
                if k < i {
                    assert(string_views(before)[k] == listed_views.subrange(0, i as int).map_values(
                        |f: Seq<char>| normal_format(f),
                    )[k]);
                }
            }
            assert(string_views(r@) =~= want);
        }
        i = i + 1;
    }
    assert(listed_views.subrange(0, i as int) =~= listed_views);
    r
}

/// The JSON text stored for the default list of allowed formats.
pub open spec fn default_formats_json() -> Seq<char> {
    "[\"jpg\",\"jpeg\",\"png\",\"gif\"]"@
}

impl ExportProfileDto {
    /// The JSON text stored for the profile's allowed formats: the list
    /// serialised (the default list's text would stand in should
    /// serialisation fail, which it does not).
    pub fn allowed_formats_as_json(&self) -> (r: String)
        ensures
            r@ == json_list_text(string_views(self.allowed_formats@)),
    {
        match string_list_text(&self.allowed_formats) {
            Some(t) => t,
            None => owned("[\"jpg\",\"jpeg\",\"png\",\"gif\"]"),
        }
    }
}

/// A profile read from its stored row: the target format and the allowed
/// formats in normal form, flags read as non-zero integers.
pub fn profile_from_columns(row: ExportProfileColumns) -> (p: ExportProfileDto)
    ensures
        p.id == row.id,
        p.collection_id == row.collection_id,
        p.name == row.name,
        p.profile_type == row.profile_type,
        p.target_format@ == normal_format(row.target_format@),
        p.target_cell_width == row.target_cell_width,
        p.target_cell_height == row.target_cell_height,
        p.preview_width == row.preview_width,
        p.preview_height == row.preview_height,
        p.max_bytes == row.max_bytes,
        string_views(p.allowed_formats@) == allowed_formats_of(row.allowed_formats_json@),
        p.filename_mode == row.filename_mode,
        p.include_alt_txt == (row.include_alt_txt != 0),
        p.strict_warnings == (row.strict_warnings != 0),
        p.created_at == row.created_at,
        p.updated_at == row.updated_at,
{
    let target_format = normalized_target_format(row.target_format.as_str());
    let allowed_formats = allowed_formats_from_json(row.allowed_formats_json.as_str());
    ExportProfileDto {
        id: row.id,
        collection_id: row.collection_id,
        name: row.name,
        profile_type: row.profile_type,
        target_format,
        target_cell_width: row.target_cell_width,
        target_cell_height: row.target_cell_height,
        preview_width: row.preview_width,
        preview_height: row.preview_height,
        max_bytes: row.max_bytes,
        allowed_formats,
        filename_mode: row.filename_mode,
        include_alt_txt: row.include_alt_txt != 0,
        strict_warnings: row.strict_warnings != 0,
        created_at: row.created_at,
        updated_at: row.updated_at,
    }
}

/// The values written when export settings are saved to a profile.
#[derive(Debug)]
pub struct ProfileSettingsUpdate {
    pub target_format: String,
    pub target_cell_width: i64,
    pub target_cell_height: i64,
    pub max_bytes: i64,
    pub filename_mode: String,
    pub include_alt_txt: i64,
    pub strict_warnings: i64,
    pub allowed_formats_json: String,
}

/// The values written when export settings are saved to a profile: the
/// format in normal form, the flags as integers, and the allowed formats
/// fixed for the DCInside profile and kept for any other.
pub fn profile_settings_update(payload: &ExportRequestPayload, profile: &ExportProfileDto) -> (u:
    ProfileSettingsUpdate)
    ensures
        u.target_format@ == normal_format(payload.target_format@),
        u.target_cell_width == payload.target_cell_width,
        u.target_cell_height == payload.target_cell_height,
        u.max_bytes == payload.max_bytes,
        u.filename_mode@ == payload.filename_mode@,
        u.include_alt_txt == (if payload.include_alt_txt {
            1i64
        } else {
            0i64
        }),
        u.strict_warnings == (if payload.strict_warnings {
            1i64
        } else {
            0i64
        }),
        profile.profile_type@ == "dcinside"@ ==> u.allowed_formats_json@ == default_formats_json(),
        profile.profile_type@ != "dcinside"@ ==> u.allowed_formats_json@ == json_list_text(
            string_views(profile.allowed_formats@),
        ),
{
    let allowed_formats_json = if crate::text::str_eq(profile.profile_type.as_str(), "dcinside") {
        owned("[\"jpg\",\"jpeg\",\"png\",\"gif\"]")
    } else {
        profile.allowed_formats_as_json()
    };
    ProfileSettingsUpdate {
        target_format: normalized_target_format(payload.target_format.as_str()),
        target_cell_width: payload.target_cell_width,
        target_cell_height: payload.target_cell_height,
        max_bytes: payload.max_bytes,
        filename_mode: payload.filename_mode.clone(),
        include_alt_txt: bool_to_i64(payload.include_alt_txt),
        strict_warnings: bool_to_i64(payload.strict_warnings),
        allowed_formats_json,
    }
}

} // verus!

//! Rules of icon operations that are not about one table: where a
//! duplicate goes, what a source replacement keeps, when an effect save is
//! still current, which rendered pieces fit a collection, and the blank
//! image a placeholder icon starts from.

use vstd::prelude::*;

use crate::error::{AppError, ErrorCode};
use crate::names::{display_name_from_filename, file_display_name};
use crate::paths::portable_path_text;
use crate::text::{owned, push_str, str_eq, trim};

verus! {

// ---------------------------------------------------------------------------
// Duplicating an icon next to its source

/// Where an icon's order index moves when a new icon is inserted at `slot`:
/// icons at or after the slot move one place back.
pub open spec fn shifted(order: int, slot: int) -> int {
    if order >= slot {
        order + 1
    } else {
        order
    }
}

/// The slot of a duplicate: right after its source, or `None` when the
/// source's order index is the largest there is.
pub fn duplicate_order_index(source_order: i64) -> (r: Option<i64>)
    ensures
        source_order < i64::MAX ==> r == Some((source_order + 1) as i64),
        source_order == i64::MAX ==> r is None,
{
    source_order.checked_add(1)
}

/// A duplicate lands right after its source: every other icon keeps its
/// relative order, none takes the duplicate's slot, and none lies between the
/// source and the duplicate.
pub proof fn lemma_duplicate_lands_next_to_source(source: int, a: int, b: int)
    ensures
        shifted(source, source + 1) == source,
        shifted(a, source + 1) != source + 1,
        shifted(a, source + 1) <= source || shifted(a, source + 1) > source + 1,
        a < b ==> shifted(a, source + 1) < shifted(b, source + 1),
        a == b ==> shifted(a, source + 1) == shifted(b, source + 1),
{
}

/// The name of a duplicated icon: its name followed by ` 복사본`.
pub fn duplicate_icon_name(display_name: &str) -> (r: String)
    ensures
        r@ == display_name@ + " 복사본"@,
{
    let mut r = owned(display_name);
    push_str(&mut r, " 복사본");
    r
}

// ---------------------------------------------------------------------------
// Replacing an icon's source

/// The generation of the lineage a source replacement starts, refused when
/// the generation cannot grow.
pub fn next_lineage_generation(generation: i64) -> (r: Result<i64, AppError>)
    ensures
        generation < i64::MAX ==> r == Ok::<i64, AppError>((generation + 1) as i64),
        generation == i64::MAX ==> (r matches Err(e) && e.code == ErrorCode::AiLineageOverflow
            && e.message@ == "AI 원본 계보 번호를 증가시킬 수 없습니다."@),
{
    match generation.checked_add(1) {
        Some(g) => Ok(g),
        None => Err(
            AppError::new(ErrorCode::AiLineageOverflow, "AI 원본 계보 번호를 증가시킬 수 없습니다."),
        ),
    }
}

/// The display name an icon keeps when its source is replaced: a placeholder
/// takes its name from the new file, any other icon keeps its own.
pub fn replacement_display_name(icon_kind: &str, display_name: String, original_filename: &str) -> (r:
    String)
    ensures
        icon_kind@ != "placeholder"@ ==> r == display_name,
        icon_kind@ == "placeholder"@ && portable_path_text(original_filename@) ==> r@
            == file_display_name(original_filename@),
{
    if str_eq(icon_kind, "placeholder") {
        display_name_from_filename(original_filename)
    } else {
        display_name
    }
}

// ---------------------------------------------------------------------------
// Saving effects

/// Accepts the revision an effect save expects: not negative, and with a
/// next revision that fits.
pub fn validate_expected_effect_revision(expected_revision: i64) -> (r: Result<(), AppError>)
    ensures
        r is Ok <==> 0 <= expected_revision < i64::MAX,
        r matches Err(e) ==> e.code == ErrorCode::Validation,
        expected_revision < 0 ==> (r matches Err(e) && e.message@
            == "효과 recipe revision이 올바르지 않습니다."@),
        expected_revision == i64::MAX ==> (r matches Err(e) && e.message@
            == "효과 revision이 너무 큽니다."@),
{
    if expected_revision < 0 {
        return Err(AppError::validation("효과 recipe revision이 올바르지 않습니다."));
    }
    if expected_revision == i64::MAX {
        return Err(AppError::validation("효과 revision이 너무 큽니다."));
    }
    Ok(())
}

/// Refuses an effect save when what it was rendered from changed meanwhile:
/// the signature taken inside the transaction must be the one rendered.
pub fn ensure_signature_unchanged(rendered: &str, current: &str) -> (r: Result<(), AppError>)
    ensures
        r is Ok <==> rendered@ == current@,
        r matches Err(e) ==> e.code == ErrorCode::Conflict && e.message@
            == "편집 기준이 변경되었습니다. 최신 상태를 다시 불러온 뒤 시도해 주세요."@,
{
    if str_eq(current, rendered) {
        Ok(())
    } else {
        Err(
            AppError::new(
                ErrorCode::Conflict,
                "편집 기준이 변경되었습니다. 최신 상태를 다시 불러온 뒤 시도해 주세요.",
            ),
        )
    }
}

// ---------------------------------------------------------------------------
// Piece sizes

/// The byte limit of a collection, at least one byte.
pub open spec fn byte_limit(max_bytes: i64) -> int {
    if max_bytes < 1 {
        1
    } else {
        max_bytes as int
    }
}

/// Accepts the rendered pieces of a new AI icon when none is larger than the
/// collection's byte limit.
pub fn validate_piece_sizes(max_bytes: i64, sizes: &Vec<u64>) -> (r: Result<(), AppError>)
    ensures
        r is Ok <==> forall|i: int| 0 <= i < sizes@.len() ==> sizes@[i] <= byte_limit(max_bytes),
        r matches Err(e) ==> e.code == ErrorCode::Validation && e.message@
            == "새 AI 아이콘의 미리보기 조각이 모음의 파일 용량 제한을 초과했습니다."@,
{
    let limit: u64 = if max_bytes < 1 {
        1
    } else {
        max_bytes as u64
    };
    let mut i: usize = 0;
    while i < sizes.len()
        invariant
            i <= sizes.len(),
            limit == byte_limit(max_bytes),
            forall|k: int| 0 <= k < i ==> sizes@[k] <= byte_limit(max_bytes),
        decreases sizes.len() - i,
    {
        if sizes[i] > limit {
            return Err(
                AppError::validation(
                    "새 AI 아이콘의 미리보기 조각이 모음의 파일 용량 제한을 초과했습니다.",
                ),
            );
        }
        i = i + 1;
    }
    Ok(())
}

// ---------------------------------------------------------------------------
// Placeholder image

/// `image::ImageError`, carried only as an opaque value: nothing is claimed
/// of what it holds.
#[verifier::external_type_specification]
#[verifier::external_body]
pub struct ExImageError(image::ImageError);

/// The PNG file the `image` crate writes for a fully transparent RGBA image
/// of the given size, or `None` where encoding fails.
pub uninterp spec fn transparent_png(width: u32, height: u32) -> Option<Seq<u8>>;

/// `image::DynamicImage::write_to` with the PNG format, on an
/// `ImageBuffer::from_pixel` of transparent RGBA pixels: claimed to give the
/// encoded bytes named `transparent_png`, or an error exactly when that name
/// is `None`. The buffer must fit a vector, which `from_pixel` otherwise
/// panics on.
#[verifier::external_body]
fn encode_transparent_png(width: u32, height: u32) -> (r: Result<Vec<u8>, image::ImageError>)
    requires
        width as int * height as int * 4 <= isize::MAX as int,
    ensures
        match r {
            Ok(bytes) => transparent_png(width, height) == Some(bytes@),
            Err(_) => transparent_png(width, height) is None,
        },
{
    let buffer = image::ImageBuffer::from_pixel(width, height, image::Rgba([0u8, 0, 0, 0]));
    let mut cursor = std::io::Cursor::new(Vec::new());
    match image::DynamicImage::ImageRgba8(buffer).write_to(&mut cursor, image::ImageFormat::Png) {
        Ok(()) => Ok(cursor.into_inner()),
        Err(error) => Err(error),
    }
}

/// A side of an image, at least one pixel.
pub open spec fn at_least_one(n: u32) -> u32 {
    if n < 1 {
        1
    } else {
        n
    }
}

/// A fully transparent PNG image of the given size (each side at least one
/// pixel), as a placeholder icon's source.
pub fn transparent_png_bytes(width: u32, height: u32) -> (r: Result<Vec<u8>, AppError>)
    requires
        at_least_one(width) as int * at_least_one(height) as int * 4 <= isize::MAX as int,
    ensures
        match transparent_png(at_least_one(width), at_least_one(height)) {
            Some(bytes) => r matches Ok(b) && b@ == bytes,
            None => r matches Err(e) && e.code == ErrorCode::Image && e.message@
                == "빈 이미지를 만들 수 없습니다."@,
        },
{
    let w = if width < 1 {
        1
    } else {
        width
    };
    let h = if height < 1 {
        1
    } else {
        height
    };
    match encode_transparent_png(w, h) {
        Ok(bytes) => Ok(bytes),
        Err(_) => Err(AppError::new(ErrorCode::Image, "빈 이미지를 만들 수 없습니다.")),
    }
}

// ---------------------------------------------------------------------------
// A new icon made from an AI candidate

/// The slot of a new AI icon: right after the icon it was made from.
pub fn working_clone_order_index(source_order: i64) -> (r: Result<i64, AppError>)
    ensures
        source_order < i64::MAX ==> r == Ok::<i64, AppError>((source_order + 1) as i64),
        source_order == i64::MAX ==> (r matches Err(e) && e.code == ErrorCode::AiNewIconOrder
            && e.message@ == "새 AI 아이콘의 정렬 위치를 계산할 수 없습니다."@),
{
    match source_order.checked_add(1) {
        Some(slot) => Ok(slot),
        None => Err(
            AppError::new(
                ErrorCode::AiNewIconOrder,
                "새 AI 아이콘의 정렬 위치를 계산할 수 없습니다.",
            ),
        ),
    }
}

/// The name of a new AI icon: the source's trimmed name followed by ` AI`,
/// or `AI 아이콘` when the source's name is blank.
pub fn working_clone_name(source_name: &str) -> (r: String)
    ensures
        trim(source_name@).len() == 0 ==> r@ == "AI 아이콘"@,
        trim(source_name@).len() > 0 ==> r@ == trim(source_name@) + " AI"@,
{
    let mut name = crate::text::trimmed(source_name);
    if name.as_str().unicode_len() == 0 {
        return owned("AI 아이콘");
    }
    push_str(&mut name, " AI");
    name
}

/// The revision of an icon's AI state after a new version is applied,
/// refused when it cannot grow.
pub fn next_ai_revision(current_revision: i64) -> (r: Result<i64, AppError>)
    ensures
        current_revision < i64::MAX ==> r == Ok::<i64, AppError>((current_revision + 1) as i64),
        current_revision == i64::MAX ==> (r matches Err(e) && e.code
            == ErrorCode::AiRevisionOverflow && e.message@
            == "새 AI 아이콘의 적용 이력 번호를 증가시킬 수 없습니다."@),
{
    match current_revision.checked_add(1) {
        Some(next) => Ok(next),
        None => Err(
            AppError::new(
                ErrorCode::AiRevisionOverflow,
                "새 AI 아이콘의 적용 이력 번호를 증가시킬 수 없습니다.",
            ),
        ),
    }
}

} // verus!

//! Revision-guarded recipe storage: how a stored recipe row is read back and
//! when a save with an expected revision is accepted.

use vstd::prelude::*;

use crate::error::{AppError, ErrorCode};

verus! {

/// A recipe row decoded: the stored recipe text (`None` when the icon has no
/// saved recipe and the default recipe applies) and its revision.
pub open spec fn decoded_row(
    schema: Option<Seq<char>>,
    revision: Option<i64>,
    json: Option<Seq<char>>,
    expected_schema: Seq<char>,
) -> Result<(Option<Seq<char>>, i64), ErrorCode> {
    match schema {
        None => Ok((None, 0)),
        Some(s) => {
            let r = match revision {
                Some(r) => r,
                None => 0,
            };
            if s != expected_schema {
                Err(ErrorCode::Validation)
            } else if r < 1 {
                Err(ErrorCode::Validation)
            } else {
                match json {
                    None => Err(ErrorCode::Validation),
                    Some(j) => Ok((Some(j), r)),
                }
            }
        },
    }
}

/// The revision a save writes, given the revision the editor expects and what
/// the store holds for the icon: `None` when the icon is missing, `Some(None)`
/// when it exists without a saved recipe, `Some(Some(r))` at revision `r`.
pub open spec fn saved_revision(expected: i64, stored: Option<Option<i64>>) -> Result<i64, ErrorCode> {
    if expected < 0 {
        Err(ErrorCode::Validation)
    } else {
        match stored {
            None => Err(ErrorCode::NotFound),
            Some(rev) => {
                let current = match rev {
                    Some(r) => r,
                    None => 0,
                };
                if current != expected {
                    Err(ErrorCode::Conflict)
                } else if current == i64::MAX {
                    Err(ErrorCode::Validation)
                } else {
                    Ok((current + 1) as i64)
                }
            },
        }
    }
}

/// Whether an executable result agrees with a specified one, error codes compared.
pub open spec fn agrees<T>(r: Result<T, AppError>, s: Result<T, ErrorCode>) -> bool {
    match (r, s) {
        (Ok(a), Ok(b)) => a == b,
        (Err(e), Err(c)) => e.code == c,
        _ => false,
    }
}

/// The text an optional string holds.
pub open spec fn opt_text(o: Option<String>) -> Option<Seq<char>> {
    match o {
        Some(t) => Some(t@),
        None => None,
    }
}

/// Whether a decoded row agrees with the specified decoding.
pub open spec fn row_agrees(
    r: Result<(Option<String>, i64), AppError>,
    s: Result<(Option<Seq<char>>, i64), ErrorCode>,
) -> bool {
    match (r, s) {
        (Ok(a), Ok(b)) => opt_text(a.0) == b.0 && a.1 == b.1,
        (Err(e), Err(c)) => e.code == c,
        _ => false,
    }
}

/// Which of the two recipe tables a row belongs to; only the messages differ.
#[derive(Clone, Copy, Debug, PartialEq, Eq, Structural)]
pub enum RecipeKind {
    Effect,
    Motion,
}

/// The message a refused row decoding carries, by the kind of recipe.
pub open spec fn decode_refusal(
    kind: RecipeKind,
    schema: Option<Seq<char>>,
    revision: Option<i64>,
    json: Option<Seq<char>>,
    expected_schema: Seq<char>,
) -> Option<Seq<char>> {
    let effect = kind == RecipeKind::Effect;
    match schema {
        None => None,
        Some(s) => if s != expected_schema {
            Some(
                if effect {
                    "지원하지 않는 효과 recipe 형식입니다: "@ + s
                } else {
                    "지원하지 않는 모션 recipe 형식입니다: "@ + s
                },
            )
        } else if (match revision {
            Some(r) => r,
            None => 0,
        }) < 1 {
            Some(
                if effect {
                    "저장된 효과 recipe revision이 올바르지 않습니다."@
                } else {
                    "저장된 모션 recipe revision이 올바르지 않습니다."@
                },
            )
        } else if json is None {
            Some(
                if effect {
                    "저장된 효과 recipe 내용이 비어 있습니다."@
                } else {
                    "저장된 모션 recipe 내용이 비어 있습니다."@
                },
            )
        } else {
            None
        },
    }
}

/// The message a refused save carries, by the kind of recipe.
pub open spec fn save_refusal(kind: RecipeKind, expected: i64, stored: Option<Option<i64>>) -> Option<
    Seq<char>,
> {
    let effect = kind == RecipeKind::Effect;
    let current = match stored {
        Some(Some(r)) => r,
        _ => 0,
    };
    if expected < 0 {
        Some(
            if effect {
                "효과 recipe revision이 올바르지 않습니다."@
            } else {
                "모션 recipe revision이 올바르지 않습니다."@
            },
        )
    } else if stored is None {
        Some(
            if effect {
                "효과를 저장할 아이콘을 찾을 수 없습니다."@
            } else {
                "모션을 저장할 아이콘을 찾을 수 없습니다."@
            },
        )
    } else if current != expected {
        Some(
            if effect {
                "다른 편집에서 효과가 먼저 변경되었습니다. 저장된 효과를 다시 불러와 주세요."@
            } else {
                "다른 편집에서 모션이 먼저 변경되었습니다. 저장된 모션을 다시 불러와 주세요."@
            },
        )
    } else if current == i64::MAX {
        Some(
            if effect {
                "효과 revision이 너무 큽니다."@
            } else {
                "모션 revision이 너무 큽니다."@
            },
        )
    } else {
        None
    }
}

/// Decodes a stored row into the recipe text and revision.
pub fn decode_row(
    kind: RecipeKind,
    schema: Option<String>,
    revision: Option<i64>,
    json: Option<String>,
    expected_schema: &str,
) -> (r: Result<(Option<String>, i64), AppError>)
    ensures
        row_agrees(r, decoded_row(opt_text(schema), revision, opt_text(json), expected_schema@)),
        r matches Err(e) ==> Some(e.message@) == decode_refusal(
            kind,
            opt_text(schema),
            revision,
            opt_text(json),
            expected_schema@,
        ),
{
    let schema = match schema {
        None => return Ok((None, 0)),
        Some(s) => s,
    };
    if !crate::text::str_eq(schema.as_str(), expected_schema) {
        let mut message = crate::text::owned(
            match kind {
                RecipeKind::Effect => "지원하지 않는 효과 recipe 형식입니다: ",
                RecipeKind::Motion => "지원하지 않는 모션 recipe 형식입니다: ",
            },
        );
        crate::text::push_str(&mut message, schema.as_str());
        return Err(AppError::validation(message.as_str()));
    }
    let revision = match revision {
        Some(r) => r,
        None => 0,
    };
    if revision < 1 {
        return Err(AppError::validation(
            match kind {
                RecipeKind::Effect => "저장된 효과 recipe revision이 올바르지 않습니다.",
                RecipeKind::Motion => "저장된 모션 recipe revision이 올바르지 않습니다.",
            },
        ));
    }
    match json {
        None => Err(AppError::validation(
            match kind {
                RecipeKind::Effect => "저장된 효과 recipe 내용이 비어 있습니다.",
                RecipeKind::Motion => "저장된 모션 recipe 내용이 비어 있습니다.",
            },
        )),
        Some(j) => Ok((Some(j), revision)),
    }
}

/// Decides a revision-guarded save: the revision to write, or why the save is refused.
pub fn save_revision(kind: RecipeKind, expected: i64, stored: Option<Option<i64>>) -> (r: Result<
    i64,
    AppError,
>)
    ensures
        agrees(r, saved_revision(expected, stored)),
        r matches Err(e) ==> Some(e.message@) == save_refusal(kind, expected, stored),
{
    if expected < 0 {
        return Err(AppError::validation(
            match kind {
                RecipeKind::Effect => "효과 recipe revision이 올바르지 않습니다.",
                RecipeKind::Motion => "모션 recipe revision이 올바르지 않습니다.",
            },
        ));
    }
    let current = match stored {
        None => {
            return Err(AppError::not_found(
                match kind {
                    RecipeKind::Effect => "효과를 저장할 아이콘을 찾을 수 없습니다.",
                    RecipeKind::Motion => "모션을 저장할 아이콘을 찾을 수 없습니다.",
                },
            ));
        },
        Some(rev) => match rev {
            Some(r) => r,
            None => 0,
        },
    };
    if current != expected {
        return Err(AppError::new(
            ErrorCode::Conflict,
            match kind {
                RecipeKind::Effect =>
                    "다른 편집에서 효과가 먼저 변경되었습니다. 저장된 효과를 다시 불러와 주세요.",
                RecipeKind::Motion =>
                    "다른 편집에서 모션이 먼저 변경되었습니다. 저장된 모션을 다시 불러와 주세요.",
            },
        ));
    }
    match current.checked_add(1) {
        Some(next) => Ok(next),
        None => Err(AppError::validation(
            match kind {
                RecipeKind::Effect => "효과 revision이 너무 큽니다.",
                RecipeKind::Motion => "모션 revision이 너무 큽니다.",
            },
        )),
    }
}

/// A save is accepted exactly when the editor expects the revision the store
/// holds (zero when nothing was saved yet), and it then writes the next revision.
pub proof fn lemma_save_accepted_iff_expected_matches(expected: i64, current: Option<i64>)
    requires
        0 <= expected < i64::MAX,
    ensures
        saved_revision(expected, Some(current)) is Ok <==> (match current {
            Some(r) => r,
            None => 0,
        }) == expected,
        saved_revision(expected, Some(current)) is Ok ==> saved_revision(
            expected,
            Some(current),
        ) == Ok::<i64, ErrorCode>((expected + 1) as i64),
{
}

/// Replaying a save that was accepted is refused as a conflict: the store has
/// moved on to the revision the first save wrote.
pub proof fn lemma_replayed_save_conflicts(expected: i64, stored: Option<Option<i64>>)
    requires
        saved_revision(expected, stored) is Ok,
    ensures
        saved_revision(expected, Some(Some(saved_revision(expected, stored)->Ok_0)))
            == Err::<i64, ErrorCode>(ErrorCode::Conflict),
{
}

/// What an accepted save writes reads back as that recipe at that revision.
pub proof fn lemma_saved_recipe_reads_back(
    expected: i64,
    stored: Option<Option<i64>>,
    schema: Seq<char>,
    json: Seq<char>,
)
    requires
        saved_revision(expected, stored) is Ok,
    ensures
        decoded_row(
            Some(schema),
            Some(saved_revision(expected, stored)->Ok_0),
            Some(json),
            schema,
        ) == Ok::<(Option<Seq<char>>, i64), ErrorCode>(
            (Some(json), saved_revision(expected, stored)->Ok_0),
        ),
{
}

/// An icon without a saved recipe reads as the default recipe at revision zero,
/// and the first save against revision zero writes revision one.
pub proof fn lemma_default_then_first_save(
    revision: Option<i64>,
    json: Option<Seq<char>>,
    expected_schema: Seq<char>,
)
    ensures
        decoded_row(None, revision, json, expected_schema) == Ok::<
            (Option<Seq<char>>, i64),
            ErrorCode,
        >((None, 0)),
        saved_revision(0, Some(None)) == Ok::<i64, ErrorCode>(1),
{
}

} // verus!

//! Effect recipes as stored per icon, with their revision.

use vstd::prelude::*;

use crate::error::AppError;
use crate::recipes::{
    agrees, decode_refusal, decode_row, decoded_row, opt_text, save_refusal, save_revision,
    saved_revision, RecipeKind,
};

verus! {

/// An icon's effect recipe as stored: the recipe text (`None` when nothing was
/// saved and the default, empty recipe applies) and the revision it was saved at.
#[derive(Debug)]
pub struct StoredEffectRecipe {
    pub recipe: Option<String>,
    pub revision: i64,
}

/// Decodes the stored row of an icon's effect recipe: no row is the default
/// recipe at revision zero; a row must carry `expected_schema`, a revision of at
/// least one and a recipe text.
pub fn decode_stored_recipe(
    recipe_schema: Option<String>,
    revision: Option<i64>,
    effects_json: Option<String>,
    expected_schema: &str,
) -> (r: Result<StoredEffectRecipe, AppError>)
    ensures
        match (r, decoded_row(opt_text(recipe_schema), revision, opt_text(effects_json), expected_schema@)) {
            (Ok(stored), Ok(row)) => opt_text(stored.recipe) == row.0 && stored.revision == row.1,
            (Err(e), Err(code)) => e.code == code,
            _ => false,
        },
        r matches Err(e) ==> Some(e.message@) == decode_refusal(
            RecipeKind::Effect,
            opt_text(recipe_schema),
            revision,
            opt_text(effects_json),
            expected_schema@,
        ),
{
    match decode_row(RecipeKind::Effect, recipe_schema, revision, effects_json, expected_schema) {
        Ok((recipe, revision)) => Ok(StoredEffectRecipe { recipe, revision }),
        Err(e) => Err(e),
    }
}

/// The revision an effect-recipe save writes, given the revision the editor
/// expects and what the store holds (`None`: no such icon; `Some(None)`: no
/// recipe saved yet; `Some(Some(r))`: saved at `r`).
pub fn next_saved_revision(expected_revision: i64, stored: Option<Option<i64>>) -> (r: Result<
    i64,
    AppError,
>)
    ensures
        agrees(r, saved_revision(expected_revision, stored)),
        r matches Err(e) ==> Some(e.message@) == save_refusal(RecipeKind::Effect, expected_revision, stored),
{
    save_revision(RecipeKind::Effect, expected_revision, stored)
}

} // verus!

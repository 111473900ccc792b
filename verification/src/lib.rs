//! Verified core of a sticker-collection library (collections of icons cut
//! into export pieces, with effects, motion and AI history): validation and
//! normalisation of what users submit, display order and covers, revision
//! guards, run-snapshot screening and canonical form, ownership of managed
//! directories, effect preview pruning, and the plan of cloning AI history.
//!
//! Modules, from the bottom up: `error` and `text` (characters, trimming,
//! case folding), `ids`, `names`, `formats` (export settings), `ordering`,
//! `pieces`, `recipes` with `effects` and `motion`, `snapshots`, `paths`
//! with `artifacts`, `effect_previews` and `editing`, `icons`, `lineage`.

pub mod error;
pub mod text;
pub mod ids;
pub mod names;
pub mod formats;
pub mod ordering;
pub mod pieces;
pub mod recipes;
pub mod effects;
pub mod motion;
pub mod snapshots;
pub mod paths;
pub mod artifacts;
pub mod effect_previews;
pub mod editing;
pub mod icons;
pub mod lineage;
pub mod plans;

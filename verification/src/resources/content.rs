//! What to make of the answers of the asset registries. The registries
//! themselves are the engine's; a template they cannot find is a defect of
//! the game's content, told to the caller and not papered over.

use vstd::prelude::*;

verus! {

/// Why something could not be set down.
#[derive(Clone, Copy, Debug, PartialEq, Eq, Structural)]
pub enum ContentError {
    /// No sprite goes by the name asked for, or its sheet is too short.
    MissingSprite,
    /// No prefab goes by the name asked for.
    MissingPrefab,
}

/// The number of the sprite to draw from a sheet: `index`, if the sheet is
/// there and holds that many sprites.
pub fn pick_sprite(sheet_length: Option<usize>, index: usize) -> (picked: Option<usize>)
    ensures
        picked == match sheet_length {
            Some(length) if index < length => Some(index),
            _ => None,
        },
{
    match sheet_length {
        Some(length) => {
            if index < length {
                Some(index)
            } else {
                None
            }
        },
        None => None,
    }
}

/// The sprite and the prefab that a spawn needs, where both were found;
/// else what is missing, the sprite first.
pub fn resolve<S, P>(sprite: Option<S>, prefab: Option<P>) -> (found: Result<(S, P), ContentError>)
    ensures
        found == match (sprite, prefab) {
            (Some(s), Some(p)) => Ok::<(S, P), ContentError>((s, p)),
            (None, _) => Err(ContentError::MissingSprite),
            (Some(_), None) => Err(ContentError::MissingPrefab),
        },
{
    match sprite {
        Some(s) => match prefab {
            Some(p) => Ok((s, p)),
            None => Err(ContentError::MissingPrefab),
        },
        None => Err(ContentError::MissingSprite),
    }
}

} // verus!

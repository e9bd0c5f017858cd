use vstd::prelude::*;

use crate::map_loader::{ObjectKind, ObjectKindView};

verus! {

/// The column of the object spritesheet for an object kind; kinds drawn otherwise have none.
pub open spec fn spec_sprite_col(k: ObjectKindView) -> Option<u32> {
    match k {
        ObjectKindView::Heart => Some(0),
        ObjectKindView::Ruby(_) => Some(1),
        ObjectKindView::Key => Some(2),
        ObjectKindView::Chest(_) => Some(3),
        _ => None,
    }
}

/// The column of the object spritesheet for an object kind.
pub fn sprite_col(kind: &ObjectKind) -> (c: Option<u32>)
    ensures
        c == spec_sprite_col(kind@),
{
    match kind {
        ObjectKind::Heart => Some(0),
        ObjectKind::Ruby(_) => Some(1),
        ObjectKind::Key => Some(2),
        ObjectKind::Chest { .. } => Some(3),
        _ => None,
    }
}

/// The column drawn for an object: an opened chest shows column 4, anything else its own
/// column (or nothing).
pub fn drawn_sprite_col(kind: &ObjectKind, collected: bool) -> (c: Option<u32>)
    ensures
        c == (if kind@ is Chest && collected {
            Some(4u32)
        } else {
            spec_sprite_col(kind@)
        }),
{
    match kind {
        ObjectKind::Chest { .. } => if collected {
            Some(4)
        } else {
            Some(3)
        },
        _ => sprite_col(kind),
    }
}

} // verus!

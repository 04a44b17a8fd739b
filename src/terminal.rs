//! The terminal's dimensions as the editor sees them.

use vstd::prelude::*;

verus! {

/// The drawable area in character cells.
#[derive(Clone, Copy, Debug, PartialEq, Eq, Structural)]
pub struct Size {
    pub height: u16,
    pub width: u16,
}

impl Default for Size {
    fn default() -> (r: Size)
        ensures
            r.height == 0 && r.width == 0,
    {
        Size { height: 0, width: 0 }
    }
}

/// From a `(columns, rows)` terminal size: two rows are kept for the status bar.
impl From<(u16, u16)> for Size {
    fn from(p: (u16, u16)) -> (r: Size) {
        Size { height: if p.1 >= 2 { p.1 - 2 } else { 0 }, width: p.0 }
    }
}

impl vstd::std_specs::convert::FromSpecImpl<(u16, u16)> for Size {
    open spec fn obeys_from_spec() -> bool {
        true
    }

    open spec fn from_spec(p: (u16, u16)) -> Size {
        Size { height: if p.1 >= 2 { (p.1 - 2) as u16 } else { 0 }, width: p.0 }
    }
}

} // verus!

use vstd::prelude::*;

verus! {

/// One of the three sections of the inventory menu.
#[derive(Debug, Clone, Copy, PartialEq, Eq, Structural)]
pub enum Class {
    Gun,
    Explosive,
    Misc,
}

} // verus!

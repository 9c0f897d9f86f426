use vstd::prelude::*;

verus! {

#[derive(Clone, Copy, PartialEq, Eq, Structural, Debug)]
pub enum ShopKind {
    /// Sells weapons and armors
    Equipment,
}

} // verus!

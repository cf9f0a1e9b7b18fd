use vstd::prelude::*;

verus! {

#[derive(Debug, Clone, Copy, PartialEq, Eq, Structural)]
pub enum Quantity {
    Number(usize),
    Page(usize),
    Line(usize),
    Word(usize),
    All,
}

impl Default for Quantity {
    /// A single unit.
    fn default() -> (q: Quantity)
        ensures
            q == Quantity::Number(1),
    {
        Quantity::Number(1)
    }
}

} // verus!

use vstd::prelude::*;

verus! {

/// One item or a batch of items, in order.
pub enum OneOrMany<T> {
    One(T),
    Many(Vec<T>),
}

impl<T> OneOrMany<T> {
    /// The items, in order: a single one as a sequence of length one.
    pub open spec fn items(&self) -> Seq<T> {
        match self {
            OneOrMany::One(x) => seq![*x],
            OneOrMany::Many(v) => v@,
        }
    }
}

} // verus!

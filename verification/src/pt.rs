//! Node types of a parse tree.

use vstd::prelude::*;

verus! {

/// A function definition. It has no parts yet.
pub struct Func {}

/// A span of source text, as the offsets of its first character and of the
/// character after its last.
#[derive(Debug, PartialEq, Eq, Hash, Clone, Copy, Structural)]
pub struct Loc(pub usize, pub usize);

impl Default for Loc {
    fn default() -> (loc: Loc)
        ensures
            loc == Loc(0, 0),
    {
        Loc(0, 0)
    }
}

/// A name, with the place where it was written.
#[derive(Debug, PartialEq)]
pub struct Identifier {
    pub loc: Loc,
    pub name: String,
}

impl Clone for Identifier {
    fn clone(&self) -> (copy: Identifier)
        ensures
            copy == *self,
    {
        Identifier { loc: self.loc, name: self.name.clone() }
    }
}

impl Default for Identifier {
    fn default() -> (identifier: Identifier)
        ensures
            identifier.loc == Loc(0, 0),
            identifier.name@ == Seq::<char>::empty(),
    {
        Identifier { loc: Loc(0, 0), name: String::new() }
    }
}

} // verus!

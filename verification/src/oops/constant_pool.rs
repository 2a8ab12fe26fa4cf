use vstd::prelude::*;
use vstd::utf8::encode_utf8_decode_utf8;
use crate::classfile::error::DecodeError;

verus! {

/// One slot of a class file's constant pool.
///
/// The pool is held as a slice in which slot `i` is the entry with index
/// `i`. Index 0 names no entry, so slot 0 is never looked at.
#[derive(Debug, PartialEq, Eq)]
pub enum CpEntry {
    /// Text. Attribute names are entries of this kind.
    Utf8 { val: String },
    /// An entry of any other kind, kept only by its tag byte.
    Other { tag: u8 },
}

impl Clone for CpEntry {
    fn clone(&self) -> (copy: CpEntry)
        ensures
            copy == *self,
    {
        match self {
            CpEntry::Utf8 { val } => CpEntry::Utf8 { val: val.clone() },
            CpEntry::Other { tag } => CpEntry::Other { tag: *tag },
        }
    }
}

/// The text that `index` names in `pool`, if it names any: the index must
/// not be 0, must lie inside the pool, and its entry must be `Utf8`.
pub open spec fn utf8_at(pool: Seq<CpEntry>, index: int) -> Option<Seq<char>> {
    if 0 < index < pool.len() && pool[index] is Utf8 {
        Some(pool[index]->val@)
    } else {
        None
    }
}

/// Looks up the text of the `Utf8` entry at `index`.
///
/// Fails with `MalformedIndex` exactly when `index` is 0, lies outside the
/// pool, or names an entry of another kind.
pub fn resolve_name(entries: &[CpEntry], index: u16) -> (r: Result<&String, DecodeError>)
    ensures
        match utf8_at(entries@, index as int) {
            Some(text) => r is Ok && r->Ok_0@ == text,
            None => r == Err::<&String, DecodeError>(DecodeError::MalformedIndex),
        },
        r matches Ok(name) ==> *name == entries@[index as int]->val,
{
    let i = index as usize;
    if i == 0 || i >= entries.len() {
        return Err(DecodeError::MalformedIndex);
    }
    match &entries[i] {
        CpEntry::Utf8 { val } => Ok(val),
        CpEntry::Other { .. } => Err(DecodeError::MalformedIndex),
    }
}

/// Whether two strings hold the same text.
#[verifier::loop_isolation(false)]
pub fn same_text(a: &str, b: &str) -> (eq: bool)
    ensures
        eq == (a@ == b@),
{
    let x = a.as_bytes();
    let y = b.as_bytes();
    proof {
        encode_utf8_decode_utf8(a@);
        encode_utf8_decode_utf8(b@);
    }
    if x.len() != y.len() {
        return false;
    }
    let mut i: usize = 0;
    while i < x.len()
        invariant
            i <= x.len(),
            x.len() == y.len(),
            forall|k: int| 0 <= k < i ==> x@[k] == y@[k],
        decreases x.len() - i,
    {
        if x[i] != y[i] {
            return false;
        }
        i = i + 1;
    }
    assert(x@ =~= y@);
    true
}

} // verus!

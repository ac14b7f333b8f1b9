//! Texts, compared and searched by their bytes.

use vstd::prelude::*;
#[allow(unused_imports)]
use vstd::string::StringSliceAdditionalSpecFns;

verus! {

/// Whether the part stands in the text at the position.
pub open spec fn stands_at(text: Seq<u8>, part: Seq<u8>, i: int) -> bool {
    0 <= i && i + part.len() <= text.len() && text.subrange(i, i + part.len()) == part
}

/// Whether the part stands anywhere in the text.
pub open spec fn holds(text: Seq<u8>, part: Seq<u8>) -> bool {
    exists|i: int| #[trigger] stands_at(text, part, i)
}

/// Whether the part stands in the text at the position.
pub fn part_at(text: &[u8], part: &[u8], at: usize) -> (r: bool)
    requires
        at + part@.len() <= text@.len(),
    ensures
        r == stands_at(text@, part@, at as int),
{
    let mut i: usize = 0;
    let n: usize = text.len();
    while i < part.len()
        invariant
            i <= part@.len(),
            at + part@.len() <= text@.len() == n,
            forall|j: int| 0 <= j < i ==> #[trigger] part@[j] == text@[at + j],
        decreases part@.len() - i,
    {
        if text[at + i] != part[i] {
            assert(text@.subrange(at as int, at + part@.len())[i as int] != part@[i as int]);
            return false;
        }
        i += 1;
    }
    assert(text@.subrange(at as int, at + part@.len()) =~= part@);
    true
}

/// Whether the part stands anywhere in the text.
pub fn has_part(text: &[u8], part: &[u8]) -> (r: bool)
    ensures
        r == holds(text@, part@),
{
    if part.len() > text.len() {
        return false;
    }
    let last: usize = text.len() - part.len();
    let mut at: usize = 0;
    while at < last
        invariant
            at <= last,
            last + part@.len() == text@.len(),
            forall|i: int| 0 <= i < at ==> !#[trigger] stands_at(text@, part@, i),
        decreases last - at,
    {
        if part_at(text, part, at) {
            return true;
        }
        at += 1;
    }
    part_at(text, part, last)
}

/// The bytes of a text, where there is one.
pub open spec fn text_bytes(text: Option<&str>) -> Option<Seq<u8>> {
    match text {
        Some(text) => Some(text.spec_bytes()),
        None => None,
    }
}

/// Whether both texts are the same.
pub fn same_text(a: &str, b: &str) -> (r: bool)
    ensures
        r == (a.spec_bytes() == b.spec_bytes()),
{
    let x = a.as_bytes();
    let y = b.as_bytes();
    if x.len() != y.len() {
        return false;
    }
    assert(x@.subrange(0, y@.len() as int) =~= x@);
    part_at(x, y, 0)
}

} // verus!

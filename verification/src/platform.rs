//! What the drivers read of a platform device: register windows, cell
//! properties and lists of names.

use vstd::prelude::*;

use crate::bytes::{be32, first_index, first_index_is_first, read_be_u32};

verus! {

/// A resource of a device.
#[derive(Clone, Copy, Debug, Eq, PartialEq, Structural)]
pub struct Resource {
    pub is_memory: bool,
    pub start: usize,
    /// The last byte.
    pub end: usize,
}

/// The size of a resource whose last byte is at `end`.
pub open spec fn span(start: usize, end: usize) -> Option<int> {
    if end < start || end - start + 1 > usize::MAX {
        None
    } else {
        Some(end - start + 1)
    }
}

pub fn resource_size(start: usize, end: usize) -> (r: Option<usize>)
    ensures
        match r {
            Some(size) => span(start, end) == Some(size as int),
            None => span(start, end) is None,
        },
{
    if end < start {
        return None;
    }
    (end - start).checked_add(1)
}

/// The big-endian words of a property.
pub open spec fn cells(value: Seq<u8>) -> Seq<u32> {
    Seq::new(value.len() / 4, |i: int| be32(value, 4 * i) as u32)
}

/// The cells of a property, if it consists of whole ones.
pub fn read_cells(value: &[u8]) -> (r: Option<Vec<u32>>)
    ensures
        match r {
            Some(words) => value@.len() % 4 == 0 && words@ == cells(value@),
            None => value@.len() % 4 != 0,
        },
{
    let length: usize = value.len();
    if length % 4 != 0 {
        return None;
    }
    let mut words: Vec<u32> = Vec::new();
    let mut i: usize = 0;
    while i < length / 4
        invariant
            i <= length / 4,
            length == value@.len(),
            length % 4 == 0,
            words@ == cells(value@).take(i as int),
        decreases length / 4 - i,
    {
        words.push(read_be_u32(value, i * 4).unwrap());
        i += 1;
        assert(words@ =~= cells(value@).take(i as int));
    }
    assert(words@ =~= cells(value@));
    Some(words)
}

pub open spec fn texts(names: Seq<String>) -> Seq<Seq<char>> {
    Seq::new(names.len(), |i: int| names[i]@)
}

pub open spec fn is_text(target: Seq<char>) -> spec_fn(Seq<char>) -> bool {
    |name: Seq<char>| name == target
}

/// The place of a name in a list of names.
pub open spec fn place_of(names: Seq<String>, target: Seq<char>) -> Option<int> {
    first_index(texts(names), is_text(target), 0)
}

pub fn position_of(names: &Vec<String>, target: &str) -> (r: Option<usize>)
    ensures
        match r {
            Some(at) => place_of(names@, target@) == Some(at as int) && at < names@.len(),
            None => place_of(names@, target@) is None,
        },
{
    let length: usize = names.len();
    let mut i: usize = 0;
    while i < length
        invariant
            i <= length,
            length == names@.len(),
            place_of(names@, target@) == first_index(texts(names@), is_text(target@), i as int),
        decreases length - i,
    {
        if crate::bytes::same_text(names[i].as_str(), target) {
            return Some(i);
        }
        i += 1;
    }
    None
}

/// A name that is found stands where it was found, and not before.
pub proof fn a_found_name_is_the_first(names: Seq<String>, target: Seq<char>)
    ensures
        match place_of(names, target) {
            Some(at) => 0 <= at < names.len() && names[at]@ == target && forall|i: int|
                0 <= i < at ==> (#[trigger] names[i])@ != target,
            None => forall|i: int| 0 <= i < names.len() ==> (#[trigger] names[i])@ != target,
        },
{
    first_index_is_first(texts(names), is_text(target), 0);
    match place_of(names, target) {
        Some(at) => {
            assert forall|i: int| 0 <= i < at implies (#[trigger] names[i])@ != target by {
                assert(!is_text(target)(texts(names)[i]));
            }
        },
        None => {
            assert forall|i: int| 0 <= i < names.len() implies (#[trigger] names[i])@ != target by {
                assert(!is_text(target)(texts(names)[i]));
            }
        },
    }
}

} // verus!

//! Providers that a firmware handle leads to.

use vstd::prelude::*;

use crate::bytes::{first_index, first_index_is_first};

verus! {

pub open spec fn has_handle<T>(handle: u32) -> spec_fn((u32, T)) -> bool {
    |entry: (u32, T)| entry.0 == handle
}

/// Where a handle stands in a list of providers.
pub open spec fn handle_at<T>(entries: Seq<(u32, T)>, handle: u32) -> Option<int> {
    first_index(entries, has_handle(handle), 0)
}

/// The provider of a handle.
pub open spec fn provider_of<T>(entries: Seq<(u32, T)>, handle: u32) -> Option<T> {
    match handle_at(entries, handle) {
        Some(at) => Some(entries[at].1),
        None => None,
    }
}

/// The list after a provider was registered: it takes the place of an earlier
/// one of the same handle.
pub open spec fn registered<T>(entries: Seq<(u32, T)>, handle: u32, provider: T) -> Seq<(u32, T)> {
    match handle_at(entries, handle) {
        Some(at) => entries.update(at, (handle, provider)),
        None => entries.push((handle, provider)),
    }
}

pub open spec fn removed<T>(entries: Seq<(u32, T)>, handle: u32) -> Seq<(u32, T)> {
    match handle_at(entries, handle) {
        Some(at) => entries.remove(at),
        None => entries,
    }
}

/// The handles of a list are distinct.
pub open spec fn distinct_handles<T>(entries: Seq<(u32, T)>) -> bool {
    forall|i: int, j: int|
        0 <= i < j < entries.len() ==> (#[trigger] entries[i]).0 != (#[trigger] entries[j]).0
}

fn find<T>(entries: &Vec<(u32, T)>, handle: u32) -> (r: Option<usize>)
    ensures
        match r {
            Some(at) => handle_at(entries@, handle) == Some(at as int) && at < entries@.len(),
            None => handle_at(entries@, handle) is None,
        },
{
    let length: usize = entries.len();
    let mut i: usize = 0;
    while i < length
        invariant
            i <= length,
            length == entries@.len(),
            handle_at(entries@, handle) == first_index(entries@, has_handle(handle), i as int),
        decreases length - i,
    {
        if entries[i].0 == handle {
            return Some(i);
        }
        i += 1;
    }
    None
}

/// The provider of a handle, if one is registered.
pub fn lookup<T: Copy>(entries: &Vec<(u32, T)>, handle: u32) -> (r: Option<T>)
    ensures
        r == provider_of(entries@, handle),
{
    match find(entries, handle) {
        Some(at) => Some(entries[at].1),
        None => None,
    }
}

/// Registers a provider under a handle; an earlier one is handed back.
pub fn register<T>(entries: &mut Vec<(u32, T)>, handle: u32, provider: T) -> (r: Option<T>)
    ensures
        final(entries)@ == registered(old(entries)@, handle, provider),
        r == provider_of(old(entries)@, handle),
        distinct_handles(old(entries)@) ==> distinct_handles(final(entries)@),
{
    proof {
        first_index_is_first(entries@, has_handle(handle), 0);
    }
    let ghost start = entries@;
    match find(entries, handle) {
        Some(at) => {
            entries.push((handle, provider));
            let earlier = entries.swap_remove(at);
            assert(entries@ =~= registered(start, handle, provider));
            Some(earlier.1)
        },
        None => {
            entries.push((handle, provider));
            proof {
                assert forall|i: int, j: int|
                    distinct_handles(start) && 0 <= i < j < entries@.len() implies (
                #[trigger] entries@[i]).0 != (#[trigger] entries@[j]).0 by {
                    if j == start.len() {
                        assert(!has_handle(handle)(start[i]));
                    }
                }
            }
            None
        },
    }
}

/// Removes the provider of a handle and hands it back.
pub fn unregister<T>(entries: &mut Vec<(u32, T)>, handle: u32) -> (r: Option<T>)
    ensures
        final(entries)@ == removed(old(entries)@, handle),
        r == provider_of(old(entries)@, handle),
        distinct_handles(old(entries)@) ==> distinct_handles(final(entries)@),
{
    match find(entries, handle) {
        Some(at) => {
            let earlier = entries.remove(at);
            Some(earlier.1)
        },
        None => None,
    }
}

// Laws.

/// A registered provider is found under its handle, and the others are found
/// as before.
pub proof fn a_registered_provider_is_found<T>(
    entries: Seq<(u32, T)>,
    handle: u32,
    provider: T,
    other: u32,
)
    ensures
        provider_of(registered(entries, handle, provider), handle) == Some(provider),
        other != handle ==> provider_of(registered(entries, handle, provider), other)
            == provider_of(entries, other),
{
    let after = registered(entries, handle, provider);
    first_index_is_first(entries, has_handle(handle), 0);
    first_index_is_first(entries, has_handle(other), 0);
    first_index_is_first(after, has_handle(handle), 0);
    first_index_is_first(after, has_handle(other), 0);
    let at = match handle_at(entries, handle) {
        Some(at) => at,
        None => entries.len() as int,
    };
    assert(has_handle(handle)(after[at]));
    assert forall|i: int| 0 <= i < entries.len() && i != at implies after[i] == entries[i] by {}
    match handle_at(after, handle) {
        Some(found) => {
            if found < at {
                assert(!has_handle(handle)(entries[found]));
            }
        },
        None => {},
    }
    if other != handle {
        match (handle_at(entries, other), handle_at(after, other)) {
            (Some(i), Some(j)) => {
                if i < j {
                    assert(!has_handle(other)(after[i]));
                } else if j < i {
                    assert(!has_handle(other)(entries[j]));
                }
            },
            (Some(i), None) => {
                assert(!has_handle(other)(after[i]));
            },
            (None, Some(j)) => {
                assert(!has_handle(other)(entries[j]));
            },
            (None, None) => {},
        }
    }
}

/// A removed provider is not found any more.
pub proof fn a_removed_provider_is_gone<T>(entries: Seq<(u32, T)>, handle: u32)
    requires
        distinct_handles(entries),
    ensures
        provider_of(removed(entries, handle), handle) is None,
{
    let after = removed(entries, handle);
    first_index_is_first(entries, has_handle(handle), 0);
    first_index_is_first(after, has_handle(handle), 0);
    match handle_at(after, handle) {
        Some(found) => {
            match handle_at(entries, handle) {
                Some(at) => {
                    if found < at {
                        assert(after[found] == entries[found]);
                    } else {
                        assert(after[found] == entries[found + 1]);
                    }
                },
                None => {
                    assert(!has_handle(handle)(entries[found]));
                },
            }
        },
        None => {},
    }
}

} // verus!

//! Where the entries of the database stand.

use vstd::prelude::*;

use crate::bytes::{le16, le32};
use crate::cmd_db::{
    entry_at, entry_of, entry_offset, halfwords, has_magic, id_at, probe, resource_at, search,
    search_entries, CommandDb, ResourceHeader, Search,
};

verus! {

/// An entry that is found is the first of its table with the identifier. Its
/// address stands sixteen bytes behind the identifier's start, then come the
/// length and the place of its data, counted from the table's data.
pub proof fn found_entries_are_the_first(
    memory: Seq<u8>,
    resource: ResourceHeader,
    query: Seq<u8>,
    from: int,
)
    requires
        0 <= from,
        memory.len() <= usize::MAX,
    ensures
        match search_entries(memory, resource, query, from) {
            Search::Found(entry) => exists|i: int|
                {
                    let at = 144 + resource.header_offset + 24 * i;
                    &&& from <= i < resource.count
                    &&& at + 24 <= memory.len()
                    &&& #[trigger] id_at(memory, entry_offset(resource, i), query)
                    &&& at == entry_offset(resource, i)
                    &&& entry.address == le32(memory, at + 16)
                    &&& entry.data_length == le16(memory, at + 20)
                    &&& entry.data_offset == 144 + resource.data_offset + le16(memory, at + 22)
                    &&& entry.data_offset + entry.data_length <= memory.len()
                    &&& forall|j: int|
                        from <= j < i ==> !#[trigger] id_at(
                            memory,
                            entry_offset(resource, j),
                            query,
                        )
                },
            Search::Absent => forall|j: int|
                from <= j < resource.count ==> !#[trigger] id_at(
                    memory,
                    entry_offset(resource, j),
                    query,
                ),
            Search::Broken => true,
        },
    decreases resource.count - from,
{
    let at = entry_offset(resource, from);
    if from < resource.count && at + 24 <= memory.len() {
        if id_at(memory, at, query) {
            if let Search::Found(entry) = entry_at(memory, resource, at) {
                assert(at == 144 + resource.header_offset + 24 * from);
                assert(id_at(memory, entry_offset(resource, from), query));
                assert(entry.data_offset + entry.data_length <= memory.len());
            }
        } else {
            found_entries_are_the_first(memory, resource, query, from + 1);
            match search_entries(memory, resource, query, from + 1) {
                Search::Found(entry) => {
                    let i = choose|i: int|
                        {
                            let at = 144 + resource.header_offset + 24 * i;
                            &&& from + 1 <= i < resource.count
                            &&& at + 24 <= memory.len()
                            &&& #[trigger] id_at(memory, entry_offset(resource, i), query)
                            &&& at == entry_offset(resource, i)
                            &&& entry.address == le32(memory, at + 16)
                            &&& entry.data_length == le16(memory, at + 20)
                            &&& entry.data_offset == 144 + resource.data_offset + le16(
                                memory,
                                at + 22,
                            )
                            &&& entry.data_offset + entry.data_length <= memory.len()
                            &&& forall|j: int|
                                from + 1 <= j < i ==> !#[trigger] id_at(
                                    memory,
                                    entry_offset(resource, j),
                                    query,
                                )
                        };
                    assert(id_at(memory, entry_offset(resource, i), query));
                    assert forall|j: int| from <= j < i implies !#[trigger] id_at(
                        memory,
                        entry_offset(resource, j),
                        query,
                    ) by {
                        if j > from {
                            assert(from + 1 <= j);
                        }
                    }
                },
                _ => {},
            }
        }
    }
}

/// An identifier is matched as a whole: shorter ones are filled with zeros.
pub proof fn identifiers_are_matched_whole(memory: Seq<u8>, at: int, query: Seq<u8>)
    requires
        0 <= at,
        at + 8 <= memory.len(),
        query.len() <= 8,
    ensures
        id_at(memory, at, query) <==> memory.subrange(at, at + 8) == query + Seq::new(
            (8 - query.len()) as nat,
            |i: int| 0u8,
        ),
{
    let whole = query + Seq::new((8 - query.len()) as nat, |i: int| 0u8);
    let here = memory.subrange(at, at + 8);
    if id_at(memory, at, query) {
        assert forall|k: int| 0 <= k < 8 implies here[k] == whole[k] by {
            assert(memory[at + k] == here[k]);
        }
        assert(here =~= whole);
    }
    if here == whole {
        assert forall|k: int| 0 <= k < 8 implies #[trigger] memory[at + k] == (if k
            < query.len() {
            query[k]
        } else {
            0
        }) by {
            assert(here[k] == memory[at + k]);
            assert(here[k] == whole[k]);
        }
    }
}

/// Data of half-words is read two bytes at a time, the low one first.
pub proof fn half_words_are_byte_pairs(data: Seq<u8>, i: int)
    requires
        0 <= i,
        2 * i + 1 < data.len(),
    ensures
        i < halfwords(data).len(),
        halfwords(data)[i] % 0x100 == data[2 * i],
        halfwords(data)[i] / 0x100 == data[2 * i + 1],
        2 * halfwords(data).len() <= data.len(),
{
}

/// A database starts with its mark, in the bytes 4 to 7.
pub proof fn databases_are_marked(
    memory: Seq<u8>,
    taken: Vec<u8>,
    r: Result<CommandDb, &'static str>,
)
    requires
        call_ensures(probe, (taken,), r),
    ensures
        has_magic(memory) <==> memory.len() >= 8 && memory[4] == 0xdb && memory[5] == 0x30
            && memory[6] == 0x03 && memory[7] == 0x0c,
        r is Ok <==> has_magic(taken@),
        r matches Ok(database) ==> database.memory@ == taken@,
{
}

/// An identifier has one to eight bytes, and the resources are searched in
/// order: the first that has it gives the entry, and a broken one ends the
/// search.
pub proof fn resources_are_searched_in_order(memory: Seq<u8>, query: Seq<u8>, from: int)
    requires
        0 <= from < 8,
        resource_at(memory, from) is Some,
    ensures
        query.len() == 0 || query.len() > 8 ==> entry_of(memory, query) is None,
        0 < query.len() <= 8 ==> entry_of(memory, query) == search(memory, query, 0),
        search(memory, query, from) is Some ==> match search_entries(
            memory,
            resource_at(memory, from)->0,
            query,
            0,
        ) {
            Search::Found(entry) => search(memory, query, from) == Some(entry),
            Search::Absent => search(memory, query, from) == search(memory, query, from + 1),
            Search::Broken => false,
        },
{
}

/// There are up to eight kinds of resource, listed from the ninth byte on with
/// sixteen bytes for each; one without a slave ends the list.
pub proof fn there_are_eight_kinds_of_resource(memory: Seq<u8>, index: int)
    requires
        0 <= index,
        8 + 16 * index + 8 <= memory.len(),
    ensures
        resource_at(memory, index) is Some <==> index < 8 && (memory[8 + 16 * index] != 0
            || memory[9 + 16 * index] != 0),
        resource_at(memory, index) matches Some(resource) ==> {
            &&& resource.header_offset == memory[10 + 16 * index] + 0x100 * memory[11 + 16 * index]
            &&& resource.data_offset == memory[12 + 16 * index] + 0x100 * memory[13 + 16 * index]
            &&& resource.count == memory[14 + 16 * index] + 0x100 * memory[15 + 16 * index]
        },
{
}

} // verus!

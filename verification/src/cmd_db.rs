//! Read-only access to the firmware's Command DB.
//!
//! The database lies in memory that the firmware owns: a header, then tables
//! of entries that map identifiers of at most eight bytes to an address and
//! to auxiliary data. Every table offset comes from the firmware, so every
//! read is checked against the size of the memory.

use vstd::prelude::*;

use crate::bytes::{in_bounds, le16, le32, read_le_u16, read_le_u32};
use crate::platform::{resource_size, span};

pub mod laws;

verus! {

pub const MAGIC_0: u8 = 0xdb;

pub const MAGIC_1: u8 = 0x30;

pub const MAGIC_2: u8 = 0x03;

pub const MAGIC_3: u8 = 0x0c;

pub const MAX_SLAVES: usize = 8;

pub const RESOURCE_HEADER_SIZE: usize = 16;

pub const COMMAND_DB_HEADER_SIZE: usize = 144;

pub const ENTRY_HEADER_SIZE: usize = 24;

pub const ENTRY_ID_SIZE: usize = 8;

/// Where the entries and the data of one resource kind lie, behind the
/// database header.
#[derive(Clone, Copy, Debug, Eq, PartialEq, Structural)]
pub struct ResourceHeader {
    pub header_offset: usize,
    pub data_offset: usize,
    pub count: usize,
}

#[derive(Clone, Copy, Debug, Eq, PartialEq, Structural)]
pub struct EntryHeader {
    pub address: u32,
    pub data_length: usize,
    pub data_offset: usize,
}

/// A mapped database.
#[derive(Debug)]
pub struct CommandDb {
    pub memory: Vec<u8>,
}

/// Header `index`, unless it is unused or cut off. The table ends there.
pub open spec fn resource_at(memory: Seq<u8>, index: int) -> Option<ResourceHeader> {
    let offset = 8 + index * RESOURCE_HEADER_SIZE;
    if index >= MAX_SLAVES || !in_bounds(memory, offset, 2) || le16(memory, offset) == 0
        || !in_bounds(memory, offset, 8) {
        None
    } else {
        Some(
            ResourceHeader {
                header_offset: le16(memory, offset + 2) as usize,
                data_offset: le16(memory, offset + 4) as usize,
                count: le16(memory, offset + 6) as usize,
            },
        )
    }
}

/// Eight bytes that hold an identifier, padded with zeros.
pub open spec fn id_at(memory: Seq<u8>, at: int, query: Seq<u8>) -> bool {
    forall|k: int|
        0 <= k < ENTRY_ID_SIZE ==> #[trigger] memory[at + k] == (if k < query.len() {
            query[k]
        } else {
            0
        })
}

/// What the entries of one resource kind come to.
#[derive(Clone, Copy, Debug, Eq, PartialEq, Structural)]
pub enum Search {
    Found(EntryHeader),
    Absent,
    /// An entry or its data lies outside the memory.
    Broken,
}

pub open spec fn entry_offset(resource: ResourceHeader, index: int) -> int {
    COMMAND_DB_HEADER_SIZE + resource.header_offset + index * ENTRY_HEADER_SIZE
}

/// The entry at an offset, if its data lies in the memory.
pub open spec fn entry_at(memory: Seq<u8>, resource: ResourceHeader, at: int) -> Search {
    let data_offset = COMMAND_DB_HEADER_SIZE + resource.data_offset + le16(memory, at + 22);
    if COMMAND_DB_HEADER_SIZE + resource.data_offset > memory.len() || data_offset + le16(
        memory,
        at + 20,
    ) > memory.len() {
        Search::Broken
    } else {
        Search::Found(
            EntryHeader {
                address: le32(memory, at + 16) as u32,
                data_length: le16(memory, at + 20) as usize,
                data_offset: data_offset as usize,
            },
        )
    }
}

/// Looks an identifier up in the entries of one resource kind.
pub open spec fn search_entries(
    memory: Seq<u8>,
    resource: ResourceHeader,
    query: Seq<u8>,
    from: int,
) -> Search
    decreases resource.count - from,
{
    let at = entry_offset(resource, from);
    if from >= resource.count {
        Search::Absent
    } else if at + ENTRY_HEADER_SIZE > memory.len() {
        Search::Broken
    } else if id_at(memory, at, query) {
        entry_at(memory, resource, at)
    } else {
        search_entries(memory, resource, query, from + 1)
    }
}

/// Looks an identifier up in the resource kinds from `from` on. A broken
/// table ends the search.
pub open spec fn search(memory: Seq<u8>, query: Seq<u8>, from: int) -> Option<EntryHeader>
    decreases MAX_SLAVES - from,
{
    match resource_at(memory, from) {
        None => None,
        Some(resource) => if from >= MAX_SLAVES || COMMAND_DB_HEADER_SIZE
            + resource.header_offset > memory.len() {
            None
        } else {
            match search_entries(memory, resource, query, 0) {
                Search::Found(entry) => Some(entry),
                Search::Broken => None,
                Search::Absent => search(memory, query, from + 1),
            }
        },
    }
}

/// The entry of an identifier.
pub open spec fn entry_of(memory: Seq<u8>, query: Seq<u8>) -> Option<EntryHeader> {
    if query.len() == 0 || query.len() > ENTRY_ID_SIZE {
        None
    } else {
        search(memory, query, 0)
    }
}

pub open spec fn has_magic(memory: Seq<u8>) -> bool {
    &&& memory.len() >= 8
    &&& memory[4] == MAGIC_0
    &&& memory[5] == MAGIC_1
    &&& memory[6] == MAGIC_2
    &&& memory[7] == MAGIC_3
}

impl CommandDb {
    fn read_u16(&self, offset: usize) -> (r: Option<u16>)
        ensures
            r is Some <==> in_bounds(self.memory@, offset as int, 2),
            r is Some ==> r->Some_0 == le16(self.memory@, offset as int),
    {
        read_le_u16(&self.memory, offset)
    }

    fn resource_header(&self, index: usize) -> (r: Option<ResourceHeader>)
        ensures
            r == resource_at(self.memory@, index as int),
            r matches Some(resource) ==> resource.header_offset <= 0xffff && resource.data_offset
                <= 0xffff && resource.count <= 0xffff,
    {
        if index >= MAX_SLAVES {
            return None;
        }
        let offset: usize = 8 + index * RESOURCE_HEADER_SIZE;
        match self.read_u16(offset) {
            Some(slave_id) => {
                if slave_id == 0 {
                    return None;
                }
            },
            None => {
                return None;
            },
        }
        match (self.read_u16(offset + 2), self.read_u16(offset + 4), self.read_u16(offset + 6)) {
            (Some(header_offset), Some(data_offset), Some(count)) => Some(
                ResourceHeader {
                    header_offset: header_offset as usize,
                    data_offset: data_offset as usize,
                    count: count as usize,
                },
            ),
            _ => None,
        }
    }

    fn id_matches(&self, offset: usize, query: &[u8]) -> (r: bool)
        requires
            offset + ENTRY_ID_SIZE <= self.memory@.len(),
            query@.len() <= ENTRY_ID_SIZE,
        ensures
            r == id_at(self.memory@, offset as int, query@),
    {
        let length: usize = self.memory.len();
        let mut k: usize = 0;
        while k < ENTRY_ID_SIZE
            invariant
                k <= ENTRY_ID_SIZE,
                length == self.memory@.len(),
                offset + ENTRY_ID_SIZE <= length,
                forall|j: int|
                    0 <= j < k ==> #[trigger] self.memory@[offset + j] == (if j < query@.len() {
                        query@[j]
                    } else {
                        0
                    }),
            decreases ENTRY_ID_SIZE - k,
        {
            let expected: u8 = if k < query.len() {
                query[k]
            } else {
                0
            };
            if self.memory[offset + k] != expected {
                return false;
            }
            k += 1;
        }
        true
    }

    fn find_entry(&self, resource: ResourceHeader, query: &[u8]) -> (r: Search)
        requires
            query@.len() <= ENTRY_ID_SIZE,
            resource.header_offset <= 0xffff,
            resource.data_offset <= 0xffff,
            resource.count <= 0xffff,
        ensures
            r == search_entries(self.memory@, resource, query@, 0),
    {
        let length: usize = self.memory.len();
        let mut index: usize = 0;
        while index < resource.count
            invariant
                index <= resource.count <= 0xffff,
                resource.header_offset <= 0xffff,
                resource.data_offset <= 0xffff,
                query@.len() <= ENTRY_ID_SIZE,
                length == self.memory@.len(),
                search_entries(self.memory@, resource, query@, 0) == search_entries(
                    self.memory@,
                    resource,
                    query@,
                    index as int,
                ),
            decreases resource.count - index,
        {
            let at: usize = COMMAND_DB_HEADER_SIZE + resource.header_offset + index
                * ENTRY_HEADER_SIZE;
            if at > length || length - at < ENTRY_HEADER_SIZE {
                return Search::Broken;
            }
            if self.id_matches(at, query) {
                let data_length: usize = self.read_u16(at + 20).unwrap() as usize;
                let data_base: usize = COMMAND_DB_HEADER_SIZE + resource.data_offset;
                let data_offset: usize = data_base + self.read_u16(at + 22).unwrap() as usize;
                if data_base > length || data_offset + data_length > length {
                    return Search::Broken;
                }
                let address: u32 = read_le_u32(&self.memory, at + 16).unwrap();
                return Search::Found(EntryHeader { address, data_length, data_offset });
            }
            index += 1;
        }
        Search::Absent
    }

    /// The entry of an identifier.
    pub fn find(&self, id: &str) -> (r: Option<EntryHeader>)
        ensures
            r == entry_of(self.memory@, vstd::utf8::encode_utf8(id@)),
            r matches Some(entry) ==> entry.data_offset + entry.data_length
                <= self.memory@.len(),
    {
        let query = id.as_bytes();
        if query.len() == 0 || query.len() > ENTRY_ID_SIZE {
            return None;
        }
        let length: usize = self.memory.len();
        let mut index: usize = 0;
        while index < MAX_SLAVES
            invariant
                index <= MAX_SLAVES,
                1 <= query@.len() <= ENTRY_ID_SIZE,
                length == self.memory@.len(),
                query@ == vstd::utf8::encode_utf8(id@),
                search(self.memory@, query@, 0) == search(self.memory@, query@, index as int),
            decreases MAX_SLAVES - index,
        {
            let resource = match self.resource_header(index) {
                Some(resource) => resource,
                None => {
                    return None;
                },
            };
            if COMMAND_DB_HEADER_SIZE + resource.header_offset > length {
                return None;
            }
            match self.find_entry(resource, query) {
                Search::Found(entry) => {
                    proof {
                        entries_lie_in_the_memory(self.memory@, resource, query@, 0);
                    }
                    return Some(entry);
                },
                Search::Broken => {
                    return None;
                },
                Search::Absent => {},
            }
            index += 1;
        }
        None
    }

    /// Whether the memory starts like a database.
    pub fn has_valid_magic(&self) -> (r: bool)
        ensures
            r == has_magic(self.memory@),
    {
        self.memory.len() >= 8 && self.memory[4] == MAGIC_0 && self.memory[5] == MAGIC_1
            && self.memory[6] == MAGIC_2 && self.memory[7] == MAGIC_3
    }
}

/// The memory of a mapped database.
pub open spec fn memory_of(database: Option<&CommandDb>) -> Option<Seq<u8>> {
    match database {
        Some(database) => Some(database.memory@),
        None => None,
    }
}

/// The entry of an identifier, if a database is mapped.
pub open spec fn lookup(memory: Option<Seq<u8>>, id: Seq<char>) -> Option<EntryHeader> {
    match memory {
        Some(memory) => entry_of(memory, vstd::utf8::encode_utf8(id)),
        None => None,
    }
}

/// The auxiliary data of an identifier.
pub open spec fn aux_data(memory: Option<Seq<u8>>, id: Seq<char>) -> Option<Seq<u8>> {
    match lookup(memory, id) {
        Some(entry) => Some(
            memory->0.subrange(
                entry.data_offset as int,
                entry.data_offset + entry.data_length,
            ),
        ),
        None => None,
    }
}

/// Little-endian 16-bit words of a table.
pub open spec fn halfwords(data: Seq<u8>) -> Seq<u16> {
    Seq::new(data.len() / 2, |i: int| le16(data, 2 * i) as u16)
}

/// The address of an RPMh resource; `None` before probing, and where the
/// identifier is absent.
pub fn read_address(database: Option<&CommandDb>, id: &str) -> (r: Option<u32>)
    ensures
        r == (match lookup(memory_of(database), id@) {
            Some(entry) => Some(entry.address),
            None => None,
        }),
{
    match database {
        Some(database) => match database.find(id) {
            Some(entry) => Some(entry.address),
            None => None,
        },
        None => None,
    }
}

/// A copy of the auxiliary data of a resource.
pub fn read_aux_data(database: Option<&CommandDb>, id: &str) -> (r: Option<Vec<u8>>)
    ensures
        match r {
            Some(data) => aux_data(memory_of(database), id@) == Some(data@),
            None => aux_data(memory_of(database), id@) is None,
        },
{
    let database = match database {
        Some(database) => database,
        None => {
            return None;
        },
    };
    let length: usize = database.memory.len();
    match database.find(id) {
        Some(entry) => {
            assert(entry.data_offset + entry.data_length <= length);
            let end: usize = entry.data_offset + entry.data_length;
            Some(crate::bytes::copy_range(&database.memory, entry.data_offset, end))
        },
        None => None,
    }
}

/// A copy of an auxiliary table of 16-bit words; `None` where it is absent,
/// empty or of odd length.
pub fn read_aux_u16(database: Option<&CommandDb>, id: &str) -> (r: Option<Vec<u16>>)
    ensures
        match aux_data(memory_of(database), id@) {
            Some(data) => if data.len() == 0 || data.len() % 2 != 0 {
                r is None
            } else {
                r matches Some(values) && values@ == halfwords(data)
            },
            None => r is None,
        },
{
    let data = match read_aux_data(database, id) {
        Some(data) => data,
        None => {
            return None;
        },
    };
    let length: usize = data.len();
    if length == 0 || length % 2 != 0 {
        return None;
    }
    let mut values: Vec<u16> = Vec::new();
    let mut i: usize = 0;
    while i < length / 2
        invariant
            i <= length / 2,
            length == data@.len(),
            length % 2 == 0,
            values@ == halfwords(data@).take(i as int),
        decreases length / 2 - i,
    {
        values.push(read_le_u16(&data, i * 2).unwrap());
        i += 1;
        assert(values@ =~= halfwords(data@).take(i as int));
    }
    assert(values@ =~= halfwords(data@));
    Some(values)
}

/// The size of the memory to map.
pub fn check_resource(resource: Option<(usize, usize)>) -> (r: Result<usize, &'static str>)
    ensures
        r == (match resource {
            None => Err::<usize, &'static str>("qcom-cmd-db: missing reserved-memory resource"),
            Some((start, end)) => match span(start, end) {
                None => Err("qcom-cmd-db: invalid reserved-memory resource"),
                Some(size) => if size < COMMAND_DB_HEADER_SIZE {
                    Err("qcom-cmd-db: reserved-memory resource is too small")
                } else {
                    Ok(size as usize)
                },
            },
        }),
{
    match resource {
        None => Err("qcom-cmd-db: missing reserved-memory resource"),
        Some((start, end)) => match resource_size(start, end) {
            None => Err("qcom-cmd-db: invalid reserved-memory resource"),
            Some(size) => {
                if size < COMMAND_DB_HEADER_SIZE {
                    return Err("qcom-cmd-db: reserved-memory resource is too small");
                }
                Ok(size)
            },
        },
    }
}

/// Takes mapped memory for a database, if it starts like one.
pub fn probe(memory: Vec<u8>) -> (r: Result<CommandDb, &'static str>)
    ensures
        match r {
            Ok(database) => has_magic(memory@) && database.memory == memory,
            Err(e) => !has_magic(memory@) && e == "qcom-cmd-db: invalid database magic",
        },
{
    let database = CommandDb { memory };
    if !database.has_valid_magic() {
        return Err("qcom-cmd-db: invalid database magic");
    }
    Ok(database)
}

// Laws.

/// An entry that is found lies in the memory with its data, and carries the
/// identifier.
pub proof fn entries_lie_in_the_memory(
    memory: Seq<u8>,
    resource: ResourceHeader,
    query: Seq<u8>,
    from: int,
)
    requires
        0 <= from,
        search_entries(memory, resource, query, from) is Found,
        memory.len() <= usize::MAX,
    ensures
        ({
            let entry = search_entries(memory, resource, query, from)->Found_0;
            &&& entry.data_offset + entry.data_length <= memory.len()
            &&& exists|at: int|
                #![trigger id_at(memory, at, query)]
                0 <= at && at + ENTRY_HEADER_SIZE <= memory.len() && id_at(memory, at, query)
                    && entry.address == le32(memory, at + 16)
        }),
    decreases resource.count - from,
{
    let at = entry_offset(resource, from);
    if !id_at(memory, at, query) {
        entries_lie_in_the_memory(memory, resource, query, from + 1);
    }
}

/// What an identifier leads to lies in the memory, and carries the
/// identifier.
pub proof fn lookups_lie_in_the_memory(memory: Seq<u8>, query: Seq<u8>, from: int)
    requires
        0 <= from,
        search(memory, query, from) is Some,
        memory.len() <= usize::MAX,
    ensures
        ({
            let entry = search(memory, query, from)->0;
            &&& entry.data_offset + entry.data_length <= memory.len()
            &&& exists|at: int|
                #![trigger id_at(memory, at, query)]
                0 <= at && at + ENTRY_HEADER_SIZE <= memory.len() && id_at(memory, at, query)
                    && entry.address == le32(memory, at + 16)
        }),
    decreases MAX_SLAVES - from,
{
    let resource = resource_at(memory, from)->0;
    if search_entries(memory, resource, query, 0) is Found {
        entries_lie_in_the_memory(memory, resource, query, 0);
    } else {
        lookups_lie_in_the_memory(memory, query, from + 1);
    }
}

/// Keeps the driver linked into builds that load it by name.
pub fn force_link() {
}

} // verus!

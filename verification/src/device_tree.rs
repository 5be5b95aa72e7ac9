//! The flattened device tree as a tree of nodes.
//!
//! The tree comes from the `fdt` crate, which takes a blob to be well formed
//! and reads it token by token. So the tokens are checked first: what stands
//! before the first bad one is read, and made into nodes of this library's own.

use vstd::prelude::*;

use crate::bytes::{be32, first_index, read_be_u32};

pub mod laws;

verus! {

/// A property of a node.
#[derive(Debug)]
pub struct Property {
    pub name: String,
    pub value: Vec<u8>,
}

/// A node with its properties and children, both in the order of the blob.
#[derive(Debug)]
pub struct Node {
    pub name: String,
    pub properties: Vec<Property>,
    pub children: Vec<Node>,
}

/// What a node holds besides its children.
#[derive(Debug)]
pub struct Entry {
    pub name: String,
    pub properties: Vec<Property>,
}

pub struct PropertyView {
    pub name: Seq<char>,
    pub value: Seq<u8>,
}

pub struct EntryView {
    pub name: Seq<char>,
    pub properties: Seq<PropertyView>,
}

pub struct NodeView {
    pub name: Seq<char>,
    pub properties: Seq<PropertyView>,
    pub children: Seq<NodeView>,
}

impl View for Property {
    type V = PropertyView;

    open spec fn view(&self) -> PropertyView {
        PropertyView { name: self.name@, value: self.value@ }
    }
}

pub open spec fn property_views(properties: Seq<Property>) -> Seq<PropertyView> {
    Seq::new(properties.len(), |i: int| properties[i]@)
}

impl View for Entry {
    type V = EntryView;

    open spec fn view(&self) -> EntryView {
        EntryView { name: self.name@, properties: property_views(self.properties@) }
    }
}

impl View for Node {
    type V = NodeView;

    open spec fn view(&self) -> NodeView {
        node_view(*self)
    }
}

pub open spec fn node_view(node: Node) -> NodeView
    decreases node,
{
    NodeView {
        name: node.name@,
        properties: property_views(node.properties@),
        children: node_views(node.children@),
    }
}

pub open spec fn node_views(nodes: Seq<Node>) -> Seq<NodeView>
    decreases nodes,
{
    if nodes.len() == 0 {
        Seq::empty()
    } else {
        node_views(nodes.drop_last()).push(node_view(nodes.last()))
    }
}

/// The views of nodes, one for each.
pub proof fn node_views_are_views(nodes: Seq<Node>)
    ensures
        node_views(nodes).len() == nodes.len(),
        forall|i: int|
            0 <= i < nodes.len() ==> #[trigger] node_views(nodes)[i] == node_view(nodes[i]),
    decreases nodes.len(),
{
    if nodes.len() > 0 {
        node_views_are_views(nodes.drop_last());
    }
}

// The tokens of a blob.

pub const FDT_MAGIC: u32 = 0xd00d_feed;

pub const FDT_BEGIN_NODE: u32 = 1;

pub const FDT_END_NODE: u32 = 2;

pub const FDT_PROP: u32 = 3;

pub const FDT_NOP: u32 = 4;

/// How many nodes inside one another a list keeps track of.
pub const MAX_DEPTH: usize = 63;

pub open spec fn is_nul() -> spec_fn(u8) -> bool {
    |byte: u8| byte == 0
}

/// A text that ends in a zero byte stands at an offset.
pub open spec fn text_at(bytes: Seq<u8>, at: int) -> bool {
    &&& 0 <= at <= bytes.len()
    &&& first_index(bytes, is_nul(), at) matches Some(end) && vstd::utf8::valid_utf8(
        bytes.subrange(at, end),
    )
}

/// A length rounded up to whole words.
pub open spec fn aligned(length: int) -> int {
    (length + 3) / 4 * 4
}

/// Where the token behind the property at `at` stands, if the property lies
/// in its block and has a name.
pub open spec fn after_property(block: Seq<u8>, strings: Seq<u8>, at: int) -> Option<int> {
    if at + 12 > block.len() || at + 12 + be32(block, at + 4) > block.len() || !text_at(
        strings,
        be32(block, at + 8),
    ) {
        None
    } else {
        Some(at + 12 + aligned(be32(block, at + 4)))
    }
}

/// Where the token behind the start of the node at `at` stands.
pub open spec fn after_name(block: Seq<u8>, at: int) -> Option<int> {
    if text_at(block, at + 4) {
        Some(at + 4 + aligned(first_index(block, is_nul(), at + 4)->0 + 1 - (at + 4)))
    } else {
        None
    }
}

/// What can follow inside a node.
#[derive(Clone, Copy, Debug, Eq, PartialEq, Structural)]
pub enum Phase {
    /// Properties, children or the end.
    Properties,
    /// Children or the end.
    Children,
    /// Only the end.
    Closing,
}

/// Where the outermost of `open` nodes ends, if their tokens from `at` on can
/// be skipped.
pub open spec fn subtree_end(
    block: Seq<u8>,
    strings: Seq<u8>,
    at: int,
    open: int,
    phase: Phase,
) -> Option<int>
    decreases block.len() - at,
{
    if at < 0 || at + 4 > block.len() {
        None
    } else {
        let token = be32(block, at);
        if token == FDT_PROP && phase == Phase::Properties {
            match after_property(block, strings, at) {
                Some(next) => if at < next <= block.len() {
                    subtree_end(block, strings, next, open, phase)
                } else {
                    None
                },
                None => None,
            }
        } else if token == FDT_BEGIN_NODE && phase != Phase::Closing {
            match after_name(block, at) {
                Some(next) => if at < next <= block.len() {
                    subtree_end(block, strings, next, open + 1, Phase::Properties)
                } else {
                    None
                },
                None => None,
            }
        } else if token == FDT_NOP {
            subtree_end(block, strings, at + 4, open, Phase::Closing)
        } else if token == FDT_END_NODE {
            if open <= 1 {
                Some(at + 4)
            } else {
                subtree_end(block, strings, at + 4, open - 1, Phase::Children)
            }
        } else {
            None
        }
    }
}

/// Where the node that begins at `at` ends.
pub open spec fn node_end(block: Seq<u8>, strings: Seq<u8>, at: int) -> Option<int> {
    match after_name(block, at) {
        Some(next) => if next <= block.len() {
            subtree_end(block, strings, next, 1, Phase::Properties)
        } else {
            None
        },
        None => None,
    }
}

/// The first offset that does not hold a no-operation token.
pub open spec fn after_nops(block: Seq<u8>, at: int) -> int
    decreases block.len() - at,
{
    if 0 <= at && at + 4 <= block.len() && be32(block, at) == FDT_NOP {
        after_nops(block, at + 4)
    } else {
        at
    }
}

/// What follows the name of the root: it is empty or a mere unit address.
pub open spec fn root_at(block: Seq<u8>) -> Option<int> {
    let at = after_nops(block, 0);
    if at + 4 <= block.len() && be32(block, at) == FDT_BEGIN_NODE && text_at(block, at + 4) && (
    block[at + 4] == 0 || block[at + 4] == 0x40) {
        after_name(block, at)
    } else {
        None
    }
}

/// How many properties of the root can be read, one after the other.
pub open spec fn root_properties(block: Seq<u8>, strings: Seq<u8>, at: int) -> int
    decreases block.len() - at,
{
    if at < 0 || at + 4 > block.len() {
        0
    } else if be32(block, at) == FDT_NOP {
        root_properties(block, strings, at + 4)
    } else if be32(block, at) == FDT_PROP {
        match after_property(block, strings, at) {
            Some(next) => if at < next <= block.len() {
                1 + root_properties(block, strings, next)
            } else {
                1
            },
            None => 0,
        }
    } else {
        0
    }
}

/// What follows the properties at `at`, if all of them can be read.
pub open spec fn behind_properties(block: Seq<u8>, strings: Seq<u8>, at: int) -> Option<int>
    decreases block.len() - at,
{
    if at < 0 || at + 4 > block.len() {
        None
    } else if be32(block, at) == FDT_PROP {
        match after_property(block, strings, at) {
            Some(next) => if at < next <= block.len() {
                behind_properties(block, strings, next)
            } else {
                None
            },
            None => None,
        }
    } else {
        Some(at)
    }
}

/// How many children at `at` can be read, one after the other.
pub open spec fn root_children(block: Seq<u8>, strings: Seq<u8>, at: int) -> int
    decreases block.len() - at,
{
    if at < 0 || at + 4 > block.len() {
        0
    } else if be32(block, at) == FDT_NOP {
        root_children(block, strings, at + 4)
    } else if be32(block, at) == FDT_BEGIN_NODE {
        match node_end(block, strings, at) {
            Some(next) => if at < next <= block.len() {
                1 + root_children(block, strings, next)
            } else {
                0
            },
            None => 0,
        }
    } else {
        0
    }
}

/// A blob that is taken for a device tree.
pub open spec fn has_header(blob: Seq<u8>) -> bool {
    &&& blob.len() >= 40
    &&& be32(blob, 0) == FDT_MAGIC
    &&& be32(blob, 4) <= blob.len()
}

/// The tokens lie in the blob.
pub open spec fn has_structure(blob: Seq<u8>) -> bool {
    has_header(blob) && be32(blob, 8) + be32(blob, 36) <= blob.len()
}

pub open spec fn struct_block(blob: Seq<u8>) -> Seq<u8> {
    blob.subrange(be32(blob, 8), be32(blob, 8) + be32(blob, 36))
}

/// The names of the properties; none where they do not lie in the blob.
pub open spec fn strings_block(blob: Seq<u8>) -> Seq<u8> {
    if be32(blob, 12) + be32(blob, 32) <= blob.len() {
        blob.subrange(be32(blob, 12), be32(blob, 12) + be32(blob, 32))
    } else {
        Seq::empty()
    }
}

/// How much of the root can be read: so many of its properties, and so many of
/// its children, or not even where they start.
pub open spec fn readable_root(blob: Seq<u8>) -> Option<(usize, Option<usize>)> {
    if !has_structure(blob) {
        None
    } else {
        let block = struct_block(blob);
        let strings = strings_block(blob);
        match root_at(block) {
            None => None,
            Some(at) => Some(
                (
                    root_properties(block, strings, at) as usize,
                    match behind_properties(block, strings, after_nops(block, at)) {
                        Some(first) => Some(root_children(block, strings, first) as usize),
                        None => None,
                    },
                ),
            ),
        }
    }
}

/// Where a walk over all nodes stands.
#[derive(Clone, Copy, Debug, Eq, PartialEq, Structural)]
pub enum Place {
    /// Between nodes: the open ones can end, another can begin.
    Between,
    /// Behind padding between nodes: only another node can begin.
    Padding,
    /// Behind the name of a node.
    Start,
    /// Behind a property.
    Properties,
    /// Behind padding that follows properties. A property that comes now
    /// still belongs to the node, but ends the walk.
    Trailing,
    /// Behind such a property.
    Beyond,
}

/// A node has been met of which `count` properties were read.
pub open spec fn node_met(count: usize) -> Seq<usize> {
    seq![count]
}

/// How many properties can be read of each node that a walk from `at` on
/// meets, before it ends or cannot go on. `open` nodes have begun, and of the
/// one at hand `count` properties were read.
pub open spec fn readable_from(
    block: Seq<u8>,
    strings: Seq<u8>,
    at: int,
    open: int,
    place: Place,
    count: usize,
) -> Seq<usize>
    decreases block.len() - at,
{
    let left = match place {
        Place::Trailing => node_met(count),
        Place::Beyond => node_met(count),
        _ => Seq::empty(),
    };
    let met = match place {
        Place::Between => Seq::empty(),
        Place::Padding => Seq::empty(),
        _ => node_met(count),
    };
    if at < 0 || at + 4 > block.len() {
        left
    } else {
        let token = be32(block, at);
        if token == FDT_NOP {
            let next = match place {
                Place::Between => Place::Padding,
                Place::Properties => Place::Trailing,
                _ => place,
            };
            readable_from(block, strings, at + 4, open, next, count)
        } else if token == FDT_PROP && place != Place::Between && place != Place::Padding {
            match after_property(block, strings, at) {
                Some(next) => {
                    let behind = match place {
                        Place::Start => Place::Properties,
                        Place::Trailing => Place::Beyond,
                        _ => place,
                    };
                    if at < next <= block.len() {
                        readable_from(block, strings, next, open, behind, (count + 1) as usize)
                    } else if behind == Place::Beyond {
                        node_met((count + 1) as usize)
                    } else {
                        Seq::empty()
                    }
                },
                None => left,
            }
        } else if token == FDT_BEGIN_NODE && place != Place::Beyond {
            match after_name(block, at) {
                Some(next) => if open < MAX_DEPTH && at < next <= block.len() {
                    met + readable_from(block, strings, next, open + 1, Place::Start, 0)
                } else {
                    met
                },
                None => met,
            }
        } else if token == FDT_END_NODE && (place == Place::Between || place == Place::Start
            || place == Place::Properties) {
            if open > 0 {
                met + readable_from(block, strings, at + 4, open - 1, Place::Between, 0)
            } else {
                met
            }
        } else {
            met
        }
    }
}

/// How many properties can be read of each node of a blob.
pub open spec fn readable_nodes(blob: Seq<u8>) -> Seq<usize> {
    readable_from(struct_block(blob), strings_block(blob), 0, 0, Place::Between, 0)
}

/// Calls `core::str::from_utf8`, which accepts exactly the well-formed UTF-8
/// texts.
#[verifier::external_body]
pub(crate) fn is_utf8(bytes: &[u8]) -> (r: bool)
    ensures
        r == vstd::utf8::valid_utf8(bytes@),
{
    core::str::from_utf8(bytes).is_ok()
}

/// Calls `fdt::Fdt::new`, which takes every blob that has a whole header with
/// the magic number and that is as long as the header says.
#[verifier::external_body]
pub(crate) fn opens(blob: &[u8]) -> (r: bool)
    ensures
        r == has_header(blob@),
{
    fdt::Fdt::new(blob).is_ok()
}

fn find_nul(bytes: &[u8], at: usize) -> (r: Option<usize>)
    requires
        at <= bytes@.len(),
    ensures
        match r {
            Some(end) => first_index(bytes@, is_nul(), at as int) == Some(end as int) && at <= end
                < bytes@.len(),
            None => first_index(bytes@, is_nul(), at as int) is None,
        },
{
    let length: usize = bytes.len();
    let mut i: usize = at;
    while i < length
        invariant
            at <= i <= length,
            length == bytes@.len(),
            first_index(bytes@, is_nul(), at as int) == first_index(bytes@, is_nul(), i as int),
        decreases length - i,
    {
        if bytes[i] == 0 {
            return Some(i);
        }
        i += 1;
    }
    None
}

/// The end of the text at an offset.
fn text_end(bytes: &[u8], at: u64) -> (r: Option<usize>)
    ensures
        match r {
            Some(end) => text_at(bytes@, at as int) && first_index(bytes@, is_nul(), at as int)
                == Some(end as int) && at <= end < bytes@.len(),
            None => !text_at(bytes@, at as int),
        },
{
    let length: usize = bytes.len();
    if at > length as u64 {
        return None;
    }
    match find_nul(bytes, at as usize) {
        Some(end) => {
            let text = crate::bytes::copy_range(bytes, at as usize, end);
            if is_utf8(&text) {
                Some(end)
            } else {
                None
            }
        },
        None => None,
    }
}

/// A word of a block, if it is there.
fn word_at(block: &[u8], at: u64) -> (r: Option<u32>)
    ensures
        match r {
            Some(word) => at + 4 <= block@.len() && word == be32(block@, at as int),
            None => at + 4 > block@.len(),
        },
{
    let length: usize = block.len();
    if at > length as u64 {
        return None;
    }
    read_be_u32(block, at as usize)
}

fn next_after_property(block: &[u8], strings: &[u8], at: u64) -> (r: Option<u64>)
    requires
        at + 4 <= block@.len(),
        block@.len() <= u32::MAX,
    ensures
        match r {
            Some(next) => after_property(block@, strings@, at as int) == Some(next as int) && next
                <= block@.len() + 3 && at < next,
            None => after_property(block@, strings@, at as int) is None,
        },
{
    let length: u64 = block.len() as u64;
    if length - at < 12 {
        return None;
    }
    let size: u64 = word_at(block, at + 4).unwrap() as u64;
    let name: u64 = word_at(block, at + 8).unwrap() as u64;
    if size > length - at - 12 {
        return None;
    }
    if text_end(strings, name).is_none() {
        return None;
    }
    Some(at + 12 + (size + 3) / 4 * 4)
}

fn next_after_name(block: &[u8], at: u64) -> (r: Option<u64>)
    requires
        at + 4 <= block@.len(),
        block@.len() <= u32::MAX,
    ensures
        match r {
            Some(next) => after_name(block@, at as int) == Some(next as int) && next
                <= block@.len() + 3 && at < next,
            None => after_name(block@, at as int) is None,
        },
{
    match text_end(block, at + 4) {
        Some(end) => {
            let length: u64 = end as u64 + 1 - (at + 4);
            Some(at + 4 + (length + 3) / 4 * 4)
        },
        None => None,
    }
}

fn end_of_node(block: &[u8], strings: &[u8], start: u64) -> (r: Option<u64>)
    requires
        block@.len() <= u32::MAX,
        start + 4 <= block@.len(),
    ensures
        match r {
            Some(end) => node_end(block@, strings@, start as int) == Some(end as int) && start
                < end <= block@.len(),
            None => node_end(block@, strings@, start as int) is None,
        },
{
    let length: u64 = block.len() as u64;
    let mut at: u64 = match next_after_name(block, start) {
        Some(next) => {
            if next > length {
                return None;
            }
            next
        },
        None => {
            return None;
        },
    };
    let mut open: u64 = 1;
    let mut phase = Phase::Properties;
    loop
        invariant
            length == block@.len(),
            length <= u32::MAX,
            start < at <= length,
            1 <= open <= at,
            node_end(block@, strings@, start as int) == subtree_end(
                block@,
                strings@,
                at as int,
                open as int,
                phase,
            ),
        decreases length - at,
    {
        let token: u32 = match word_at(block, at) {
            Some(token) => token,
            None => {
                return None;
            },
        };
        if token == FDT_PROP && phase == Phase::Properties {
            match next_after_property(block, strings, at) {
                Some(next) => {
                    if next > length {
                        return None;
                    }
                    at = next;
                },
                None => {
                    return None;
                },
            }
        } else if token == FDT_BEGIN_NODE && phase != Phase::Closing {
            match next_after_name(block, at) {
                Some(next) => {
                    if next > length {
                        return None;
                    }
                    at = next;
                    open += 1;
                    phase = Phase::Properties;
                },
                None => {
                    return None;
                },
            }
        } else if token == FDT_NOP {
            phase = Phase::Closing;
            at += 4;
        } else if token == FDT_END_NODE {
            if open == 1 {
                return Some(at + 4);
            }
            at += 4;
            open -= 1;
            phase = Phase::Children;
        } else {
            return None;
        }
    }
}

fn skip_nops(block: &[u8], start: u64) -> (r: u64)
    requires
        block@.len() <= u32::MAX,
        start <= block@.len() + 3,
    ensures
        r == after_nops(block@, start as int),
        start <= r <= block@.len() + 3,
{
    let length: u64 = block.len() as u64;
    let mut at: u64 = start;
    loop
        invariant
            length == block@.len(),
            length <= u32::MAX,
            start <= at <= length + 3,
            after_nops(block@, start as int) == after_nops(block@, at as int),
        decreases length + 4 - at,
    {
        match word_at(block, at) {
            Some(token) => {
                if token != FDT_NOP {
                    return at;
                }
                at += 4;
            },
            None => {
                return at;
            },
        }
    }
}

fn find_root(block: &[u8]) -> (r: Option<u64>)
    requires
        block@.len() <= u32::MAX,
    ensures
        match r {
            Some(at) => root_at(block@) == Some(at as int) && at <= block@.len() + 3,
            None => root_at(block@) is None,
        },
{
    let at: u64 = skip_nops(block, 0);
    match word_at(block, at) {
        Some(token) => {
            if token != FDT_BEGIN_NODE {
                return None;
            }
            match next_after_name(block, at) {
                Some(next) => {
                    let first: u8 = block[(at + 4) as usize];
                    if first == 0 || first == 0x40 {
                        Some(next)
                    } else {
                        None
                    }
                },
                None => None,
            }
        },
        None => None,
    }
}

fn count_properties(block: &[u8], strings: &[u8], start: u64) -> (r: usize)
    requires
        block@.len() <= u32::MAX,
        start <= block@.len() + 3,
    ensures
        r == root_properties(block@, strings@, start as int),
{
    let length: u64 = block.len() as u64;
    let mut at: u64 = start;
    let mut count: usize = 0;
    loop
        invariant
            length == block@.len(),
            length <= u32::MAX,
            start <= at <= length + 3,
            count <= at,
            count <= block@.len(),
            root_properties(block@, strings@, start as int) == count + root_properties(
                block@,
                strings@,
                at as int,
            ),
        decreases length + 4 - at,
    {
        match word_at(block, at) {
            Some(token) => {
                if token == FDT_NOP {
                    at += 4;
                } else if token == FDT_PROP {
                    match next_after_property(block, strings, at) {
                        Some(next) => {
                            count += 1;
                            if next > length {
                                return count;
                            }
                            at = next;
                        },
                        None => {
                            return count;
                        },
                    }
                } else {
                    return count;
                }
            },
            None => {
                return count;
            },
        }
    }
}

fn skip_properties(block: &[u8], strings: &[u8], start: u64) -> (r: Option<u64>)
    requires
        block@.len() <= u32::MAX,
        start <= block@.len() + 3,
    ensures
        match r {
            Some(at) => behind_properties(block@, strings@, start as int) == Some(at as int)
                && at <= block@.len(),
            None => behind_properties(block@, strings@, start as int) is None,
        },
{
    let length: u64 = block.len() as u64;
    let mut at: u64 = start;
    loop
        invariant
            length == block@.len(),
            length <= u32::MAX,
            at <= length + 3,
            behind_properties(block@, strings@, start as int) == behind_properties(
                block@,
                strings@,
                at as int,
            ),
        decreases length + 4 - at,
    {
        match word_at(block, at) {
            Some(token) => {
                if token != FDT_PROP {
                    return Some(at);
                }
                match next_after_property(block, strings, at) {
                    Some(next) => {
                        if next > length {
                            return None;
                        }
                        at = next;
                    },
                    None => {
                        return None;
                    },
                }
            },
            None => {
                return None;
            },
        }
    }
}

fn count_children(block: &[u8], strings: &[u8], start: u64) -> (r: usize)
    requires
        block@.len() <= u32::MAX,
        start <= block@.len(),
    ensures
        r == root_children(block@, strings@, start as int),
{
    let length: u64 = block.len() as u64;
    let mut at: u64 = start;
    let mut count: usize = 0;
    loop
        invariant
            length == block@.len(),
            length <= u32::MAX,
            start <= at <= length,
            count <= at,
            count <= block@.len(),
            root_children(block@, strings@, start as int) == count + root_children(
                block@,
                strings@,
                at as int,
            ),
        decreases length - at,
    {
        match word_at(block, at) {
            Some(token) => {
                if token == FDT_NOP {
                    at += 4;
                } else if token == FDT_BEGIN_NODE {
                    match end_of_node(block, strings, at) {
                        Some(next) => {
                            count += 1;
                            at = next;
                        },
                        None => {
                            return count;
                        },
                    }
                } else {
                    return count;
                }
            },
            None => {
                return count;
            },
        }
    }
}

/// The tokens of a blob and its names.
struct Blocks {
    structure: Vec<u8>,
    strings: Vec<u8>,
}

/// The two blocks of a blob, if its tokens lie in it.
fn read_blocks(blob: &[u8]) -> (r: Option<Blocks>)
    ensures
        match r {
            Some(blocks) => {
                &&& has_structure(blob@)
                &&& blocks.structure@ == struct_block(blob@)
                &&& blocks.strings@ == strings_block(blob@)
                &&& blocks.structure@.len() <= u32::MAX
            },
            None => !has_structure(blob@),
        },
{
    if !opens(blob) {
        return None;
    }
    let length: u64 = blob.len() as u64;
    let structs: u64 = read_be_u32(blob, 8).unwrap() as u64;
    let strings: u64 = read_be_u32(blob, 12).unwrap() as u64;
    let strings_size: u64 = read_be_u32(blob, 32).unwrap() as u64;
    let structs_size: u64 = read_be_u32(blob, 36).unwrap() as u64;
    if structs + structs_size > length {
        return None;
    }
    let names: Vec<u8> = if strings + strings_size > length {
        Vec::new()
    } else {
        crate::bytes::copy_range(blob, strings as usize, (strings + strings_size) as usize)
    };
    let structure = crate::bytes::copy_range(
        blob,
        structs as usize,
        (structs + structs_size) as usize,
    );
    Some(Blocks { structure, strings: names })
}

/// How much of the root of a blob can be read.
fn check_root(blob: &[u8]) -> (r: Option<(usize, Option<usize>)>)
    ensures
        r == readable_root(blob@),
{
    let blocks = match read_blocks(blob) {
        Some(blocks) => blocks,
        None => {
            return None;
        },
    };
    let block = blocks.structure;
    let strings = blocks.strings;
    let at: u64 = match find_root(&block) {
        Some(at) => at,
        None => {
            return None;
        },
    };
    let properties: usize = count_properties(&block, &strings, at);
    let start: u64 = skip_nops(&block, at);
    match skip_properties(&block, &strings, start) {
        Some(first) => Some((properties, Some(count_children(&block, &strings, first)))),
        None => Some((properties, None)),
    }
}

fn count_nodes(block: &[u8], strings: &[u8]) -> (r: Vec<usize>)
    requires
        block@.len() <= u32::MAX,
    ensures
        r@ == readable_from(block@, strings@, 0, 0, Place::Between, 0),
{
    let length: u64 = block.len() as u64;
    let mut nodes: Vec<usize> = Vec::new();
    let mut at: u64 = 0;
    let mut open: usize = 0;
    let mut place = Place::Between;
    let mut count: usize = 0;
    let ghost all = readable_from(block@, strings@, 0, 0, Place::Between, 0);
    assert(nodes@ + all =~= all);
    loop
        invariant
            length == block@.len(),
            length <= u32::MAX,
            at <= length,
            open <= MAX_DEPTH,
            count <= at,
            count <= block@.len(),
            all == readable_from(block@, strings@, 0, 0, Place::Between, 0),
            all == nodes@ + readable_from(
                block@,
                strings@,
                at as int,
                open as int,
                place,
                count,
            ),
        decreases length - at,
    {
        let token: u32 = match word_at(block, at) {
            Some(token) => token,
            None => {
                if place == Place::Trailing || place == Place::Beyond {
                    nodes.push(count);
                }
                assert(nodes@ =~= all);
                return nodes;
            },
        };
        if token == FDT_NOP {
            place = match place {
                Place::Between => Place::Padding,
                Place::Properties => Place::Trailing,
                _ => place,
            };
            at += 4;
        } else if token == FDT_PROP && place != Place::Between && place != Place::Padding {
            match next_after_property(block, strings, at) {
                Some(next) => {
                    place = match place {
                        Place::Start => Place::Properties,
                        Place::Trailing => Place::Beyond,
                        _ => place,
                    };
                    count += 1;
                    if next > length {
                        if place == Place::Beyond {
                            nodes.push(count);
                        }
                        assert(nodes@ =~= all);
                        return nodes;
                    }
                    at = next;
                },
                None => {
                    if place == Place::Trailing || place == Place::Beyond {
                        nodes.push(count);
                    }
                    assert(nodes@ =~= all);
                    return nodes;
                },
            }
        } else {
            if place != Place::Between && place != Place::Padding {
                nodes.push(count);
            }
            if token == FDT_BEGIN_NODE && place != Place::Beyond {
                match next_after_name(block, at) {
                    Some(next) => {
                        if open >= MAX_DEPTH || next > length {
                            assert(nodes@ =~= all);
                            return nodes;
                        }
                        open += 1;
                        place = Place::Start;
                        count = 0;
                        at = next;
                        assert(all =~= nodes@ + readable_from(
                            block@,
                            strings@,
                            at as int,
                            open as int,
                            place,
                            count,
                        ));
                    },
                    None => {
                        assert(nodes@ =~= all);
                        return nodes;
                    },
                }
            } else if token == FDT_END_NODE && (place == Place::Between || place == Place::Start
                || place == Place::Properties) {
                if open == 0 {
                    assert(nodes@ =~= all);
                    return nodes;
                }
                open -= 1;
                place = Place::Between;
                count = 0;
                at += 4;
                assert(all =~= nodes@ + readable_from(
                    block@,
                    strings@,
                    at as int,
                    open as int,
                    place,
                    count,
                ));
            } else {
                assert(nodes@ =~= all);
                return nodes;
            }
        }
    }
}

// Walking a blob.

/// The root of a blob, as `fdt` reads it, with so many of its properties.
pub uninterp spec fn root_entry(blob: Seq<u8>, properties: usize) -> Option<EntryView>;

/// Reads the root of a blob with `fdt::Fdt::new`, `Fdt::find_node` and
/// `FdtNode::properties`, and no more of its properties than were asked. The
/// result depends on the arguments alone; what the root holds is not stated.
/// Where more is asked than can be read, the reading would panic.
#[verifier::external_body]
fn read_root(blob: &[u8], properties: usize) -> (r: Option<Entry>)
    requires
        readable_root(blob@) matches Some((readable, _)) && properties == readable,
    ensures
        root_entry(blob@, properties) == (match r {
            Some(entry) => Some(entry@),
            None => None,
        }),
{
    let tree = fdt::Fdt::new(blob).ok()?;
    let root = tree.find_node("/")?;
    let listed = root.properties().take(properties);
    let properties = listed
        .map(|p| Property { name: String::from(p.name), value: p.value.to_vec() })
        .collect();
    Some(Entry { name: String::from(root.name), properties })
}

/// The node of a blob, as `fdt` reads it, that is reached from the root by taking
/// the child of each of these numbers in turn; none where there is no such
/// child.
pub uninterp spec fn node_entry(blob: Seq<u8>, path: Seq<usize>) -> Option<EntryView>;

/// Reads one node below the root of a blob with `fdt::Fdt::new`,
/// `Fdt::find_node`, `FdtNode::children` and `FdtNode::properties`. The result
/// depends on the arguments alone; what the node holds is not stated. At a
/// child of the root that cannot be read the reading would panic.
#[verifier::external_body]
fn read_node(blob: &[u8], path: &Vec<usize>) -> (r: Option<Entry>)
    requires
        path@.len() > 0,
        readable_root(blob@) matches Some((_, Some(readable))) && path@[0] < readable,
    ensures
        node_entry(blob@, path@) == (match r {
            Some(entry) => Some(entry@),
            None => None,
        }),
{
    let tree = fdt::Fdt::new(blob).ok()?;
    let root = tree.find_node("/")?;
    let node = path.iter().try_fold(root, |node, index| node.children().nth(*index))?;
    let properties = node
        .properties()
        .map(|p| Property { name: String::from(p.name), value: p.value.to_vec() })
        .collect();
    Some(Entry { name: String::from(node.name), properties })
}

/// The node at a path with what is below it, so many levels deep. A node takes
/// more than a byte, so a blob has neither more levels nor more children of one
/// node than bytes.
pub open spec fn node_at(blob: Seq<u8>, path: Seq<usize>, depth: nat) -> Option<NodeView>
    decreases depth, 0int,
{
    match node_entry(blob, path) {
        Some(entry) => Some(
            NodeView {
                name: entry.name,
                properties: entry.properties,
                children: if depth == 0 {
                    Seq::empty()
                } else {
                    children_from(blob, path, 0, (depth - 1) as nat)
                },
            },
        ),
        None => None,
    }
}

/// The children of the node at a path from one of them on.
pub open spec fn children_from(blob: Seq<u8>, path: Seq<usize>, from: int, depth: nat) -> Seq<
    NodeView,
>
    decreases depth, blob.len() - from + 1,
{
    if from >= blob.len() {
        Seq::empty()
    } else {
        match node_at(blob, path.push(from as usize), depth) {
            Some(child) => seq![child] + children_from(blob, path, from + 1, depth),
            None => Seq::empty(),
        }
    }
}

/// One child of the root of a blob.
pub open spec fn child_of(blob: Seq<u8>, index: usize) -> Option<NodeView> {
    node_at(blob, seq![index], blob.len())
}

/// The first children of the root of a blob.
pub open spec fn children_of(blob: Seq<u8>, count: int) -> Seq<NodeView>
    decreases count,
{
    if count <= 0 {
        Seq::empty()
    } else {
        let before = children_of(blob, count - 1);
        match child_of(blob, (count - 1) as usize) {
            Some(child) => before.push(child),
            None => before,
        }
    }
}

/// The tree of a blob, as far as its root can be read; none where there is no
/// root.
pub open spec fn tree_of(blob: Seq<u8>) -> Option<NodeView> {
    match readable_root(blob) {
        Some((properties, children)) => match root_entry(blob, properties) {
            Some(root) => Some(
                NodeView {
                    name: root.name,
                    properties: root.properties,
                    children: match children {
                        Some(count) => children_of(blob, count as int),
                        None => Seq::empty(),
                    },
                },
            ),
            None => None,
        },
        None => None,
    }
}

/// What a tree that may be missing holds.
pub open spec fn tree_view(tree: Option<&Node>) -> Option<NodeView> {
    match tree {
        Some(root) => Some(root@),
        None => None,
    }
}

/// Reads the node at a path with what is below it.
fn read_below(blob: &[u8], path: &mut Vec<usize>, depth: usize) -> (r: Option<Node>)
    requires
        old(path)@.len() > 0,
        readable_root(blob@) matches Some((_, Some(readable))) && old(path)@[0] < readable,
    ensures
        final(path)@ == old(path)@,
        match r {
            Some(node) => node_at(blob@, old(path)@, depth as nat) == Some(node@),
            None => node_at(blob@, old(path)@, depth as nat) is None,
        },
    decreases depth,
{
    let entry = match read_node(blob, path) {
        Some(entry) => entry,
        None => {
            return None;
        },
    };
    let ghost start = path@;
    let mut children: Vec<Node> = Vec::new();
    if depth > 0 {
        let length: usize = blob.len();
        let ghost below = (depth - 1) as nat;
        let ghost all = children_from(blob@, start, 0, below);
        let mut index: usize = 0;
        let mut more: bool = true;
        assert(all =~= node_views(children@) + all);
        while more && index < length
            invariant
                depth > 0,
                below == depth - 1,
                length == blob@.len(),
                index <= length,
                path@ == start,
                start.len() > 0,
                readable_root(blob@) matches Some((_, Some(readable))) && start[0] < readable,
                all == node_views(children@) + (if more {
                    children_from(blob@, start, index as int, below)
                } else {
                    Seq::empty()
                }),
            decreases length - index + (if more { 1int } else { 0 }),
        {
            path.push(index);
            let child = read_below(blob, path, depth - 1);
            path.pop();
            assert(path@ =~= start);
            match child {
                Some(child) => {
                    let ghost before = children@;
                    let ghost rest = children_from(blob@, start, index + 1, below);
                    children.push(child);
                    index += 1;
                    assert(children@.drop_last() =~= before);
                    assert(node_views(before) + (seq![child@] + rest) =~= node_views(children@)
                        + rest);
                },
                None => {
                    more = false;
                },
            }
        }
        assert(all =~= node_views(children@));
    }
    Some(Node { name: entry.name, properties: entry.properties, children })
}

fn read_children(blob: &[u8], count: usize) -> (r: Vec<Node>)
    requires
        readable_root(blob@) matches Some((_, Some(readable))) && count == readable,
    ensures
        node_views(r@) == children_of(blob@, count as int),
{
    let mut children: Vec<Node> = Vec::new();
    let mut index: usize = 0;
    while index < count
        invariant
            index <= count,
            readable_root(blob@) matches Some((_, Some(readable))) && count == readable,
            node_views(children@) == children_of(blob@, index as int),
        decreases count - index,
    {
        let mut path: Vec<usize> = Vec::new();
        path.push(index);
        assert(path@ =~= seq![index]);
        if let Some(child) = read_below(blob, &mut path, blob.len()) {
            let ghost before = children@;
            children.push(child);
            assert(children@.drop_last() =~= before);
        }
        index += 1;
    }
    children
}

/// The tree of a blob, as far as its root can be read; none where there is no
/// root.
pub fn parse(blob: &[u8]) -> (r: Option<Node>)
    ensures
        match r {
            Some(node) => tree_of(blob@) == Some(node@),
            None => tree_of(blob@) is None,
        },
{
    let (properties, children): (usize, Option<usize>) = match check_root(blob) {
        Some(readable) => readable,
        None => {
            return None;
        },
    };
    let root = match read_root(blob, properties) {
        Some(root) => root,
        None => {
            return None;
        },
    };
    let children: Vec<Node> = match children {
        Some(count) => read_children(blob, count),
        None => Vec::new(),
    };
    Some(Node { name: root.name, properties: root.properties, children })
}

// Listing the nodes of a blob.

pub open spec fn list_views(nodes: Seq<Vec<Property>>) -> Seq<Seq<PropertyView>> {
    Seq::new(nodes.len(), |i: int| property_views(nodes[i]@))
}

/// One node of a blob, as `fdt` lists them all, with so many of its properties.
pub uninterp spec fn listed_entry(blob: Seq<u8>, index: usize, properties: usize) -> Option<
    Seq<PropertyView>,
>;

/// Reads one node of the list of all with `fdt::Fdt::new`, `Fdt::all_nodes` and
/// `FdtNode::properties`, and no more of its properties than were asked. The
/// result depends on the arguments alone; which node stands where is not
/// stated. Where more is asked than can be read, the reading would panic.
#[verifier::external_body]
fn read_listed(blob: &[u8], index: usize, properties: usize) -> (r: Option<Vec<Property>>)
    requires
        has_structure(blob@),
        index < readable_nodes(blob@).len(),
        properties == readable_nodes(blob@)[index as int],
    ensures
        listed_entry(blob@, index, properties) == (match r {
            Some(listed) => Some(property_views(listed@)),
            None => None,
        }),
{
    let tree = fdt::Fdt::new(blob).ok()?;
    let node = tree.all_nodes().nth(index)?;
    let listed = node.properties().take(properties);
    let listed = listed
        .map(|p| Property { name: String::from(p.name), value: p.value.to_vec() })
        .collect();
    Some(listed)
}

/// The first nodes of a blob, with so many properties of each.
pub open spec fn first_nodes(blob: Seq<u8>, counts: Seq<usize>, count: int) -> Seq<
    Seq<PropertyView>,
>
    decreases count,
{
    if count <= 0 {
        Seq::empty()
    } else {
        let before = first_nodes(blob, counts, count - 1);
        match listed_entry(blob, (count - 1) as usize, counts[count - 1]) {
            Some(properties) => before.push(properties),
            None => before,
        }
    }
}

/// The nodes of a blob, as far as they can be read; none where it is no device
/// tree.
pub open spec fn listed_nodes(blob: Seq<u8>) -> Option<Seq<Seq<PropertyView>>> {
    if has_structure(blob) {
        let counts = readable_nodes(blob);
        Some(first_nodes(blob, counts, counts.len() as int))
    } else {
        None
    }
}

/// What a list that may be missing holds.
pub open spec fn list_view(nodes: Option<&Vec<Vec<Property>>>) -> Option<Seq<Seq<PropertyView>>> {
    match nodes {
        Some(nodes) => Some(list_views(nodes@)),
        None => None,
    }
}

fn read_listing(blob: &[u8], counts: &Vec<usize>) -> (r: Vec<Vec<Property>>)
    requires
        has_structure(blob@),
        counts@ == readable_nodes(blob@),
    ensures
        list_views(r@) == first_nodes(blob@, counts@, counts@.len() as int),
{
    let mut nodes: Vec<Vec<Property>> = Vec::new();
    let mut index: usize = 0;
    assert(list_views(nodes@) =~= first_nodes(blob@, counts@, 0));
    while index < counts.len()
        invariant
            has_structure(blob@),
            counts@ == readable_nodes(blob@),
            index <= counts@.len(),
            list_views(nodes@) == first_nodes(blob@, counts@, index as int),
        decreases counts@.len() - index,
    {
        if let Some(listed) = read_listed(blob, index, counts[index]) {
            let ghost before = nodes@;
            nodes.push(listed);
            assert(list_views(nodes@) =~= list_views(before).push(property_views(listed@)));
        }
        index += 1;
    }
    nodes
}

/// The properties of every node of a blob, as far as they can be read; none
/// where it is no device tree.
pub fn list(blob: &[u8]) -> (r: Option<Vec<Vec<Property>>>)
    ensures
        match r {
            Some(nodes) => listed_nodes(blob@) == Some(list_views(nodes@)),
            None => listed_nodes(blob@) is None,
        },
{
    match read_blocks(blob) {
        Some(blocks) => {
            let counts = count_nodes(&blocks.structure, &blocks.strings);
            Some(read_listing(blob, &counts))
        },
        None => None,
    }
}

// Properties.

/// The value of the first property of a name.
pub open spec fn first_property(properties: Seq<PropertyView>, name: Seq<char>) -> Option<Seq<u8>>
    decreases properties.len(),
{
    if properties.len() == 0 {
        None
    } else if properties[0].name == name {
        Some(properties[0].value)
    } else {
        first_property(properties.skip(1), name)
    }
}

/// The value of the last property of a name.
pub open spec fn last_property(properties: Seq<PropertyView>, name: Seq<char>) -> Option<Seq<u8>>
    decreases properties.len(),
{
    if properties.len() == 0 {
        None
    } else if properties.last().name == name {
        Some(properties.last().value)
    } else {
        last_property(properties.drop_last(), name)
    }
}

pub open spec fn property_of(node: NodeView, name: Seq<char>) -> Option<Seq<u8>> {
    first_property(node.properties, name)
}

/// The first word of a property.
pub open spec fn first_cell(value: Option<Seq<u8>>) -> Option<u32> {
    match value {
        Some(bytes) => if bytes.len() >= 4 {
            Some(be32(bytes, 0) as u32)
        } else {
            None
        },
        None => None,
    }
}

/// The handle of a node: the first of its two properties that is there.
pub open spec fn phandle_of(node: NodeView) -> Option<u32> {
    match property_of(node, "phandle"@) {
        Some(value) => first_cell(Some(value)),
        None => first_cell(property_of(node, "linux,phandle"@)),
    }
}

/// Either of the two handle properties of a node has a value.
pub open spec fn answers_to(phandle: u32) -> spec_fn(Seq<PropertyView>) -> bool {
    |properties: Seq<PropertyView>|
        first_cell(first_property(properties, "phandle"@)) == Some(phandle) || first_cell(
            first_property(properties, "linux,phandle"@),
        ) == Some(phandle)
}

/// The first node of a list that answers to a handle.
pub open spec fn first_answering(nodes: Seq<Seq<PropertyView>>, phandle: u32) -> Option<
    Seq<PropertyView>,
> {
    match first_index(nodes, answers_to(phandle), 0) {
        Some(i) => Some(nodes[i]),
        None => None,
    }
}

/// The value of a property among those of a node.
pub fn property_in<'a>(properties: &'a Vec<Property>, name: &str) -> (r: Option<&'a Vec<u8>>)
    ensures
        match r {
            Some(value) => first_property(property_views(properties@), name@) == Some(value@),
            None => first_property(property_views(properties@), name@) is None,
        },
{
    let length: usize = properties.len();
    let ghost views = property_views(properties@);
    assert(views.skip(0) =~= views);
    let mut i: usize = 0;
    while i < length
        invariant
            i <= length,
            length == properties@.len(),
            views == property_views(properties@),
            first_property(views, name@) == first_property(views.skip(i as int), name@),
        decreases length - i,
    {
        assert(views.skip(i as int)[0] == properties@[i as int]@);
        assert(views.skip(i as int).skip(1) =~= views.skip(i + 1));
        if crate::bytes::same_text(properties[i].name.as_str(), name) {
            return Some(&properties[i].value);
        }
        i += 1;
    }
    None
}

/// The first word of a property among those of a node.
pub fn cell_in(properties: &Vec<Property>, name: &str) -> (r: Option<u32>)
    ensures
        r == first_cell(first_property(property_views(properties@), name@)),
{
    match property_in(properties, name) {
        Some(value) => read_be_u32(value, 0),
        None => None,
    }
}

fn answers(properties: &Vec<Property>, phandle: u32) -> (r: bool)
    ensures
        r == answers_to(phandle)(property_views(properties@)),
{
    if let Some(own) = cell_in(properties, "phandle") {
        if own == phandle {
            return true;
        }
    }
    match cell_in(properties, "linux,phandle") {
        Some(own) => own == phandle,
        None => false,
    }
}

/// The first node of a list that answers to a handle.
pub fn find_answering(nodes: &Vec<Vec<Property>>, phandle: u32) -> (r: Option<&Vec<Property>>)
    ensures
        match r {
            Some(node) => first_answering(list_views(nodes@), phandle) == Some(
                property_views(node@),
            ),
            None => first_answering(list_views(nodes@), phandle) is None,
        },
{
    let length: usize = nodes.len();
    let ghost views = list_views(nodes@);
    let mut i: usize = 0;
    while i < length
        invariant
            i <= length,
            length == nodes@.len(),
            views == list_views(nodes@),
            first_index(views, answers_to(phandle), 0) == first_index(
                views,
                answers_to(phandle),
                i as int,
            ),
        decreases length - i,
    {
        assert(views[i as int] == property_views(nodes@[i as int]@));
        if answers(&nodes[i], phandle) {
            return Some(&nodes[i]);
        }
        i += 1;
    }
    None
}

impl Node {
    /// The value of a property.
    pub fn property(&self, name: &str) -> (r: Option<&Vec<u8>>)
        ensures
            match r {
                Some(value) => property_of(self@, name@) == Some(value@),
                None => property_of(self@, name@) is None,
            },
    {
        property_in(&self.properties, name)
    }

    /// The value of a property, the last one where there are several.
    pub fn property_last(&self, name: &str) -> (r: Option<&Vec<u8>>)
        ensures
            match r {
                Some(value) => last_property(self@.properties, name@) == Some(value@),
                None => last_property(self@.properties, name@) is None,
            },
    {
        let length: usize = self.properties.len();
        let ghost views = property_views(self.properties@);
        assert(views.take(length as int) =~= views);
        let mut i: usize = length;
        while i > 0
            invariant
                i <= length,
                length == self.properties@.len(),
                views == property_views(self.properties@),
                last_property(self@.properties, name@) == last_property(
                    views.take(i as int),
                    name@,
                ),
            decreases i,
        {
            i -= 1;
            assert(views.take(i + 1).last() == self.properties@[i as int]@);
            assert(views.take(i + 1).drop_last() =~= views.take(i as int));
            if crate::bytes::same_text(self.properties[i].name.as_str(), name) {
                return Some(&self.properties[i].value);
            }
        }
        None
    }

    /// The first word of a property.
    pub fn property_cell(&self, name: &str) -> (r: Option<u32>)
        ensures
            r == first_cell(property_of(self@, name@)),
    {
        cell_in(&self.properties, name)
    }

    /// The handle of the node.
    pub fn phandle(&self) -> (r: Option<u32>)
        ensures
            r == phandle_of(self@),
    {
        if self.property("phandle").is_some() {
            self.property_cell("phandle")
        } else {
            self.property_cell("linux,phandle")
        }
    }
}

// Searches.

/// The node of a handle. A node comes before its children, and a later child
/// before an earlier one.
pub open spec fn by_phandle(node: NodeView, phandle: u32) -> Option<NodeView>
    decreases node,
{
    if phandle_of(node) == Some(phandle) {
        Some(node)
    } else {
        by_phandle_among(node.children, phandle)
    }
}

pub open spec fn by_phandle_among(nodes: Seq<NodeView>, phandle: u32) -> Option<NodeView>
    decreases nodes,
{
    if nodes.len() == 0 {
        None
    } else {
        match by_phandle(nodes.last(), phandle) {
            Some(found) => Some(found),
            None => by_phandle_among(nodes.drop_last(), phandle),
        }
    }
}

/// The node of a handle in a tree.
pub fn find_node_by_phandle(node: &Node, phandle: u32) -> (r: Option<&Node>)
    ensures
        match r {
            Some(found) => by_phandle(node@, phandle) == Some(found@),
            None => by_phandle(node@, phandle) is None,
        },
    decreases node,
{
    if let Some(own) = node.phandle() {
        if own == phandle {
            return Some(node);
        }
    }
    let length: usize = node.children.len();
    proof {
        node_views_are_views(node.children@);
    }
    let ghost views = node_views(node.children@);
    assert(views.take(length as int) =~= views);
    let mut i: usize = length;
    while i > 0
        invariant
            i <= length,
            length == node.children@.len(),
            views == node_views(node.children@),
            views.len() == length,
            forall|k: int| 0 <= k < length ==> #[trigger] views[k] == node_view(node.children@[k]),
            by_phandle(node@, phandle) == by_phandle_among(views.take(i as int), phandle),
        decreases i,
    {
        i -= 1;
        assert(views.take(i + 1).last() == node_view(node.children@[i as int]));
        assert(views.take(i + 1).drop_last() =~= views.take(i as int));
        let found = find_node_by_phandle(&node.children[i], phandle);
        if found.is_some() {
            return found;
        }
    }
    None
}

// Lists of texts.

/// The end of the text that starts at an offset of a list.
pub open spec fn item_end(value: Seq<u8>, from: int) -> int {
    match first_index(value, is_nul(), from) {
        Some(end) => end,
        None => value.len() as int,
    }
}

/// A list of texts, each ended by a zero byte, names a text.
pub open spec fn lists(value: Seq<u8>, from: int, target: Seq<u8>) -> bool
    decreases value.len() - from,
{
    if from < 0 || from > value.len() {
        false
    } else {
        let end = item_end(value, from);
        value.subrange(from, end) == target || (from <= end < value.len() && lists(
            value,
            end + 1,
            target,
        ))
    }
}

/// The same, for a list that is read as UTF-8: a text that is not ends it,
/// and so does the end of the value.
pub open spec fn lists_text(value: Seq<u8>, from: int, target: Seq<u8>) -> bool
    decreases value.len() - from,
{
    if from < 0 || from >= value.len() {
        false
    } else {
        let end = item_end(value, from);
        vstd::utf8::valid_utf8(value.subrange(from, end)) && (value.subrange(from, end) == target
            || (from <= end < value.len() && lists_text(value, end + 1, target)))
    }
}

/// The end of the text that starts at an offset of a list.
pub fn find_item_end(value: &[u8], from: usize) -> (r: usize)
    requires
        from <= value@.len(),
    ensures
        r == item_end(value@, from as int),
        from <= r <= value@.len(),
{
    match find_nul(value, from) {
        Some(end) => end,
        None => value.len(),
    }
}

/// Whether a list of texts names a text.
pub fn names_bytes(value: &[u8], target: &[u8]) -> (r: bool)
    ensures
        r == lists(value@, 0, target@),
{
    let length: usize = value.len();
    let mut from: usize = 0;
    loop
        invariant
            from <= length,
            length == value@.len(),
            lists(value@, 0, target@) == lists(value@, from as int, target@),
        decreases length - from,
    {
        let end: usize = find_item_end(value, from);
        let item = crate::bytes::copy_range(value, from, end);
        if crate::bytes::same_bytes(&item, target) {
            return true;
        }
        if end == length {
            return false;
        }
        from = end + 1;
    }
}

/// Whether a list that is read as UTF-8 names a text.
pub fn names_text(value: &[u8], target: &str) -> (r: bool)
    ensures
        r == lists_text(value@, 0, vstd::utf8::encode_utf8(target@)),
{
    let length: usize = value.len();
    let wanted = target.as_bytes();
    let mut from: usize = 0;
    while from < length
        invariant
            from <= length,
            length == value@.len(),
            wanted@ == vstd::utf8::encode_utf8(target@),
            lists_text(value@, 0, wanted@) == lists_text(value@, from as int, wanted@),
        decreases length - from,
    {
        let end: usize = find_item_end(value, from);
        let item = crate::bytes::copy_range(value, from, end);
        if !is_utf8(&item) {
            return false;
        }
        if crate::bytes::same_bytes(&item, wanted) {
            return true;
        }
        if end == length {
            return false;
        }
        from = end + 1;
    }
    false
}

// Laws.

/// A node that a handle leads to has that handle.
pub proof fn a_found_node_has_the_handle(node: NodeView, phandle: u32)
    ensures
        by_phandle(node, phandle) matches Some(found) ==> phandle_of(found) == Some(phandle),
    decreases node,
{
    if phandle_of(node) != Some(phandle) {
        a_found_node_among_has_the_handle(node.children, phandle);
    }
}

/// The same, for a list of nodes.
pub proof fn a_found_node_among_has_the_handle(nodes: Seq<NodeView>, phandle: u32)
    ensures
        by_phandle_among(nodes, phandle) matches Some(found) ==> phandle_of(found) == Some(
            phandle,
        ),
    decreases nodes,
{
    if nodes.len() > 0 {
        a_found_node_has_the_handle(nodes.last(), phandle);
        a_found_node_among_has_the_handle(nodes.drop_last(), phandle);
    }
}

} // verus!

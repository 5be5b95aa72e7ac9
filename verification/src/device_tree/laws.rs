//! How nodes and properties are found.

use vstd::prelude::*;

use crate::bytes::{be32, first_index, first_index_is_first};
use crate::device_tree::{
    after_name, after_nops, after_property, aligned, answers_to, behind_properties, by_phandle,
    by_phandle_among, first_answering, first_cell, first_property, has_header, has_structure,
    is_nul, item_end, last_property, lists, lists_text, node_end, phandle_of, property_of,
    readable_from, root_at, root_children, root_properties, strings_block, struct_block,
    subtree_end, text_at, NodeView, Phase, Place, PropertyView,
};

verus! {

// Blobs.

/// The header gives its magic number, the size of the blob, and where the
/// structure and the strings lie in it.
pub proof fn headers_say_where_the_blocks_lie(blob: Seq<u8>, i: int)
    requires
        blob.len() >= 40,
    ensures
        has_header(blob) <==> {
            &&& blob[0] == 0xd0 && blob[1] == 0x0d && blob[2] == 0xfe && blob[3] == 0xed
            &&& word(blob, 4) <= blob.len()
        },
        has_structure(blob) <==> has_header(blob) && word(blob, 8) + word(blob, 36) <= blob.len(),
        has_structure(blob) ==> struct_block(blob).len() == word(blob, 36),
        has_structure(blob) && 0 <= i < word(blob, 36) ==> struct_block(blob)[i] == blob[word(
            blob,
            8,
        ) + i],
        word(blob, 12) + word(blob, 32) <= blob.len() && 0 <= i < word(blob, 32) ==> strings_block(
            blob,
        )[i] == blob[word(blob, 12) + i],
{
}

/// Four bytes as a number, the highest first.
pub open spec fn word(bytes: Seq<u8>, at: int) -> int {
    bytes[at] * 0x100_0000 + bytes[at + 1] * 0x1_0000 + bytes[at + 2] * 0x100 + bytes[at + 3]
}

/// Tokens are four bytes apart, so what is shorter is filled up.
pub proof fn tokens_are_four_bytes_apart(length: int)
    requires
        0 <= length,
    ensures
        aligned(length) % 4 == 0,
        length <= aligned(length) < length + 4,
{
}

/// A property is its token, its length, the place of its name among the
/// strings, and its value; the next token follows the value.
pub proof fn properties_follow_one_another(block: Seq<u8>, strings: Seq<u8>, at: int)
    requires
        0 <= at,
        at + 12 <= block.len(),
    ensures
        after_property(block, strings, at) is Some <==> at + 12 + word(block, at + 4) <= block.len()
            && text_at(strings, word(block, at + 8)),
        after_property(block, strings, at) matches Some(next) ==> {
            &&& (next - at) % 4 == 0
            &&& at + 12 + word(block, at + 4) <= next < at + 16 + word(block, at + 4)
        },
{
}

/// A node's name ends with a zero, and the next token follows it.
pub proof fn names_end_with_a_zero(block: Seq<u8>, at: int, end: int)
    requires
        0 <= at,
        at + 4 <= end < block.len(),
        block[end] == 0,
        forall|i: int| at + 4 <= i < end ==> #[trigger] block[i] != 0,
        vstd::utf8::valid_utf8(block.subrange(at + 4, end)),
    ensures
        after_name(block, at) is Some,
        (after_name(block, at)->0 - at) % 4 == 0,
        end < after_name(block, at)->0 <= end + 4,
{
    zeros_are_found(block, at + 4, end);
}

proof fn zeros_are_found(bytes: Seq<u8>, from: int, end: int)
    requires
        0 <= from <= end < bytes.len(),
        bytes[end] == 0,
        forall|i: int| from <= i < end ==> #[trigger] bytes[i] != 0,
    ensures
        first_index(bytes, is_nul(), from) == Some(end),
        item_end(bytes, from) == end,
{
    first_index_is_first(bytes, is_nul(), from);
    match first_index(bytes, is_nul(), from) {
        Some(found) => {
            assert(is_nul()(bytes[found]));
            if found > end {
                assert(!is_nul()(bytes[end]));
            }
        },
        None => {
            assert(!is_nul()(bytes[end]));
        },
    }
}

// Properties.

/// A property is the first of its name.
pub proof fn properties_are_found_by_name(
    properties: Seq<PropertyView>,
    name: Seq<char>,
    index: int,
)
    requires
        0 <= index < properties.len(),
        properties[index].name == name,
        forall|i: int| 0 <= i < index ==> (#[trigger] properties[i]).name != name,
    ensures
        first_property(properties, name) == Some(properties[index].value),
    decreases properties.len(),
{
    if index > 0 {
        let rest = properties.skip(1);
        assert(properties[0].name != name);
        assert forall|i: int| 0 <= i < index - 1 implies (#[trigger] rest[i]).name != name by {
            assert(rest[i] == properties[i + 1]);
        }
        assert(rest[index - 1] == properties[index]);
        properties_are_found_by_name(rest, name, index - 1);
    }
}

/// Where the last one counts, it is the last of its name.
pub proof fn the_last_property_is_found(
    properties: Seq<PropertyView>,
    name: Seq<char>,
    index: int,
)
    requires
        0 <= index < properties.len(),
        properties[index].name == name,
        forall|i: int| index < i < properties.len() ==> (#[trigger] properties[i]).name != name,
    ensures
        last_property(properties, name) == Some(properties[index].value),
    decreases properties.len(),
{
    let last = properties.len() - 1;
    assert(properties.last() == properties[last]);
    if index < last {
        let rest = properties.drop_last();
        assert forall|i: int| index < i < rest.len() implies (#[trigger] rest[i]).name != name by {
            assert(rest[i] == properties[i]);
        }
        assert(rest[index] == properties[index]);
        the_last_property_is_found(rest, name, index);
    }
}

/// A property that is not there is not found.
pub proof fn missing_properties_are_not_found(properties: Seq<PropertyView>, name: Seq<char>)
    requires
        forall|i: int| 0 <= i < properties.len() ==> (#[trigger] properties[i]).name != name,
    ensures
        first_property(properties, name) is None,
    decreases properties.len(),
{
    if properties.len() > 0 {
        let rest = properties.skip(1);
        assert(properties[0].name != name);
        assert forall|i: int| 0 <= i < rest.len() implies (#[trigger] rest[i]).name != name by {
            assert(rest[i] == properties[i + 1]);
        }
        missing_properties_are_not_found(rest, name);
    }
}

/// The first cell of a value is its first four bytes, the highest first.
pub proof fn cells_are_four_bytes(value: Seq<u8>)
    ensures
        first_cell(Some(value)) is Some <==> value.len() >= 4,
        first_cell(Some(value)) matches Some(cell) ==> cell == word(value, 0),
        first_cell(None) is None,
{
}

/// A node's handle is its `phandle`, or its `linux,phandle` where it has no
/// `phandle`.
pub proof fn handles_have_two_names(node: NodeView)
    ensures
        property_of(node, "phandle"@) matches Some(value) ==> phandle_of(node) == first_cell(
            Some(value),
        ),
        property_of(node, "phandle"@) is None ==> phandle_of(node) == first_cell(
            property_of(node, "linux,phandle"@),
        ),
{
}

// Searches.

/// A node answers to its own handle before its children are asked, and of the
/// children the last one that has it.
pub proof fn nodes_answer_before_their_children(
    node: NodeView,
    phandle: u32,
    rest: Seq<NodeView>,
    last: NodeView,
)
    ensures
        phandle_of(node) == Some(phandle) ==> by_phandle(node, phandle) == Some(node),
        phandle_of(node) != Some(phandle) ==> by_phandle(node, phandle) == by_phandle_among(
            node.children,
            phandle,
        ),
        by_phandle(last, phandle) is Some ==> by_phandle_among(rest.push(last), phandle)
            == by_phandle(last, phandle),
        by_phandle(last, phandle) is None ==> by_phandle_among(rest.push(last), phandle)
            == by_phandle_among(rest, phandle),
        by_phandle_among(Seq::empty(), phandle) is None,
{
    assert(rest.push(last).drop_last() =~= rest);
}

/// In a list of nodes, the first one that answers is found, by either name of
/// its handle.
pub proof fn listed_nodes_are_found_by_handle(
    nodes: Seq<Seq<PropertyView>>,
    phandle: u32,
    index: int,
)
    requires
        0 <= index < nodes.len(),
        has_handle(nodes[index], phandle),
        forall|i: int| 0 <= i < index ==> !has_handle(#[trigger] nodes[i], phandle),
    ensures
        first_answering(nodes, phandle) == Some(nodes[index]),
{
    let asked = answers_to(phandle);
    first_index_is_first(nodes, asked, 0);
    match first_index(nodes, asked, 0) {
        Some(found) => {
            assert(asked(nodes[found]));
            assert(has_handle(nodes[found], phandle));
            if found > index {
                assert(!asked(nodes[index]));
            }
        },
        None => {
            assert(!asked(nodes[index]));
        },
    }
}

/// Whether one of the two names of a node's handle gives this handle.
pub open spec fn has_handle(properties: Seq<PropertyView>, phandle: u32) -> bool {
    ||| first_cell(first_property(properties, "phandle"@)) == Some(phandle)
    ||| first_cell(first_property(properties, "linux,phandle"@)) == Some(phandle)
}

/// The items of a list are separated by zeros.
pub proof fn lists_are_separated_by_zeros(value: Seq<u8>, from: int, end: int, target: Seq<u8>)
    requires
        0 <= from <= end < value.len(),
        value[end] == 0,
        forall|i: int| from <= i < end ==> #[trigger] value[i] != 0,
    ensures
        value.subrange(from, end) == target ==> lists(value, from, target),
        value.subrange(from, end) != target ==> (lists(value, from, target) <==> lists(
            value,
            end + 1,
            target,
        )),
{
    zeros_are_found(value, from, end);
}

// Walks over the tokens.

/// A node ends behind an end token of the block.
pub proof fn nodes_end_behind_an_end_token(
    block: Seq<u8>,
    strings: Seq<u8>,
    at: int,
    open: int,
    phase: Phase,
)
    ensures
        subtree_end(block, strings, at, open, phase) matches Some(end) ==> {
            &&& 0 <= at && at + 4 <= end <= block.len()
            &&& be32(block, end - 4) == 2
        },
    decreases block.len() - at,
{
    if 0 <= at && at + 4 <= block.len() {
        let token = be32(block, at);
        if token == 3 && phase == Phase::Properties {
            if let Some(next) = after_property(block, strings, at) {
                if at < next <= block.len() {
                    nodes_end_behind_an_end_token(block, strings, next, open, phase);
                }
            }
        } else if token == 1 && phase != Phase::Closing {
            if let Some(next) = after_name(block, at) {
                if at < next <= block.len() {
                    nodes_end_behind_an_end_token(
                        block,
                        strings,
                        next,
                        open + 1,
                        Phase::Properties,
                    );
                }
            }
        } else if token == 4 {
            nodes_end_behind_an_end_token(block, strings, at + 4, open, Phase::Closing);
        } else if token == 2 && open > 1 {
            nodes_end_behind_an_end_token(block, strings, at + 4, open - 1, Phase::Children);
        }
    }
}

/// Nodes inside one another end one after the other: where the inner ones end,
/// the outer ones go on with their next child.
pub proof fn outer_nodes_go_on_behind_inner_ones(
    block: Seq<u8>,
    strings: Seq<u8>,
    at: int,
    inner: int,
    outer: int,
    phase: Phase,
    end: int,
)
    requires
        1 <= inner,
        1 <= outer,
        subtree_end(block, strings, at, inner, phase) == Some(end),
    ensures
        subtree_end(block, strings, at, inner + outer, phase) == subtree_end(
            block,
            strings,
            end,
            outer,
            Phase::Children,
        ),
    decreases block.len() - at,
{
    let token = be32(block, at);
    if token == 3 && phase == Phase::Properties {
        let next = after_property(block, strings, at)->0;
        outer_nodes_go_on_behind_inner_ones(block, strings, next, inner, outer, phase, end);
    } else if token == 1 && phase != Phase::Closing {
        let next = after_name(block, at)->0;
        outer_nodes_go_on_behind_inner_ones(
            block,
            strings,
            next,
            inner + 1,
            outer,
            Phase::Properties,
            end,
        );
    } else if token == 4 {
        outer_nodes_go_on_behind_inner_ones(
            block,
            strings,
            at + 4,
            inner,
            outer,
            Phase::Closing,
            end,
        );
    } else if inner > 1 {
        outer_nodes_go_on_behind_inner_ones(
            block,
            strings,
            at + 4,
            inner - 1,
            outer,
            Phase::Children,
            end,
        );
    }
}

/// A child is a begin token, a name and what ends it; behind it the parent
/// goes on. Properties come before children, and behind padding a node can
/// only end.
pub proof fn children_are_skipped_whole(
    block: Seq<u8>,
    strings: Seq<u8>,
    at: int,
    open: int,
    phase: Phase,
    end: int,
)
    requires
        0 <= at,
        at + 4 <= block.len(),
        1 <= open,
    ensures
        be32(block, at) == 1 && phase != Phase::Closing && node_end(block, strings, at) == Some(end)
            ==> subtree_end(block, strings, at, open, phase) == subtree_end(
            block,
            strings,
            end,
            open,
            Phase::Children,
        ),
        be32(block, at) == 2 ==> subtree_end(block, strings, at, 1, phase) == Some(at + 4),
        be32(block, at) == 3 && phase != Phase::Properties ==> subtree_end(
            block,
            strings,
            at,
            open,
            phase,
        ) is None,
        be32(block, at) == 1 && phase == Phase::Closing ==> subtree_end(
            block,
            strings,
            at,
            open,
            phase,
        ) is None,
        be32(block, at) == 0 || be32(block, at) > 4 ==> subtree_end(block, strings, at, open, phase)
            is None,
{
    if be32(block, at) == 1 && phase != Phase::Closing && node_end(block, strings, at) == Some(end) {
        names_take_room(block, at);
        let next = after_name(block, at)->0;
        outer_nodes_go_on_behind_inner_ones(
            block,
            strings,
            next,
            1,
            open,
            Phase::Properties,
            end,
        );
    }
}

proof fn names_take_room(block: Seq<u8>, at: int)
    requires
        0 <= at,
    ensures
        after_name(block, at) matches Some(next) ==> next >= at + 8,
{
    if text_at(block, at + 4) {
        first_index_is_first(block, is_nul(), at + 4);
    }
}

/// Padding is words of four, and skipped up to the first other word.
pub proof fn padding_is_skipped(block: Seq<u8>, at: int, word: int)
    requires
        0 <= at,
    ensures
        after_nops(block, at) >= at,
        after_nops(block, at) + 4 <= block.len() ==> be32(block, after_nops(block, at)) != 4,
        0 <= word && at + 4 * word < after_nops(block, at) ==> be32(block, at + 4 * word) == 4,
    decreases block.len() - at,
{
    if at + 4 <= block.len() && be32(block, at) == 4 {
        padding_is_skipped(block, at + 4, word - 1);
    }
}

/// The root is the first node, with an empty name or a mere unit address.
pub proof fn the_root_comes_first(block: Seq<u8>)
    requires
        block.len() >= 8,
        be32(block, 0) == 1,
    ensures
        block[4] == 0 ==> root_at(block) == Some(8int),
        root_at(block) is Some ==> block[4] == 0 || block[4] == 64,
{
    if block[4] == 0 {
        assert(is_nul()(block[4]));
        first_index_is_first(block, is_nul(), 4);
        assert(first_index(block, is_nul(), 4) == Some(4int));
        assert(block.subrange(4, 4) =~= Seq::<u8>::empty());
    }
}

/// Each property and each child of the root that can be read counts once;
/// padding counts nothing, and any other token ends the count.
pub proof fn the_root_is_read_item_by_item(block: Seq<u8>, strings: Seq<u8>, at: int, next: int)
    requires
        0 <= at,
        at + 4 <= block.len(),
        at < next <= block.len(),
    ensures
        be32(block, at) == 3 && after_property(block, strings, at) == Some(next) ==> {
            &&& root_properties(block, strings, at) == 1 + root_properties(block, strings, next)
            &&& behind_properties(block, strings, at) == behind_properties(block, strings, next)
        },
        be32(block, at) == 1 && node_end(block, strings, at) == Some(next) ==> root_children(
            block,
            strings,
            at,
        ) == 1 + root_children(block, strings, next),
        be32(block, at) == 4 ==> {
            &&& root_properties(block, strings, at) == root_properties(block, strings, at + 4)
            &&& root_children(block, strings, at) == root_children(block, strings, at + 4)
        },
        be32(block, at) != 3 ==> behind_properties(block, strings, at) == Some(at),
        be32(block, at) != 3 && be32(block, at) != 4 ==> root_properties(block, strings, at) == 0,
        be32(block, at) != 1 && be32(block, at) != 4 ==> root_children(block, strings, at) == 0,
        after_property(block, strings, at) is None && be32(block, at) == 3 ==> {
            &&& root_properties(block, strings, at) == 0
            &&& behind_properties(block, strings, at) is None
        },
        node_end(block, strings, at) is None && be32(block, at) == 1 ==> root_children(
            block,
            strings,
            at,
        ) == 0,
{
}

/// A walk meets a node with each property counted, goes one level deeper at a
/// begin token and back at an end token, and keeps track of 63 levels.
pub proof fn walks_meet_every_node(
    block: Seq<u8>,
    strings: Seq<u8>,
    at: int,
    open: int,
    count: usize,
    next: int,
)
    requires
        0 <= at,
        at + 4 <= block.len(),
        at < next <= block.len(),
        count < usize::MAX,
    ensures
        be32(block, at) == 3 && after_property(block, strings, at) == Some(next) ==> readable_from(
            block,
            strings,
            at,
            open,
            Place::Properties,
            count,
        ) == readable_from(block, strings, next, open, Place::Properties, (count + 1) as usize),
        be32(block, at) == 1 && after_name(block, at) == Some(next) && open < 63 ==> {
            &&& readable_from(block, strings, at, open, Place::Properties, count) == seq![count]
                + readable_from(block, strings, next, open + 1, Place::Start, 0)
            &&& readable_from(block, strings, at, open, Place::Between, count) == readable_from(
                block,
                strings,
                next,
                open + 1,
                Place::Start,
                0,
            )
        },
        be32(block, at) == 1 && open >= 63 ==> readable_from(
            block,
            strings,
            at,
            open,
            Place::Properties,
            count,
        ) == seq![count],
        be32(block, at) == 2 && open > 0 ==> {
            &&& readable_from(block, strings, at, open, Place::Properties, count) == seq![count]
                + readable_from(block, strings, at + 4, open - 1, Place::Between, 0)
            &&& readable_from(block, strings, at, open, Place::Between, count) == readable_from(
                block,
                strings,
                at + 4,
                open - 1,
                Place::Between,
                0,
            )
        },
        be32(block, at) == 0 || be32(block, at) > 4 ==> readable_from(
            block,
            strings,
            at,
            open,
            Place::Properties,
            count,
        ) == seq![count],
{
}

/// The texts of a list are separated by zeros too; one that is not UTF-8 ends
/// the list, and so does the end of the value.
pub proof fn texts_are_separated_by_zeros(value: Seq<u8>, from: int, end: int, target: Seq<u8>)
    requires
        0 <= from <= end < value.len(),
        value[end] == 0,
        forall|i: int| from <= i < end ==> #[trigger] value[i] != 0,
    ensures
        ({
            let text = value.subrange(from, end);
            let readable = vstd::utf8::valid_utf8(text);
            &&& readable && text == target ==> lists_text(value, from, target)
            &&& readable && text != target ==> (lists_text(value, from, target) <==> lists_text(
                value,
                end + 1,
                target,
            ))
            &&& !readable ==> !lists_text(value, from, target)
        }),
        !lists_text(value, value.len() as int, target),
{
    zeros_are_found(value, from, end);
}

} // verus!

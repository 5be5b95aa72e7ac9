//! What the votes ask for.

use vstd::prelude::*;

use crate::bytes::{be32_bytes, be32_of_bytes, le16_bytes, le16_of_bytes, le32_bytes, le32_of_bytes};
use crate::cmd_db::{aux_data, lookup};
use crate::device_tree::{lists, property_of, NodeView};
use crate::interconnect::{
    aux_of, bcm_quotient, command_of, commits, common_voter, encoded, endpoints, first_vote_fault,
    is_compatible, own_handle, path_bcms, prepared_vote, prepared_votes, provider_node, resolved,
    voter_of, Bcm, BcmAuxData, BcmKind, GpuMemoryPath, PathError, PreparedVote,
};
use crate::platform::cells;
use crate::registry::provider_of;
use crate::rpmh_rsc::RpmhRsc;

verus! {

/// The data of a BCM is read as it was stored.
pub proof fn stored_units_are_read_back(aux: BcmAuxData, tail: Seq<u8>)
    ensures
        aux_of(
            le32_bytes(aux.unit as int) + le16_bytes(aux.width as int) + seq![aux.vcd] + tail,
        ) == Ok::<BcmAuxData, &'static str>(aux),
{
    let bytes = le32_bytes(aux.unit as int) + le16_bytes(aux.width as int) + seq![aux.vcd] + tail;
    le32_of_bytes(aux.unit);
    le16_of_bytes(aux.width);
    assert(bytes[0] == le32_bytes(aux.unit as int)[0]);
    assert(bytes[1] == le32_bytes(aux.unit as int)[1]);
    assert(bytes[2] == le32_bytes(aux.unit as int)[2]);
    assert(bytes[3] == le32_bytes(aux.unit as int)[3]);
    assert(bytes[4] == le16_bytes(aux.width as int)[0]);
    assert(bytes[5] == le16_bytes(aux.width as int)[1]);
}

/// A quotient is rounded down, but a demand never comes to nothing.
pub proof fn a_demand_never_comes_to_nothing(value: int, divisor: int)
    requires
        0 <= value,
        0 < divisor,
    ensures
        value == 0 ==> bcm_quotient(value, divisor) == 0,
        value > 0 ==> bcm_quotient(value, divisor) >= 1,
        value >= divisor ==> bcm_quotient(value, divisor) * divisor <= value,
        value < (bcm_quotient(value, divisor) + 1) * divisor,
{
    vstd::arithmetic::div_mod::lemma_fundamental_div_mod(value, divisor);
    vstd::arithmetic::div_mod::lemma_mod_bound(value, divisor);
    if value >= divisor {
        vstd::arithmetic::div_mod::lemma_div_is_ordered(divisor, value, divisor);
        vstd::arithmetic::div_mod::lemma_div_by_self(divisor);
    }
    let q = value / divisor;
    assert(q * divisor == divisor * q && (q + 1) * divisor == divisor * q + divisor)
        by (nonlinear_arith);
    assert((1 + 1) * divisor == 2 * divisor);
    if value == 0 {
        vstd::arithmetic::div_mod::lemma_div_of0(divisor);
    }
}

proof fn quotients_grow(a: int, b: int, divisor: int)
    requires
        0 <= a <= b,
        0 < divisor,
    ensures
        0 <= bcm_quotient(a, divisor) <= bcm_quotient(b, divisor),
{
    vstd::arithmetic::div_mod::lemma_div_is_ordered(a, b, divisor);
    vstd::arithmetic::div_mod::lemma_div_is_ordered(0, a, divisor);
    vstd::arithmetic::div_mod::lemma_div_of0(divisor);
    if b >= divisor {
        vstd::arithmetic::div_mod::lemma_div_is_ordered(divisor, b, divisor);
        vstd::arithmetic::div_mod::lemma_div_by_self(divisor);
    }
}

/// More bandwidth is never a lesser vote. A BCM of bandwidth votes for it in the
/// second field alone, with no less than the floor that it boots with; asked
/// for nothing it votes for nothing, or for the least where it must stay on. A
/// BCM that is switched has its mask or nothing.
pub proof fn more_bandwidth_is_no_lesser_vote(bcm: Bcm, a: u32, b: u32)
    requires
        bcm.can_vote(a),
        bcm.can_vote(b),
        0 < a <= b,
        bcm.vote(a) is Ok,
    ensures
        bcm.vote(b) is Ok,
        bcm.vote(a)->Ok_0.0 == 0,
        bcm.vote(a)->Ok_0.1 <= bcm.vote(b)->Ok_0.1,
        match bcm.kind {
            BcmKind::EnableMask(mask) => bcm.vote(a)->Ok_0 == (0int, mask as int) && bcm.vote(
                0,
            )->Ok_0 == (0int, 0int),
            BcmKind::Bandwidth { keepalive, boot_floor, .. } => {
                &&& boot_floor ==> bcm.vote(a)->Ok_0.1 >= 0x3fff
                &&& bcm.aux.width > 0 ==> bcm.vote(a)->Ok_0.1 >= 1
                &&& keepalive ==> bcm.vote(0)->Ok_0 == (1int, 1int)
                &&& !keepalive ==> bcm.vote(0)->Ok_0 == (0int, 0int)
            },
        },
{
    match bcm.kind {
        BcmKind::EnableMask(_) => {},
        BcmKind::Bandwidth { node_buswidth, .. } => {
            let width = bcm.aux.width as int;
            assert(0 <= a * width <= b * width) by (nonlinear_arith)
                requires
                    0 <= a <= b,
                    0 <= width,
            ;
            assert(width > 0 ==> a * width > 0) by (nonlinear_arith)
                requires
                    0 < a,
                    0 <= width,
            ;
            let na = bcm_quotient(a * width, node_buswidth as int);
            let nb = bcm_quotient(b * width, node_buswidth as int);
            quotients_grow(a * width, b * width, node_buswidth as int);
            a_demand_never_comes_to_nothing(a * width, node_buswidth as int);
            quotients_grow(na * 1000, nb * 1000, bcm.aux.unit as int);
            a_demand_never_comes_to_nothing(na * 1000, bcm.aux.unit as int);
        },
    }
}

/// What a vote comes to without a floor: a bandwidth of whole units passes
/// through the widths of the node and of the BCM, in thousandths of the unit.
pub proof fn whole_votes_are_exact(bcm: Bcm, peak: u32, normalized: int, vote: int)
    requires
        bcm.kind matches BcmKind::Bandwidth { node_buswidth, boot_floor, .. } && !boot_floor
            && node_buswidth > 0 && peak * bcm.aux.width == normalized * node_buswidth,
        peak > 0,
        bcm.aux.unit > 0,
        normalized > 0,
        vote > 0,
        normalized * 1000 == vote * bcm.aux.unit,
    ensures
        bcm.vote(peak) == Ok::<(int, int), &'static str>((0int, vote)),
{
    let node_buswidth = bcm.kind->node_buswidth as int;
    let unit = bcm.aux.unit as int;
    assert(normalized * node_buswidth >= node_buswidth && vote * unit >= unit) by (nonlinear_arith)
        requires
            normalized > 0,
            vote > 0,
            node_buswidth > 0,
            unit > 0,
    ;
    vstd::arithmetic::div_mod::lemma_div_by_multiple(normalized, node_buswidth);
    vstd::arithmetic::div_mod::lemma_div_by_multiple(vote, unit);
}

/// A command's word holds the two votes, each cut to fourteen bits, whether
/// there is any vote at all, and whether it commits its domain.
pub proof fn words_hold_both_votes(vote_x: int, vote_y: int, commit: bool)
    requires
        0 <= vote_x,
        0 <= vote_y,
    ensures
        ({
            let word = encoded(vote_x, vote_y, commit);
            &&& 0 <= word < 0x8000_0000
            &&& word % 0x4000 == if vote_y < 0x4000 {
                vote_y
            } else {
                0x3fff
            }
            &&& word / 0x4000 % 0x4000 == if vote_x < 0x4000 {
                vote_x
            } else {
                0x3fff
            }
            &&& word / 0x1000_0000 % 2 == 0
            &&& word / 0x2000_0000 % 2 == if vote_x > 0 || vote_y > 0 {
                1int
            } else {
                0int
            }
            &&& word / 0x4000_0000 == if commit {
                1int
            } else {
                0int
            }
        }),
{
}

/// A command carries the vote of its BCM to that BCM's address, and is waited
/// for exactly where it commits.
pub proof fn commands_carry_their_votes(votes: Seq<PreparedVote>, index: int)
    requires
        0 <= index < votes.len(),
    ensures
        ({
            let command = command_of(votes, index);
            &&& command.address == votes[index].address
            &&& command.data as int % 0x4000 == if votes[index].vote_y < 0x4000 {
                votes[index].vote_y as int
            } else {
                0x3fff
            }
            &&& command.data as int / 0x4000 % 0x4000 == if votes[index].vote_x < 0x4000 {
                votes[index].vote_x as int
            } else {
                0x3fff
            }
            &&& command.wait_for_completion <==> command.data >= 0x4000_0000
            &&& command.wait_for_completion <==> index + 1 == votes.len() || votes[index].vcd
                != votes[index + 1].vcd
        }),
{
    words_hold_both_votes(
        votes[index].vote_x as int,
        votes[index].vote_y as int,
        commits(votes, index),
    );
}

/// A BCM's vote goes to its own address and domain.
pub proof fn prepared_votes_are_addressed(bcm: Bcm, peak_kbps: u32)
    ensures
        prepared_vote(bcm, peak_kbps).address == bcm.address,
        prepared_vote(bcm, peak_kbps).vcd == bcm.aux.vcd,
        prepared_vote(bcm, peak_kbps).name == bcm.name,
{
}

/// The path that the GPU names is read as it was stored: it leads from port 8
/// of one provider to port 1 of another.
pub proof fn stored_paths_are_read_back(names: Seq<String>, source: u32, destination: u32)
    requires
        names.len() == 1,
        names[0]@ == "gfx-mem"@,
    ensures
        endpoints(
            Some(names),
            Some(
                be32_bytes(source as int) + be32_bytes(8) + be32_bytes(0) + be32_bytes(
                    destination as int,
                ) + be32_bytes(1) + be32_bytes(0),
            ),
        ) == Ok::<(u32, u32), &'static str>((source, destination)),
{
    let value = be32_bytes(source as int) + be32_bytes(8) + be32_bytes(0) + be32_bytes(
        destination as int,
    ) + be32_bytes(1) + be32_bytes(0);
    be32_of_bytes(source);
    be32_of_bytes(destination);
    let s = be32_bytes(source as int);
    let d = be32_bytes(destination as int);
    assert(value[0] == s[0] && value[1] == s[1] && value[2] == s[2] && value[3] == s[3]);
    assert(value[12] == d[0] && value[13] == d[1] && value[14] == d[2] && value[15] == d[3]);
    assert(value[4] == 0 && value[5] == 0 && value[6] == 0 && value[7] == 8);
    assert(value[8] == 0 && value[9] == 0 && value[10] == 0 && value[11] == 0);
    assert(value[16] == 0 && value[17] == 0 && value[18] == 0 && value[19] == 1);
    assert(value[20] == 0 && value[21] == 0 && value[22] == 0 && value[23] == 0);
    assert(value.len() == 24);
}

/// Both ends of a path vote through the same, existing voter.
pub proof fn both_ends_share_the_voter(
    tree: Option<Option<NodeView>>,
    source: u32,
    destination: u32,
)
    ensures
        common_voter(tree, source, destination) matches Ok(voter) ==> {
            &&& voter != 0
            &&& provider_node(tree->0, source) matches Some(node) && voter_of(node) == Some(voter)
            &&& provider_node(tree->0, destination) matches Some(node) && voter_of(node) == Some(
                voter,
            )
        },
{
}

/// Every manager of a path votes, and the first that cannot fails the whole.
pub proof fn every_manager_votes(bcms: Seq<Bcm>, peak_kbps: u32, index: int)
    requires
        0 <= index < bcms.len(),
    ensures
        prepared_votes(bcms, peak_kbps).len() == bcms.len(),
        prepared_votes(bcms, peak_kbps)[index] == prepared_vote(bcms[index], peak_kbps),
        first_vote_fault(bcms, peak_kbps) is None ==> bcms[index].vote(peak_kbps) is Ok,
        bcms[index].vote(peak_kbps) is Err && (forall|i: int|
            0 <= i < index ==> (#[trigger] bcms[i]).vote(peak_kbps) is Ok) ==> first_vote_fault(
            bcms,
            peak_kbps,
        ) == Some(bcms[index].vote(peak_kbps)->Err_0),
    decreases bcms.len(),
{
    if index > 0 {
        let rest = bcms.skip(1);
        assert(rest[index - 1] == bcms[index]);
        every_manager_votes(rest, peak_kbps, index - 1);
        if forall|i: int| 0 <= i < index ==> (#[trigger] bcms[i]).vote(peak_kbps) is Ok {
            assert(bcms[0].vote(peak_kbps) is Ok);
            assert forall|i: int| 0 <= i < index - 1 implies (#[trigger] rest[i]).vote(peak_kbps)
                is Ok by {
                assert(rest[i] == bcms[i + 1]);
            }
        }
    }
}

/// The path runs through three managers: two that vote by bandwidth, over
/// buses of 16 and 4 bytes, and one that is switched on by bit 3. Each has the
/// address and the data that the command database gives under its name.
pub proof fn three_managers_make_the_path(memory: Option<Seq<u8>>)
    requires
        path_bcms(memory) is Ok,
    ensures
        ({
            let bcms = path_bcms(memory)->Ok_0;
            &&& bcms.len() == 3
            &&& bcms[0].kind == (BcmKind::Bandwidth {
                node_buswidth: 16,
                keepalive: true,
                boot_floor: true,
            })
            &&& bcms[1].kind == (BcmKind::Bandwidth {
                node_buswidth: 4,
                keepalive: true,
                boot_floor: true,
            })
            &&& bcms[2].kind == BcmKind::EnableMask(8)
            &&& bcms[0].aux.unit > 0 && bcms[0].aux.width > 0
            &&& bcms[1].aux.unit > 0 && bcms[1].aux.width > 0
            &&& lookup(memory, "SH0"@) is Some && lookup(memory, "SH0"@)->0.address
                == bcms[0].address
            &&& lookup(memory, "MC0"@) is Some && lookup(memory, "MC0"@)->0.address
                == bcms[1].address
            &&& lookup(memory, "ACV"@) is Some && lookup(memory, "ACV"@)->0.address
                == bcms[2].address
            &&& aux_of(aux_data(memory, "SH0"@)->0) == Ok::<BcmAuxData, &'static str>(bcms[0].aux)
            &&& aux_of(aux_data(memory, "MC0"@)->0) == Ok::<BcmAuxData, &'static str>(bcms[1].aux)
            &&& aux_of(aux_data(memory, "ACV"@)->0) == Ok::<BcmAuxData, &'static str>(bcms[2].aux)
        }),
{
}

/// A path is resolved from its ends, their common voter, and the voter's
/// coordinator; a coordinator that is not there yet defers it. No bandwidth
/// has been voted on it.
pub proof fn paths_are_resolved(
    names: Option<Seq<String>>,
    interconnects: Option<Seq<u8>>,
    tree: Option<Option<NodeView>>,
    voters: Seq<(u32, RpmhRsc)>,
    memory: Option<Seq<u8>>,
    r: Result<GpuMemoryPath, PathError>,
)
    requires
        resolved(names, interconnects, tree, voters, memory, r),
    ensures
        r matches Ok(path) ==> {
            let ends = endpoints(names, interconnects);
            &&& ends is Ok
            &&& common_voter(tree, ends->Ok_0.0, ends->Ok_0.1) is Ok
            &&& provider_of(voters, common_voter(tree, ends->Ok_0.0, ends->Ok_0.1)->Ok_0) == Some(
                path.rsc,
            )
            &&& path_bcms(memory) == Ok::<Seq<Bcm>, &'static str>(path.bcms@)
            &&& path.last_peak_kbps == u32::MAX
        },
        endpoints(names, interconnects) is Err ==> r is Err && r->Err_0 is Failed,
        r matches Err(PathError::Deferred) ==> {
            let ends = endpoints(names, interconnects)->Ok_0;
            provider_of(voters, common_voter(tree, ends.0, ends.1)->Ok_0) is None
        },
{
}

/// Both ends of the path are known, are what the board calls them, and have a
/// voter; it is the same for both.
pub proof fn ends_are_what_they_are_called(root: NodeView, source: u32, destination: u32)
    requires
        common_voter(Some(Some(root)), source, destination) is Ok,
    ensures
        provider_node(Some(root), source) is Some,
        provider_node(Some(root), destination) is Some,
        is_compatible(
            provider_node(Some(root), source)->0,
            vstd::utf8::encode_utf8("qcom,sc7180-gem-noc"@),
        ),
        is_compatible(
            provider_node(Some(root), destination)->0,
            vstd::utf8::encode_utf8("qcom,sc7180-mc-virt"@),
        ),
        voter_of(provider_node(Some(root), source)->0) == Some(
            common_voter(Some(Some(root)), source, destination)->Ok_0,
        ),
        voter_of(provider_node(Some(root), destination)->0) == Some(
            common_voter(Some(Some(root)), source, destination)->Ok_0,
        ),
{
}

/// A voter's own handle is one cell that is not zero, under its newer or its
/// older name.
pub proof fn own_handles_are_not_zero(newer: Option<Seq<u8>>, older: Option<Seq<u8>>)
    ensures
        newer is Some && newer->0.len() != 4 ==> own_handle(newer, older) is Err,
        newer is Some && newer->0.len() == 4 && cells(newer->0)[0] > 0 ==> own_handle(newer, older)
            == Ok::<u32, &'static str>(cells(newer->0)[0]),
        newer is None && older is Some && older->0.len() == 4 && cells(older->0)[0] > 0
            ==> own_handle(newer, older) == Ok::<u32, &'static str>(cells(older->0)[0]),
        newer is None && older is None ==> own_handle(newer, older) is Err,
        own_handle(newer, older) matches Ok(handle) ==> handle > 0,
{
}

/// A node is compatible with what its compatible property lists.
pub proof fn nodes_list_what_they_are_compatible_with(node: NodeView, name: Seq<u8>)
    ensures
        property_of(node, "compatible"@) matches Some(value) ==> (is_compatible(node, name)
            <==> lists(value, 0, name)),
        property_of(node, "compatible"@) is None ==> !is_compatible(node, name),
{
}

} // verus!

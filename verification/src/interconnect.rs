//! SC7180 RPMh interconnect voting for the GPU-to-memory path.
//!
//! The path runs through three bus clock managers (BCMs). A peak bandwidth
//! comes to one vote for each of them; the votes of one virtual clock domain
//! are committed together, by the last of them.

use vstd::prelude::*;

use crate::bytes::{be32, le16, le32, read_be_u32, read_le_u16, read_le_u32};
use crate::cmd_db::{aux_data, lookup, memory_of, read_address, read_aux_data, CommandDb};
use crate::device_tree;
use crate::device_tree::{
    by_phandle, first_cell, has_header, lists, property_of, tree_of, tree_view, Node, NodeView,
};
use crate::platform::{cells, read_cells};
use crate::registry;
use crate::registry::provider_of;
use crate::rpmh_rsc::{wait_mask, Action, ActiveCommand, Batch, RpmhRsc};

pub mod laws;

verus! {

pub const MASTER_GFX3D: u32 = 8;

pub const SLAVE_EBI1: u32 = 1;

pub const QCOM_ICC_TAG_ALWAYS: u32 = 0;

pub const BCM_VOTE_MASK: u64 = 0x3fff;

pub const BCM_COMMIT: u32 = 0x4000_0000;

pub const BCM_VALID: u32 = 0x2000_0000;

pub const BCM_VOTE_X_SHIFT: u32 = 14;

pub const DEFAULT_VOTE_SCALE: u64 = 1_000;

pub const UNSET_PEAK_KBPS: u32 = u32::MAX;

// Bus clock managers.

#[derive(Clone, Copy, Debug, Eq, PartialEq, Structural)]
pub struct BcmAuxData {
    pub unit: u32,
    pub width: u16,
    pub vcd: u8,
}

#[derive(Clone, Copy, Debug, Eq, PartialEq, Structural)]
pub enum BcmKind {
    Bandwidth {
        node_buswidth: u16,
        /// A vote stays while no bandwidth is asked for.
        keepalive: bool,
        /// Other users of the clock are not managed, so it never drops below
        /// the highest vote.
        boot_floor: bool,
    },
    EnableMask(u32),
}

#[derive(Clone, Copy, Debug)]
pub struct Bcm {
    pub name: &'static str,
    pub address: u32,
    pub aux: BcmAuxData,
    pub kind: BcmKind,
}

/// The auxiliary data of a BCM in the Command DB.
pub open spec fn aux_of(bytes: Seq<u8>) -> Result<BcmAuxData, &'static str> {
    if bytes.len() < 4 {
        Err("qcom-sc7180-icc: truncated BCM unit")
    } else if bytes.len() < 6 {
        Err("qcom-sc7180-icc: truncated BCM width")
    } else if bytes.len() < 7 {
        Err("qcom-sc7180-icc: truncated BCM VCD")
    } else {
        Ok(
            BcmAuxData {
                unit: le32(bytes, 0) as u32,
                width: le16(bytes, 4) as u16,
                vcd: bytes[6],
            },
        )
    }
}

pub fn parse_bcm_aux(bytes: &[u8]) -> (r: Result<BcmAuxData, &'static str>)
    ensures
        r == aux_of(bytes@),
{
    let unit: u32 = match read_le_u32(bytes, 0) {
        Some(unit) => unit,
        None => {
            return Err("qcom-sc7180-icc: truncated BCM unit");
        },
    };
    let width: u16 = match read_le_u16(bytes, 4) {
        Some(width) => width,
        None => {
            return Err("qcom-sc7180-icc: truncated BCM width");
        },
    };
    if bytes.len() < 7 {
        return Err("qcom-sc7180-icc: truncated BCM VCD");
    }
    Ok(BcmAuxData { unit, width, vcd: bytes[6] })
}

/// A quotient, except that something is never rounded down to nothing.
pub open spec fn bcm_quotient(value: int, divisor: int) -> int {
    if value != 0 && value < divisor {
        1
    } else {
        value / divisor
    }
}

pub fn bcm_div(value: u64, divisor: u64) -> (r: u64)
    requires
        divisor > 0,
    ensures
        r == bcm_quotient(value as int, divisor as int),
        r <= value,
{
    if value != 0 && value < divisor {
        1
    } else {
        proof {
            assert(value / divisor <= value) by (nonlinear_arith)
                requires
                    divisor > 0,
            ;
        }
        value / divisor
    }
}

impl Bcm {
    /// The votes of a peak bandwidth can be computed: where they take a division
    /// by the unit, it is not zero.
    pub open spec fn can_vote(self, peak_kbps: u32) -> bool {
        self.kind matches BcmKind::Bandwidth { node_buswidth, .. } ==> node_buswidth == 0
            || peak_kbps == 0 || self.aux.unit != 0
    }

    /// The votes of every peak bandwidth can be computed.
    pub open spec fn wf(self) -> bool {
        self.kind matches BcmKind::Bandwidth { node_buswidth, .. } ==> node_buswidth == 0
            || self.aux.unit != 0
    }

    /// The two votes that a peak bandwidth comes to.
    pub open spec fn vote(self, peak_kbps: u32) -> Result<(int, int), &'static str> {
        match self.kind {
            BcmKind::EnableMask(mask) => Ok(
                (
                    0,
                    if peak_kbps == 0 {
                        0
                    } else {
                        mask as int
                    },
                ),
            ),
            BcmKind::Bandwidth { node_buswidth, keepalive, boot_floor } => if node_buswidth == 0 {
                Err("qcom-sc7180-icc: BCM node has zero bus width")
            } else if peak_kbps == 0 {
                Ok(
                    if keepalive {
                        (1, 1)
                    } else {
                        (0, 0)
                    },
                )
            } else {
                let normalized = bcm_quotient(peak_kbps * self.aux.width, node_buswidth as int);
                let scaled = bcm_quotient(
                    normalized * DEFAULT_VOTE_SCALE,
                    self.aux.unit as int,
                );
                Ok(
                    (
                        0,
                        if boot_floor && scaled < BCM_VOTE_MASK {
                            BCM_VOTE_MASK as int
                        } else {
                            scaled
                        },
                    ),
                )
            },
        }
    }

    pub fn votes(self, peak_kbps: u32) -> (r: Result<(u64, u64), &'static str>)
        requires
            self.can_vote(peak_kbps),
        ensures
            match (r, self.vote(peak_kbps)) {
                (Ok((x, y)), Ok(vote)) => x == vote.0 && y == vote.1,
                (Err(a), Err(b)) => a == b,
                _ => false,
            },
    {
        match self.kind {
            BcmKind::EnableMask(mask) => {
                if peak_kbps == 0 {
                    Ok((0, 0))
                } else {
                    Ok((0, mask as u64))
                }
            },
            BcmKind::Bandwidth { node_buswidth, keepalive, boot_floor } => {
                if node_buswidth == 0 {
                    return Err("qcom-sc7180-icc: BCM node has zero bus width");
                }
                if peak_kbps == 0 {
                    return Ok(
                        if keepalive {
                            (1, 1)
                        } else {
                            (0, 0)
                        },
                    );
                }
                let width: u64 = self.aux.width as u64;
                proof {
                    assert(0 <= peak_kbps * width <= 0xffff_ffff * 0xffff) by (nonlinear_arith)
                        requires
                            0 <= peak_kbps <= 0xffff_ffff,
                            0 <= width <= 0xffff,
                    ;
                }
                let normalized: u64 = bcm_div(peak_kbps as u64 * width, node_buswidth as u64);
                let scaled: u64 = bcm_div(
                    normalized * DEFAULT_VOTE_SCALE,
                    self.aux.unit as u64,
                );
                if boot_floor && scaled < BCM_VOTE_MASK {
                    return Ok((0, BCM_VOTE_MASK));
                }
                Ok((0, scaled))
            },
        }
    }

    /// What the Command DB makes of a BCM.
    pub open spec fn loaded(
        memory: Option<Seq<u8>>,
        name: &'static str,
        kind: BcmKind,
    ) -> Result<Bcm, &'static str> {
        match lookup(memory, name@) {
            None => Err("qcom-sc7180-icc: Command DB BCM address is missing"),
            Some(entry) => match aux_of(aux_data(memory, name@)->0) {
                Err(e) => Err(e),
                Ok(aux) => if kind is Bandwidth && (aux.unit == 0 || aux.width == 0) {
                    Err("qcom-sc7180-icc: bandwidth BCM has invalid unit or width")
                } else {
                    Ok(Bcm { name, address: entry.address, aux, kind })
                },
            },
        }
    }

    pub fn load(database: Option<&CommandDb>, name: &'static str, kind: BcmKind) -> (r: Result<
        Bcm,
        &'static str,
    >)
        ensures
            r == Bcm::loaded(memory_of(database), name, kind),
            r matches Ok(bcm) ==> bcm.wf(),
    {
        let address: u32 = match read_address(database, name) {
            Some(address) => address,
            None => {
                return Err("qcom-sc7180-icc: Command DB BCM address is missing");
            },
        };
        let bytes = match read_aux_data(database, name) {
            Some(bytes) => bytes,
            None => {
                return Err("qcom-sc7180-icc: Command DB BCM auxiliary data is missing");
            },
        };
        let aux = match parse_bcm_aux(&bytes) {
            Ok(aux) => aux,
            Err(e) => {
                return Err(e);
            },
        };
        if let BcmKind::Bandwidth { .. } = kind {
            if aux.unit == 0 || aux.width == 0 {
                return Err("qcom-sc7180-icc: bandwidth BCM has invalid unit or width");
            }
        }
        Ok(Bcm { name, address, aux, kind })
    }
}

// Commands.

pub open spec fn clamped(vote: int) -> int {
    if vote <= BCM_VOTE_MASK {
        vote
    } else {
        BCM_VOTE_MASK as int
    }
}

/// A vote as the hardware takes it.
pub open spec fn encoded(vote_x: int, vote_y: int, commit: bool) -> int {
    let x = clamped(vote_x);
    let y = clamped(vote_y);
    x * 0x4000 + y + (if x != 0 || y != 0 {
        BCM_VALID as int
    } else {
        0
    }) + (if commit {
        BCM_COMMIT as int
    } else {
        0
    })
}

pub fn encode_bcm_vote(vote_x: u64, vote_y: u64, commit: bool) -> (r: u32)
    ensures
        r == encoded(vote_x as int, vote_y as int, commit),
{
    let x: u32 = if vote_x <= BCM_VOTE_MASK {
        vote_x as u32
    } else {
        BCM_VOTE_MASK as u32
    };
    let y: u32 = if vote_y <= BCM_VOTE_MASK {
        vote_y as u32
    } else {
        BCM_VOTE_MASK as u32
    };
    let mut data: u32 = x * 0x4000 + y;
    if x != 0 || y != 0 {
        data = data + BCM_VALID;
    }
    if commit {
        data = data + BCM_COMMIT;
    }
    data
}

/// The vote of one BCM, on its way to a command.
#[derive(Clone, Copy, Debug)]
pub struct PreparedVote {
    pub name: &'static str,
    pub vcd: u8,
    pub vote_x: u64,
    pub vote_y: u64,
    pub address: u32,
}

pub open spec fn prepared_vote(bcm: Bcm, peak_kbps: u32) -> PreparedVote {
    let (x, y) = bcm.vote(peak_kbps)->Ok_0;
    PreparedVote {
        name: bcm.name,
        vcd: bcm.aux.vcd,
        vote_x: clamped(x) as u64,
        vote_y: clamped(y) as u64,
        address: bcm.address,
    }
}

/// The votes in the order of the BCMs.
pub open spec fn prepared_votes(bcms: Seq<Bcm>, peak_kbps: u32) -> Seq<PreparedVote> {
    Seq::new(bcms.len(), |i: int| prepared_vote(bcms[i], peak_kbps))
}

/// The votes of one clock domain stand together.
pub open spec fn by_domain(votes: Seq<PreparedVote>) -> bool {
    forall|i: int, j: int|
        0 <= i <= j < votes.len() ==> (#[trigger] votes[i]).vcd <= (#[trigger] votes[j]).vcd
}

/// The last vote of a clock domain commits it.
pub open spec fn commits(votes: Seq<PreparedVote>, index: int) -> bool {
    index + 1 == votes.len() || votes[index].vcd != votes[index + 1].vcd
}

/// The command of a vote. A response is asked for where a domain is
/// committed.
pub open spec fn command_of(votes: Seq<PreparedVote>, index: int) -> ActiveCommand {
    ActiveCommand {
        address: votes[index].address,
        data: encoded(
            votes[index].vote_x as int,
            votes[index].vote_y as int,
            commits(votes, index),
        ) as u32,
        wait_for_completion: commits(votes, index),
    }
}

pub open spec fn commands_of(votes: Seq<PreparedVote>) -> Seq<ActiveCommand> {
    Seq::new(votes.len(), |i: int| command_of(votes, i))
}

/// Puts a vote in its place behind those of lower and equal domains.
fn insert_vote(votes: &mut Vec<PreparedVote>, vote: PreparedVote)
    requires
        by_domain(old(votes)@),
    ensures
        by_domain(final(votes)@),
        final(votes)@.to_multiset() =~= old(votes)@.to_multiset().insert(vote),
        final(votes)@.len() == old(votes)@.len() + 1,
{
    let ghost start = votes@;
    let mut at: usize = votes.len();
    while at > 0 && votes[at - 1].vcd > vote.vcd
        invariant
            at <= votes@.len(),
            votes@ == start,
            forall|i: int| at <= i < start.len() ==> (#[trigger] start[i]).vcd > vote.vcd,
        decreases at,
    {
        at -= 1;
    }
    votes.insert(at, vote);
    proof {
        broadcast use vstd::seq_lib::group_to_multiset_ensures;

        assert(votes@.remove(at as int) =~= start);
        assert(votes@[at as int] == vote);
        assert(votes@.contains(vote));
        assert forall|i: int, j: int| 0 <= i <= j < votes@.len() implies (#[trigger] votes@[i]).vcd
            <= (#[trigger] votes@[j]).vcd by {
            if i < at && at < j {
                assert(start[i].vcd <= start[j - 1].vcd);
            } else if i < at && j == at {
                assert(start[i].vcd <= start[at - 1].vcd);
            } else if i < at {
                assert(start[i].vcd <= start[j].vcd);
            } else if i > at {
                assert(start[i - 1].vcd <= start[j - 1].vcd);
            }
        }
    }
}

/// The commands of votes that are sorted by domain.
pub fn commands(votes: &Vec<PreparedVote>) -> (r: Vec<ActiveCommand>)
    ensures
        r@ == commands_of(votes@),
{
    let length: usize = votes.len();
    let mut list: Vec<ActiveCommand> = Vec::new();
    let mut i: usize = 0;
    while i < length
        invariant
            i <= length,
            length == votes@.len(),
            list@ == commands_of(votes@).take(i as int),
        decreases length - i,
    {
        let commit = i == length - 1 || votes[i].vcd != votes[i + 1].vcd;
        list.push(
            ActiveCommand {
                address: votes[i].address,
                data: encode_bcm_vote(votes[i].vote_x, votes[i].vote_y, commit),
                wait_for_completion: commit,
            },
        );
        i += 1;
        assert(list@ =~= commands_of(votes@).take(i as int));
    }
    assert(list@ =~= commands_of(votes@));
    list
}

// The path.

/// A resolved path from the GPU to memory.
#[derive(Debug)]
pub struct GpuMemoryPath {
    /// The coordinator that takes the votes.
    pub rsc: RpmhRsc,
    pub bcms: Vec<Bcm>,
    pub last_peak_kbps: u32,
}

/// The first BCM, in order, whose vote cannot be computed.
pub open spec fn first_vote_fault(bcms: Seq<Bcm>, peak_kbps: u32) -> Option<&'static str>
    decreases bcms.len(),
{
    if bcms.len() == 0 {
        None
    } else {
        match bcms[0].vote(peak_kbps) {
            Err(e) => Some(e),
            Ok(_) => first_vote_fault(bcms.skip(1), peak_kbps),
        }
    }
}

/// The votes of BCMs can be computed, up to the first that has none.
pub open spec fn can_vote_in_turn(bcms: Seq<Bcm>, peak_kbps: u32) -> bool
    decreases bcms.len(),
{
    bcms.len() > 0 ==> {
        &&& bcms[0].can_vote(peak_kbps)
        &&& bcms[0].vote(peak_kbps) is Ok ==> can_vote_in_turn(bcms.skip(1), peak_kbps)
    }
}

/// The votes of every peak bandwidth can be computed where no BCM stands in the
/// way.
pub proof fn sound_bcms_can_vote(bcms: Seq<Bcm>, peak_kbps: u32)
    requires
        forall|i: int| 0 <= i < bcms.len() ==> (#[trigger] bcms[i]).wf(),
    ensures
        can_vote_in_turn(bcms, peak_kbps),
    decreases bcms.len(),
{
    if bcms.len() > 0 {
        let rest = bcms.skip(1);
        assert forall|i: int| 0 <= i < rest.len() implies (#[trigger] rest[i]).wf() by {
            assert(rest[i] == bcms[i + 1]);
        }
        assert(bcms[0].wf());
        sound_bcms_can_vote(rest, peak_kbps);
    }
}

impl GpuMemoryPath {
    pub open spec fn wf(&self) -> bool {
        &&& self.rsc.wf()
        &&& forall|i: int| 0 <= i < self.bcms@.len() ==> (#[trigger] self.bcms@[i]).wf()
    }

    /// The votes that a peak bandwidth comes to, sorted by clock domain. The
    /// order within a domain is left open.
    pub fn prepare(&self, peak_kbps: u32) -> (r: Result<Vec<PreparedVote>, &'static str>)
        requires
            can_vote_in_turn(self.bcms@, peak_kbps),
        ensures
            match r {
                Ok(votes) => {
                    &&& first_vote_fault(self.bcms@, peak_kbps) is None
                    &&& by_domain(votes@)
                    &&& votes@.to_multiset() =~= prepared_votes(
                        self.bcms@,
                        peak_kbps,
                    ).to_multiset()
                },
                Err(e) => first_vote_fault(self.bcms@, peak_kbps) == Some(e),
            },
    {
        let length: usize = self.bcms.len();
        let mut votes: Vec<PreparedVote> = Vec::new();
        let ghost all = prepared_votes(self.bcms@, peak_kbps);
        assert(all.take(0) =~= Seq::<PreparedVote>::empty());
        assert(votes@ =~= all.take(0));
        assert(self.bcms@.skip(0) =~= self.bcms@);
        let mut i: usize = 0;
        while i < length
            invariant
                i <= length,
                length == self.bcms@.len(),
                can_vote_in_turn(self.bcms@.skip(i as int), peak_kbps),
                all == prepared_votes(self.bcms@, peak_kbps),
                by_domain(votes@),
                votes@.to_multiset() =~= all.take(i as int).to_multiset(),
                first_vote_fault(self.bcms@, peak_kbps) == first_vote_fault(
                    self.bcms@.skip(i as int),
                    peak_kbps,
                ),
            decreases length - i,
        {
            let bcm = self.bcms[i];
            assert(self.bcms@.skip(i as int)[0] == bcm);
            assert(self.bcms@.skip(i as int).skip(1) =~= self.bcms@.skip(i + 1));
            match bcm.votes(peak_kbps) {
                Ok((x, y)) => {
                    let vote_x: u64 = if x <= BCM_VOTE_MASK {
                        x
                    } else {
                        BCM_VOTE_MASK
                    };
                    let vote_y: u64 = if y <= BCM_VOTE_MASK {
                        y
                    } else {
                        BCM_VOTE_MASK
                    };
                    let vote = PreparedVote {
                        name: bcm.name,
                        vcd: bcm.aux.vcd,
                        vote_x,
                        vote_y,
                        address: bcm.address,
                    };
                    proof {
                        assert(all.take(i + 1) =~= all.take(i as int).push(vote));
                        vstd::seq_lib::to_multiset_build(all.take(i as int), vote);
                    }
                    insert_vote(&mut votes, vote);
                },
                Err(e) => {
                    return Err(e);
                },
            }
            i += 1;
        }
        assert(all.take(length as int) =~= all);
        Ok(votes)
    }

    /// Asks for a peak bandwidth in kB/s. Nothing is to be done where it is
    /// the one in force; else the batch of votes is started, on a coordinator
    /// whose active TCS has the given status.
    pub fn set_peak_kbps(&self, peak_kbps: u32, status: u32) -> (r: Result<
        Option<(Batch, Action)>,
        &'static str,
    >)
        requires
            self.rsc.wf(),
            self.last_peak_kbps != peak_kbps ==> can_vote_in_turn(self.bcms@, peak_kbps),
        ensures
            if self.last_peak_kbps == peak_kbps {
                r matches Ok(started) && started is None
            } else {
                match first_vote_fault(self.bcms@, peak_kbps) {
                    Some(e) => r is Err && r->Err_0 == e,
                    None => exists|votes: Seq<PreparedVote>|
                        #![trigger commands_of(votes)]
                        by_domain(votes) && votes.to_multiset() =~= prepared_votes(
                            self.bcms@,
                            peak_kbps,
                        ).to_multiset() && match r {
                            Ok(started) => {
                                &&& self.rsc.refusal(commands_of(votes), status) is None
                                &&& started matches Some((batch, action))
                                &&& batch.wf()
                                &&& (batch@, action@) == self.rsc.begun(commands_of(votes))
                            },
                            Err(e) => self.rsc.refusal(commands_of(votes), status) == Some(e),
                        },
                }
            },
    {
        if self.last_peak_kbps == peak_kbps {
            return Ok(None);
        }
        let votes = match self.prepare(peak_kbps) {
            Ok(votes) => votes,
            Err(e) => {
                return Err(e);
            },
        };
        let list = commands(&votes);
        assert(list@ == commands_of(votes@));
        match self.rsc.write_active_batch(list, status) {
            Ok(started) => Ok(Some(started)),
            Err(e) => Err(e),
        }
    }

    /// Notes that the votes of a peak bandwidth were taken.
    pub fn voted(&mut self, peak_kbps: u32)
        ensures
            *final(self) == (GpuMemoryPath { last_peak_kbps: peak_kbps, ..*old(self) }),
    {
        self.last_peak_kbps = peak_kbps;
    }
}

// Resolving the path.

/// Why a path could not be resolved.
#[derive(Clone, Copy, Debug)]
pub enum PathError {
    Failed(&'static str),
    /// The voter is not there yet.
    Deferred,
}

pub open spec fn property_content(property: Option<&[u8]>) -> Option<Seq<u8>> {
    match property {
        Some(value) => Some(value@),
        None => None,
    }
}

pub open spec fn only_gfx_mem(names: Seq<String>) -> bool {
    names.len() == 1 && names[0]@ == "gfx-mem"@
}

/// The handles of the two providers that a GPU names.
pub open spec fn endpoints(names: Option<Seq<String>>, interconnects: Option<Seq<u8>>) -> Result<
    (u32, u32),
    &'static str,
> {
    if names is None {
        Err("qcom-sc7180-icc: GPU is missing interconnect names")
    } else if !only_gfx_mem(names->0) {
        Err("qcom-sc7180-icc: unsupported GPU interconnect layout")
    } else {
        match interconnects {
            None => Err("qcom-sc7180-icc: GPU is missing its gfx-mem path"),
            Some(value) => if value.len() != 24 {
                Err("qcom-sc7180-icc: gfx-mem path has invalid cell count")
            } else {
                let path = cells(value);
                if path[1] != MASTER_GFX3D || path[4] != SLAVE_EBI1 || path[2]
                    != QCOM_ICC_TAG_ALWAYS || path[5] != QCOM_ICC_TAG_ALWAYS {
                    Err("qcom-sc7180-icc: gfx-mem endpoints do not match SC7180")
                } else {
                    Ok((path[0], path[3]))
                }
            },
        }
    }
}

pub fn read_endpoints(names: Option<&Vec<String>>, interconnects: Option<&[u8]>) -> (r: Result<
    (u32, u32),
    &'static str,
>)
    ensures
        r == endpoints(
            match names {
                Some(names) => Some(names@),
                None => None,
            },
            property_content(interconnects),
        ),
{
    let names = match names {
        Some(names) => names,
        None => {
            return Err("qcom-sc7180-icc: GPU is missing interconnect names");
        },
    };
    if names.len() != 1 || !crate::bytes::same_text(names[0].as_str(), "gfx-mem") {
        return Err("qcom-sc7180-icc: unsupported GPU interconnect layout");
    }
    let value = match interconnects {
        Some(value) => value,
        None => {
            return Err("qcom-sc7180-icc: GPU is missing its gfx-mem path");
        },
    };
    if value.len() != 24 {
        return Err("qcom-sc7180-icc: gfx-mem path has invalid cell count");
    }
    let path = read_cells(value).unwrap();
    if path[1] != MASTER_GFX3D || path[4] != SLAVE_EBI1 || path[2] != QCOM_ICC_TAG_ALWAYS
        || path[5] != QCOM_ICC_TAG_ALWAYS {
        return Err("qcom-sc7180-icc: gfx-mem endpoints do not match SC7180");
    }
    Ok((path[0], path[3]))
}

pub open spec fn is_compatible(node: NodeView, compatible: Seq<u8>) -> bool {
    property_of(node, "compatible"@) matches Some(value) && lists(value, 0, compatible)
}

pub fn has_compatible(node: &Node, compatible: &str) -> (r: bool)
    ensures
        r == is_compatible(node@, vstd::utf8::encode_utf8(compatible@)),
{
    match node.property("compatible") {
        Some(value) => device_tree::names_bytes(value, compatible.as_bytes()),
        None => false,
    }
}

pub open spec fn voter_of(node: NodeView) -> Option<u32> {
    match first_cell(property_of(node, "qcom,bcm-voters"@)) {
        Some(phandle) => if phandle != 0 {
            Some(phandle)
        } else {
            None
        },
        None => None,
    }
}

pub fn provider_voter(node: &Node) -> (r: Option<u32>)
    ensures
        r == voter_of(node@),
{
    match node.property_cell("qcom,bcm-voters") {
        Some(phandle) => {
            if phandle != 0 {
                Some(phandle)
            } else {
                None
            }
        },
        None => None,
    }
}

/// What a device tree that may be missing holds: its root, if it has one.
pub open spec fn root_view(tree: Option<Option<&Node>>) -> Option<Option<NodeView>> {
    match tree {
        Some(root) => Some(tree_view(root)),
        None => None,
    }
}

/// The device tree of a blob.
pub open spec fn root_of(blob: Seq<u8>) -> Option<Option<NodeView>> {
    if has_header(blob) {
        Some(tree_of(blob))
    } else {
        None
    }
}

/// The node of a handle below a root that may be missing.
pub open spec fn provider_node(root: Option<NodeView>, phandle: u32) -> Option<NodeView> {
    match root {
        Some(root) => by_phandle(root, phandle),
        None => None,
    }
}

fn find_provider<'a>(root: Option<&'a Node>, phandle: u32) -> (r: Option<&'a Node>)
    ensures
        tree_view(r) == provider_node(tree_view(root), phandle),
{
    match root {
        Some(root) => device_tree::find_node_by_phandle(root, phandle),
        None => None,
    }
}

/// The voter that two providers of a tree have in common.
pub open spec fn common_voter(
    tree: Option<Option<NodeView>>,
    source: u32,
    destination: u32,
) -> Result<u32, &'static str> {
    let source_node = provider_node(tree->0, source);
    let destination_node = provider_node(tree->0, destination);
    if tree is None {
        Err("qcom-sc7180-icc: FDT is unavailable")
    } else if source_node is None {
        Err("qcom-sc7180-icc: GEM NoC provider was not found")
    } else if destination_node is None {
        Err("qcom-sc7180-icc: MC virtual provider was not found")
    } else if !is_compatible(
        source_node->0,
        vstd::utf8::encode_utf8("qcom,sc7180-gem-noc"@),
    ) || !is_compatible(
        destination_node->0,
        vstd::utf8::encode_utf8("qcom,sc7180-mc-virt"@),
    ) {
        Err("qcom-sc7180-icc: gfx-mem providers are not SC7180 GEM/MC NoCs")
    } else if voter_of(source_node->0) is None {
        Err("qcom-sc7180-icc: GEM NoC has no BCM voter")
    } else if voter_of(destination_node->0) is None {
        Err("qcom-sc7180-icc: MC virtual NoC has no BCM voter")
    } else if voter_of(source_node->0) != voter_of(destination_node->0) {
        Err("qcom-sc7180-icc: gfx-mem providers use different BCM voters")
    } else {
        Ok(voter_of(source_node->0)->0)
    }
}

/// The voter that two providers of a tree have in common.
pub fn find_voter(tree: Option<Option<&Node>>, source: u32, destination: u32) -> (r: Result<
    u32,
    &'static str,
>)
    ensures
        r == common_voter(root_view(tree), source, destination),
{
    let root = match tree {
        Some(root) => root,
        None => {
            return Err("qcom-sc7180-icc: FDT is unavailable");
        },
    };
    let source_node = match find_provider(root, source) {
        Some(node) => node,
        None => {
            return Err("qcom-sc7180-icc: GEM NoC provider was not found");
        },
    };
    let destination_node = match find_provider(root, destination) {
        Some(node) => node,
        None => {
            return Err("qcom-sc7180-icc: MC virtual provider was not found");
        },
    };
    if !has_compatible(source_node, "qcom,sc7180-gem-noc") || !has_compatible(
        destination_node,
        "qcom,sc7180-mc-virt",
    ) {
        return Err("qcom-sc7180-icc: gfx-mem providers are not SC7180 GEM/MC NoCs");
    }
    let source_voter: u32 = match provider_voter(source_node) {
        Some(voter) => voter,
        None => {
            return Err("qcom-sc7180-icc: GEM NoC has no BCM voter");
        },
    };
    let destination_voter: u32 = match provider_voter(destination_node) {
        Some(voter) => voter,
        None => {
            return Err("qcom-sc7180-icc: MC virtual NoC has no BCM voter");
        },
    };
    if source_voter != destination_voter {
        return Err("qcom-sc7180-icc: gfx-mem providers use different BCM voters");
    }
    Ok(source_voter)
}

/// The BCMs of the path, or the first that cannot be loaded.
pub open spec fn path_bcms(memory: Option<Seq<u8>>) -> Result<Seq<Bcm>, &'static str> {
    let wide = |node_buswidth: u16|
        BcmKind::Bandwidth { node_buswidth, keepalive: true, boot_floor: true };
    match (
        Bcm::loaded(memory, "SH0", wide(16)),
        Bcm::loaded(memory, "MC0", wide(4)),
        Bcm::loaded(memory, "ACV", BcmKind::EnableMask(8)),
    ) {
        (Err(e), _, _) => Err(e),
        (_, Err(e), _) => Err(e),
        (_, _, Err(e)) => Err(e),
        (Ok(sh0), Ok(mc0), Ok(acv)) => Ok(seq![sh0, mc0, acv]),
    }
}

fn load_bcms(database: Option<&CommandDb>) -> (r: Result<Vec<Bcm>, &'static str>)
    ensures
        match (r, path_bcms(memory_of(database))) {
            (Ok(bcms), Ok(all)) => bcms@ == all && forall|i: int|
                0 <= i < bcms@.len() ==> (#[trigger] bcms@[i]).wf(),
            (Err(a), Err(b)) => a == b,
            _ => false,
        },
{
    let sh0 = match Bcm::load(
        database,
        "SH0",
        BcmKind::Bandwidth { node_buswidth: 16, keepalive: true, boot_floor: true },
    ) {
        Ok(bcm) => bcm,
        Err(e) => {
            return Err(e);
        },
    };
    let mc0 = match Bcm::load(
        database,
        "MC0",
        BcmKind::Bandwidth { node_buswidth: 4, keepalive: true, boot_floor: true },
    ) {
        Ok(bcm) => bcm,
        Err(e) => {
            return Err(e);
        },
    };
    let acv = match Bcm::load(database, "ACV", BcmKind::EnableMask(8)) {
        Ok(bcm) => bcm,
        Err(e) => {
            return Err(e);
        },
    };
    let mut bcms: Vec<Bcm> = Vec::new();
    bcms.push(sh0);
    bcms.push(mc0);
    bcms.push(acv);
    assert(bcms@ =~= seq![sh0, mc0, acv]);
    Ok(bcms)
}

/// What resolving a path comes to, over the device tree.
pub open spec fn resolved(
    names: Option<Seq<String>>,
    interconnects: Option<Seq<u8>>,
    tree: Option<Option<NodeView>>,
    voters: Seq<(u32, RpmhRsc)>,
    memory: Option<Seq<u8>>,
    r: Result<GpuMemoryPath, PathError>,
) -> bool {
    match endpoints(names, interconnects) {
        Err(e) => r == Err::<GpuMemoryPath, PathError>(PathError::Failed(e)),
        Ok((source, destination)) => match common_voter(tree, source, destination) {
            Err(e) => r == Err::<GpuMemoryPath, PathError>(PathError::Failed(e)),
            Ok(voter) => match provider_of(voters, voter) {
                None => r == Err::<GpuMemoryPath, PathError>(PathError::Deferred),
                Some(rsc) => match path_bcms(memory) {
                    Err(e) => r == Err::<GpuMemoryPath, PathError>(PathError::Failed(e)),
                    Ok(bcms) => r matches Ok(path) && path.rsc == rsc && path.bcms@ == bcms
                        && path.last_peak_kbps == UNSET_PEAK_KBPS,
                },
            },
        },
    }
}

/// Resolves the path over a device tree.
pub fn resolve_path(
    names: Option<&Vec<String>>,
    interconnects: Option<&[u8]>,
    tree: Option<Option<&Node>>,
    voters: &Vec<(u32, RpmhRsc)>,
    database: Option<&CommandDb>,
) -> (r: Result<GpuMemoryPath, PathError>)
    ensures
        resolved(
            match names {
                Some(names) => Some(names@),
                None => None,
            },
            property_content(interconnects),
            root_view(tree),
            voters@,
            memory_of(database),
            r,
        ),
        r matches Ok(path) ==> path.rsc.wf() ==> path.wf(),
{
    let (source, destination): (u32, u32) = match read_endpoints(names, interconnects) {
        Ok(handles) => handles,
        Err(e) => {
            return Err(PathError::Failed(e));
        },
    };
    let voter: u32 = match find_voter(tree, source, destination) {
        Ok(voter) => voter,
        Err(e) => {
            return Err(PathError::Failed(e));
        },
    };
    let rsc = match registry::lookup(voters, voter) {
        Some(rsc) => rsc,
        None => {
            return Err(PathError::Deferred);
        },
    };
    match load_bcms(database) {
        Ok(bcms) => Ok(GpuMemoryPath { rsc, bcms, last_peak_kbps: UNSET_PEAK_KBPS }),
        Err(e) => Err(PathError::Failed(e)),
    }
}

/// Resolves the path from the GPU to memory that a GPU node describes. `blob`
/// is the flattened device tree.
pub fn gpu_memory_path(
    names: Option<&Vec<String>>,
    interconnects: Option<&[u8]>,
    blob: &[u8],
    voters: &Vec<(u32, RpmhRsc)>,
    database: Option<&CommandDb>,
) -> (r: Result<GpuMemoryPath, PathError>)
    ensures
        resolved(
            match names {
                Some(names) => Some(names@),
                None => None,
            },
            property_content(interconnects),
            root_of(blob@),
            voters@,
            memory_of(database),
            r,
        ),
        r matches Ok(path) ==> path.rsc.wf() ==> path.wf(),
{
    if !device_tree::opens(blob) {
        return resolve_path(names, interconnects, None, voters, database);
    }
    match device_tree::parse(blob) {
        Some(root) => resolve_path(names, interconnects, Some(Some(&root)), voters, database),
        None => resolve_path(names, interconnects, Some(None), voters, database),
    }
}

/// One handle property: absent, malformed, or a handle that is zero or not.
pub open spec fn own_handle(phandle: Option<Seq<u8>>, linux_phandle: Option<Seq<u8>>) -> Result<
    u32,
    &'static str,
> {
    if phandle is Some && phandle->0.len() != 4 {
        Err("qcom-sc7180-icc: malformed voter phandle")
    } else if phandle is Some && be32(phandle->0, 0) != 0 {
        Ok(be32(phandle->0, 0) as u32)
    } else if linux_phandle is Some && linux_phandle->0.len() != 4 {
        Err("qcom-sc7180-icc: malformed voter phandle")
    } else if linux_phandle is Some && be32(linux_phandle->0, 0) != 0 {
        Ok(be32(linux_phandle->0, 0) as u32)
    } else {
        Err("qcom-sc7180-icc: voter phandle is missing")
    }
}

/// The coordinator that a voter belongs to.
pub fn voter_parent(parent: Option<u32>) -> (r: Result<u32, &'static str>)
    ensures
        r == (match parent {
            Some(phandle) => Ok::<u32, &'static str>(phandle),
            None => Err("qcom-sc7180-icc: BCM voter parent RSC is missing"),
        }),
{
    match parent {
        Some(phandle) => Ok(phandle),
        None => Err("qcom-sc7180-icc: BCM voter parent RSC is missing"),
    }
}

/// The handle of a voter: the first of its two properties that is not zero.
pub fn own_phandle(phandle: Option<&[u8]>, linux_phandle: Option<&[u8]>) -> (r: Result<
    u32,
    &'static str,
>)
    ensures
        r == own_handle(property_content(phandle), property_content(linux_phandle)),
{
    if let Some(value) = phandle {
        if value.len() != 4 {
            return Err("qcom-sc7180-icc: malformed voter phandle");
        }
        let handle: u32 = read_be_u32(value, 0).unwrap();
        if handle != 0 {
            return Ok(handle);
        }
    }
    if let Some(value) = linux_phandle {
        if value.len() != 4 {
            return Err("qcom-sc7180-icc: malformed voter phandle");
        }
        let handle: u32 = read_be_u32(value, 0).unwrap();
        if handle != 0 {
            return Ok(handle);
        }
    }
    Err("qcom-sc7180-icc: voter phandle is missing")
}

// Laws.

/// Every clock domain is committed exactly once, by the last of its votes.
pub proof fn every_domain_is_committed_once(votes: Seq<PreparedVote>, index: int)
    requires
        by_domain(votes),
        0 <= index < votes.len(),
    ensures
        commits(votes, index) <==> forall|j: int|
            index < j < votes.len() ==> (#[trigger] votes[j]).vcd != votes[index].vcd,
{
    if !commits(votes, index) {
        assert(votes[index + 1].vcd == votes[index].vcd);
    } else {
        assert forall|j: int| index < j < votes.len() implies (#[trigger] votes[j]).vcd
            != votes[index].vcd by {
            assert(votes[index].vcd <= votes[index + 1].vcd);
            assert(votes[index + 1].vcd <= votes[j].vcd);
        }
    }
}

/// A batch of votes always asks for a response, so it is never refused for
/// want of one.
pub proof fn votes_ask_for_a_response(votes: Seq<PreparedVote>)
    requires
        votes.len() > 0,
    ensures
        wait_mask(commands_of(votes)) != 0,
{
    let list = commands_of(votes);
    assert(list.last().wait_for_completion);
    crate::rpmh_rsc::a_response_shows_in_the_mask(list, list.len() - 1);
}

/// A vote fits its field: it never runs into the other vote or the flags.
pub proof fn votes_fit_their_fields(vote_x: int, vote_y: int, commit: bool)
    requires
        0 <= vote_x,
        0 <= vote_y,
    ensures
        0 <= encoded(vote_x, vote_y, commit) <= 0x6fff_ffff,
        encoded(vote_x, vote_y, commit) % 0x4000 == clamped(vote_y),
        encoded(vote_x, vote_y, commit) / 0x4000 % 0x4000 == clamped(vote_x),
        encoded(vote_x, vote_y, commit) / 0x4000_0000 == (if commit {
            1int
        } else {
            0
        }),
{
}

/// Keeps the driver linked into builds that load it by name.
pub fn force_link() {
}

} // verus!

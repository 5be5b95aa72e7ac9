//! Where the coordinator's registers lie, what is loaded into them, and which
//! command set is used.

use vstd::arithmetic::div_mod::{lemma_fundamental_div_mod_converse, lemma_hoist_over_denominator};
use vstd::arithmetic::mul::{lemma_mul_is_associative, lemma_mul_is_commutative};
use vstd::prelude::*;

use crate::mmio::RegOp;
use crate::platform::cells;
use crate::rpmh_rsc::{
    active_group, geometry_of, groups_of, layout_of, load_program, one_cell, phandle_of, poll_clear,
    poll_completion, poll_sync, probed, two_to, wait_mask, ActionView, ActiveCommand, BatchView,
    Poll, Purpose, RpmhRsc, Stage,
};

verus! {

// Registers.

/// The version of the coordinator, in bits 16 to 23 of its identifier, says
/// where its registers are.
pub proof fn versions_have_their_registers(rsc_id: u32)
    ensures
        ({
            let registers = layout_of(rsc_id);
            let recent = rsc_id as int / 0x1_0000 % 0x100 >= 3;
            &&& registers.tcs_stride == 672
            &&& registers.irq_enable == 0 && registers.irq_status == 4 && registers.irq_clear == 8
            &&& recent ==> registers.command_stride == 24 && registers.command_wait_for_completion
                == 0x20 && registers.control == 0x24 && registers.status == 0x28
                && registers.command_enable == 0x2c && registers.command_msgid == 0x34
                && registers.command_address == 0x38 && registers.command_data == 0x3c
                && registers.command_status == 0x40
            &&& !recent ==> registers.command_stride == 20 && registers.command_wait_for_completion
                == 0x10 && registers.control == 0x14 && registers.status == 0x18
                && registers.command_enable == 0x1c && registers.command_msgid == 0x30
                && registers.command_address == 0x34 && registers.command_data == 0x38
                && registers.command_status == 0x3c
        }),
{
}

/// The registers of a command set lie 672 bytes from those of the one before,
/// those of a command by the stride of the version.
pub proof fn registers_lie_apart(rsc: RpmhRsc, command: int, offset: usize)
    requires
        rsc.wf(),
        0 <= command < 16,
        offset <= 0x40,
    ensures
        rsc.tcs_register(offset) == 672 * rsc.active_tcs_offset + offset,
        rsc.tcs_command(command, offset) == 672 * rsc.active_tcs_offset + offset
            + rsc.registers.command_stride * command,
{
    assert(rsc.registers.command_stride == 20 || rsc.registers.command_stride == 24);
}

// Powers of two.

/// Powers of two multiply by adding.
proof fn powers_multiply(a: nat, b: nat)
    ensures
        two_to(a + b) == two_to(a) * two_to(b),
        two_to(a) >= 1,
    decreases b,
{
    if b > 0 {
        powers_multiply(a, (b - 1) as nat);
        assert(two_to(a + b) == 2 * two_to((a + b - 1) as nat));
        assert(two_to(a) * two_to(b) == 2 * (two_to(a) * two_to((b - 1) as nat))) by {
            lemma_mul_is_associative(two_to(a), 2, two_to((b - 1) as nat));
            lemma_mul_is_commutative(two_to(a), 2);
            lemma_mul_is_associative(2, two_to(a), two_to((b - 1) as nat));
        }
    } else {
        power_is_positive(a);
        assert(two_to(0) == 1);
        assert(two_to(a) * 1 == two_to(a));
    }
}

proof fn power_is_positive(a: nat)
    ensures
        two_to(a) >= 1,
    decreases a,
{
    if a > 0 {
        power_is_positive((a - 1) as nat);
    }
}

proof fn masks_are_limited(commands: Seq<ActiveCommand>)
    ensures
        0 <= wait_mask(commands) < two_to(commands.len()),
    decreases commands.len(),
{
    if commands.len() > 0 {
        masks_are_limited(commands.drop_last());
        assert(two_to(commands.len()) == 2 * two_to((commands.len() - 1) as nat));
        power_is_positive((commands.len() - 1) as nat);
    }
}

/// Bit `index` of the mask is set if and only if that command asks for a
/// response.
pub proof fn mask_bits_are_commands(commands: Seq<ActiveCommand>, index: int)
    requires
        0 <= index < commands.len(),
    ensures
        wait_mask(commands) / two_to(index as nat) % 2 == 1 <==> commands[index].wait_for_completion,
        wait_mask(commands) / two_to(index as nat) % 2 == 0
            <==> !commands[index].wait_for_completion,
    decreases commands.len(),
{
    let rest = commands.drop_last();
    let last = (commands.len() - 1) as nat;
    let below = wait_mask(rest);
    let step = two_to(index as nat);
    masks_are_limited(rest);
    power_is_positive(index as nat);
    if index == last {
        if commands[index].wait_for_completion {
            assert(wait_mask(commands) == below + 1 * step);
            lemma_fundamental_div_mod_converse(below + step, step, 1, below);
        } else {
            lemma_fundamental_div_mod_converse(below, step, 0, below);
        }
    } else {
        assert(rest[index] == commands[index]);
        mask_bits_are_commands(rest, index);
        if commands.last().wait_for_completion {
            let more = two_to((last - index - 1) as nat);
            assert(two_to((last - index) as nat) == 2 * more);
            powers_multiply(index as nat, (last - index) as nat);
            assert(two_to(last) == step * (2 * more));
            lemma_mul_is_commutative(step, 2 * more);
            lemma_hoist_over_denominator(below, 2 * more, step as nat);
            assert((below / step + 2 * more) % 2 == below / step % 2);
        }
    }
}

// Batches.

/// The registers of each command get its message, which says whether it asks
/// for a response, its address and its data.
pub proof fn commands_are_loaded(
    rsc: RpmhRsc,
    commands: Seq<ActiveCommand>,
    count: int,
    index: int,
)
    requires
        0 <= index < count <= commands.len(),
    ensures
        load_program(rsc, commands, count).len() == 3 * count,
        load_program(rsc, commands, count)[3 * index] == (RegOp::Write {
            offset: rsc.tcs_command(index, rsc.registers.command_msgid),
            value: if commands[index].wait_for_completion {
                0x1_0108u32
            } else {
                0x1_0008u32
            },
        }),
        load_program(rsc, commands, count)[3 * index + 1] == (RegOp::Write {
            offset: rsc.tcs_command(index, rsc.registers.command_address),
            value: commands[index].address,
        }),
        load_program(rsc, commands, count)[3 * index + 2] == (RegOp::Write {
            offset: rsc.tcs_command(index, rsc.registers.command_data),
            value: commands[index].data,
        }),
    decreases count,
{
    if index < count - 1 {
        commands_are_loaded(rsc, commands, count - 1, index);
    } else if count > 1 {
        commands_are_loaded(rsc, commands, count - 1, 0);
    } else {
        assert(load_program(rsc, commands, 0) == Seq::<RegOp>::empty());
    }
}

/// A batch is taken if and only if it has a command and no more than fit, one
/// of them asks for a response, and the command set is idle.
pub proof fn idle_sets_take_batches(rsc: RpmhRsc, commands: Seq<ActiveCommand>, status: u32)
    requires
        rsc.wf(),
    ensures
        rsc.refusal(commands, status) is None <==> {
            &&& 1 <= commands.len() <= rsc.commands_per_tcs
            &&& status != 0
            &&& exists|i: int|
                0 <= i < commands.len() && (#[trigger] commands[i]).wait_for_completion
        },
{
    if wait_mask(commands) != 0 {
        some_command_waits(commands);
    }
    if exists|i: int| 0 <= i < commands.len() && (#[trigger] commands[i]).wait_for_completion {
        let i = choose|i: int|
            0 <= i < commands.len() && (#[trigger] commands[i]).wait_for_completion;
        crate::rpmh_rsc::a_response_shows_in_the_mask(commands, i);
    }
}

proof fn some_command_waits(commands: Seq<ActiveCommand>)
    requires
        wait_mask(commands) != 0,
    ensures
        exists|i: int| 0 <= i < commands.len() && (#[trigger] commands[i]).wait_for_completion,
    decreases commands.len(),
{
    if commands.last().wait_for_completion {
        assert(commands[commands.len() - 1].wait_for_completion);
    } else {
        some_command_waits(commands.drop_last());
        let i = choose|i: int|
            0 <= i < commands.drop_last().len() && (#[trigger] commands.drop_last()[i]).wait_for_completion;
        assert(commands[i].wait_for_completion);
    }
}

/// A command set is put to rest by taking its trigger back, then its enable,
/// then its commands.
pub proof fn sets_are_put_to_rest(batch: BatchView, ok: bool, value: u32, purpose: Purpose)
    requires
        batch.wf(),
    ensures
        ({
            let control = 672 * batch.rsc.active_tcs_offset + batch.rsc.registers.control;
            let enable = 672 * batch.rsc.active_tcs_offset + batch.rsc.registers.command_enable;
            let (next, action) = batch.step(ok, value);
            &&& batch.stage == (Stage::Control { purpose }) ==> {
                &&& action is Sync && action->Sync_offset == control
                &&& next.stage is Untrigger && next.stage->control == action->Sync_value
                &&& value as int / 0x100_0000 % 2 == 1 ==> action->Sync_value == value - 0x100_0000
                &&& value as int / 0x100_0000 % 2 == 0 ==> action->Sync_value == value
            }
            &&& batch.stage is Untrigger && ok ==> {
                let last = batch.stage->control;
                &&& action is Sync && action->Sync_offset == control
                &&& last as int / 0x1_0000 % 2 == 1 ==> action->Sync_value == last - 0x1_0000
                &&& last as int / 0x1_0000 % 2 == 0 ==> action->Sync_value == last
            }
            &&& batch.stage == (Stage::Disarm { purpose }) && ok ==> {
                &&& action == ActionView::Sync { offset: enable as usize, value: 0 }
                &&& next.stage == (Stage::Disable { purpose })
            }
        }),
{
}

/// A batch is loaded, enabled, told which responses to wait for, armed and
/// triggered, in this order, and then its interrupt is awaited.
pub proof fn batches_are_triggered_in_order(batch: BatchView, value: u32)
    requires
        batch.wf(),
    ensures
        ({
            let base = 672 * batch.rsc.active_tcs_offset;
            let registers = batch.rsc.registers;
            let count = batch.commands.len();
            let mask = two_to(batch.rsc.active_tcs_offset as nat) as u32;
            let (next, action) = batch.step(true, value);
            &&& batch.stage == (Stage::Disable { purpose: Purpose::Prepare }) ==> next.stage
                == Stage::ClearBefore && action == ActionView::ClearIrq { mask }
            &&& batch.stage == Stage::ClearBefore ==> next.stage == Stage::Load && action == (
            ActionView::Perform {
                program: load_program(batch.rsc, batch.commands, count as int),
            })
            &&& batch.stage == Stage::Load ==> next.stage == Stage::Enable && action == (
            ActionView::Sync {
                offset: (base + registers.command_enable) as usize,
                value: (two_to(count) - 1) as u32,
            })
            &&& batch.stage == Stage::Enable ==> next.stage == Stage::Waits && action == (
            ActionView::Sync {
                offset: (base + registers.command_wait_for_completion) as usize,
                value: wait_mask(batch.commands) as u32,
            })
            &&& batch.stage == Stage::Waits ==> next.stage == Stage::Arm && action == (
            ActionView::Sync {
                offset: (base + registers.control) as usize,
                value: 0x1_0000,
            })
            &&& batch.stage == Stage::Arm ==> next.stage == Stage::Trigger && action == (
            ActionView::Perform {
                program: seq![
                    RegOp::Write {
                        offset: (base + registers.control) as usize,
                        value: 0x101_0000,
                    },
                    RegOp::Barrier,
                ],
            })
            &&& batch.stage == Stage::Trigger ==> next.stage == Stage::Await && action
                == ActionView::AwaitIrq { mask }
        }),
{
}

/// A command is acknowledged if it was issued (bit 8 of its status) and is
/// complete (bit 16). One that is not is remembered.
pub proof fn issued_and_complete_is_acknowledged(batch: BatchView, ok: bool, value: u32)
    requires
        batch.wf(),
        batch.stage is Check,
    ensures
        ({
            let both = value as int / 0x100 % 2 == 1 && value as int / 0x1_0000 % 2 == 1;
            let expected = batch.stage->Check_acknowledged && both;
            let next = batch.step(ok, value).0;
            ||| next.stage is Check && next.stage->Check_acknowledged == expected
                && next.stage->index > batch.stage->index
            ||| next.stage == (Stage::Control { purpose: Purpose::Retire { acknowledged: expected } })
        }),
{
    crate::bytes::first_index_is_first(
        batch.commands,
        crate::rpmh_rsc::asks_for_response(),
        batch.stage->index + 1,
    );
}

/// Registers and interrupts are waited for at most a second.
pub proof fn waits_last_a_second(
    value: u32,
    read: u32,
    mask: u32,
    elapsed_us: u64,
    written: Poll,
    cleared: Poll,
    completed: Poll,
)
    requires
        call_ensures(poll_sync, (value, read, elapsed_us), written),
        call_ensures(poll_clear, (mask, read, elapsed_us), cleared),
        call_ensures(poll_completion, (mask, read, elapsed_us), completed),
    ensures
        written == Poll::Reached <==> read == value,
        written == Poll::Again <==> read != value && elapsed_us < 1_000_000,
        cleared == Poll::Reached <==> read & mask == 0,
        cleared == Poll::Again <==> read & mask != 0 && elapsed_us < 1_000_000,
        completed == Poll::Reached <==> read & mask != 0,
        completed == Poll::Again <==> read & mask == 0 && elapsed_us < 1_000_000,
{
}

// Probing.

/// A cell property is four bytes, the highest first; the older name of the
/// handle stands in for the newer one.
pub proof fn cells_have_four_bytes(value: Seq<u8>, other: Option<Seq<u8>>)
    ensures
        one_cell(Some(value)) is Ok <==> value.len() == 4,
        value.len() == 4 ==> one_cell(Some(value))->Ok_0 == 0x100_0000 * value[0] + 0x1_0000
            * value[1] + 0x100 * value[2] + value[3],
        value.len() == 4 ==> phandle_of(Some(value), other) == one_cell(Some(value)),
        value.len() != 4 ==> phandle_of(Some(value), other) == one_cell(other),
        phandle_of(None, other) == one_cell(other),
{
}

/// The hardware states the command sets of each driver in six bits, the first
/// driver lowest, and the commands of a set in the top five.
pub proof fn geometry_is_read_from_its_bits(config: u32, driver: u32)
    requires
        driver <= 4,
        geometry_of(config, driver) is Ok,
    ensures
        ({
            let (blocks, commands) = geometry_of(config, driver)->Ok_0;
            &&& 0 < blocks < 64
            &&& driver == 0 ==> blocks == config as int % 64
            &&& driver == 1 ==> blocks == config as int / 64 % 64
            &&& driver == 2 ==> blocks == config as int / 64 / 64 % 64
            &&& driver == 3 ==> blocks == config as int / 64 / 64 / 64 % 64
            &&& driver == 4 ==> blocks == config as int / 64 / 64 / 64 / 64 % 64
            &&& 1 <= commands <= 16
            &&& commands == config as int / 0x800_0000
        }),
{
    let c = config as int;
    assert(c / 64 / 64 == c / 4096);
    assert(c / 4096 / 64 == c / 0x4_0000);
    assert(c / 0x4_0000 / 64 == c / 0x100_0000);
}

/// The command sets of the groups that come before, the control group left
/// out.
pub open spec fn sets_before(config: Seq<u32>, count: int) -> int
    decreases count,
{
    if count <= 0 {
        0
    } else {
        sets_before(config, count - 1) + if config[2 * count - 2] == 3 {
            0
        } else {
            config[2 * count - 1] as int
        }
    }
}

proof fn groups_add_up(config: Seq<u32>, count: int, index: int)
    requires
        groups_of(config, count) is Ok,
        0 <= index < count,
    ensures
        groups_of(config, count)->Ok_0.offset == sets_before(config, count),
        groups_of(config, count)->Ok_0.seen.contains(config[2 * index]),
        config[2 * index] < 4,
        config[2 * index + 1] <= 3,
    decreases count,
{
    if count > 1 {
        let before = if index < count - 1 {
            index
        } else {
            0
        };
        groups_add_up(config, count - 1, before);
    } else {
        reveal_with_fuel(groups_of, 2);
        reveal_with_fuel(sets_before, 2);
    }
}

/// The active group starts behind the groups that come before it, and counts
/// what its entry says.
pub proof fn the_active_group_follows_the_earlier_ones(config: Seq<u32>, count: int, index: int)
    requires
        groups_of(config, count) is Ok,
        0 <= index < count,
        config[2 * index] == 2,
        config[2 * index + 1] > 0,
    ensures
        groups_of(config, count)->Ok_0.active == Some(
            (sets_before(config, index) as u32, config[2 * index + 1]),
        ),
        config[2 * index + 1] <= 3,
    decreases count,
{
    groups_add_up(config, count, index);
    if index < count - 1 {
        the_active_group_follows_the_earlier_ones(config, count - 1, index);
        groups_add_up(config, count - 1, index);
        assert(config[2 * (count - 1)] != 2);
    } else if index > 0 {
        groups_add_up(config, index, 0);
    } else {
        reveal_with_fuel(groups_of, 2);
    }
}

/// A configuration is refused if a type is unknown or comes twice, or a group
/// has more than three sets.
pub proof fn bad_groups_are_refused(config: Seq<u32>, count: int, index: int, earlier: int)
    requires
        0 <= index < count,
        config[2 * index] > 3 || config[2 * index + 1] > 3 || (0 <= earlier < index && config[2
            * earlier] == config[2 * index]),
    ensures
        groups_of(config, count) is Err,
    decreases count,
{
    if index < count - 1 {
        bad_groups_are_refused(config, count - 1, index, earlier);
    } else if groups_of(config, count) is Ok {
        groups_add_up(config, count, index);
        if 0 <= earlier < index && config[2 * earlier] == config[2 * index] {
            groups_add_up(config, index, earlier);
        }
    }
}

/// The active group is read from eight cells, and must lie within the command
/// sets of the hardware.
pub proof fn the_active_group_lies_in_the_hardware(
    value: Seq<u8>,
    max_tcs: u32,
    index: int,
)
    requires
        value.len() == 32,
        0 <= index < 4,
        groups_of(cells(value), 4) is Ok,
        cells(value)[2 * index] == 2,
        cells(value)[2 * index + 1] > 0,
    ensures
        active_group(Some(value), max_tcs) is Ok <==> sets_before(cells(value), 4) <= max_tcs
            && sets_before(cells(value), 4) < 32,
        active_group(Some(value), max_tcs) matches Ok(group) ==> group == (
            sets_before(cells(value), index) as u32,
            cells(value)[2 * index + 1],
        ),
{
    groups_add_up(cells(value), 4, index);
    the_active_group_follows_the_earlier_ones(cells(value), 4, index);
}

/// The window reaches to the status of the last command of the last set.
pub proof fn windows_hold_every_command(
    rsc_id: u32,
    config: u32,
    driver: u32,
    tcs_offset: u32,
    size: usize,
    property: Option<Seq<u8>>,
)
    requires
        probed(rsc_id, config, driver, tcs_offset, size, property) is Ok,
    ensures
        ({
            let rsc = probed(rsc_id, config, driver, tcs_offset, size, property)->Ok_0;
            let geometry = geometry_of(config, driver)->Ok_0;
            let group = active_group(property, geometry.0 as u32)->Ok_0;
            &&& rsc.registers == layout_of(rsc_id)
            &&& rsc.active_tcs_offset == group.0 && rsc.active_tcs_count == group.1
            &&& rsc.commands_per_tcs == geometry.1
            &&& tcs_offset + 672 * (geometry.0 - 1) + rsc.registers.command_stride * (geometry.1
                - 1) + rsc.registers.command_status + 4 <= size
        }),
{
}

/// One interrupt is enabled for each set of the active group: as many bits as
/// it has sets, from its first on.
pub proof fn the_active_sets_interrupt(rsc: RpmhRsc)
    ensures
        rsc.active_mask() == two_to((rsc.active_tcs_offset + rsc.active_tcs_count) as nat)
            - two_to(rsc.active_tcs_offset as nat),
{
    let offset = rsc.active_tcs_offset as nat;
    let count = rsc.active_tcs_count as nat;
    powers_multiply(count, offset);
    assert((two_to(count) - 1) * two_to(offset) == two_to(count) * two_to(offset) - two_to(offset))
        by (nonlinear_arith);
}

/// The hardware is taken if and only if it has command sets for the driver and
/// one to sixteen commands in each; the sixth driver has the top two bits.
pub proof fn hardware_has_sets_and_commands(config: u32, driver: u32)
    requires
        driver <= 5,
    ensures
        geometry_of(config, driver) is Ok <==> {
            &&& 1 <= config as int / 0x800_0000 <= 16
            &&& match driver {
                0 => config as int % 64 > 0,
                1 => config as int / 0x40 % 64 > 0,
                2 => config as int / 0x1000 % 64 > 0,
                3 => config as int / 0x4_0000 % 64 > 0,
                4 => config as int / 0x100_0000 % 64 > 0,
                _ => config as int / 0x4000_0000 > 0,
            }
        },
{
}

} // verus!

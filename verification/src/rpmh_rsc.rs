//! RPMh Resource State Coordinator transport.
//!
//! Synchronous active-only transfers: a batch of commands is loaded into one
//! trigger command set (TCS), triggered, and retired once its completion
//! interrupt is up. What comes after what is decided here; the register
//! window and the clock are elsewhere.

use vstd::prelude::*;

use crate::bytes::first_index;
use crate::mmio::{clear_bit, has_bit, is_set, put, without_bit, written, RegOp};
use crate::platform::{cells, place_of, position_of, read_cells, resource_size, span};
use crate::registry;
use crate::registry::provider_of;

pub mod laws;

verus! {

pub const RSC_DRV_ID: usize = 0;

pub const DRV_PRNT_CHLD_CONFIG: usize = 0x0c;

pub const SLEEP_TCS: u32 = 0;

pub const WAKE_TCS: u32 = 1;

pub const ACTIVE_TCS: u32 = 2;

pub const CONTROL_TCS: u32 = 3;

pub const TCS_TYPE_COUNT: usize = 4;

pub const MAX_COMMANDS_PER_TCS: u32 = 16;

pub const TCS_AMC_MODE_ENABLE: u32 = 0x1_0000;

pub const TCS_AMC_MODE_TRIGGER: u32 = 0x100_0000;

/// A write of eight bytes.
pub const CMD_MSGID_WRITE_WORD: u32 = 0x1_0008;

pub const CMD_MSGID_RESP_REQ: u32 = 0x100;

pub const CMD_STATUS_ISSUED: u32 = 0x100;

pub const CMD_STATUS_COMPLETE: u32 = 0x1_0000;

pub const REGISTER_TIMEOUT_US: u64 = 1_000_000;

pub const TRANSFER_TIMEOUT_US: u64 = 1_000_000;

#[derive(Clone, Copy, Debug, Eq, PartialEq, Structural)]
pub struct RegisterLayout {
    pub tcs_stride: usize,
    pub command_stride: usize,
    pub irq_enable: usize,
    pub irq_status: usize,
    pub irq_clear: usize,
    pub command_wait_for_completion: usize,
    pub control: usize,
    pub status: usize,
    pub command_enable: usize,
    pub command_msgid: usize,
    pub command_address: usize,
    pub command_data: usize,
    pub command_status: usize,
}

pub open spec fn registers_v2_7() -> RegisterLayout {
    RegisterLayout {
        tcs_stride: 672,
        command_stride: 20,
        irq_enable: 0x00,
        irq_status: 0x04,
        irq_clear: 0x08,
        command_wait_for_completion: 0x10,
        control: 0x14,
        status: 0x18,
        command_enable: 0x1c,
        command_msgid: 0x30,
        command_address: 0x34,
        command_data: 0x38,
        command_status: 0x3c,
    }
}

pub open spec fn registers_v3_0() -> RegisterLayout {
    RegisterLayout {
        tcs_stride: 672,
        command_stride: 24,
        irq_enable: 0x00,
        irq_status: 0x04,
        irq_clear: 0x08,
        command_wait_for_completion: 0x20,
        control: 0x24,
        status: 0x28,
        command_enable: 0x2c,
        command_msgid: 0x34,
        command_address: 0x38,
        command_data: 0x3c,
        command_status: 0x40,
    }
}

/// The layout of a hardware version.
pub open spec fn layout_of(rsc_id: u32) -> RegisterLayout {
    if rsc_id as int / 0x1_0000 % 0x100 >= 3 {
        registers_v3_0()
    } else {
        registers_v2_7()
    }
}

/// The layout that an identification register names.
pub fn layout_for(rsc_id: u32) -> (r: RegisterLayout)
    ensures
        r == layout_of(rsc_id),
{
    if rsc_id / 0x1_0000 % 0x100 >= 3 {
        RegisterLayout {
            tcs_stride: 672,
            command_stride: 24,
            irq_enable: 0x00,
            irq_status: 0x04,
            irq_clear: 0x08,
            command_wait_for_completion: 0x20,
            control: 0x24,
            status: 0x28,
            command_enable: 0x2c,
            command_msgid: 0x34,
            command_address: 0x38,
            command_data: 0x3c,
            command_status: 0x40,
        }
    } else {
        RegisterLayout {
            tcs_stride: 672,
            command_stride: 20,
            irq_enable: 0x00,
            irq_status: 0x04,
            irq_clear: 0x08,
            command_wait_for_completion: 0x10,
            control: 0x14,
            status: 0x18,
            command_enable: 0x1c,
            command_msgid: 0x30,
            command_address: 0x34,
            command_data: 0x38,
            command_status: 0x3c,
        }
    }
}

/// A probed application Resource State Coordinator.
#[derive(Clone, Copy, Debug, Eq, PartialEq, Structural)]
pub struct RpmhRsc {
    pub registers: RegisterLayout,
    pub active_tcs_offset: u32,
    pub active_tcs_count: u32,
    pub commands_per_tcs: u32,
}

/// One command in a synchronous active-only RPMh transfer.
#[derive(Clone, Copy, Debug, Eq, PartialEq, Structural)]
pub struct ActiveCommand {
    /// Command DB resource address.
    pub address: u32,
    /// Resource-specific vote payload.
    pub data: u32,
    /// Request a response for this command before the TCS completes.
    pub wait_for_completion: bool,
}

pub open spec fn two_to(exponent: nat) -> int
    decreases exponent,
{
    if exponent == 0 {
        1
    } else {
        2 * two_to((exponent - 1) as nat)
    }
}

/// One bit for each command that asks for a response.
pub open spec fn wait_mask(commands: Seq<ActiveCommand>) -> int
    decreases commands.len(),
{
    if commands.len() == 0 {
        0
    } else {
        wait_mask(commands.drop_last()) + if commands.last().wait_for_completion {
            two_to((commands.len() - 1) as nat)
        } else {
            0
        }
    }
}

proof fn wait_mask_is_small(commands: Seq<ActiveCommand>)
    ensures
        0 <= wait_mask(commands) < two_to(commands.len()),
    decreases commands.len(),
{
    if commands.len() > 0 {
        wait_mask_is_small(commands.drop_last());
    }
}

proof fn powers_of_two(exponent: nat)
    requires
        exponent < 32,
    ensures
        1 <= two_to(exponent) <= 0x8000_0000,
        exponent <= 16 ==> two_to(exponent) <= 0x1_0000,
{
    reveal_with_fuel(two_to, 33);
}

proof fn powers_multiply(a: nat, b: nat)
    ensures
        two_to(a) * two_to(b) == two_to(a + b),
    decreases a,
{
    if a > 0 {
        powers_multiply((a - 1) as nat, b);
        assert(two_to((a - 1) as nat + b) * 2 == two_to(a + b));
        let half = two_to((a - 1) as nat);
        let other = two_to(b);
        assert((2 * half) * other == 2 * (half * other)) by (nonlinear_arith);
    }
}

fn power_of_two(exponent: u32) -> (r: u32)
    requires
        exponent < 32,
    ensures
        r == two_to(exponent as nat),
        r >= 1,
{
    let mut value: u32 = 1;
    let mut i: u32 = 0;
    while i < exponent
        invariant
            i <= exponent < 32,
            value == two_to(i as nat),
        decreases exponent - i,
    {
        proof {
            powers_of_two((i + 1) as nat);
        }
        value = value * 2;
        i += 1;
    }
    proof {
        powers_of_two(exponent as nat);
    }
    value
}

pub open spec fn asks_for_response() -> spec_fn(ActiveCommand) -> bool {
    |command: ActiveCommand| command.wait_for_completion
}

/// The first command at or after `from` that asks for a response.
pub open spec fn next_waiting(commands: Seq<ActiveCommand>, from: int) -> Option<int> {
    first_index(commands, asks_for_response(), from)
}

proof fn masks_and_responses(commands: Seq<ActiveCommand>)
    ensures
        wait_mask(commands) == 0 <==> forall|i: int|
            0 <= i < commands.len() ==> !(#[trigger] commands[i]).wait_for_completion,
    decreases commands.len(),
{
    if commands.len() > 0 {
        let rest = commands.drop_last();
        masks_and_responses(rest);
        wait_mask_is_small(rest);
        assert(two_to((commands.len() - 1) as nat) > 0) by {
            wait_mask_is_small(rest);
        }
        assert forall|i: int| 0 <= i < rest.len() implies commands[i] == rest[i] by {}
        if wait_mask(commands) != 0 {
            if commands.last().wait_for_completion {
                assert(commands[commands.len() - 1].wait_for_completion);
            } else {
                let i = choose|i: int|
                    0 <= i < rest.len() && (#[trigger] rest[i]).wait_for_completion;
                assert(commands[i].wait_for_completion);
            }
        } else {
            assert forall|i: int| 0 <= i < commands.len() implies !(
            #[trigger] commands[i]).wait_for_completion by {
                if i < rest.len() {
                    assert(!rest[i].wait_for_completion);
                }
            }
        }
    }
}

// Register offsets, from the base of the TCS blocks.

impl RpmhRsc {
    /// What probing establishes.
    pub open spec fn wf(&self) -> bool {
        &&& self.registers == registers_v2_7() || self.registers == registers_v3_0()
        &&& self.active_tcs_offset < 32
        &&& 1 <= self.active_tcs_count <= 3
        &&& self.active_tcs_offset + self.active_tcs_count < 32
        &&& 1 <= self.commands_per_tcs <= MAX_COMMANDS_PER_TCS
    }

    pub open spec fn tcs_register(&self, offset: usize) -> usize {
        (self.registers.tcs_stride * self.active_tcs_offset + offset) as usize
    }

    pub open spec fn tcs_command(&self, command_id: int, offset: usize) -> usize {
        (self.tcs_register(offset) + self.registers.command_stride * command_id) as usize
    }

    pub open spec fn irq_mask(&self) -> u32 {
        two_to(self.active_tcs_offset as nat) as u32
    }

    fn tcs_register_offset(&self, offset: usize) -> (r: usize)
        requires
            self.wf(),
            offset <= 0x40,
        ensures
            r == self.tcs_register(offset),
            r == self.registers.tcs_stride * self.active_tcs_offset + offset,
            r <= 672 * 31 + 0x40,
    {
        assert(self.registers.tcs_stride == 672);
        672 * self.active_tcs_offset as usize + offset
    }

    fn tcs_command_offset(&self, command_id: usize, offset: usize) -> (r: usize)
        requires
            self.wf(),
            command_id < 16,
            offset <= 0x40,
        ensures
            r == self.tcs_command(command_id as int, offset),
    {
        let base: usize = self.tcs_register_offset(offset);
        let stride: usize = self.registers.command_stride;
        assert(stride == 20 || stride == 24);
        if stride == 20 {
            base + 20 * command_id
        } else {
            base + 24 * command_id
        }
    }

    /// The register that says whether the active TCS is idle.
    pub fn status_register(&self) -> (r: usize)
        requires
            self.wf(),
        ensures
            r == self.tcs_register(self.registers.status),
    {
        self.tcs_register_offset(self.registers.status)
    }

    /// Why a batch cannot be sent, if it cannot. `status` is what the status
    /// register of the active TCS holds.
    pub open spec fn refusal(&self, commands: Seq<ActiveCommand>, status: u32) -> Option<
        &'static str,
    > {
        if self.active_tcs_count == 0 || self.commands_per_tcs == 0 {
            Some("qcom-rpmh-rsc: no active TCS available")
        } else if commands.len() == 0 {
            Some("qcom-rpmh-rsc: active request has no commands")
        } else if commands.len() > self.commands_per_tcs {
            Some("qcom-rpmh-rsc: active request exceeds TCS command capacity")
        } else if self.active_tcs_offset >= 32 {
            Some("qcom-rpmh-rsc: active TCS id is out of range")
        } else if status == 0 {
            Some("qcom-rpmh-rsc: active TCS is busy")
        } else if wait_mask(commands) == 0 {
            Some("qcom-rpmh-rsc: synchronous request has no completion command")
        } else {
            None
        }
    }

    /// A batch at its start, and what it does first.
    pub open spec fn begun(&self, commands: Seq<ActiveCommand>) -> (BatchView, ActionView) {
        (
            BatchView {
                rsc: *self,
                commands,
                stage: Stage::Control { purpose: Purpose::Prepare },
            },
            ActionView::Read { offset: self.tcs_register(self.registers.control) },
        )
    }

    /// Starts a synchronous active-only command batch in one TCS. At least
    /// one command must ask for a response, so that completion can be seen.
    pub fn write_active_batch(&self, commands: Vec<ActiveCommand>, status: u32) -> (r: Result<
        (Batch, Action),
        &'static str,
    >)
        requires
            self.wf(),
        ensures
            match r {
                Ok((batch, action)) => {
                    &&& self.refusal(commands@, status) is None
                    &&& batch.wf()
                    &&& (batch@, action@) == self.begun(commands@)
                },
                Err(e) => self.refusal(commands@, status) == Some(e),
            },
    {
        let length: usize = commands.len();
        if self.active_tcs_count == 0 || self.commands_per_tcs == 0 {
            return Err("qcom-rpmh-rsc: no active TCS available");
        }
        if length == 0 {
            return Err("qcom-rpmh-rsc: active request has no commands");
        }
        if length > self.commands_per_tcs as usize {
            return Err("qcom-rpmh-rsc: active request exceeds TCS command capacity");
        }
        if self.active_tcs_offset >= 32 {
            return Err("qcom-rpmh-rsc: active TCS id is out of range");
        }
        if status == 0 {
            return Err("qcom-rpmh-rsc: active TCS is busy");
        }
        let irq_mask: u32 = power_of_two(self.active_tcs_offset);
        let command_mask: u32 = power_of_two(length as u32) - 1;
        let mut waits: u32 = 0;
        let mut i: usize = 0;
        while i < length
            invariant
                i <= length <= 16,
                length == commands@.len(),
                waits == wait_mask(commands@.take(i as int)),
                waits < 0x1_0000,
            decreases length - i,
        {
            assert(commands@.take(i + 1).drop_last() =~= commands@.take(i as int));
            assert(commands@.take(i + 1).last() == commands@[i as int]);
            proof {
                wait_mask_is_small(commands@.take(i + 1));
                powers_of_two((i + 1) as nat);
            }
            if commands[i].wait_for_completion {
                let bit: u32 = power_of_two(i as u32);
                assert(wait_mask(commands@.take(i + 1)) == waits + bit);
                waits = waits + bit;
            }
            i += 1;
        }
        assert(commands@.take(length as int) =~= commands@);
        if waits == 0 {
            return Err("qcom-rpmh-rsc: synchronous request has no completion command");
        }
        let batch = Batch {
            rsc: *self,
            commands,
            irq_mask,
            command_mask,
            wait_mask: waits,
            stage: Stage::Control { purpose: Purpose::Prepare },
        };
        let offset: usize = self.tcs_register_offset(self.registers.control);
        Ok((batch, Action::Read { offset }))
    }

    /// Starts a single synchronous write.
    pub fn write_active(&self, address: u32, data: u32, status: u32) -> (r: Result<
        (Batch, Action),
        &'static str,
    >)
        requires
            self.wf(),
        ensures
            ({
                let commands = seq![ActiveCommand { address, data, wait_for_completion: true }];
                match r {
                    Ok((batch, action)) => {
                        &&& status != 0
                        &&& batch.wf()
                        &&& (batch@, action@) == self.begun(commands)
                    },
                    Err(e) => status == 0 && e == "qcom-rpmh-rsc: active TCS is busy",
                }
            }),
    {
        let mut commands: Vec<ActiveCommand> = Vec::new();
        commands.push(ActiveCommand { address, data, wait_for_completion: true });
        assert(commands@ =~= seq![ActiveCommand { address, data, wait_for_completion: true }]);
        proof {
            masks_and_responses(commands@);
            assert(commands@[0].wait_for_completion);
        }
        self.write_active_batch(commands, status)
    }

    /// The interrupts of the active TCS group.
    pub open spec fn active_mask(&self) -> int {
        (two_to(self.active_tcs_count as nat) - 1) * two_to(self.active_tcs_offset as nat)
    }

    /// The write that enables them.
    pub fn enable_interrupts(&self) -> (r: RegOp)
        requires
            self.wf(),
        ensures
            r == written(self.registers.irq_enable, self.active_mask() as u32),
    {
        let group: u32 = power_of_two(self.active_tcs_count) - 1;
        let first: u32 = power_of_two(self.active_tcs_offset);
        proof {
            powers_multiply(self.active_tcs_count as nat, self.active_tcs_offset as nat);
            powers_of_two((self.active_tcs_count + self.active_tcs_offset) as nat);
            assert(0 <= group * first <= (group + 1) * first) by (nonlinear_arith)
                requires
                    0 <= group,
                    0 <= first,
            ;
        }
        put(self.registers.irq_enable, group * first)
    }
}

// A batch on its way.

/// Why the active TCS is brought to rest.
#[derive(Clone, Copy, Debug, Eq, PartialEq, Structural)]
pub enum Purpose {
    /// Before the batch is loaded.
    Prepare,
    /// After the batch timed out.
    Abandon,
    /// After the batch completed, with or without acknowledgement.
    Retire { acknowledged: bool },
}

#[derive(Clone, Copy, Debug, Eq, PartialEq, Structural)]
pub enum Stage {
    /// The control register is being read.
    Control { purpose: Purpose },
    /// The trigger is being cleared; this is what the register holds then.
    Untrigger { purpose: Purpose, control: u32 },
    /// The mode is being turned off.
    Disarm { purpose: Purpose },
    /// All commands are being disabled.
    Disable { purpose: Purpose },
    /// A stale completion is being cleared.
    ClearBefore,
    /// The commands are being loaded.
    Load,
    /// The commands are being enabled.
    Enable,
    /// The commands to wait for are being set.
    Waits,
    /// The mode is being turned on.
    Arm,
    /// The trigger is being written.
    Trigger,
    /// The completion interrupt is awaited.
    Await,
    /// The status of command `index` is being read.
    Check { index: usize, acknowledged: bool },
    /// The commands to wait for are being cleared.
    ClearWaits { acknowledged: bool },
    /// The completion is being cleared.
    ClearAfter { acknowledged: bool },
    Over,
}

/// What to do next.
#[derive(Debug)]
pub enum Action {
    Read { offset: usize },
    /// Write a register, and read it until it holds the value.
    Sync { offset: usize, value: u32 },
    /// Clear an interrupt unless it is down, and read the status until it is.
    ClearIrq { mask: u32 },
    Perform { program: Vec<RegOp> },
    /// Read the interrupt status until the interrupt is up.
    AwaitIrq { mask: u32 },
    Finished { result: Result<(), &'static str> },
}

pub ghost enum ActionView {
    Read { offset: usize },
    Sync { offset: usize, value: u32 },
    ClearIrq { mask: u32 },
    Perform { program: Seq<RegOp> },
    AwaitIrq { mask: u32 },
    Finished { result: Result<(), &'static str> },
}

impl View for Action {
    type V = ActionView;

    open spec fn view(&self) -> ActionView {
        match *self {
            Action::Read { offset } => ActionView::Read { offset },
            Action::Sync { offset, value } => ActionView::Sync { offset, value },
            Action::ClearIrq { mask } => ActionView::ClearIrq { mask },
            Action::Perform { program } => ActionView::Perform { program: program@ },
            Action::AwaitIrq { mask } => ActionView::AwaitIrq { mask },
            Action::Finished { result } => ActionView::Finished { result },
        }
    }
}

#[derive(Debug)]
pub struct Batch {
    pub rsc: RpmhRsc,
    pub commands: Vec<ActiveCommand>,
    pub irq_mask: u32,
    pub command_mask: u32,
    pub wait_mask: u32,
    pub stage: Stage,
}

#[verifier::ext_equal]
pub struct BatchView {
    pub rsc: RpmhRsc,
    pub commands: Seq<ActiveCommand>,
    pub stage: Stage,
}

impl View for Batch {
    type V = BatchView;

    open spec fn view(&self) -> BatchView {
        BatchView { rsc: self.rsc, commands: self.commands@, stage: self.stage }
    }
}

/// The message identifier of a command.
pub open spec fn message_id(command: ActiveCommand) -> u32 {
    if command.wait_for_completion {
        (CMD_MSGID_WRITE_WORD + CMD_MSGID_RESP_REQ) as u32
    } else {
        CMD_MSGID_WRITE_WORD
    }
}

/// The writes that load the first `count` commands.
pub open spec fn load_program(rsc: RpmhRsc, commands: Seq<ActiveCommand>, count: int) -> Seq<RegOp>
    decreases count,
{
    if count <= 0 {
        Seq::empty()
    } else {
        let command = commands[count - 1];
        load_program(rsc, commands, count - 1) + seq![
            written(
                rsc.tcs_command(count - 1, rsc.registers.command_msgid),
                message_id(command),
            ),
            written(rsc.tcs_command(count - 1, rsc.registers.command_address), command.address),
            written(rsc.tcs_command(count - 1, rsc.registers.command_data), command.data),
        ]
    }
}

impl BatchView {
    pub open spec fn wf(self) -> bool {
        &&& self.rsc.wf()
        &&& 1 <= self.commands.len() <= self.rsc.commands_per_tcs
        &&& wait_mask(self.commands) != 0
        &&& self.stage matches Stage::Check { index, .. } ==> index < self.commands.len()
    }

    pub open spec fn at(self, stage: Stage) -> BatchView {
        BatchView { stage, ..self }
    }

    pub open spec fn read_control(self, purpose: Purpose) -> (BatchView, ActionView) {
        (
            self.at(Stage::Control { purpose }),
            ActionView::Read { offset: self.rsc.tcs_register(self.rsc.registers.control) },
        )
    }

    pub open spec fn sync(self, stage: Stage, register: usize, value: u32) -> (
        BatchView,
        ActionView,
    ) {
        (
            self.at(stage),
            ActionView::Sync { offset: self.rsc.tcs_register(register), value },
        )
    }

    pub open spec fn finish(self, result: Result<(), &'static str>) -> (BatchView, ActionView) {
        (self.at(Stage::Over), ActionView::Finished { result })
    }

    pub open spec fn disable(self, purpose: Purpose) -> (BatchView, ActionView) {
        self.sync(Stage::Disable { purpose }, self.rsc.registers.command_enable, 0)
    }

    /// A register did not come to hold what was written. A batch that already
    /// timed out still disables its commands.
    pub open spec fn not_visible(self, purpose: Purpose) -> (BatchView, ActionView) {
        match purpose {
            Purpose::Abandon => self.disable(purpose),
            _ => self.finish(Err("qcom-rpmh-rsc: register write did not become visible")),
        }
    }

    /// Reads the status of the next command that asked for a response, or
    /// retires the batch where there is none.
    pub open spec fn check_from(self, from: int, acknowledged: bool) -> (BatchView, ActionView) {
        match next_waiting(self.commands, from) {
            Some(index) => (
                self.at(Stage::Check { index: index as usize, acknowledged }),
                ActionView::Read {
                    offset: self.rsc.tcs_command(index, self.rsc.registers.command_status),
                },
            ),
            None => self.read_control(Purpose::Retire { acknowledged }),
        }
    }

    /// What follows an action. `ok` says whether a register came to hold what
    /// it was to hold in time, and `value` is what was read.
    pub open spec fn step(self, ok: bool, value: u32) -> (BatchView, ActionView) {
        let registers = self.rsc.registers;
        match self.stage {
            Stage::Control { purpose } => {
                let control = without_bit(value, TCS_AMC_MODE_TRIGGER);
                self.sync(Stage::Untrigger { purpose, control }, registers.control, control)
            },
            Stage::Untrigger { purpose, control } => if ok {
                self.sync(
                    Stage::Disarm { purpose },
                    registers.control,
                    without_bit(control, TCS_AMC_MODE_ENABLE),
                )
            } else {
                self.not_visible(purpose)
            },
            Stage::Disarm { purpose } => if ok {
                self.disable(purpose)
            } else {
                self.not_visible(purpose)
            },
            Stage::Disable { purpose } => match purpose {
                Purpose::Abandon => self.finish(
                    Err("qcom-rpmh-rsc: active request timed out"),
                ),
                Purpose::Prepare => if ok {
                    (
                        self.at(Stage::ClearBefore),
                        ActionView::ClearIrq { mask: self.rsc.irq_mask() },
                    )
                } else {
                    self.not_visible(purpose)
                },
                Purpose::Retire { acknowledged } => if ok {
                    self.sync(
                        Stage::ClearWaits { acknowledged },
                        registers.command_wait_for_completion,
                        0,
                    )
                } else {
                    self.not_visible(purpose)
                },
            },
            Stage::ClearBefore => if ok {
                (
                    self.at(Stage::Load),
                    ActionView::Perform {
                        program: load_program(
                            self.rsc,
                            self.commands,
                            self.commands.len() as int,
                        ),
                    },
                )
            } else {
                self.finish(Err("qcom-rpmh-rsc: stale completion IRQ did not clear"))
            },
            Stage::Load => self.sync(
                Stage::Enable,
                registers.command_enable,
                (two_to(self.commands.len()) - 1) as u32,
            ),
            Stage::Enable => if ok {
                self.sync(
                    Stage::Waits,
                    registers.command_wait_for_completion,
                    wait_mask(self.commands) as u32,
                )
            } else {
                self.not_visible(Purpose::Prepare)
            },
            Stage::Waits => if ok {
                self.sync(Stage::Arm, registers.control, TCS_AMC_MODE_ENABLE)
            } else {
                self.not_visible(Purpose::Prepare)
            },
            Stage::Arm => if ok {
                (
                    self.at(Stage::Trigger),
                    ActionView::Perform {
                        program: seq![
                            written(
                                self.rsc.tcs_register(registers.control),
                                (TCS_AMC_MODE_ENABLE + TCS_AMC_MODE_TRIGGER) as u32,
                            ),
                            RegOp::Barrier,
                        ],
                    },
                )
            } else {
                self.not_visible(Purpose::Prepare)
            },
            Stage::Trigger => (
                self.at(Stage::Await),
                ActionView::AwaitIrq { mask: self.rsc.irq_mask() },
            ),
            Stage::Await => if ok {
                self.check_from(0, true)
            } else {
                self.read_control(Purpose::Abandon)
            },
            Stage::Check { index, acknowledged } => self.check_from(
                index + 1,
                acknowledged && has_bit(value, CMD_STATUS_ISSUED) && has_bit(
                    value,
                    CMD_STATUS_COMPLETE,
                ),
            ),
            Stage::ClearWaits { acknowledged } => if ok {
                (
                    self.at(Stage::ClearAfter { acknowledged }),
                    ActionView::ClearIrq { mask: self.rsc.irq_mask() },
                )
            } else {
                self.not_visible(Purpose::Prepare)
            },
            Stage::ClearAfter { acknowledged } => if !ok {
                self.finish(Err("qcom-rpmh-rsc: stale completion IRQ did not clear"))
            } else if !acknowledged {
                self.finish(
                    Err("qcom-rpmh-rsc: request completed without command acknowledgement"),
                )
            } else {
                self.finish(Ok(()))
            },
            Stage::Over => (
                self,
                ActionView::Finished { result: Err("qcom-rpmh-rsc: active request is over") },
            ),
        }
    }
}

impl Batch {
    /// The batch is well formed, and the masks are those of its commands.
    pub open spec fn wf(&self) -> bool {
        &&& self@.wf()
        &&& self.irq_mask == self.rsc.irq_mask()
        &&& self.command_mask == (two_to(self.commands@.len()) - 1) as u32
        &&& self.wait_mask == wait_mask(self.commands@) as u32
    }

    fn read_control(&mut self, purpose: Purpose) -> (r: Action)
        requires
            old(self).wf(),
        ensures
            final(self).wf(),
            (final(self)@, r@) == old(self)@.read_control(purpose),
    {
        self.stage = Stage::Control { purpose };
        let offset: usize = self.rsc.tcs_register_offset(self.rsc.registers.control);
        Action::Read { offset }
    }

    fn sync(&mut self, stage: Stage, register: usize, value: u32) -> (r: Action)
        requires
            old(self).wf(),
            register <= 0x40,
            !(stage is Check),
        ensures
            final(self).wf(),
            (final(self)@, r@) == old(self)@.sync(stage, register, value),
    {
        self.stage = stage;
        let offset: usize = self.rsc.tcs_register_offset(register);
        Action::Sync { offset, value }
    }

    fn finish(&mut self, result: Result<(), &'static str>) -> (r: Action)
        requires
            old(self).wf(),
        ensures
            final(self).wf(),
            (final(self)@, r@) == old(self)@.finish(result),
    {
        self.stage = Stage::Over;
        Action::Finished { result }
    }

    fn disable(&mut self, purpose: Purpose) -> (r: Action)
        requires
            old(self).wf(),
        ensures
            final(self).wf(),
            (final(self)@, r@) == old(self)@.disable(purpose),
    {
        let register: usize = self.rsc.registers.command_enable;
        self.sync(Stage::Disable { purpose }, register, 0)
    }

    fn not_visible(&mut self, purpose: Purpose) -> (r: Action)
        requires
            old(self).wf(),
        ensures
            final(self).wf(),
            (final(self)@, r@) == old(self)@.not_visible(purpose),
    {
        match purpose {
            Purpose::Abandon => self.disable(purpose),
            _ => self.finish(Err("qcom-rpmh-rsc: register write did not become visible")),
        }
    }

    fn check_from(&mut self, from: usize, acknowledged: bool) -> (r: Action)
        requires
            old(self).wf(),
            from <= old(self)@.commands.len(),
        ensures
            final(self).wf(),
            (final(self)@, r@) == old(self)@.check_from(from as int, acknowledged),
    {
        let length: usize = self.commands.len();
        let mut index: usize = from;
        while index < length
            invariant
                from <= index <= length,
                length == self.commands@.len(),
                self.wf(),
                *self == *old(self),
                next_waiting(self.commands@, from as int) == next_waiting(
                    self.commands@,
                    index as int,
                ),
            decreases length - index,
        {
            if self.commands[index].wait_for_completion {
                self.stage = Stage::Check { index, acknowledged };
                let register: usize = self.rsc.registers.command_status;
                let offset: usize = self.rsc.tcs_command_offset(index, register);
                return Action::Read { offset };
            }
            index += 1;
        }
        self.read_control(Purpose::Retire { acknowledged })
    }

    fn load(&mut self) -> (r: Action)
        requires
            old(self).wf(),
        ensures
            final(self).wf(),
            final(self)@ == old(self)@.at(Stage::Load),
            r@ == (ActionView::Perform {
                program: load_program(
                    old(self).rsc,
                    old(self)@.commands,
                    old(self)@.commands.len() as int,
                ),
            }),
    {
        let length: usize = self.commands.len();
        let mut program: Vec<RegOp> = Vec::new();
        let mut i: usize = 0;
        while i < length
            invariant
                i <= length <= 16,
                length == self.commands@.len(),
                self.wf(),
                *self == *old(self),
                program@ == load_program(self.rsc, self.commands@, i as int),
            decreases length - i,
        {
            let command = self.commands[i];
            let registers = self.rsc.registers;
            let message: u32 = if command.wait_for_completion {
                CMD_MSGID_WRITE_WORD + CMD_MSGID_RESP_REQ
            } else {
                CMD_MSGID_WRITE_WORD
            };
            program.push(put(self.rsc.tcs_command_offset(i, registers.command_msgid), message));
            program.push(
                put(self.rsc.tcs_command_offset(i, registers.command_address), command.address),
            );
            program.push(
                put(self.rsc.tcs_command_offset(i, registers.command_data), command.data),
            );
            i += 1;
            assert(program@ =~= load_program(self.rsc, self.commands@, i as int));
        }
        self.stage = Stage::Load;
        Action::Perform { program }
    }

    /// Goes on after an action. `ok` says whether a register came to hold
    /// what it was to hold in time, and `value` is what was read.
    pub fn advance(&mut self, ok: bool, value: u32) -> (r: Action)
        requires
            old(self).wf(),
        ensures
            final(self).wf(),
            (final(self)@, r@) == old(self)@.step(ok, value),
    {
        let ghost start = self@;
        let registers = self.rsc.registers;
        match self.stage {
            Stage::Control { purpose } => {
                let control: u32 = clear_bit(value, TCS_AMC_MODE_TRIGGER);
                self.sync(Stage::Untrigger { purpose, control }, registers.control, control)
            },
            Stage::Untrigger { purpose, control } => {
                if !ok {
                    return self.not_visible(purpose);
                }
                let disarmed: u32 = clear_bit(control, TCS_AMC_MODE_ENABLE);
                self.sync(Stage::Disarm { purpose }, registers.control, disarmed)
            },
            Stage::Disarm { purpose } => {
                if ok {
                    self.disable(purpose)
                } else {
                    self.not_visible(purpose)
                }
            },
            Stage::Disable { purpose } => match purpose {
                Purpose::Abandon => self.finish(Err("qcom-rpmh-rsc: active request timed out")),
                Purpose::Prepare => {
                    if !ok {
                        return self.not_visible(purpose);
                    }
                    self.stage = Stage::ClearBefore;
                    Action::ClearIrq { mask: self.irq_mask }
                },
                Purpose::Retire { acknowledged } => {
                    if !ok {
                        return self.not_visible(purpose);
                    }
                    self.sync(
                        Stage::ClearWaits { acknowledged },
                        registers.command_wait_for_completion,
                        0,
                    )
                },
            },
            Stage::ClearBefore => {
                if ok {
                    self.load()
                } else {
                    self.finish(Err("qcom-rpmh-rsc: stale completion IRQ did not clear"))
                }
            },
            Stage::Load => {
                let mask: u32 = self.command_mask;
                self.sync(Stage::Enable, registers.command_enable, mask)
            },
            Stage::Enable => {
                if !ok {
                    return self.not_visible(Purpose::Prepare);
                }
                let mask: u32 = self.wait_mask;
                self.sync(Stage::Waits, registers.command_wait_for_completion, mask)
            },
            Stage::Waits => {
                if !ok {
                    return self.not_visible(Purpose::Prepare);
                }
                self.sync(Stage::Arm, registers.control, TCS_AMC_MODE_ENABLE)
            },
            Stage::Arm => {
                if !ok {
                    return self.not_visible(Purpose::Prepare);
                }
                self.stage = Stage::Trigger;
                let mut program: Vec<RegOp> = Vec::new();
                let offset: usize = self.rsc.tcs_register_offset(registers.control);
                program.push(put(offset, TCS_AMC_MODE_ENABLE + TCS_AMC_MODE_TRIGGER));
                program.push(RegOp::Barrier);
                assert(program@ =~= start.step(ok, value).1->program);
                Action::Perform { program }
            },
            Stage::Trigger => {
                self.stage = Stage::Await;
                Action::AwaitIrq { mask: self.irq_mask }
            },
            Stage::Await => {
                if ok {
                    self.check_from(0, true)
                } else {
                    self.read_control(Purpose::Abandon)
                }
            },
            Stage::Check { index, acknowledged } => {
                let answered = acknowledged && is_set(value, CMD_STATUS_ISSUED) && is_set(
                    value,
                    CMD_STATUS_COMPLETE,
                );
                self.check_from(index + 1, answered)
            },
            Stage::ClearWaits { acknowledged } => {
                if !ok {
                    return self.not_visible(Purpose::Prepare);
                }
                self.stage = Stage::ClearAfter { acknowledged };
                Action::ClearIrq { mask: self.irq_mask }
            },
            Stage::ClearAfter { acknowledged } => {
                if !ok {
                    self.finish(Err("qcom-rpmh-rsc: stale completion IRQ did not clear"))
                } else if !acknowledged {
                    self.finish(
                        Err("qcom-rpmh-rsc: request completed without command acknowledgement"),
                    )
                } else {
                    self.finish(Ok(()))
                }
            },
            Stage::Over => Action::Finished {
                result: Err("qcom-rpmh-rsc: active request is over"),
            },
        }
    }
}

// Writing and waiting for registers.

/// The write of a register that is then read until it holds the value.
pub fn sync_program(offset: usize, value: u32) -> (r: Vec<RegOp>)
    ensures
        r@ == seq![written(offset, value), RegOp::Barrier],
{
    let mut program: Vec<RegOp> = Vec::new();
    program.push(put(offset, value));
    program.push(RegOp::Barrier);
    assert(program@ =~= seq![written(offset, value), RegOp::Barrier]);
    program
}

impl RpmhRsc {
    /// The writes that clear an interrupt: none where it is down.
    pub fn clear_program(&self, mask: u32, irq_status: u32) -> (r: Vec<RegOp>)
        ensures
            r@ == (if irq_status & mask != 0 {
                seq![written(self.registers.irq_clear, mask), RegOp::Barrier]
            } else {
                Seq::empty()
            }),
    {
        if irq_status & mask != 0 {
            sync_program(self.registers.irq_clear, mask)
        } else {
            Vec::new()
        }
    }
}

/// What reading a register again and again has come to.
#[derive(Clone, Copy, Debug, Eq, PartialEq, Structural)]
pub enum Poll {
    Reached,
    Expired,
    /// Read again after a microsecond.
    Again,
}

pub open spec fn polled(reached: bool, elapsed_us: u64, limit_us: u64) -> Poll {
    if reached {
        Poll::Reached
    } else if elapsed_us >= limit_us {
        Poll::Expired
    } else {
        Poll::Again
    }
}

/// Whether a written register holds its value.
pub fn poll_sync(value: u32, read: u32, elapsed_us: u64) -> (r: Poll)
    ensures
        r == polled(read == value, elapsed_us, REGISTER_TIMEOUT_US),
{
    if read == value {
        Poll::Reached
    } else if elapsed_us >= REGISTER_TIMEOUT_US {
        Poll::Expired
    } else {
        Poll::Again
    }
}

/// Whether a cleared interrupt is down.
pub fn poll_clear(mask: u32, irq_status: u32, elapsed_us: u64) -> (r: Poll)
    ensures
        r == polled(irq_status & mask == 0, elapsed_us, REGISTER_TIMEOUT_US),
{
    if irq_status & mask == 0 {
        Poll::Reached
    } else if elapsed_us >= REGISTER_TIMEOUT_US {
        Poll::Expired
    } else {
        Poll::Again
    }
}

/// Whether the completion interrupt is up.
pub fn poll_completion(mask: u32, irq_status: u32, elapsed_us: u64) -> (r: Poll)
    ensures
        r == polled(irq_status & mask != 0, elapsed_us, TRANSFER_TIMEOUT_US),
{
    if irq_status & mask != 0 {
        Poll::Reached
    } else if elapsed_us >= TRANSFER_TIMEOUT_US {
        Poll::Expired
    } else {
        Poll::Again
    }
}

// Probing.

/// The one cell of a property.
pub open spec fn one_cell(property: Option<Seq<u8>>) -> Result<u32, &'static str> {
    match property {
        None => Err("qcom-rpmh-rsc: required property is missing"),
        Some(value) => if value.len() % 4 != 0 {
            Err("qcom-rpmh-rsc: malformed cell property")
        } else if value.len() != 4 {
            Err("qcom-rpmh-rsc: property must contain one cell")
        } else {
            Ok(cells(value)[0])
        },
    }
}

pub open spec fn content(property: Option<&[u8]>) -> Option<Seq<u8>> {
    match property {
        Some(value) => Some(value@),
        None => None,
    }
}

pub fn read_u32_property(property: Option<&[u8]>) -> (r: Result<u32, &'static str>)
    ensures
        r == one_cell(content(property)),
{
    match property {
        None => Err("qcom-rpmh-rsc: required property is missing"),
        Some(value) => match read_cells(value) {
            None => Err("qcom-rpmh-rsc: malformed cell property"),
            Some(words) => {
                if words.len() != 1 {
                    return Err("qcom-rpmh-rsc: property must contain one cell");
                }
                Ok(words[0])
            },
        },
    }
}

/// The handle of a controller.
pub fn read_phandle(phandle: Option<&[u8]>, linux_phandle: Option<&[u8]>) -> (r: Result<
    u32,
    &'static str,
>)
    ensures
        r == phandle_of(content(phandle), content(linux_phandle)),
{
    match read_u32_property(phandle) {
        Ok(handle) => Ok(handle),
        Err(_) => read_u32_property(linux_phandle),
    }
}

/// The window that a driver number selects: the memory resource at the place
/// of its name.
pub open spec fn window_of(
    driver_id: u32,
    names: Option<Seq<String>>,
    windows: Seq<(usize, usize)>,
) -> Result<(usize, usize), &'static str> {
    if driver_id > 2 {
        Err("qcom-rpmh-rsc: unsupported driver id")
    } else if names is None {
        Err("qcom-rpmh-rsc: missing reg-names")
    } else {
        match place_of(names->0, driver_name(driver_id)) {
            None => Err("qcom-rpmh-rsc: driver register window is missing"),
            Some(at) => if at < windows.len() {
                Ok(windows[at])
            } else {
                Err("qcom-rpmh-rsc: driver MMIO resource is missing")
            },
        }
    }
}

pub open spec fn driver_name(driver_id: u32) -> Seq<char> {
    if driver_id == 0 {
        "drv-0"@
    } else if driver_id == 1 {
        "drv-1"@
    } else {
        "drv-2"@
    }
}

/// `windows` are the memory resources of the device: first and last byte.
pub fn resource_for_driver(
    driver_id: u32,
    names: Option<&Vec<String>>,
    windows: &Vec<(usize, usize)>,
) -> (r: Result<(usize, usize), &'static str>)
    ensures
        r == window_of(
            driver_id,
            match names {
                Some(names) => Some(names@),
                None => None,
            },
            windows@,
        ),
{
    let target = match driver_id {
        0 => "drv-0",
        1 => "drv-1",
        2 => "drv-2",
        _ => {
            return Err("qcom-rpmh-rsc: unsupported driver id");
        },
    };
    let names = match names {
        Some(names) => names,
        None => {
            return Err("qcom-rpmh-rsc: missing reg-names");
        },
    };
    match position_of(names, target) {
        None => Err("qcom-rpmh-rsc: driver register window is missing"),
        Some(at) => {
            if at < windows.len() {
                Ok(windows[at])
            } else {
                Err("qcom-rpmh-rsc: driver MMIO resource is missing")
            }
        },
    }
}

/// What a device says of itself.
#[derive(Debug)]
pub struct RscNode<'a> {
    pub driver_id: Option<&'a [u8]>,
    pub tcs_offset: Option<&'a [u8]>,
    pub phandle: Option<&'a [u8]>,
    pub linux_phandle: Option<&'a [u8]>,
    pub reg_names: Option<Vec<String>>,
    /// The memory resources of the device: first and last byte.
    pub windows: Vec<(usize, usize)>,
}

/// Where the registers of a coordinator are, and what it goes by.
#[derive(Clone, Copy, Debug, Eq, PartialEq, Structural)]
pub struct Placement {
    pub driver_id: u32,
    pub tcs_offset: u32,
    pub phandle: u32,
    pub start: usize,
    pub size: usize,
}

pub open spec fn phandle_of(phandle: Option<Seq<u8>>, linux_phandle: Option<Seq<u8>>) -> Result<
    u32,
    &'static str,
> {
    match one_cell(phandle) {
        Ok(handle) => Ok(handle),
        Err(_) => one_cell(linux_phandle),
    }
}

pub open spec fn listed_names(names: Option<Vec<String>>) -> Option<Seq<String>> {
    match names {
        Some(names) => Some(names@),
        None => None,
    }
}

/// What a device comes to, or its first fault: the driver number, the offset of
/// the TCS blocks, the handle, the window, and its size.
pub open spec fn placed(node: RscNode) -> Result<Placement, &'static str> {
    match (
        one_cell(content(node.driver_id)),
        one_cell(content(node.tcs_offset)),
        phandle_of(content(node.phandle), content(node.linux_phandle)),
    ) {
        (Err(e), _, _) => Err(e),
        (_, Err(e), _) => Err(e),
        (_, _, Err(e)) => Err(e),
        (Ok(driver_id), Ok(tcs_offset), Ok(phandle)) => match window_of(
            driver_id,
            listed_names(node.reg_names),
            node.windows@,
        ) {
            Err(e) => Err(e),
            Ok((start, end)) => match span(start, end) {
                None => Err("qcom-rpmh-rsc: invalid MMIO resource"),
                Some(size) => Ok(
                    Placement { driver_id, tcs_offset, phandle, start, size: size as usize },
                ),
            },
        },
    }
}

/// Reads what a device says of itself.
pub fn place(node: &RscNode) -> (r: Result<Placement, &'static str>)
    ensures
        r == placed(*node),
{
    let driver_id: u32 = match read_u32_property(node.driver_id) {
        Ok(driver_id) => driver_id,
        Err(e) => {
            return Err(e);
        },
    };
    let tcs_offset: u32 = match read_u32_property(node.tcs_offset) {
        Ok(tcs_offset) => tcs_offset,
        Err(e) => {
            return Err(e);
        },
    };
    let phandle: u32 = match read_phandle(node.phandle, node.linux_phandle) {
        Ok(phandle) => phandle,
        Err(e) => {
            return Err(e);
        },
    };
    let (start, end): (usize, usize) = match resource_for_driver(
        driver_id,
        node.reg_names.as_ref(),
        &node.windows,
    ) {
        Ok(window) => window,
        Err(e) => {
            return Err(e);
        },
    };
    match resource_size(start, end) {
        Some(size) => Ok(Placement { driver_id, tcs_offset, phandle, start, size }),
        None => Err("qcom-rpmh-rsc: invalid MMIO resource"),
    }
}

/// What reading a TCS configuration has gathered.
#[derive(Clone, Copy, Debug)]
pub struct TcsGroups {
    /// Kinds met so far.
    pub seen: [bool; 4],
    /// TCS blocks counted so far.
    pub offset: u32,
    /// First block and number of blocks of the active group.
    pub active: Option<(u32, u32)>,
}

#[verifier::ext_equal]
pub struct TcsGroupsView {
    pub seen: Set<u32>,
    pub offset: int,
    pub active: Option<(u32, u32)>,
}

impl View for TcsGroups {
    type V = TcsGroupsView;

    open spec fn view(&self) -> TcsGroupsView {
        TcsGroupsView {
            seen: Set::new(|kind: u32| kind < 4 && self.seen@[kind as int]),
            offset: self.offset as int,
            active: self.active,
        }
    }
}

/// The groups after one entry: a kind and a number of blocks. The control
/// group has no blocks of its own.
pub open spec fn with_group(groups: TcsGroupsView, kind: u32, count: u32) -> Result<
    TcsGroupsView,
    &'static str,
> {
    if kind >= TCS_TYPE_COUNT || groups.seen.contains(kind) {
        Err("qcom-rpmh-rsc: invalid or duplicate TCS type")
    } else if count > 3 {
        Err("qcom-rpmh-rsc: TCS group is too large")
    } else if kind == CONTROL_TCS || count == 0 {
        Ok(TcsGroupsView { seen: groups.seen.insert(kind), ..groups })
    } else {
        Ok(
            TcsGroupsView {
                seen: groups.seen.insert(kind),
                offset: groups.offset + count,
                active: if kind == ACTIVE_TCS {
                    Some((groups.offset as u32, count))
                } else {
                    groups.active
                },
            },
        )
    }
}

/// The groups after the first `count` entries.
pub open spec fn groups_of(config: Seq<u32>, count: int) -> Result<TcsGroupsView, &'static str>
    decreases count,
{
    if count <= 0 {
        Ok(TcsGroupsView { seen: Set::empty(), offset: 0, active: None })
    } else {
        match groups_of(config, count - 1) {
            Ok(groups) => with_group(groups, config[2 * (count - 1)], config[2 * (count - 1) + 1]),
            Err(e) => Err(e),
        }
    }
}

/// The first failure of a configuration stays.
proof fn failures_stay(config: Seq<u32>, count: int, all: int)
    requires
        0 <= count <= all,
        groups_of(config, count) is Err,
    ensures
        groups_of(config, all) == groups_of(config, count),
    decreases all,
{
    if count < all {
        failures_stay(config, count, all - 1);
    }
}

/// The active group of a configuration.
pub open spec fn active_group(property: Option<Seq<u8>>, max_tcs: u32) -> Result<
    (u32, u32),
    &'static str,
> {
    match property {
        None => Err("qcom-rpmh-rsc: missing TCS configuration"),
        Some(value) => if value.len() % 4 != 0 {
            Err("qcom-rpmh-rsc: malformed cell property")
        } else if value.len() != 32 {
            Err("qcom-rpmh-rsc: invalid TCS configuration length")
        } else {
            match groups_of(cells(value), 4) {
                Err(e) => Err(e),
                Ok(groups) => if groups.offset > max_tcs || groups.offset >= 32 {
                    Err("qcom-rpmh-rsc: TCS configuration exceeds hardware")
                } else {
                    match groups.active {
                        Some(active) => Ok(active),
                        None => Err("qcom-rpmh-rsc: active TCS group is missing"),
                    }
                },
            }
        },
    }
}

/// The active group lies inside the blocks that are counted.
proof fn the_active_group_is_counted(config: Seq<u32>, count: int)
    requires
        groups_of(config, count) is Ok,
        0 <= count <= 4,
    ensures
        ({
            let groups = groups_of(config, count)->Ok_0;
            &&& 0 <= groups.offset <= 3 * count
            &&& groups.active matches Some(active) ==> {
                &&& 1 <= active.1 <= 3
                &&& active.0 + active.1 <= groups.offset
            }
        }),
    decreases count,
{
    if count > 0 {
        the_active_group_is_counted(config, count - 1);
    }
}

pub fn parse_active_tcs(property: Option<&[u8]>, max_tcs: u32) -> (r: Result<
    (u32, u32),
    &'static str,
>)
    ensures
        r == active_group(content(property), max_tcs),
        r matches Ok((offset, count)) ==> 1 <= count <= 3 && offset + count <= max_tcs && offset
            + count < 32,
{
    let value = match property {
        Some(value) => value,
        None => {
            return Err("qcom-rpmh-rsc: missing TCS configuration");
        },
    };
    let config = match read_cells(value) {
        Some(config) => config,
        None => {
            return Err("qcom-rpmh-rsc: malformed cell property");
        },
    };
    if config.len() != TCS_TYPE_COUNT * 2 {
        return Err("qcom-rpmh-rsc: invalid TCS configuration length");
    }
    let mut groups = TcsGroups { seen: [false; 4], offset: 0, active: None };
    assert(groups@ =~= groups_of(config@, 0)->Ok_0);
    let mut entry: usize = 0;
    while entry < 4
        invariant
            entry <= 4,
            config@.len() == 8,
            content(property) == Some(value@),
            value@.len() == 32,
            config@ == cells(value@),
            groups_of(config@, entry as int) == Ok::<TcsGroupsView, &'static str>(groups@),
            groups.offset <= 3 * entry,
        decreases 4 - entry,
    {
        let kind: u32 = config[entry * 2];
        let count: u32 = config[entry * 2 + 1];
        let ghost before = groups@;
        proof {
            if groups_of(config@, entry + 1) is Err {
                failures_stay(config@, entry + 1, 4);
            }
        }
        if kind as usize >= TCS_TYPE_COUNT || groups.seen[kind as usize] {
            return Err("qcom-rpmh-rsc: invalid or duplicate TCS type");
        }
        if count > 3 {
            return Err("qcom-rpmh-rsc: TCS group is too large");
        }
        groups.seen[kind as usize] = true;
        if kind != CONTROL_TCS && count != 0 {
            if kind == ACTIVE_TCS {
                groups.active = Some((groups.offset, count));
            }
            groups.offset = groups.offset + count;
        }
        assert(groups@ =~= with_group(before, kind, count)->Ok_0);
        entry += 1;
    }
    proof {
        the_active_group_is_counted(config@, 4);
    }
    if groups.offset > max_tcs || groups.offset >= 32 {
        return Err("qcom-rpmh-rsc: TCS configuration exceeds hardware");
    }
    match groups.active {
        Some(active) => Ok(active),
        None => Err("qcom-rpmh-rsc: active TCS group is missing"),
    }
}

/// What the hardware says of its TCS blocks: how many, and how many commands
/// each holds.
pub open spec fn geometry_of(hardware_config: u32, driver_id: u32) -> Result<
    (int, int),
    &'static str,
> {
    let blocks = if driver_id == 0 {
        hardware_config as int % 64
    } else if driver_id == 1 {
        hardware_config as int / 64 % 64
    } else if driver_id == 2 {
        hardware_config as int / 4096 % 64
    } else if driver_id == 3 {
        hardware_config as int / 0x4_0000 % 64
    } else if driver_id == 4 {
        hardware_config as int / 0x100_0000 % 64
    } else if driver_id == 5 {
        hardware_config as int / 0x4000_0000 % 64
    } else {
        0
    };
    let commands = hardware_config as int / 0x800_0000;
    if driver_id * 6 > u32::MAX {
        Err("qcom-rpmh-rsc: driver id shift overflow")
    } else if blocks == 0 {
        Err("qcom-rpmh-rsc: hardware reports no TCS blocks")
    } else if commands == 0 || commands > MAX_COMMANDS_PER_TCS {
        Err("qcom-rpmh-rsc: invalid commands-per-TCS value")
    } else {
        Ok((blocks, commands))
    }
}

pub fn read_geometry(hardware_config: u32, driver_id: u32) -> (r: Result<
    (u32, u32),
    &'static str,
>)
    ensures
        match (r, geometry_of(hardware_config, driver_id)) {
            (Ok((blocks, commands)), Ok(geometry)) => blocks == geometry.0 && commands
                == geometry.1,
            (Err(a), Err(b)) => a == b,
            _ => false,
        },
{
    if driver_id > u32::MAX / 6 {
        return Err("qcom-rpmh-rsc: driver id shift overflow");
    }
    let blocks: u32 = match driver_id {
        0 => hardware_config % 64,
        1 => hardware_config / 64 % 64,
        2 => hardware_config / 4096 % 64,
        3 => hardware_config / 0x4_0000 % 64,
        4 => hardware_config / 0x100_0000 % 64,
        5 => hardware_config / 0x4000_0000 % 64,
        _ => 0,
    };
    let commands: u32 = hardware_config / 0x800_0000;
    if blocks == 0 {
        return Err("qcom-rpmh-rsc: hardware reports no TCS blocks");
    }
    if commands == 0 || commands > MAX_COMMANDS_PER_TCS {
        return Err("qcom-rpmh-rsc: invalid commands-per-TCS value");
    }
    Ok((blocks, commands))
}

/// The bytes that the register window must have: up to the last register of
/// the last command of the last block.
pub open spec fn required_size(
    registers: RegisterLayout,
    tcs_offset: int,
    blocks: int,
    commands: int,
) -> int {
    tcs_offset + registers.tcs_stride * (blocks - 1) + registers.command_stride * (commands - 1)
        + registers.command_status + 4
}

/// What makes a coordinator of the registers and properties of a device.
pub open spec fn probed(
    rsc_id: u32,
    hardware_config: u32,
    driver_id: u32,
    tcs_offset: u32,
    size: usize,
    tcs_config: Option<Seq<u8>>,
) -> Result<RpmhRsc, &'static str> {
    match geometry_of(hardware_config, driver_id) {
        Err(e) => Err(e),
        Ok((blocks, commands)) => match active_group(tcs_config, blocks as u32) {
            Err(e) => Err(e),
            Ok((first, count)) => {
                let needed = required_size(
                    layout_of(rsc_id),
                    tcs_offset as int,
                    blocks,
                    commands,
                );
                if needed > usize::MAX {
                    Err("qcom-rpmh-rsc: register window overflow")
                } else if needed > size {
                    Err("qcom-rpmh-rsc: MMIO resource is smaller than TCS geometry")
                } else {
                    Ok(
                        RpmhRsc {
                            registers: layout_of(rsc_id),
                            active_tcs_offset: first,
                            active_tcs_count: count,
                            commands_per_tcs: commands as u32,
                        },
                    )
                }
            },
        },
    }
}

/// Makes a coordinator of what its registers and properties hold.
pub fn probe(
    rsc_id: u32,
    hardware_config: u32,
    driver_id: u32,
    tcs_offset: u32,
    size: usize,
    tcs_config: Option<&[u8]>,
) -> (r: Result<RpmhRsc, &'static str>)
    ensures
        r == probed(rsc_id, hardware_config, driver_id, tcs_offset, size, content(tcs_config)),
        r matches Ok(rsc) ==> rsc.wf(),
{
    let registers = layout_for(rsc_id);
    let (blocks, commands): (u32, u32) = match read_geometry(hardware_config, driver_id) {
        Ok(geometry) => geometry,
        Err(e) => {
            return Err(e);
        },
    };
    let (first, count): (u32, u32) = match parse_active_tcs(tcs_config, blocks) {
        Ok(active) => active,
        Err(e) => {
            return Err(e);
        },
    };
    let command_stride: u64 = registers.command_stride as u64;
    assert(command_stride == 20 || command_stride == 24);
    let behind: u64 = if command_stride == 20 {
        20 * (commands - 1) as u64
    } else {
        24 * (commands - 1) as u64
    };
    let needed: u64 = tcs_offset as u64 + 672 * (blocks - 1) as u64 + behind
        + registers.command_status as u64 + 4;
    if needed > usize::MAX as u64 {
        return Err("qcom-rpmh-rsc: register window overflow");
    }
    if needed > size as u64 {
        return Err("qcom-rpmh-rsc: MMIO resource is smaller than TCS geometry");
    }
    Ok(
        RpmhRsc {
            registers,
            active_tcs_offset: first,
            active_tcs_count: count,
            commands_per_tcs: commands,
        },
    )
}

/// Looks a coordinator up by its firmware handle.
pub fn controller(controllers: &Vec<(u32, RpmhRsc)>, phandle: u32) -> (r: Option<RpmhRsc>)
    ensures
        r == provider_of(controllers@, phandle),
{
    registry::lookup(controllers, phandle)
}

// Laws.

/// A command that asks for a response shows in the mask.
pub proof fn a_response_shows_in_the_mask(commands: Seq<ActiveCommand>, index: int)
    requires
        0 <= index < commands.len(),
        commands[index].wait_for_completion,
    ensures
        wait_mask(commands) != 0,
{
    masks_and_responses(commands);
}

/// A batch that ends well had every response that it asked for.
pub proof fn success_is_acknowledged(batch: BatchView, ok: bool, value: u32)
    requires
        batch.wf(),
        batch.step(ok, value).1 == (ActionView::Finished { result: Ok(()) }),
    ensures
        batch.stage == (Stage::ClearAfter { acknowledged: true }),
{
}

/// A missing response is not forgotten: once noted, the batch cannot end
/// well.
pub proof fn a_missing_response_stays(batch: BatchView, ok: bool, value: u32)
    requires
        batch.wf(),
        lacks_response(batch.stage),
    ensures
        ({
            let (next, action) = batch.step(ok, value);
            lacks_response(next.stage) || (next.stage == Stage::Over && action != (
            ActionView::Finished { result: Ok(()) }))
        }),
{
}

pub open spec fn lacks_response(stage: Stage) -> bool {
    match stage {
        Stage::Check { acknowledged, .. } => !acknowledged,
        Stage::Control { purpose } => purpose == (Purpose::Retire { acknowledged: false }),
        Stage::Untrigger { purpose, .. } => purpose == (Purpose::Retire { acknowledged: false }),
        Stage::Disarm { purpose } => purpose == (Purpose::Retire { acknowledged: false }),
        Stage::Disable { purpose } => purpose == (Purpose::Retire { acknowledged: false }),
        Stage::ClearWaits { acknowledged } => !acknowledged,
        Stage::ClearAfter { acknowledged } => !acknowledged,
        _ => false,
    }
}

/// The commands are triggered only after a stale completion was cleared, all
/// were loaded, and those to wait for are set.
pub proof fn a_trigger_follows_the_load(batch: BatchView, ok: bool, value: u32)
    requires
        batch.wf(),
    ensures
        ({
            let next = batch.step(ok, value).0;
            &&& next.stage == Stage::Trigger ==> batch.stage == Stage::Arm && ok
            &&& next.stage == Stage::Arm ==> batch.stage == Stage::Waits && ok
            &&& next.stage == Stage::Waits ==> batch.stage == Stage::Enable && ok
            &&& next.stage == Stage::Enable ==> batch.stage == Stage::Load
            &&& next.stage == Stage::Load ==> batch.stage == Stage::ClearBefore && ok
        }),
{
}

/// How many actions are left once the TCS is at rest.
pub open spec fn steps_after(purpose: Purpose, commands: int) -> int {
    match purpose {
        Purpose::Abandon => 0,
        Purpose::Retire { .. } => 2,
        Purpose::Prepare => commands + 14,
    }
}

/// How far a batch is from its end.
pub open spec fn steps_to_go(batch: BatchView) -> int {
    let commands = batch.commands.len() as int;
    match batch.stage {
        Stage::Control { purpose } => 4 + steps_after(purpose, commands),
        Stage::Untrigger { purpose, .. } => 3 + steps_after(purpose, commands),
        Stage::Disarm { purpose } => 2 + steps_after(purpose, commands),
        Stage::Disable { purpose } => 1 + steps_after(purpose, commands),
        Stage::ClearBefore => commands + 14,
        Stage::Load => commands + 13,
        Stage::Enable => commands + 12,
        Stage::Waits => commands + 11,
        Stage::Arm => commands + 10,
        Stage::Trigger => commands + 9,
        Stage::Await => commands + 8,
        Stage::Check { index, .. } => commands - index + 7,
        Stage::ClearWaits { .. } => 2,
        Stage::ClearAfter { .. } => 1,
        Stage::Over => 0,
    }
}

/// Every action brings a batch closer to its end.
pub proof fn a_batch_ends(batch: BatchView, ok: bool, value: u32)
    requires
        batch.wf(),
        batch.stage != Stage::Over,
    ensures
        0 <= steps_to_go(batch.step(ok, value).0) < steps_to_go(batch),
{
    match batch.stage {
        Stage::Await => {
            crate::bytes::first_index_is_first(batch.commands, asks_for_response(), 0);
        },
        Stage::Check { index, .. } => {
            crate::bytes::first_index_is_first(batch.commands, asks_for_response(), index + 1);
        },
        _ => {},
    }
}

/// Every register of a probed coordinator lies in its window.
pub proof fn registers_stay_in_the_window(
    rsc_id: u32,
    hardware_config: u32,
    driver_id: u32,
    tcs_offset: u32,
    size: usize,
    tcs_config: Option<Seq<u8>>,
    command_id: int,
    offset: usize,
)
    requires
        ({
            let result = probed(
                rsc_id,
                hardware_config,
                driver_id,
                tcs_offset,
                size,
                tcs_config,
            );
            result matches Ok(rsc) && 0 <= command_id < rsc.commands_per_tcs && offset
                <= rsc.registers.command_status
        }),
    ensures
        ({
            let rsc = probed(
                rsc_id,
                hardware_config,
                driver_id,
                tcs_offset,
                size,
                tcs_config,
            )->Ok_0;
            &&& tcs_offset + rsc.tcs_register(offset) + 4 <= size
            &&& tcs_offset + rsc.tcs_command(command_id, offset) + 4 <= size
        }),
{
    let (blocks, commands) = geometry_of(hardware_config, driver_id)->Ok_0;
    let value = tcs_config->0;
    the_active_group_is_counted(cells(value), 4);
    let (first, count) = active_group(tcs_config, blocks as u32)->Ok_0;
    let registers = layout_of(rsc_id);
    assert(registers.tcs_stride == 672);
    assert(registers.command_stride == 20 || registers.command_stride == 24);
    assert(first + 1 <= blocks);
    let stride = registers.command_stride as int;
    assert(0 <= stride * command_id <= stride * (commands - 1)) by (nonlinear_arith)
        requires
            0 <= command_id <= commands - 1,
            0 <= stride,
    ;
    assert(registers.tcs_stride * first <= registers.tcs_stride * (blocks - 1)) by (nonlinear_arith)
        requires
            first <= blocks - 1,
            registers.tcs_stride >= 0,
    ;
}

/// Keeps the driver linked into builds that load it by name.
pub fn force_link() {
}

} // verus!

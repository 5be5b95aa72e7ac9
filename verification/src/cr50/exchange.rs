//! One command and its response, over the registers of the TPM.
//!
//! The locality is requested, the command is written in bursts, started, and
//! its response read in bursts. However that ends, the TPM is made ready for
//! the next command. What each register value calls for is decided here; the
//! frames that read and write registers are elsewhere.

use vstd::prelude::*;

use super::{Cr50Error, TIS_SPI_MAX_PAYLOAD, TPM_HEADER_SIZE, TPM_MAX_RESPONSE_SIZE};
use crate::bytes::be32;

verus! {

pub const TPM_ACCESS: u32 = 0x0000;

pub const TPM_STS: u32 = 0x0018;

pub const TPM_DATA_FIFO: u32 = 0x0024;

pub const TPM_ACCESS_REQUEST_USE: u8 = 0x02;

pub const TPM_STS_COMMAND_READY: u8 = 0x40;

pub const TPM_STS_GO: u8 = 0x20;

pub const POLL_DELAY_US: u64 = 2_000;

pub const TIMEOUT_A_POLLS: u32 = 375;

pub const TIMEOUT_B_POLLS: u32 = 1_000;

pub const TIMEOUT_C_POLLS: u32 = 1_000;

/// A bit of a register, by its value.
pub open spec fn bit(value: u8, mask: u8) -> bool {
    value as int / mask as int % 2 == 1
}

fn has(value: u8, mask: u8) -> (r: bool)
    requires
        mask > 0,
    ensures
        r == bit(value, mask),
{
    value / mask % 2 == 1
}

/// The access register is valid, and the locality active.
pub open spec fn access_valid(value: u8) -> bool {
    bit(value, 0x80)
}

pub open spec fn access_active(value: u8) -> bool {
    bit(value, 0x80) && bit(value, 0x20)
}

pub open spec fn status_ready(value: u8) -> bool {
    bit(value, 0x40)
}

pub open spec fn status_valid(value: u8) -> bool {
    bit(value, 0x80)
}

pub open spec fn status_available(value: u8) -> bool {
    bit(value, 0x80) && bit(value, 0x10)
}

/// What a register is read for, again and again.
#[derive(Clone, Copy, Debug, Eq, PartialEq, Structural)]
pub enum Goal {
    AccessValid,
    AccessActive,
    CommandReady,
    /// A part of the command was taken.
    PartTaken,
    /// The last byte of the command was taken.
    AllTaken,
    /// A response is there.
    ResponseAvailable,
    /// More of the response is there.
    PartAvailable,
    /// The response was read.
    ResponseRead,
}

pub open spec fn register_of(goal: Goal) -> u32 {
    match goal {
        Goal::AccessValid => TPM_ACCESS,
        Goal::AccessActive => TPM_ACCESS,
        _ => TPM_STS,
    }
}

pub open spec fn polls_of(goal: Goal) -> u32 {
    match goal {
        Goal::AccessValid => TIMEOUT_A_POLLS,
        Goal::AccessActive => TIMEOUT_A_POLLS,
        Goal::CommandReady => TIMEOUT_B_POLLS,
        _ => TIMEOUT_C_POLLS,
    }
}

pub open spec fn reached(goal: Goal, value: u8) -> bool {
    match goal {
        Goal::AccessValid => access_valid(value),
        Goal::AccessActive => access_active(value),
        Goal::CommandReady => status_ready(value),
        Goal::PartTaken => status_valid(value),
        Goal::AllTaken => status_valid(value),
        Goal::ResponseAvailable => status_available(value),
        Goal::PartAvailable => status_available(value),
        Goal::ResponseRead => status_valid(value),
    }
}

/// Which access was made last.
#[derive(Clone, Copy, Debug)]
pub enum Stage {
    /// The access register, to see whether the locality is still active.
    CheckLocality,
    Poll { goal: Goal, left: u32 },
    RequestUse,
    MakeReady,
    /// The burst count, to send or to receive.
    Burst { sending: bool, left: u32 },
    SendPart { count: usize },
    SendLast,
    Go,
    ReceivePart { count: usize },
    /// The TPM is made ready again; this is what the command came to.
    Release { error: Option<Cr50Error> },
    Over,
}

/// What to do next.
#[derive(Debug)]
pub enum Ask {
    /// Wait, then read bytes of a register.
    Read { delay_us: u64, address: u32, count: usize },
    /// Wait, then write bytes to a register.
    Write { delay_us: u64, address: u32, data: Vec<u8> },
    /// Wait; the command is then over. Without an error, the response is
    /// complete.
    Finished { delay_us: u64, error: Option<Cr50Error> },
}

pub ghost enum AskView {
    Read { delay_us: u64, address: u32, count: usize },
    Write { delay_us: u64, address: u32, data: Seq<u8> },
    Finished { delay_us: u64, error: Option<Cr50Error> },
}

impl View for Ask {
    type V = AskView;

    open spec fn view(&self) -> AskView {
        match *self {
            Ask::Read { delay_us, address, count } => AskView::Read { delay_us, address, count },
            Ask::Write { delay_us, address, data } => AskView::Write {
                delay_us,
                address,
                data: data@,
            },
            Ask::Finished { delay_us, error } => AskView::Finished { delay_us, error },
        }
    }
}

/// A command on its way.
#[derive(Debug)]
pub struct Exchange {
    pub command: Vec<u8>,
    pub sent: usize,
    pub response: Vec<u8>,
    /// The length of the response, as far as it is known.
    pub expected: usize,
    pub locality_active: bool,
    pub stage: Stage,
}

#[verifier::ext_equal]
pub struct ExchangeView {
    pub command: Seq<u8>,
    pub sent: int,
    pub response: Seq<u8>,
    pub expected: int,
    pub locality_active: bool,
    pub stage: Stage,
}

impl View for Exchange {
    type V = ExchangeView;

    open spec fn view(&self) -> ExchangeView {
        ExchangeView {
            command: self.command@,
            sent: self.sent as int,
            response: self.response@,
            expected: self.expected as int,
            locality_active: self.locality_active,
            stage: self.stage,
        }
    }
}

pub open spec fn smaller(a: int, b: int) -> int {
    if a <= b {
        a
    } else {
        b
    }
}

/// The burst count of a status word, at most what a frame carries.
pub open spec fn burst_of(status: Seq<u8>) -> int {
    smaller(status[1] + 0x100 * status[2], TIS_SPI_MAX_PAYLOAD as int)
}

impl ExchangeView {
    /// What holds at every stage.
    pub open spec fn sound(self) -> bool {
        &&& 0 <= self.sent < self.command.len()
        &&& self.response.len() <= self.expected <= TPM_MAX_RESPONSE_SIZE
        &&& TPM_HEADER_SIZE <= self.expected
        &&& self.response.len() < TPM_HEADER_SIZE ==> self.expected == TPM_HEADER_SIZE
    }

    /// A response whose header is there has the length that the header tells.
    pub open spec fn announced(self) -> bool {
        self.response.len() >= TPM_HEADER_SIZE ==> self.expected == be32(self.response, 2)
    }

    pub open spec fn complete(self) -> bool {
        self.response.len() == self.expected && self.expected == be32(self.response, 2)
    }

    pub open spec fn wf(self) -> bool {
        &&& self.sound()
        &&& match self.stage {
            Stage::Poll { goal, left } => left >= 1 && self.announced() && (match goal {
                Goal::PartAvailable => self.response.len() < self.expected,
                Goal::ResponseRead => self.complete(),
                _ => true,
            }),
            Stage::Burst { sending, left } => left >= 1 && self.announced() && (if sending {
                self.sent + 1 < self.command.len()
            } else {
                self.response.len() < self.expected
            }),
            Stage::SendPart { count } => 1 <= count && self.sent + count < self.command.len()
                && self.announced(),
            Stage::SendLast => self.sent + 1 == self.command.len() && self.announced(),
            Stage::ReceivePart { count } => 1 <= count && self.response.len() + count
                <= self.expected && self.announced(),
            Stage::Release { error } => error is None ==> self.complete(),
            Stage::Over => true,
            _ => self.announced(),
        }
    }

    /// How many bytes the last access reads.
    pub open spec fn pending(self) -> int {
        match self.stage {
            Stage::CheckLocality => 1,
            Stage::Poll { .. } => 1,
            Stage::Burst { .. } => 4,
            Stage::ReceivePart { count } => count as int,
            _ => 0,
        }
    }

    pub open spec fn at(self, stage: Stage) -> ExchangeView {
        ExchangeView { stage, ..self }
    }

    pub open spec fn poll(self, goal: Goal) -> (ExchangeView, AskView) {
        (
            self.at(Stage::Poll { goal, left: polls_of(goal) }),
            AskView::Read { delay_us: 0, address: register_of(goal), count: 1 },
        )
    }

    pub open spec fn write(self, stage: Stage, address: u32, data: Seq<u8>) -> (
        ExchangeView,
        AskView,
    ) {
        (self.at(stage), AskView::Write { delay_us: 0, address, data })
    }

    /// Makes the TPM ready again, whatever the command came to.
    pub open spec fn release(self, delay_us: u64, error: Option<Cr50Error>) -> (
        ExchangeView,
        AskView,
    ) {
        (
            self.at(Stage::Release { error }),
            AskView::Write { delay_us, address: TPM_STS, data: seq![TPM_STS_COMMAND_READY] },
        )
    }

    pub open spec fn finish(self, delay_us: u64, error: Option<Cr50Error>) -> (
        ExchangeView,
        AskView,
    ) {
        (self.at(Stage::Over), AskView::Finished { delay_us, error })
    }

    /// The locality was not obtained: nothing was started yet.
    pub open spec fn before_command(self) -> bool {
        match self.stage {
            Stage::CheckLocality => true,
            Stage::RequestUse => true,
            Stage::Poll { goal, .. } => goal == Goal::AccessValid || goal == Goal::AccessActive,
            _ => false,
        }
    }

    /// An access failed, or a register did not come to hold what was waited
    /// for.
    pub open spec fn failed(self, delay_us: u64, error: Cr50Error) -> (ExchangeView, AskView) {
        if self.before_command() {
            self.finish(delay_us, Some(error))
        } else {
            self.release(delay_us, Some(error))
        }
    }

    pub open spec fn make_ready(self) -> (ExchangeView, AskView) {
        self.write(Stage::MakeReady, TPM_STS, seq![TPM_STS_COMMAND_READY])
    }

    pub open spec fn burst(self, sending: bool) -> (ExchangeView, AskView) {
        (
            self.at(Stage::Burst { sending, left: TIMEOUT_A_POLLS }),
            AskView::Read { delay_us: 0, address: TPM_STS, count: 4 },
        )
    }

    /// Sends what is left of the command: the last byte goes by itself.
    pub open spec fn send_more(self) -> (ExchangeView, AskView) {
        if self.sent + 1 < self.command.len() {
            self.burst(true)
        } else {
            self.write(Stage::SendLast, TPM_DATA_FIFO, seq![self.command[self.sent]])
        }
    }

    /// Reads what is left of the response.
    pub open spec fn receive_more(self) -> (ExchangeView, AskView) {
        if self.response.len() < self.expected {
            self.poll(Goal::PartAvailable)
        } else {
            self.poll(Goal::ResponseRead)
        }
    }

    /// What follows a goal.
    pub open spec fn proceed(self, goal: Goal, value: u8) -> (ExchangeView, AskView) {
        match goal {
            Goal::AccessValid => self.write(
                Stage::RequestUse,
                TPM_ACCESS,
                seq![TPM_ACCESS_REQUEST_USE],
            ),
            Goal::AccessActive => (ExchangeView {
                locality_active: true,
                ..self
            }).make_ready(),
            Goal::CommandReady => self.send_more(),
            Goal::PartTaken => if bit(value, 0x08) {
                self.send_more()
            } else {
                self.release(0, Some(Cr50Error::Protocol))
            },
            Goal::AllTaken => if bit(value, 0x08) {
                self.release(0, Some(Cr50Error::Protocol))
            } else {
                self.write(Stage::Go, TPM_STS, seq![TPM_STS_GO])
            },
            Goal::ResponseAvailable => self.receive_more(),
            Goal::PartAvailable => self.burst(false),
            Goal::ResponseRead => if bit(value, 0x10) {
                self.release(0, Some(Cr50Error::Protocol))
            } else {
                self.release(0, None)
            },
        }
    }

    /// Takes a part of the response in. Its header tells how long it is.
    pub open spec fn received(self, data: Seq<u8>) -> (ExchangeView, AskView) {
        let response = self.response + data;
        let next = ExchangeView { response, ..self };
        if response.len() == TPM_HEADER_SIZE {
            let size = be32(response, 2);
            if size < TPM_HEADER_SIZE || size > TPM_MAX_RESPONSE_SIZE {
                next.release(0, Some(Cr50Error::Protocol))
            } else {
                (ExchangeView { expected: size, ..next }).receive_more()
            }
        } else {
            next.receive_more()
        }
    }

    /// What follows an access that succeeded.
    pub open spec fn success(self, data: Seq<u8>) -> (ExchangeView, AskView) {
        match self.stage {
            Stage::CheckLocality => if access_active(data[0]) {
                self.make_ready()
            } else {
                self.poll(Goal::AccessValid)
            },
            Stage::Poll { goal, left } => if reached(goal, data[0]) {
                self.proceed(goal, data[0])
            } else if left <= 1 {
                self.failed(POLL_DELAY_US, Cr50Error::Timeout)
            } else {
                (
                    self.at(Stage::Poll { goal, left: (left - 1) as u32 }),
                    AskView::Read {
                        delay_us: POLL_DELAY_US,
                        address: register_of(goal),
                        count: 1,
                    },
                )
            },
            Stage::RequestUse => self.poll(Goal::AccessActive),
            Stage::MakeReady => self.poll(Goal::CommandReady),
            Stage::Burst { sending, left } => if burst_of(data) == 0 {
                if left <= 1 {
                    self.failed(POLL_DELAY_US, Cr50Error::Timeout)
                } else {
                    (
                        self.at(Stage::Burst { sending, left: (left - 1) as u32 }),
                        AskView::Read { delay_us: POLL_DELAY_US, address: TPM_STS, count: 4 },
                    )
                }
            } else if sending {
                let count = smaller(burst_of(data), self.command.len() - self.sent - 1);
                self.write(
                    Stage::SendPart { count: count as usize },
                    TPM_DATA_FIFO,
                    self.command.subrange(self.sent, self.sent + count),
                )
            } else {
                let count = smaller(burst_of(data), self.expected - self.response.len());
                (
                    self.at(Stage::ReceivePart { count: count as usize }),
                    AskView::Read {
                        delay_us: 0,
                        address: TPM_DATA_FIFO,
                        count: count as usize,
                    },
                )
            },
            Stage::SendPart { count } => (ExchangeView {
                sent: self.sent + count,
                ..self
            }).poll(Goal::PartTaken),
            Stage::SendLast => self.poll(Goal::AllTaken),
            Stage::Go => self.poll(Goal::ResponseAvailable),
            Stage::ReceivePart { .. } => self.received(data),
            Stage::Release { error } => self.finish(0, error),
            Stage::Over => self.finish(0, Some(Cr50Error::Protocol)),
        }
    }

    pub open spec fn step(self, access: Result<Seq<u8>, Cr50Error>) -> (ExchangeView, AskView) {
        match access {
            Ok(data) => self.success(data),
            Err(e) => match self.stage {
                Stage::Release { error } => self.finish(0, error),
                _ => self.failed(0, e),
            },
        }
    }
}

pub open spec fn access_view(access: Result<Vec<u8>, Cr50Error>) -> Result<Seq<u8>, Cr50Error> {
    match access {
        Ok(data) => Ok(data@),
        Err(e) => Err(e),
    }
}

fn one(value: u8) -> (r: Vec<u8>)
    ensures
        r@ == seq![value],
{
    let mut data: Vec<u8> = Vec::new();
    data.push(value);
    assert(data@ =~= seq![value]);
    data
}

impl Exchange {
    /// Starts a command. An active locality is checked, any other requested.
    pub fn execute_command(command: Vec<u8>, locality_active: bool) -> (r: (Exchange, Ask))
        requires
            1 <= command@.len(),
        ensures
            r.0@.wf(),
            r.0@.command == command@,
            r.0@.sent == 0,
            r.0@.response.len() == 0,
            r.0@.locality_active == locality_active,
            r.1@ == (AskView::Read { delay_us: 0, address: TPM_ACCESS, count: 1 }),
            r.0@.stage == (if locality_active {
                Stage::CheckLocality
            } else {
                Stage::Poll { goal: Goal::AccessValid, left: TIMEOUT_A_POLLS }
            }),
    {
        let stage = if locality_active {
            Stage::CheckLocality
        } else {
            Stage::Poll { goal: Goal::AccessValid, left: TIMEOUT_A_POLLS }
        };
        let exchange = Exchange {
            command,
            sent: 0,
            response: Vec::new(),
            expected: TPM_HEADER_SIZE,
            locality_active,
            stage,
        };
        (exchange, Ask::Read { delay_us: 0, address: TPM_ACCESS, count: 1 })
    }

    fn start_poll(&mut self, goal: Goal) -> (r: Ask)
        requires
            old(self)@.at(Stage::Poll { goal, left: 1 }).wf(),
        ensures
            final(self)@.wf(),
            (final(self)@, r@) == old(self)@.poll(goal),
    {
        let (address, left): (u32, u32) = match goal {
            Goal::AccessValid => (TPM_ACCESS, TIMEOUT_A_POLLS),
            Goal::AccessActive => (TPM_ACCESS, TIMEOUT_A_POLLS),
            Goal::CommandReady => (TPM_STS, TIMEOUT_B_POLLS),
            _ => (TPM_STS, TIMEOUT_C_POLLS),
        };
        self.stage = Stage::Poll { goal, left };
        Ask::Read { delay_us: 0, address, count: 1 }
    }

    fn put(&mut self, stage: Stage, address: u32, data: Vec<u8>) -> (r: Ask)
        requires
            old(self)@.at(stage).wf(),
        ensures
            final(self)@.wf(),
            (final(self)@, r@) == old(self)@.write(stage, address, data@),
    {
        self.stage = stage;
        Ask::Write { delay_us: 0, address, data }
    }

    fn start_release(&mut self, delay_us: u64, error: Option<Cr50Error>) -> (r: Ask)
        requires
            old(self)@.at(Stage::Release { error }).wf(),
        ensures
            final(self)@.wf(),
            (final(self)@, r@) == old(self)@.release(delay_us, error),
    {
        self.stage = Stage::Release { error };
        Ask::Write { delay_us, address: TPM_STS, data: one(TPM_STS_COMMAND_READY) }
    }

    fn end(&mut self, delay_us: u64, error: Option<Cr50Error>) -> (r: Ask)
        requires
            old(self)@.sound(),
        ensures
            final(self)@.wf(),
            (final(self)@, r@) == old(self)@.finish(delay_us, error),
    {
        self.stage = Stage::Over;
        Ask::Finished { delay_us, error }
    }

    fn fail(&mut self, delay_us: u64, error: Cr50Error) -> (r: Ask)
        requires
            old(self)@.wf(),
        ensures
            final(self)@.wf(),
            (final(self)@, r@) == old(self)@.failed(delay_us, error),
    {
        let early = match self.stage {
            Stage::CheckLocality => true,
            Stage::RequestUse => true,
            Stage::Poll { goal, .. } => match goal {
                Goal::AccessValid => true,
                Goal::AccessActive => true,
                _ => false,
            },
            _ => false,
        };
        if early {
            self.end(delay_us, Some(error))
        } else {
            self.start_release(delay_us, Some(error))
        }
    }

    fn ready(&mut self) -> (r: Ask)
        requires
            old(self)@.sound(),
            old(self)@.announced(),
        ensures
            final(self)@.wf(),
            (final(self)@, r@) == old(self)@.make_ready(),
    {
        self.put(Stage::MakeReady, TPM_STS, one(TPM_STS_COMMAND_READY))
    }

    fn start_burst(&mut self, sending: bool) -> (r: Ask)
        requires
            old(self)@.at(Stage::Burst { sending, left: TIMEOUT_A_POLLS }).wf(),
        ensures
            final(self)@.wf(),
            (final(self)@, r@) == old(self)@.burst(sending),
    {
        self.stage = Stage::Burst { sending, left: TIMEOUT_A_POLLS };
        Ask::Read { delay_us: 0, address: TPM_STS, count: 4 }
    }

    fn send_next(&mut self) -> (r: Ask)
        requires
            old(self)@.sound(),
            old(self)@.announced(),
        ensures
            final(self)@.wf(),
            (final(self)@, r@) == old(self)@.send_more(),
    {
        let length: usize = self.command.len();
        if self.sent < length - 1 {
            return self.start_burst(true);
        }
        let last: u8 = self.command[self.sent];
        self.put(Stage::SendLast, TPM_DATA_FIFO, one(last))
    }

    fn receive_next(&mut self) -> (r: Ask)
        requires
            old(self)@.sound(),
            old(self)@.announced(),
        ensures
            final(self)@.wf(),
            (final(self)@, r@) == old(self)@.receive_more(),
    {
        if self.response.len() < self.expected {
            self.start_poll(Goal::PartAvailable)
        } else {
            self.start_poll(Goal::ResponseRead)
        }
    }

    fn go_on(&mut self, goal: Goal, value: u8) -> (r: Ask)
        requires
            old(self)@.at(Stage::Poll { goal, left: 1 }).wf(),
        ensures
            final(self)@.wf(),
            (final(self)@, r@) == old(self)@.proceed(goal, value),
    {
        match goal {
            Goal::AccessValid => self.put(
                Stage::RequestUse,
                TPM_ACCESS,
                one(TPM_ACCESS_REQUEST_USE),
            ),
            Goal::AccessActive => {
                self.locality_active = true;
                self.ready()
            },
            Goal::CommandReady => self.send_next(),
            Goal::PartTaken => {
                if has(value, 0x08) {
                    self.send_next()
                } else {
                    self.start_release(0, Some(Cr50Error::Protocol))
                }
            },
            Goal::AllTaken => {
                if has(value, 0x08) {
                    self.start_release(0, Some(Cr50Error::Protocol))
                } else {
                    self.put(Stage::Go, TPM_STS, one(TPM_STS_GO))
                }
            },
            Goal::ResponseAvailable => self.receive_next(),
            Goal::PartAvailable => self.start_burst(false),
            Goal::ResponseRead => {
                if has(value, 0x10) {
                    self.start_release(0, Some(Cr50Error::Protocol))
                } else {
                    self.start_release(0, None)
                }
            },
        }
    }

    fn is_reached(goal: Goal, value: u8) -> (r: bool)
        ensures
            r == reached(goal, value),
    {
        match goal {
            Goal::AccessValid => has(value, 0x80),
            Goal::AccessActive => has(value, 0x80) && has(value, 0x20),
            Goal::CommandReady => has(value, 0x40),
            Goal::PartTaken => has(value, 0x80),
            Goal::AllTaken => has(value, 0x80),
            Goal::ResponseAvailable => has(value, 0x80) && has(value, 0x10),
            Goal::PartAvailable => has(value, 0x80) && has(value, 0x10),
            Goal::ResponseRead => has(value, 0x80),
        }
    }

    fn take_part(&mut self, data: &[u8]) -> (r: Ask)
        requires
            old(self)@.sound(),
            old(self)@.announced(),
            1 <= data@.len(),
            old(self)@.response.len() + data@.len() <= old(self)@.expected,
        ensures
            final(self)@.wf(),
            (final(self)@, r@) == old(self)@.received(data@),
    {
        crate::bytes::append_bytes(&mut self.response, data);
        if self.response.len() == TPM_HEADER_SIZE {
            let size: u32 = crate::bytes::read_be_u32(&self.response, 2).unwrap();
            if (size as usize) < TPM_HEADER_SIZE || size as usize > TPM_MAX_RESPONSE_SIZE {
                return self.start_release(0, Some(Cr50Error::Protocol));
            }
            self.expected = size as usize;
        }
        self.receive_next()
    }

    fn succeeded(&mut self, data: &Vec<u8>) -> (r: Ask)
        requires
            old(self)@.wf(),
            data@.len() == old(self)@.pending(),
        ensures
            final(self)@.wf(),
            (final(self)@, r@) == old(self)@.success(data@),
    {
        match self.stage {
            Stage::CheckLocality => {
                let value: u8 = data[0];
                if has(value, 0x80) && has(value, 0x20) {
                    self.ready()
                } else {
                    self.start_poll(Goal::AccessValid)
                }
            },
            Stage::Poll { goal, left } => {
                let value: u8 = data[0];
                if Self::is_reached(goal, value) {
                    return self.go_on(goal, value);
                }
                if left <= 1 {
                    return self.fail(POLL_DELAY_US, Cr50Error::Timeout);
                }
                self.stage = Stage::Poll { goal, left: left - 1 };
                let address: u32 = match goal {
                    Goal::AccessValid => TPM_ACCESS,
                    Goal::AccessActive => TPM_ACCESS,
                    _ => TPM_STS,
                };
                Ask::Read { delay_us: POLL_DELAY_US, address, count: 1 }
            },
            Stage::RequestUse => self.start_poll(Goal::AccessActive),
            Stage::MakeReady => self.start_poll(Goal::CommandReady),
            Stage::Burst { sending, left } => {
                let announced: usize = data[1] as usize + 0x100 * data[2] as usize;
                let burst: usize = if announced <= TIS_SPI_MAX_PAYLOAD {
                    announced
                } else {
                    TIS_SPI_MAX_PAYLOAD
                };
                if burst == 0 {
                    if left <= 1 {
                        return self.fail(POLL_DELAY_US, Cr50Error::Timeout);
                    }
                    self.stage = Stage::Burst { sending, left: left - 1 };
                    return Ask::Read { delay_us: POLL_DELAY_US, address: TPM_STS, count: 4 };
                }
                if sending {
                    let left_over: usize = self.command.len() - self.sent - 1;
                    let count: usize = if burst <= left_over {
                        burst
                    } else {
                        left_over
                    };
                    let part = crate::bytes::copy_range(
                        &self.command,
                        self.sent,
                        self.sent + count,
                    );
                    return self.put(Stage::SendPart { count }, TPM_DATA_FIFO, part);
                }
                let left_over: usize = self.expected - self.response.len();
                let count: usize = if burst <= left_over {
                    burst
                } else {
                    left_over
                };
                self.stage = Stage::ReceivePart { count };
                Ask::Read { delay_us: 0, address: TPM_DATA_FIFO, count }
            },
            Stage::SendPart { count } => {
                let length: usize = self.command.len();
                assert(self.sent + count < length);
                self.sent = self.sent + count;
                self.start_poll(Goal::PartTaken)
            },
            Stage::SendLast => self.start_poll(Goal::AllTaken),
            Stage::Go => self.start_poll(Goal::ResponseAvailable),
            Stage::ReceivePart { .. } => self.take_part(data),
            Stage::Release { error } => self.end(0, error),
            Stage::Over => self.end(0, Some(Cr50Error::Protocol)),
        }
    }

    /// Goes on after an access: what was read, or why it failed.
    pub fn advance(&mut self, access: Result<Vec<u8>, Cr50Error>) -> (r: Ask)
        requires
            old(self)@.wf(),
            access matches Ok(data) ==> data@.len() == old(self)@.pending(),
        ensures
            final(self)@.wf(),
            (final(self)@, r@) == old(self)@.step(access_view(access)),
    {
        match access {
            Ok(data) => self.succeeded(&data),
            Err(e) => match self.stage {
                Stage::Release { error } => self.end(0, error),
                _ => self.fail(0, e),
            },
        }
    }
}

// Laws.

/// Every frame that an exchange asks for can be sent: it fits, and so does
/// its address.
pub proof fn asks_fit_a_frame(exchange: ExchangeView, access: Result<Seq<u8>, Cr50Error>)
    requires
        exchange.wf(),
        access matches Ok(data) ==> data.len() == exchange.pending(),
    ensures
        match exchange.step(access).1 {
            AskView::Read { address, count, .. } => super::frame_fits(address, count as int),
            AskView::Write { address, data, .. } => super::frame_fits(
                address,
                data.len() as int,
            ),
            AskView::Finished { .. } => true,
        },
{
}

/// Once the locality is there, a command does not end before the TPM was
/// made ready again, and what it came to is then reported, whether or not
/// that succeeded.
pub proof fn the_tpm_is_released(exchange: ExchangeView, access: Result<Seq<u8>, Cr50Error>)
    requires
        exchange.wf(),
        access matches Ok(data) ==> data.len() == exchange.pending(),
        exchange.step(access).1 is Finished,
        !exchange.before_command(),
        !(exchange.stage is Over),
    ensures
        exchange.stage matches Stage::Release { error } && exchange.step(access).1
            == (AskView::Finished { delay_us: 0, error }),
{
}

/// A command that ends without an error has a complete response.
pub proof fn a_success_is_complete(exchange: ExchangeView, access: Result<Seq<u8>, Cr50Error>)
    requires
        exchange.wf(),
        access matches Ok(data) ==> data.len() == exchange.pending(),
        exchange.step(access).1 matches AskView::Finished { error, .. } && error is None,
    ensures
        exchange.step(access).0.response == exchange.response,
        TPM_HEADER_SIZE <= exchange.response.len() <= TPM_MAX_RESPONSE_SIZE,
        exchange.response.len() == be32(exchange.response, 2),
{
}

/// The command is written in order: each part begins where the one before
/// ended, and it is started only after its last byte.
pub proof fn a_command_is_sent_in_order(exchange: ExchangeView, access: Result<Seq<u8>, Cr50Error>)
    requires
        exchange.wf(),
        access matches Ok(data) ==> data.len() == exchange.pending(),
    ensures
        exchange.step(access).0.command == exchange.command,
        exchange.step(access).1 matches AskView::Write { address, data, .. } ==> address
            == TPM_DATA_FIFO ==> ({
            let next = exchange.step(access).0;
            &&& data == exchange.command.subrange(next.sent, next.sent + data.len())
            &&& next.stage is SendPart || next.sent + data.len() == exchange.command.len()
        }),
        exchange.step(access).0.sent == exchange.sent + (match (exchange.stage, access) {
            (Stage::SendPart { count }, Ok(_)) => count as int,
            _ => 0,
        }),
{
    let (next, ask) = exchange.step(access);
    if next.stage is SendLast && ask is Write {
        assert(seq![exchange.command[next.sent]] =~= exchange.command.subrange(
            next.sent,
            next.sent + 1,
        ));
    }
}

/// How far an exchange has come: the part of the exchange, the bytes left in
/// it, and the accesses left for the next byte.
pub open spec fn progress(exchange: ExchangeView) -> (int, int, int) {
    let to_send = exchange.command.len() - exchange.sent;
    let to_receive = TPM_MAX_RESPONSE_SIZE - exchange.response.len();
    match exchange.stage {
        Stage::CheckLocality => (15, 0, 0),
        Stage::Poll { goal, left } => match goal {
            Goal::AccessValid => (14, 0, left as int),
            Goal::AccessActive => (12, 0, left as int),
            Goal::CommandReady => (10, 0, left as int),
            Goal::PartTaken => (9, to_send, 1000 + left),
            Goal::AllTaken => (7, 0, left as int),
            Goal::ResponseAvailable => (5, 0, left as int),
            Goal::PartAvailable => (4, to_receive, 1000 + left),
            Goal::ResponseRead => (3, 0, left as int),
        },
        Stage::RequestUse => (13, 0, 0),
        Stage::MakeReady => (11, 0, 0),
        Stage::Burst { sending, left } => if sending {
            (9, to_send, left as int)
        } else {
            (4, to_receive, left as int)
        },
        Stage::SendPart { .. } => (9, to_send, 0),
        Stage::SendLast => (8, 0, 0),
        Stage::Go => (6, 0, 0),
        Stage::ReceivePart { .. } => (4, to_receive, 0),
        Stage::Release { .. } => (2, 0, 0),
        Stage::Over => (1, 0, 0),
    }
}

pub open spec fn further(a: (int, int, int), b: (int, int, int)) -> bool {
    &&& b.0 >= 0 && b.1 >= 0 && b.2 >= 0
    &&& b.0 < a.0 || (b.0 == a.0 && (b.1 < a.1 || (b.1 == a.1 && b.2 < a.2)))
}

/// Every access brings an exchange closer to its end, whatever it brings.
pub proof fn an_exchange_ends(exchange: ExchangeView, access: Result<Seq<u8>, Cr50Error>)
    requires
        exchange.wf(),
        access matches Ok(data) ==> data.len() == exchange.pending(),
        match exchange.stage {
            Stage::Over => false,
            Stage::Burst { left, .. } => left <= TIMEOUT_A_POLLS,
            _ => true,
        },
    ensures
        further(progress(exchange), progress(exchange.step(access).0)),
{
}

} // verus!

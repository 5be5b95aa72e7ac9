//! Messages that arrive while another one is awaited.
//!
//! Sessions share one transport, so an answer may be preceded by messages of
//! other sessions. Those are kept, in order, for the worker.

use std::collections::VecDeque;

use vstd::prelude::*;

use crate::bytes::first_index;
use crate::venus::backend::FATAL_EVENT;
use crate::venus::hfi_abi::{
    fatal_event, is_fatal_event, packet, sys_debug_errors_only, sys_disable_power_collapse,
    sys_init, HFI_CMD_SYS_INIT, HFI_CMD_SYS_SET_PROPERTY, HFI_DEBUG_MODE_QUEUE,
    HFI_DEBUG_MSG_ERRORS_AND_FATAL, HFI_MSG_SYS_INIT, HFI_PROPERTY_SYS_CODEC_POWER_PLANE_CTRL,
    HFI_PROPERTY_SYS_DEBUG_CONFIG, HFI_VIDEO_ARCH_OX,
};
use crate::venus::setup::{
    answers, exchanges, is_answer, push_exchange, send_of, sent, Exchange, ExchangeView, Wanted,
};

verus! {

pub const HFI_RESPONSE_TIMEOUT_US: u64 = 1_000_000;

/// A wait shorter than this is spent spinning.
pub const SPIN_US: u64 = 50;

pub open spec fn views(messages: Seq<Vec<u32>>) -> Seq<Seq<u32>> {
    Seq::new(messages.len(), |i: int| messages[i]@)
}

/// Messages that are kept for later.
#[derive(Debug)]
pub struct Deferred {
    pub messages: VecDeque<Vec<u32>>,
}

impl View for Deferred {
    type V = Seq<Seq<u32>>;

    open spec fn view(&self) -> Seq<Seq<u32>> {
        views(self.messages@)
    }
}

pub open spec fn is_fatal() -> spec_fn(Seq<u32>) -> bool {
    |m: Seq<u32>| fatal_event(m, 0)
}

pub open spec fn is_wanted(wanted: Wanted) -> spec_fn(Seq<u32>) -> bool {
    |m: Seq<u32>| answers(m, wanted)
}

impl Deferred {
    pub fn new() -> (r: Deferred)
        ensures
            r@ == Seq::<Seq<u32>>::empty(),
    {
        let r = Deferred { messages: VecDeque::new() };
        assert(r@ =~= Seq::empty());
        r
    }

    fn remove(&mut self, index: usize) -> (r: Vec<u32>)
        requires
            index < old(self)@.len(),
        ensures
            r@ == old(self)@[index as int],
            final(self)@ == old(self)@.remove(index as int),
    {
        let removed = self.messages.remove(index);
        assert(self@ =~= old(self)@.remove(index as int));
        removed.unwrap()
    }

    /// Looks for an answer among the kept messages. A fatal event of the
    /// firmware comes first: it ends the wait.
    pub fn take(&mut self, wanted: Wanted) -> (r: Result<Option<Vec<u32>>, &'static str>)
        ensures
            match first_index(old(self)@, is_fatal(), 0) {
                Some(i) => {
                    &&& r is Err && r->Err_0 == FATAL_EVENT
                    &&& final(self)@ == old(self)@.remove(i)
                },
                None => match first_index(old(self)@, is_wanted(wanted), 0) {
                    Some(i) => {
                        &&& r is Ok && r->Ok_0 is Some && r->Ok_0->Some_0@ == old(self)@[i]
                        &&& final(self)@ == old(self)@.remove(i)
                    },
                    None => {
                        &&& r is Ok && r->Ok_0 is None
                        &&& final(self)@ == old(self)@
                    },
                },
            },
    {
        let mut i: usize = 0;
        while i < self.messages.len()
            invariant
                i <= self@.len() == self.messages@.len(),
                self@ == old(self)@,
                first_index(self@, is_fatal(), 0) == first_index(self@, is_fatal(), i as int),
            decreases self@.len() - i,
        {
            if is_fatal_event(&self.messages[i], 0) {
                let dropped = self.remove(i);
                return Err(FATAL_EVENT);
            }
            i += 1;
        }
        let mut j: usize = 0;
        while j < self.messages.len()
            invariant
                j <= self@.len() == self.messages@.len(),
                self@ == old(self)@,
                first_index(self@, is_fatal(), 0) is None,
                first_index(self@, is_wanted(wanted), 0) == first_index(
                    self@,
                    is_wanted(wanted),
                    j as int,
                ),
            decreases self@.len() - j,
        {
            if is_answer(&self.messages[j], wanted) {
                return Ok(Some(self.remove(j)));
            }
            j += 1;
        }
        Ok(None)
    }

    /// Takes a message that just arrived: the answer, a fatal event, or one
    /// to keep.
    pub fn sort(&mut self, message: Vec<u32>, wanted: Wanted) -> (r: Result<
        Option<Vec<u32>>,
        &'static str,
    >)
        ensures
            if fatal_event(message@, 0) {
                &&& r is Err && r->Err_0 == FATAL_EVENT
                &&& final(self)@ == old(self)@
            } else if answers(message@, wanted) {
                &&& r is Ok && r->Ok_0 is Some && r->Ok_0->Some_0@ == message@
                &&& final(self)@ == old(self)@
            } else {
                &&& r is Ok && r->Ok_0 is None
                &&& final(self)@ == old(self)@.push(message@)
            },
    {
        if is_fatal_event(&message, 0) {
            return Err(FATAL_EVENT);
        }
        if is_answer(&message, wanted) {
            return Ok(Some(message));
        }
        let ghost words = message@;
        self.messages.push_back(message);
        assert(self@ =~= old(self)@.push(words));
        Ok(None)
    }

    /// The first kept message. The worker empties this list before it reads
    /// the queue, so that completions stay in order.
    pub fn next(&mut self) -> (r: Option<Vec<u32>>)
        ensures
            match r {
                None => old(self)@.len() == 0 && final(self)@ == old(self)@,
                Some(message) => {
                    &&& old(self)@.len() > 0
                    &&& message@ == old(self)@[0]
                    &&& final(self)@ == old(self)@.drop_first()
                },
            },
    {
        let first = self.messages.pop_front();
        if first.is_some() {
            assert(self@ =~= old(self)@.drop_first());
        }
        first
    }
}

/// Whether a wait that began at `start` is over.
pub fn check_deadline(start: u64, now: u64, timeout_us: u64) -> (r: Result<(), &'static str>)
    ensures
        r == (if timeout_us == 0 || now - start >= timeout_us {
            Err::<(), &'static str>("qcom-venus-sc7180: timed out waiting for HFI response")
        } else {
            Ok(())
        }),
{
    if now.saturating_sub(start) >= timeout_us {
        return Err("qcom-venus-sc7180: timed out waiting for HFI response");
    }
    Ok(())
}

/// How to wait for a message: a first moment, and any wait that must not
/// depend on the scheduler, is spent spinning.
pub fn may_sleep(start: u64, now: u64, allow_sleep: bool, has_task: bool) -> (r: bool)
    ensures
        r == (allow_sleep && has_task && now - start >= SPIN_US),
{
    allow_sleep && has_task && now.saturating_sub(start) >= SPIN_US
}

/// The exchanges that follow the start of the firmware.
pub open spec fn boot_exchanges() -> Seq<ExchangeView> {
    seq![
        ExchangeView {
            packet: packet(seq![HFI_CMD_SYS_INIT, HFI_VIDEO_ARCH_OX]),
            wanted: Wanted::Message { response_type: HFI_MSG_SYS_INIT },
        },
        sent(
            packet(
                seq![
                    HFI_CMD_SYS_SET_PROPERTY,
                    1u32,
                    HFI_PROPERTY_SYS_DEBUG_CONFIG,
                    HFI_DEBUG_MSG_ERRORS_AND_FATAL,
                    HFI_DEBUG_MODE_QUEUE,
                ],
            ),
        ),
        sent(
            packet(
                seq![
                    HFI_CMD_SYS_SET_PROPERTY,
                    1u32,
                    HFI_PROPERTY_SYS_CODEC_POWER_PLANE_CTRL,
                    0u32,
                ],
            ),
        ),
    ]
}

/// Initializes the firmware, limits its log to errors, and keeps it from
/// collapsing its power: clocks and context banks must stay valid.
pub fn boot() -> (r: VecDeque<Exchange>)
    ensures
        exchanges(r@) == boot_exchanges(),
{
    let mut batch: VecDeque<Exchange> = VecDeque::new();
    push_exchange(
        &mut batch,
        Exchange {
            packet: sys_init(),
            wanted: Wanted::Message { response_type: HFI_MSG_SYS_INIT },
        },
    );
    push_exchange(&mut batch, send_of(sys_debug_errors_only()));
    push_exchange(&mut batch, send_of(sys_disable_power_collapse()));
    assert(exchanges(batch@) =~= boot_exchanges());
    batch
}

} // verus!

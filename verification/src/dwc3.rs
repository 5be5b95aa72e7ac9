//! SC7180 glue for the Synopsys DWC3 USB host controller.
//!
//! The clock and reset wrapper and the core inside it are probed one after the
//! other, and the core is fixed in host mode. Which step comes next is decided
//! here and in [`init`], the steps are taken elsewhere.

pub mod init;
pub mod laws;

use vstd::prelude::*;

use crate::bytes::{first_index, first_index_is_first};
use crate::cros_ec_spi::{as_u32, read_u32_property};
use crate::platform::{resource_size, span};

verus! {

pub const WRAPPER_CLOCK_COUNT: usize = 5;

pub const WRAPPER_RESET_DELAY_US: u64 = 10;

pub const QSCRATCH_REGISTER_WINDOW_SIZE: usize = 0x400;

pub const DWC3_REGISTER_WINDOW_SIZE: usize = 0xe000;

pub const SC7180_USB_SID: u32 = 0x540;

pub const SC7180_DWC3_SPI: usize = 133;

/// The addresses that the controller can reach, page zero left out.
pub const XHCI_IOVA_BASE: u64 = 0x1000;

pub const XHCI_IOVA_SIZE: u64 = 0xffff_f000;

/// The wrapper's clocks in the order in which they are taken.
pub open spec fn wrapper_clock(index: int) -> &'static str {
    if index == 0 {
        "cfg_noc"
    } else if index == 1 {
        "core"
    } else if index == 2 {
        "iface"
    } else if index == 3 {
        "sleep"
    } else {
        "mock_utmi"
    }
}

pub fn wrapper_clock_name(index: usize) -> (r: &'static str)
    requires
        index < WRAPPER_CLOCK_COUNT,
    ensures
        r == wrapper_clock(index as int),
{
    match index {
        0 => "cfg_noc",
        1 => "core",
        2 => "iface",
        3 => "sleep",
        _ => "mock_utmi",
    }
}

// The wrapper.

/// The handle of a wrapper; zero is none.
pub open spec fn nonzero_handle(phandle: Option<usize>) -> Result<u32, &'static str> {
    match as_u32(phandle) {
        Some(handle) => if handle != 0 {
            Ok(handle)
        } else {
            Err("qcom-dwc3: wrapper has no phandle")
        },
        None => Err("qcom-dwc3: wrapper has no phandle"),
    }
}

pub fn device_phandle(phandle: Option<usize>) -> (r: Result<u32, &'static str>)
    ensures
        r == nonzero_handle(phandle),
{
    match read_u32_property(phandle) {
        Some(handle) => {
            if handle != 0 {
                Ok(handle)
            } else {
                Err("qcom-dwc3: wrapper has no phandle")
            }
        },
        None => Err("qcom-dwc3: wrapper has no phandle"),
    }
}

/// The size of a register window, with what to say of one that does not do.
pub open spec fn window_size(
    resource: Option<(usize, usize)>,
    required: usize,
    missing: &'static str,
    invalid: &'static str,
    small: &'static str,
) -> Result<usize, &'static str> {
    match resource {
        None => Err(missing),
        Some((start, end)) => match span(start, end) {
            None => Err(invalid),
            Some(size) => if size < required {
                Err(small)
            } else {
                Ok(size as usize)
            },
        },
    }
}

fn check_window(
    resource: Option<(usize, usize)>,
    required: usize,
    missing: &'static str,
    invalid: &'static str,
    small: &'static str,
) -> (r: Result<usize, &'static str>)
    ensures
        r == window_size(resource, required, missing, invalid, small),
{
    match resource {
        None => Err(missing),
        Some((start, end)) => match resource_size(start, end) {
            None => Err(invalid),
            Some(size) => {
                if size < required {
                    return Err(small);
                }
                Ok(size)
            },
        },
    }
}

pub open spec fn qscratch_size(resource: Option<(usize, usize)>) -> Result<usize, &'static str> {
    window_size(
        resource,
        QSCRATCH_REGISTER_WINDOW_SIZE,
        "qcom-dwc3: missing QSCRATCH memory resource",
        "qcom-dwc3: invalid QSCRATCH memory resource",
        "qcom-dwc3: QSCRATCH memory resource is smaller than 0x400 bytes",
    )
}

pub open spec fn core_size(resource: Option<(usize, usize)>) -> Result<usize, &'static str> {
    window_size(
        resource,
        DWC3_REGISTER_WINDOW_SIZE,
        "qcom-dwc3: missing DWC3 memory resource",
        "qcom-dwc3: invalid DWC3 memory resource",
        "qcom-dwc3: DWC3 register resource is smaller than 0xe000 bytes",
    )
}

/// What probing the wrapper has taken and must give back: clocks are disabled
/// in reverse, then the reset is asserted.
#[derive(Clone, Copy, Debug, Eq, PartialEq, Structural)]
pub struct Taken {
    pub clocks: usize,
    pub out_of_reset: bool,
}

/// Which step was taken last.
#[derive(Clone, Copy, Debug, Eq, PartialEq, Structural)]
pub enum WrapperStage {
    PowerDomain,
    ResolveReset,
    AssertReset,
    DeassertReset,
    ResolveClock { index: usize },
    EnableClock { index: usize },
    MapQscratch,
    Over,
}

/// What to do next.
#[derive(Clone, Copy, Debug)]
pub enum WrapperAction {
    EnablePowerDomain,
    ResolveReset,
    AssertReset,
    /// Wait, then take the wrapper out of reset.
    DeassertReset { delay_us: u64 },
    ResolveClock { name: &'static str },
    EnableClock { index: usize },
    MapQscratch { size: usize },
    /// Give back what was taken and fail; without an error, with that of the
    /// failed step.
    Abandon { taken: Taken, error: Option<&'static str> },
    /// Give back what was taken and try again later.
    Defer { taken: Taken },
    Finished { phandle: u32 },
}

/// How a step went.
#[derive(Clone, Copy, Debug, Eq, PartialEq, Structural)]
pub enum Outcome {
    Done,
    /// It must be tried again later.
    Deferred,
    Failed,
}

/// A probe of the wrapper on its way.
#[derive(Clone, Copy, Debug)]
pub struct WrapperProbe {
    pub phandle: Option<usize>,
    pub resource: Option<(usize, usize)>,
    pub stage: WrapperStage,
}

pub open spec fn nothing() -> Taken {
    Taken { clocks: 0, out_of_reset: false }
}

/// What is held when a step of a stage has failed.
pub open spec fn taken_before(stage: WrapperStage) -> Taken {
    match stage {
        WrapperStage::ResolveClock { index } => Taken { clocks: index, out_of_reset: true },
        WrapperStage::EnableClock { index } => Taken { clocks: index, out_of_reset: true },
        WrapperStage::MapQscratch => Taken { clocks: WRAPPER_CLOCK_COUNT, out_of_reset: true },
        _ => nothing(),
    }
}

/// What is held once a step of a stage has succeeded.
pub open spec fn taken_after(stage: WrapperStage) -> Taken {
    match stage {
        WrapperStage::DeassertReset => Taken { clocks: 0, out_of_reset: true },
        WrapperStage::EnableClock { index } => Taken {
            clocks: (index + 1) as usize,
            out_of_reset: true,
        },
        _ => taken_before(stage),
    }
}

impl WrapperProbe {
    pub open spec fn wf(self) -> bool {
        match self.stage {
            WrapperStage::ResolveClock { index } => index < WRAPPER_CLOCK_COUNT,
            WrapperStage::EnableClock { index } => index < WRAPPER_CLOCK_COUNT,
            _ => true,
        }
    }

    pub open spec fn at(self, stage: WrapperStage, action: WrapperAction) -> (
        WrapperProbe,
        WrapperAction,
    ) {
        (WrapperProbe { stage, ..self }, action)
    }

    pub open spec fn abandon(self, taken: Taken, error: Option<&'static str>) -> (
        WrapperProbe,
        WrapperAction,
    ) {
        self.at(WrapperStage::Over, WrapperAction::Abandon { taken, error })
    }

    pub open spec fn failure(self, outcome: Outcome) -> (WrapperProbe, WrapperAction) {
        let taken = taken_before(self.stage);
        match self.stage {
            WrapperStage::PowerDomain => self.abandon(taken, None),
            WrapperStage::ResolveReset => if outcome == Outcome::Deferred {
                self.at(WrapperStage::Over, WrapperAction::Defer { taken })
            } else {
                self.abandon(taken, Some("qcom-dwc3: failed to resolve wrapper reset"))
            },
            WrapperStage::AssertReset => self.abandon(
                taken,
                Some("qcom-dwc3: failed to assert wrapper reset"),
            ),
            WrapperStage::DeassertReset => self.abandon(
                taken,
                Some("qcom-dwc3: failed to deassert wrapper reset"),
            ),
            WrapperStage::ResolveClock { .. } => if outcome == Outcome::Deferred {
                self.at(WrapperStage::Over, WrapperAction::Defer { taken })
            } else {
                self.abandon(taken, Some("qcom-dwc3: failed to resolve wrapper clock"))
            },
            WrapperStage::EnableClock { .. } => self.abandon(
                taken,
                Some("qcom-dwc3: failed to enable wrapper clock"),
            ),
            WrapperStage::MapQscratch => self.abandon(
                taken,
                Some("qcom-dwc3: failed to map QSCRATCH MMIO"),
            ),
            WrapperStage::Over => self.abandon(taken, None),
        }
    }

    pub open spec fn success(self) -> (WrapperProbe, WrapperAction) {
        let taken = taken_after(self.stage);
        match self.stage {
            WrapperStage::PowerDomain => match nonzero_handle(self.phandle) {
                Err(e) => self.abandon(taken, Some(e)),
                Ok(_) => self.at(WrapperStage::ResolveReset, WrapperAction::ResolveReset),
            },
            WrapperStage::ResolveReset => self.at(
                WrapperStage::AssertReset,
                WrapperAction::AssertReset,
            ),
            WrapperStage::AssertReset => self.at(
                WrapperStage::DeassertReset,
                WrapperAction::DeassertReset { delay_us: WRAPPER_RESET_DELAY_US },
            ),
            WrapperStage::DeassertReset => self.at(
                WrapperStage::ResolveClock { index: 0 },
                WrapperAction::ResolveClock { name: wrapper_clock(0) },
            ),
            WrapperStage::ResolveClock { index } => self.at(
                WrapperStage::EnableClock { index },
                WrapperAction::EnableClock { index },
            ),
            WrapperStage::EnableClock { index } => if index + 1 < WRAPPER_CLOCK_COUNT {
                self.at(
                    WrapperStage::ResolveClock { index: (index + 1) as usize },
                    WrapperAction::ResolveClock { name: wrapper_clock(index + 1) },
                )
            } else {
                match qscratch_size(self.resource) {
                    Err(e) => self.abandon(taken, Some(e)),
                    Ok(size) => self.at(
                        WrapperStage::MapQscratch,
                        WrapperAction::MapQscratch { size },
                    ),
                }
            },
            WrapperStage::MapQscratch => self.at(
                WrapperStage::Over,
                WrapperAction::Finished {
                    phandle: match nonzero_handle(self.phandle) {
                        Ok(handle) => handle,
                        Err(_) => 0,
                    },
                },
            ),
            WrapperStage::Over => self.abandon(taken, None),
        }
    }

    pub open spec fn step(self, outcome: Outcome) -> (WrapperProbe, WrapperAction) {
        if outcome == Outcome::Done {
            self.success()
        } else {
            self.failure(outcome)
        }
    }

    /// Starts to probe a wrapper with a handle and a register window.
    pub fn begin(phandle: Option<usize>, resource: Option<(usize, usize)>) -> (r: (
        WrapperProbe,
        WrapperAction,
    ))
        ensures
            r.0 == (WrapperProbe { phandle, resource, stage: WrapperStage::PowerDomain }),
            r.0.wf(),
            r.1 == WrapperAction::EnablePowerDomain,
    {
        (
            WrapperProbe { phandle, resource, stage: WrapperStage::PowerDomain },
            WrapperAction::EnablePowerDomain,
        )
    }

    fn go(&mut self, stage: WrapperStage, action: WrapperAction) -> (r: WrapperAction)
        requires
            old(self).at(stage, action).0.wf(),
        ensures
            final(self).wf(),
            (*final(self), r) == old(self).at(stage, action),
    {
        self.stage = stage;
        action
    }

    fn give_up(&mut self, taken: Taken, error: Option<&'static str>) -> (r: WrapperAction)
        ensures
            final(self).wf(),
            (*final(self), r) == old(self).abandon(taken, error),
    {
        self.stage = WrapperStage::Over;
        WrapperAction::Abandon { taken, error }
    }

    /// Goes on after a step.
    pub fn advance(&mut self, outcome: Outcome) -> (r: WrapperAction)
        requires
            old(self).wf(),
        ensures
            final(self).wf(),
            (*final(self), r) == old(self).step(outcome),
    {
        let done = match outcome {
            Outcome::Done => true,
            _ => false,
        };
        let deferred = match outcome {
            Outcome::Deferred => true,
            _ => false,
        };
        let none = Taken { clocks: 0, out_of_reset: false };
        match self.stage {
            WrapperStage::PowerDomain => {
                if !done {
                    return self.give_up(none, None);
                }
                match device_phandle(self.phandle) {
                    Err(e) => self.give_up(none, Some(e)),
                    Ok(_) => self.go(WrapperStage::ResolveReset, WrapperAction::ResolveReset),
                }
            },
            WrapperStage::ResolveReset => {
                if deferred {
                    return self.go(WrapperStage::Over, WrapperAction::Defer { taken: none });
                }
                if !done {
                    return self.give_up(none, Some("qcom-dwc3: failed to resolve wrapper reset"));
                }
                self.go(WrapperStage::AssertReset, WrapperAction::AssertReset)
            },
            WrapperStage::AssertReset => {
                if !done {
                    return self.give_up(none, Some("qcom-dwc3: failed to assert wrapper reset"));
                }
                self.go(
                    WrapperStage::DeassertReset,
                    WrapperAction::DeassertReset { delay_us: WRAPPER_RESET_DELAY_US },
                )
            },
            WrapperStage::DeassertReset => {
                if !done {
                    return self.give_up(none, Some("qcom-dwc3: failed to deassert wrapper reset"));
                }
                self.go(
                    WrapperStage::ResolveClock { index: 0 },
                    WrapperAction::ResolveClock { name: wrapper_clock_name(0) },
                )
            },
            WrapperStage::ResolveClock { index } => {
                let taken = Taken { clocks: index, out_of_reset: true };
                if deferred {
                    return self.go(WrapperStage::Over, WrapperAction::Defer { taken });
                }
                if !done {
                    return self.give_up(taken, Some("qcom-dwc3: failed to resolve wrapper clock"));
                }
                self.go(WrapperStage::EnableClock { index }, WrapperAction::EnableClock { index })
            },
            WrapperStage::EnableClock { index } => {
                if !done {
                    return self.give_up(
                        Taken { clocks: index, out_of_reset: true },
                        Some("qcom-dwc3: failed to enable wrapper clock"),
                    );
                }
                if index + 1 < WRAPPER_CLOCK_COUNT {
                    return self.go(
                        WrapperStage::ResolveClock { index: index + 1 },
                        WrapperAction::ResolveClock { name: wrapper_clock_name(index + 1) },
                    );
                }
                match check_window(
                    self.resource,
                    QSCRATCH_REGISTER_WINDOW_SIZE,
                    "qcom-dwc3: missing QSCRATCH memory resource",
                    "qcom-dwc3: invalid QSCRATCH memory resource",
                    "qcom-dwc3: QSCRATCH memory resource is smaller than 0x400 bytes",
                ) {
                    Err(e) => self.give_up(
                        Taken { clocks: index + 1, out_of_reset: true },
                        Some(e),
                    ),
                    Ok(size) => self.go(
                        WrapperStage::MapQscratch,
                        WrapperAction::MapQscratch { size },
                    ),
                }
            },
            WrapperStage::MapQscratch => {
                if !done {
                    return self.give_up(
                        Taken { clocks: WRAPPER_CLOCK_COUNT, out_of_reset: true },
                        Some("qcom-dwc3: failed to map QSCRATCH MMIO"),
                    );
                }
                let phandle: u32 = match device_phandle(self.phandle) {
                    Ok(handle) => handle,
                    Err(_) => 0,
                };
                self.go(WrapperStage::Over, WrapperAction::Finished { phandle })
            },
            WrapperStage::Over => self.give_up(none, None),
        }
    }
}

// Probed wrappers.

#[derive(Clone, Copy, Debug, Eq, PartialEq, Structural)]
pub struct QcomDwc3Wrapper {
    pub phandle: u32,
    pub qscratch_base: usize,
    /// The clock selection before it was changed.
    pub original_general_cfg: Option<u32>,
}

pub open spec fn has_phandle(phandle: u32) -> spec_fn(QcomDwc3Wrapper) -> bool {
    |wrapper: QcomDwc3Wrapper| wrapper.phandle == phandle
}

pub open spec fn is_wrapper(phandle: u32, base: usize) -> spec_fn(QcomDwc3Wrapper) -> bool {
    |wrapper: QcomDwc3Wrapper| wrapper.phandle == phandle && wrapper.qscratch_base == base
}

/// The register window of a wrapper.
pub open spec fn base_of(wrappers: Seq<QcomDwc3Wrapper>, phandle: u32) -> Result<
    usize,
    &'static str,
> {
    match first_index(wrappers, has_phandle(phandle), 0) {
        Some(at) => Ok(wrappers[at].qscratch_base),
        None => Err("qcom-dwc3: active wrapper QSCRATCH mapping is unavailable"),
    }
}

pub fn wrapper_qscratch_base(wrappers: &Vec<QcomDwc3Wrapper>, phandle: u32) -> (r: Result<
    usize,
    &'static str,
>)
    ensures
        r == base_of(wrappers@, phandle),
{
    let length: usize = wrappers.len();
    let mut i: usize = 0;
    while i < length
        invariant
            i <= length,
            length == wrappers@.len(),
            first_index(wrappers@, has_phandle(phandle), 0) == first_index(
                wrappers@,
                has_phandle(phandle),
                i as int,
            ),
        decreases length - i,
    {
        if wrappers[i].phandle == phandle {
            return Ok(wrappers[i].qscratch_base);
        }
        i += 1;
    }
    Err("qcom-dwc3: active wrapper QSCRATCH mapping is unavailable")
}

/// The wrapper keeps the first value that it was shown.
pub open spec fn keeping(wrapper: QcomDwc3Wrapper, current: u32) -> QcomDwc3Wrapper {
    QcomDwc3Wrapper {
        original_general_cfg: match wrapper.original_general_cfg {
            Some(original) => Some(original),
            None => Some(current),
        },
        ..wrapper
    }
}

/// Keeps the clock selection of a wrapper before it is changed.
pub fn preserve_qscratch_general_cfg(
    wrappers: &mut Vec<QcomDwc3Wrapper>,
    phandle: u32,
    qscratch_base: usize,
    current: u32,
) -> (r: Result<(), &'static str>)
    ensures
        match first_index(old(wrappers)@, is_wrapper(phandle, qscratch_base), 0) {
            Some(at) => r is Ok && final(wrappers)@ == old(wrappers)@.update(
                at,
                keeping(old(wrappers)@[at], current),
            ),
            None => r == Err::<(), &'static str>(
                "qcom-dwc3: active wrapper QSCRATCH state is unavailable",
            ) && final(wrappers)@ == old(wrappers)@,
        },
{
    let ghost start = wrappers@;
    let ghost wanted = is_wrapper(phandle, qscratch_base);
    let length: usize = wrappers.len();
    let mut i: usize = 0;
    while i < length
        invariant
            i <= length,
            length == wrappers@.len(),
            wrappers@ == start,
            start == old(wrappers)@,
            wanted == is_wrapper(phandle, qscratch_base),
            first_index(start, wanted, 0) == first_index(start, wanted, i as int),
        decreases length - i,
    {
        let wrapper = wrappers[i];
        if wrapper.phandle == phandle && wrapper.qscratch_base == qscratch_base {
            let kept = match wrapper.original_general_cfg {
                Some(original) => Some(original),
                None => Some(current),
            };
            wrappers.set(
                i,
                QcomDwc3Wrapper {
                    phandle: wrapper.phandle,
                    qscratch_base: wrapper.qscratch_base,
                    original_general_cfg: kept,
                },
            );
            return Ok(());
        }
        i += 1;
    }
    Err("qcom-dwc3: active wrapper QSCRATCH state is unavailable")
}

impl QcomDwc3Wrapper {
    /// The clock selection to restore when the wrapper goes away. It feeds
    /// the live core, so it is restored only under reset.
    pub fn restore_value(&self, reset_asserted: bool) -> (r: Option<u32>)
        ensures
            r == (if reset_asserted {
                self.original_general_cfg
            } else {
                None
            }),
    {
        if reset_asserted {
            self.original_general_cfg
        } else {
            None
        }
    }
}

// The core.

/// Why the core cannot be probed.
#[derive(Clone, Copy, Debug)]
pub enum CoreError {
    Failed(&'static str),
    /// The wrapper is not there yet.
    Deferred,
}

pub open spec fn is_host_mode(mode: Option<Seq<char>>) -> bool {
    mode is None || mode->0 == "host"@
}

/// The core works in host mode only.
pub fn require_host_mode(dr_mode: Option<&str>) -> (r: Result<(), &'static str>)
    ensures
        r == (if is_host_mode(
            match dr_mode {
                Some(mode) => Some(mode@),
                None => None,
            },
        ) {
            Ok::<(), &'static str>(())
        } else {
            Err("qcom-dwc3: controller is fixed in host mode")
        }),
{
    match dr_mode {
        None => Ok(()),
        Some(mode) => {
            if crate::bytes::same_text(mode, "host") {
                Ok(())
            } else {
                Err("qcom-dwc3: controller is fixed in host mode")
            }
        },
    }
}

/// The windows of a core that can be probed: that of its wrapper, and the
/// size of its own. `wrapper` is the active wrapper, zero for none.
pub open spec fn core_windows(
    wrapper: u32,
    parent: Option<u32>,
    wrappers: Seq<QcomDwc3Wrapper>,
    mode: Option<Seq<char>>,
    resource: Option<(usize, usize)>,
) -> Result<(usize, usize), CoreError> {
    if wrapper == 0 {
        Err(CoreError::Deferred)
    } else if parent != Some(wrapper) {
        Err(
            CoreError::Failed(
                "qcom-dwc3: DWC3 core is not a child of the active SC7180 wrapper",
            ),
        )
    } else {
        match base_of(wrappers, wrapper) {
            Err(e) => Err(CoreError::Failed(e)),
            Ok(base) => if !is_host_mode(mode) {
                Err(CoreError::Failed("qcom-dwc3: controller is fixed in host mode"))
            } else {
                match core_size(resource) {
                    Err(e) => Err(CoreError::Failed(e)),
                    Ok(size) => Ok((base, size)),
                }
            },
        }
    }
}

pub fn check_core(
    wrapper: u32,
    parent: Option<u32>,
    wrappers: &Vec<QcomDwc3Wrapper>,
    dr_mode: Option<&str>,
    resource: Option<(usize, usize)>,
) -> (r: Result<(usize, usize), CoreError>)
    ensures
        r == core_windows(
            wrapper,
            parent,
            wrappers@,
            match dr_mode {
                Some(mode) => Some(mode@),
                None => None,
            },
            resource,
        ),
{
    if wrapper == 0 {
        return Err(CoreError::Deferred);
    }
    let is_child = match parent {
        Some(parent) => parent == wrapper,
        None => false,
    };
    if !is_child {
        return Err(
            CoreError::Failed(
                "qcom-dwc3: DWC3 core is not a child of the active SC7180 wrapper",
            ),
        );
    }
    let base: usize = match wrapper_qscratch_base(wrappers, wrapper) {
        Ok(base) => base,
        Err(e) => {
            return Err(CoreError::Failed(e));
        },
    };
    if let Err(e) = require_host_mode(dr_mode) {
        return Err(CoreError::Failed(e));
    }
    match check_window(
        resource,
        DWC3_REGISTER_WINDOW_SIZE,
        "qcom-dwc3: missing DWC3 memory resource",
        "qcom-dwc3: invalid DWC3 memory resource",
        "qcom-dwc3: DWC3 register resource is smaller than 0xe000 bytes",
    ) {
        Ok(size) => Ok((base, size)),
        Err(e) => Err(CoreError::Failed(e)),
    }
}

pub open spec fn is_core_interrupt() -> spec_fn(usize) -> bool {
    |number: usize| number == SC7180_DWC3_SPI
}

/// The interrupt resource of the core, by its number.
pub fn core_interrupt(numbers: &Vec<usize>) -> (r: Result<usize, &'static str>)
    ensures
        r == (match first_index(numbers@, is_core_interrupt(), 0) {
            Some(at) => Ok::<usize, &'static str>(at as usize),
            None => Err("qcom-dwc3: missing DWC3 SPI 133"),
        }),
{
    let length: usize = numbers.len();
    let mut i: usize = 0;
    while i < length
        invariant
            i <= length,
            length == numbers@.len(),
            first_index(numbers@, is_core_interrupt(), 0) == first_index(
                numbers@,
                is_core_interrupt(),
                i as int,
            ),
        decreases length - i,
    {
        if numbers[i] == SC7180_DWC3_SPI {
            return Ok(i);
        }
        i += 1;
    }
    Err("qcom-dwc3: missing DWC3 SPI 133")
}

// Laws.

/// A wrapper probe that does not succeed gives back exactly what it took.
pub proof fn wrapper_failures_give_back_what_was_taken(probe: WrapperProbe, outcome: Outcome)
    requires
        probe.wf(),
        probe.stage != WrapperStage::Over,
    ensures
        ({
            let held = if outcome == Outcome::Done {
                taken_after(probe.stage)
            } else {
                taken_before(probe.stage)
            };
            match probe.step(outcome).1 {
                WrapperAction::Abandon { taken, .. } => taken == held,
                WrapperAction::Defer { taken } => taken == held,
                _ => true,
            }
        }),
{
}

/// What one step took is what the next one starts with.
pub proof fn wrapper_holdings_carry_over(probe: WrapperProbe)
    requires
        probe.wf(),
    ensures
        probe.success().0.stage != WrapperStage::Over ==> taken_before(probe.success().0.stage)
            == taken_after(probe.stage),
{
}

/// The first clock selection is kept, however often it is preserved.
pub proof fn the_first_selection_is_kept(wrapper: QcomDwc3Wrapper, first: u32, later: u32)
    ensures
        keeping(keeping(wrapper, first), later) == keeping(wrapper, first),
{
}

/// A window that is found belongs to a wrapper of the handle.
pub proof fn a_found_window_belongs_to_the_wrapper(wrappers: Seq<QcomDwc3Wrapper>, phandle: u32)
    ensures
        base_of(wrappers, phandle) matches Ok(base) ==> exists|i: int|
            #![trigger wrappers[i]]
            0 <= i < wrappers.len() && wrappers[i].phandle == phandle && wrappers[i].qscratch_base
                == base,
{
    first_index_is_first(wrappers, has_phandle(phandle), 0);
}

/// Keeps the driver linked into builds that load it by name.
pub fn force_link() {
}

} // verus!

//! Bringing the DWC3 core up as a USB host.
//!
//! Both PHY interfaces stay in reset until the PHYs are powered. Where the
//! SuperSpeed PHY does not come up in time, the core runs at high speed only:
//! the wrapper then feeds the pipe from the USB2 clock, which is switched
//! while the core is still in reset.

use vstd::prelude::*;

use crate::mmio::{has_bit, is_set, put, written, RegOp};
use crate::phy::PhyError;

verus! {

pub const DWC3_GCTL: usize = 0xc110;

pub const DWC3_GUCTL1: usize = 0xc11c;

pub const DWC3_GUSB2PHYCFG: usize = 0xc200;

pub const DWC3_GUSB3PIPECTL: usize = 0xc2c0;

pub const DWC3_GEVNTADRLO: usize = 0xc400;

pub const DWC3_GEVNTADRHI: usize = 0xc404;

pub const DWC3_GEVNTSIZ: usize = 0xc408;

pub const DWC3_GEVNTCOUNT: usize = 0xc40c;

pub const QSCRATCH_GENERAL_CFG: usize = 0x08;

pub const PIPE_UTMI_CLK_SEL: u32 = 0x1;

pub const PIPE3_PHYSTATUS_SW: u32 = 0x8;

pub const PIPE_UTMI_CLK_DIS: u32 = 0x100;

pub const PIPE_UTMI_SWITCH_DELAY_US: u64 = 100;

pub const GUSB2PHYCFG_SUSPHY: u32 = 0x40;

pub const GUSB2PHYCFG_ENBLSLPM: u32 = 0x100;

pub const GUSB2PHYCFG_PHYSOFTRST: u32 = 0x8000_0000;

pub const GUSB3PIPECTL_SUSPHY: u32 = 0x2_0000;

pub const GUSB3PIPECTL_PHYSOFTRST: u32 = 0x8000_0000;

pub const GUCTL1_DEV_FORCE_20_CLK_FOR_30_CLK: u32 = 0x400_0000;

pub const GUCTL1_PARKMODE_DISABLE_SS: u32 = 0x2_0000;

pub const GCTL_CORESOFTRESET: u32 = 0x800;

/// The port capability and scale-down fields.
pub const GCTL_HOST_FIELDS: u32 = 0x3030;

pub const GCTL_PRTCAP_HOST: u32 = 0x1000;

pub const GEVNTSIZ_INTMASK: u32 = 0x8000_0000;

pub open spec fn phy_error_text(error: PhyError) -> &'static str {
    match error {
        PhyError::NotFound => "qcom-dwc3: PHY not found",
        PhyError::NotSupported => "qcom-dwc3: PHY operation not supported",
        PhyError::InvalidMode => "qcom-dwc3: invalid PHY mode",
        PhyError::PowerOnFailed => "qcom-dwc3: PHY power on failed",
        PhyError::PowerOffFailed => "qcom-dwc3: PHY power off failed",
        PhyError::ResetFailed => "qcom-dwc3: PHY reset failed",
        PhyError::Busy => "qcom-dwc3: PHY busy",
        PhyError::Timeout => "qcom-dwc3: PHY timeout",
        PhyError::HardwareError => "qcom-dwc3: PHY hardware error",
    }
}

pub fn phy_error_to_str(error: PhyError) -> (r: &'static str)
    ensures
        r == phy_error_text(error),
{
    match error {
        PhyError::NotFound => "qcom-dwc3: PHY not found",
        PhyError::NotSupported => "qcom-dwc3: PHY operation not supported",
        PhyError::InvalidMode => "qcom-dwc3: invalid PHY mode",
        PhyError::PowerOnFailed => "qcom-dwc3: PHY power on failed",
        PhyError::PowerOffFailed => "qcom-dwc3: PHY power off failed",
        PhyError::ResetFailed => "qcom-dwc3: PHY reset failed",
        PhyError::Busy => "qcom-dwc3: PHY busy",
        PhyError::Timeout => "qcom-dwc3: PHY timeout",
        PhyError::HardwareError => "qcom-dwc3: PHY hardware error",
    }
}

/// Which register window an access goes to.
#[derive(Clone, Copy, Debug, Eq, PartialEq, Structural)]
pub enum Target {
    Core,
    Qscratch,
}

#[derive(Clone, Copy, Debug, Eq, PartialEq, Structural)]
pub enum Phy {
    Usb2,
    Usb3,
}

/// PHYs to power off, the SuperSpeed one first.
#[derive(Clone, Copy, Debug, Eq, PartialEq, Structural)]
pub struct PowerOff {
    pub usb3: bool,
    pub usb2: bool,
}

/// What to do after the registers were written.
#[derive(Clone, Copy, Debug)]
pub enum Ask {
    /// Start a soft reset of the core.
    SoftReset,
    PowerOn { phy: Phy },
    PowerOff { phy: Phy },
    /// Keep the wrapper's clock selection.
    Preserve,
    Read { target: Target, offset: usize },
    /// Wait until the core is out of reset.
    WaitForReset,
    /// Power PHYs off and fail; without an error, with that of the failed
    /// step.
    Fail { off: PowerOff, error: Option<&'static str> },
    Finished,
}

/// How a step went.
#[derive(Clone, Copy, Debug, Eq, PartialEq, Structural)]
pub enum Event {
    /// It succeeded; what was read.
    Done { value: u32 },
    PhyFailed { error: PhyError },
    Failed,
}

/// Device-tree properties of the core.
#[derive(Clone, Copy, Debug, Eq, PartialEq, Structural)]
pub struct Quirks {
    pub dis_u2_susphy: bool,
    pub dis_enblslpm: bool,
    pub parkmode_disable_ss: bool,
}

/// Which step was taken last.
#[derive(Clone, Copy, Debug, Eq, PartialEq, Structural)]
pub enum Stage {
    SoftReset,
    PowerUsb2,
    PowerUsb3,
    ReleaseUsb3,
    Preserve,
    PipeGated,
    PipeSelected,
    PipeEnabled,
    VerifyUsb2,
    VerifyPipe { usb2: u32 },
    WaitReset,
    ClockSelected,
    HostMode,
    PipeSuspended,
    Over,
}

#[derive(Clone, Copy, Debug, Eq, PartialEq, Structural)]
pub struct CoreInit {
    pub quirks: Quirks,
    /// The SuperSpeed PHY did not come up.
    pub high_speed_only: bool,
    pub stage: Stage,
}

pub open spec fn core_update(offset: usize, clear: u32, set: u32) -> (Target, RegOp) {
    (Target::Core, RegOp::Update { offset, clear, set })
}

pub open spec fn core_write(offset: usize, value: u32) -> (Target, RegOp) {
    (Target::Core, written(offset, value))
}

pub open spec fn pipe_update(clear: u32, set: u32) -> (Target, RegOp) {
    (Target::Qscratch, RegOp::Update { offset: QSCRATCH_GENERAL_CFG, clear, set })
}

pub open spec fn pause(us: u64) -> (Target, RegOp) {
    (Target::Core, RegOp::Delay { us })
}

/// The bits that the properties keep clear in the USB2 interface.
pub open spec fn usb2_quirk_bits(quirks: Quirks) -> u32 {
    ((if quirks.dis_u2_susphy {
        GUSB2PHYCFG_SUSPHY as int
    } else {
        0
    }) + (if quirks.dis_enblslpm {
        GUSB2PHYCFG_ENBLSLPM as int
    } else {
        0
    })) as u32
}

/// Both PHY interfaces go into reset, and the USB2 PHY is kept awake.
pub open spec fn reset_program(quirks: Quirks) -> Seq<(Target, RegOp)> {
    seq![
        core_update(DWC3_GUSB2PHYCFG, 0, GUSB2PHYCFG_PHYSOFTRST),
        core_update(DWC3_GUSB3PIPECTL, 0, GUSB3PIPECTL_PHYSOFTRST),
        pause(100),
        core_update(DWC3_GUSB2PHYCFG, usb2_quirk_bits(quirks), 0),
    ]
}

/// Both PHY interfaces come out of reset.
pub open spec fn release_program() -> Seq<(Target, RegOp)> {
    seq![
        core_update(DWC3_GUSB2PHYCFG, 0x8000_0040, 0),
        core_update(DWC3_GUSB3PIPECTL, 0x8002_0000, 0),
    ]
}

/// The core comes out of reset.
pub open spec fn core_release_program() -> Seq<(Target, RegOp)> {
    seq![pause(100), core_update(DWC3_GCTL, GCTL_CORESOFTRESET, 0)]
}

pub open spec fn host_program() -> Seq<(Target, RegOp)> {
    seq![core_update(DWC3_GCTL, GCTL_HOST_FIELDS, GCTL_PRTCAP_HOST)]
}

/// The event buffer, which the host does not use, is masked.
pub open spec fn final_program(quirks: Quirks) -> Seq<(Target, RegOp)> {
    (if quirks.parkmode_disable_ss {
        seq![core_update(DWC3_GUCTL1, 0, GUCTL1_PARKMODE_DISABLE_SS)]
    } else {
        Seq::empty()
    }) + seq![
        core_write(DWC3_GEVNTADRLO, 0),
        core_write(DWC3_GEVNTADRHI, 0),
        core_write(DWC3_GEVNTSIZ, GEVNTSIZ_INTMASK),
        core_write(DWC3_GEVNTCOUNT, 0),
    ]
}

pub open spec fn both_off() -> PowerOff {
    PowerOff { usb3: true, usb2: true }
}

pub open spec fn usb2_off() -> PowerOff {
    PowerOff { usb3: false, usb2: true }
}

pub open spec fn none_off() -> PowerOff {
    PowerOff { usb3: false, usb2: false }
}

pub open spec fn utmi_selected(value: u32) -> bool {
    has_bit(value, PIPE_UTMI_CLK_SEL) && has_bit(value, PIPE3_PHYSTATUS_SW)
}

impl CoreInit {
    pub open spec fn ask(self, stage: Stage, program: Seq<(Target, RegOp)>, ask: Ask) -> (
        CoreInit,
        Seq<(Target, RegOp)>,
        Ask,
    ) {
        (CoreInit { stage, ..self }, program, ask)
    }

    pub open spec fn read(
        self,
        stage: Stage,
        program: Seq<(Target, RegOp)>,
        target: Target,
        offset: usize,
    ) -> (CoreInit, Seq<(Target, RegOp)>, Ask) {
        self.ask(stage, program, Ask::Read { target, offset })
    }

    pub open spec fn fail(self, off: PowerOff, error: Option<&'static str>) -> (
        CoreInit,
        Seq<(Target, RegOp)>,
        Ask,
    ) {
        self.ask(Stage::Over, Seq::empty(), Ask::Fail { off, error })
    }

    /// The PHYs are up, or as far up as they get.
    pub open spec fn release_interfaces(self) -> (CoreInit, Seq<(Target, RegOp)>, Ask) {
        if self.high_speed_only {
            self.read(Stage::VerifyUsb2, release_program(), Target::Core, DWC3_GUSB2PHYCFG)
        } else {
            self.ask(
                Stage::WaitReset,
                release_program() + core_release_program(),
                Ask::WaitForReset,
            )
        }
    }

    pub open spec fn select_host(self) -> (CoreInit, Seq<(Target, RegOp)>, Ask) {
        self.read(Stage::HostMode, host_program(), Target::Core, DWC3_GCTL)
    }

    pub open spec fn finish(self) -> (CoreInit, Seq<(Target, RegOp)>, Ask) {
        self.ask(Stage::Over, final_program(self.quirks), Ask::Finished)
    }

    /// What follows a step that failed. How the soft reset and the release of a
    /// SuperSpeed PHY went changes nothing.
    pub open spec fn failure(self, event: Event) -> (CoreInit, Seq<(Target, RegOp)>, Ask) {
        match self.stage {
            Stage::SoftReset => self.success(0),
            Stage::ReleaseUsb3 => self.success(0),
            Stage::PowerUsb2 => match event {
                Event::PhyFailed { error } => self.fail(none_off(), Some(phy_error_text(error))),
                _ => self.fail(none_off(), None),
            },
            Stage::PowerUsb3 => match event {
                Event::PhyFailed { error } => if error == PhyError::Timeout {
                    (CoreInit { high_speed_only: true, ..self }).ask(
                        Stage::ReleaseUsb3,
                        Seq::empty(),
                        Ask::PowerOff { phy: Phy::Usb3 },
                    )
                } else {
                    self.fail(usb2_off(), Some(phy_error_text(error)))
                },
                _ => self.fail(usb2_off(), None),
            },
            Stage::Preserve => self.fail(
                usb2_off(),
                Some("qcom-dwc3: active wrapper QSCRATCH state is unavailable"),
            ),
            _ => self.fail(both_off(), None),
        }
    }

    pub open spec fn success(self, value: u32) -> (CoreInit, Seq<(Target, RegOp)>, Ask) {
        match self.stage {
            Stage::SoftReset => self.ask(
                Stage::PowerUsb2,
                reset_program(self.quirks),
                Ask::PowerOn { phy: Phy::Usb2 },
            ),
            Stage::PowerUsb2 => self.ask(
                Stage::PowerUsb3,
                Seq::empty(),
                Ask::PowerOn { phy: Phy::Usb3 },
            ),
            Stage::PowerUsb3 => self.release_interfaces(),
            Stage::ReleaseUsb3 => self.ask(Stage::Preserve, Seq::empty(), Ask::Preserve),
            Stage::Preserve => self.read(
                Stage::PipeGated,
                seq![pipe_update(0, PIPE_UTMI_CLK_DIS)],
                Target::Qscratch,
                QSCRATCH_GENERAL_CFG,
            ),
            Stage::PipeGated => if !has_bit(value, PIPE_UTMI_CLK_DIS) {
                self.fail(
                    usb2_off(),
                    Some("qcom-dwc3: QSCRATCH PIPE clock disable did not latch"),
                )
            } else {
                self.read(
                    Stage::PipeSelected,
                    seq![pause(PIPE_UTMI_SWITCH_DELAY_US), pipe_update(0, 0x9)],
                    Target::Qscratch,
                    QSCRATCH_GENERAL_CFG,
                )
            },
            Stage::PipeSelected => if !utmi_selected(value) {
                self.fail(
                    usb2_off(),
                    Some("qcom-dwc3: QSCRATCH UTMI PIPE selection did not latch"),
                )
            } else {
                self.read(
                    Stage::PipeEnabled,
                    seq![pause(PIPE_UTMI_SWITCH_DELAY_US), pipe_update(PIPE_UTMI_CLK_DIS, 0)],
                    Target::Qscratch,
                    QSCRATCH_GENERAL_CFG,
                )
            },
            Stage::PipeEnabled => if has_bit(value, PIPE_UTMI_CLK_DIS) || !utmi_selected(value) {
                self.fail(
                    usb2_off(),
                    Some("qcom-dwc3: QSCRATCH UTMI PIPE clock did not enable"),
                )
            } else {
                self.release_interfaces()
            },
            Stage::VerifyUsb2 => self.read(
                Stage::VerifyPipe { usb2: value },
                Seq::empty(),
                Target::Core,
                DWC3_GUSB3PIPECTL,
            ),
            Stage::VerifyPipe { usb2 } => if has_bit(usb2, GUSB2PHYCFG_PHYSOFTRST) || has_bit(
                usb2,
                GUSB2PHYCFG_SUSPHY,
            ) {
                self.fail(
                    both_off(),
                    Some("qcom-dwc3: USB2 PHY reset or suspend remained asserted"),
                )
            } else if has_bit(value, GUSB3PIPECTL_PHYSOFTRST) || has_bit(
                value,
                GUSB3PIPECTL_SUSPHY,
            ) {
                self.fail(
                    both_off(),
                    Some("qcom-dwc3: USB3 PIPE reset or suspend remained asserted"),
                )
            } else {
                self.ask(Stage::WaitReset, core_release_program(), Ask::WaitForReset)
            },
            Stage::WaitReset => if self.high_speed_only {
                self.read(
                    Stage::ClockSelected,
                    seq![core_update(DWC3_GUCTL1, 0, GUCTL1_DEV_FORCE_20_CLK_FOR_30_CLK)],
                    Target::Core,
                    DWC3_GUCTL1,
                )
            } else {
                self.select_host()
            },
            Stage::ClockSelected => if !has_bit(value, GUCTL1_DEV_FORCE_20_CLK_FOR_30_CLK) {
                self.fail(
                    both_off(),
                    Some("qcom-dwc3: GUCTL1 USB2 clock selection did not latch"),
                )
            } else {
                self.select_host()
            },
            Stage::HostMode => if value as int / 0x1000 % 4 != 1 {
                self.fail(both_off(), Some("qcom-dwc3: GCTL host mode did not latch"))
            } else if self.high_speed_only {
                self.read(
                    Stage::PipeSuspended,
                    seq![core_update(DWC3_GUSB3PIPECTL, 0, GUSB3PIPECTL_SUSPHY)],
                    Target::Core,
                    DWC3_GUSB3PIPECTL,
                )
            } else {
                self.finish()
            },
            Stage::PipeSuspended => if !has_bit(value, GUSB3PIPECTL_SUSPHY) {
                self.fail(
                    both_off(),
                    Some("qcom-dwc3: SuperSpeed PIPE suspend did not latch"),
                )
            } else {
                self.finish()
            },
            Stage::Over => self.fail(none_off(), None),
        }
    }

    pub open spec fn step(self, event: Event) -> (CoreInit, Seq<(Target, RegOp)>, Ask) {
        match event {
            Event::Done { value } => self.success(value),
            _ => self.failure(event),
        }
    }

    /// Starts to bring the core up.
    pub fn begin(quirks: Quirks) -> (r: (CoreInit, Ask))
        ensures
            r.0 == (CoreInit { quirks, high_speed_only: false, stage: Stage::SoftReset }),
            r.1 == Ask::SoftReset,
    {
        (
            CoreInit { quirks, high_speed_only: false, stage: Stage::SoftReset },
            Ask::SoftReset,
        )
    }

    fn go(&mut self, stage: Stage, program: Vec<(Target, RegOp)>, ask: Ask) -> (r: (
        Vec<(Target, RegOp)>,
        Ask,
    ))
        ensures
            (*final(self), r.0@, r.1) == old(self).ask(stage, program@, ask),
    {
        self.stage = stage;
        (program, ask)
    }

    fn give_up(&mut self, usb3: bool, usb2: bool, error: Option<&'static str>) -> (r: (
        Vec<(Target, RegOp)>,
        Ask,
    ))
        ensures
            (*final(self), r.0@, r.1) == old(self).fail(PowerOff { usb3, usb2 }, error),
    {
        self.stage = Stage::Over;
        let program: Vec<(Target, RegOp)> = Vec::new();
        assert(program@ =~= Seq::<(Target, RegOp)>::empty());
        (program, Ask::Fail { off: PowerOff { usb3, usb2 }, error })
    }

    fn start_release(&mut self) -> (r: (Vec<(Target, RegOp)>, Ask))
        ensures
            (*final(self), r.0@, r.1) == old(self).release_interfaces(),
    {
        let mut program: Vec<(Target, RegOp)> = Vec::new();
        program.push(
            (
                Target::Core,
                RegOp::Update { offset: DWC3_GUSB2PHYCFG, clear: 0x8000_0040, set: 0 },
            ),
        );
        program.push(
            (
                Target::Core,
                RegOp::Update { offset: DWC3_GUSB3PIPECTL, clear: 0x8002_0000, set: 0 },
            ),
        );
        assert(program@ =~= release_program());
        if self.high_speed_only {
            return self.go(
                Stage::VerifyUsb2,
                program,
                Ask::Read { target: Target::Core, offset: DWC3_GUSB2PHYCFG },
            );
        }
        program.push((Target::Core, RegOp::Delay { us: 100 }));
        program.push(
            (
                Target::Core,
                RegOp::Update { offset: DWC3_GCTL, clear: GCTL_CORESOFTRESET, set: 0 },
            ),
        );
        assert(program@ =~= release_program() + core_release_program());
        self.go(Stage::WaitReset, program, Ask::WaitForReset)
    }

    fn start_host(&mut self) -> (r: (Vec<(Target, RegOp)>, Ask))
        ensures
            (*final(self), r.0@, r.1) == old(self).select_host(),
    {
        let mut program: Vec<(Target, RegOp)> = Vec::new();
        program.push(
            (
                Target::Core,
                RegOp::Update { offset: DWC3_GCTL, clear: GCTL_HOST_FIELDS, set: GCTL_PRTCAP_HOST },
            ),
        );
        assert(program@ =~= host_program());
        self.go(Stage::HostMode, program, Ask::Read { target: Target::Core, offset: DWC3_GCTL })
    }

    fn complete(&mut self) -> (r: (Vec<(Target, RegOp)>, Ask))
        ensures
            (*final(self), r.0@, r.1) == old(self).finish(),
    {
        let mut program: Vec<(Target, RegOp)> = Vec::new();
        if self.quirks.parkmode_disable_ss {
            program.push(
                (
                    Target::Core,
                    RegOp::Update {
                        offset: DWC3_GUCTL1,
                        clear: 0,
                        set: GUCTL1_PARKMODE_DISABLE_SS,
                    },
                ),
            );
        }
        program.push((Target::Core, put(DWC3_GEVNTADRLO, 0)));
        program.push((Target::Core, put(DWC3_GEVNTADRHI, 0)));
        program.push((Target::Core, put(DWC3_GEVNTSIZ, GEVNTSIZ_INTMASK)));
        program.push((Target::Core, put(DWC3_GEVNTCOUNT, 0)));
        assert(program@ =~= final_program(self.quirks));
        self.go(Stage::Over, program, Ask::Finished)
    }

    fn failed(&mut self, event: Event) -> (r: (Vec<(Target, RegOp)>, Ask))
        ensures
            (*final(self), r.0@, r.1) == old(self).failure(event),
    {
        match self.stage {
            Stage::SoftReset => self.succeeded(0),
            Stage::ReleaseUsb3 => self.succeeded(0),
            Stage::PowerUsb2 => match event {
                Event::PhyFailed { error } => self.give_up(
                    false,
                    false,
                    Some(phy_error_to_str(error)),
                ),
                _ => self.give_up(false, false, None),
            },
            Stage::PowerUsb3 => match event {
                Event::PhyFailed { error } => {
                    if let PhyError::Timeout = error {
                        self.high_speed_only = true;
                        let program: Vec<(Target, RegOp)> = Vec::new();
                        assert(program@ =~= Seq::<(Target, RegOp)>::empty());
                        return self.go(
                            Stage::ReleaseUsb3,
                            program,
                            Ask::PowerOff { phy: Phy::Usb3 },
                        );
                    }
                    self.give_up(false, true, Some(phy_error_to_str(error)))
                },
                _ => self.give_up(false, true, None),
            },
            Stage::Preserve => self.give_up(
                false,
                true,
                Some("qcom-dwc3: active wrapper QSCRATCH state is unavailable"),
            ),
            _ => self.give_up(true, true, None),
        }
    }

    fn succeeded(&mut self, value: u32) -> (r: (Vec<(Target, RegOp)>, Ask))
        ensures
            (*final(self), r.0@, r.1) == old(self).success(value),
    {
        let mut program: Vec<(Target, RegOp)> = Vec::new();
        assert(program@ =~= Seq::<(Target, RegOp)>::empty());
        let ghost start = *self;
        match self.stage {
            Stage::SoftReset => {
                let mut quirk_bits: u32 = 0;
                if self.quirks.dis_u2_susphy {
                    quirk_bits += GUSB2PHYCFG_SUSPHY;
                }
                if self.quirks.dis_enblslpm {
                    quirk_bits += GUSB2PHYCFG_ENBLSLPM;
                }
                program.push(
                    (
                        Target::Core,
                        RegOp::Update {
                            offset: DWC3_GUSB2PHYCFG,
                            clear: 0,
                            set: GUSB2PHYCFG_PHYSOFTRST,
                        },
                    ),
                );
                program.push(
                    (
                        Target::Core,
                        RegOp::Update {
                            offset: DWC3_GUSB3PIPECTL,
                            clear: 0,
                            set: GUSB3PIPECTL_PHYSOFTRST,
                        },
                    ),
                );
                program.push((Target::Core, RegOp::Delay { us: 100 }));
                program.push(
                    (
                        Target::Core,
                        RegOp::Update { offset: DWC3_GUSB2PHYCFG, clear: quirk_bits, set: 0 },
                    ),
                );
                assert(program@ =~= reset_program(self.quirks));
                self.go(Stage::PowerUsb2, program, Ask::PowerOn { phy: Phy::Usb2 })
            },
            Stage::PowerUsb2 => self.go(
                Stage::PowerUsb3,
                program,
                Ask::PowerOn { phy: Phy::Usb3 },
            ),
            Stage::PowerUsb3 => self.start_release(),
            Stage::ReleaseUsb3 => self.go(Stage::Preserve, program, Ask::Preserve),
            Stage::Preserve => {
                program.push(
                    (
                        Target::Qscratch,
                        RegOp::Update {
                            offset: QSCRATCH_GENERAL_CFG,
                            clear: 0,
                            set: PIPE_UTMI_CLK_DIS,
                        },
                    ),
                );
                assert(program@ =~= start.success(value).1);
                self.go(
                    Stage::PipeGated,
                    program,
                    Ask::Read { target: Target::Qscratch, offset: QSCRATCH_GENERAL_CFG },
                )
            },
            Stage::PipeGated => {
                if !is_set(value, PIPE_UTMI_CLK_DIS) {
                    return self.give_up(
                        false,
                        true,
                        Some("qcom-dwc3: QSCRATCH PIPE clock disable did not latch"),
                    );
                }
                program.push((Target::Core, RegOp::Delay { us: PIPE_UTMI_SWITCH_DELAY_US }));
                program.push(
                    (
                        Target::Qscratch,
                        RegOp::Update { offset: QSCRATCH_GENERAL_CFG, clear: 0, set: 0x9 },
                    ),
                );
                assert(program@ =~= start.success(value).1);
                self.go(
                    Stage::PipeSelected,
                    program,
                    Ask::Read { target: Target::Qscratch, offset: QSCRATCH_GENERAL_CFG },
                )
            },
            Stage::PipeSelected => {
                if !is_set(value, PIPE_UTMI_CLK_SEL) || !is_set(value, PIPE3_PHYSTATUS_SW) {
                    return self.give_up(
                        false,
                        true,
                        Some("qcom-dwc3: QSCRATCH UTMI PIPE selection did not latch"),
                    );
                }
                program.push((Target::Core, RegOp::Delay { us: PIPE_UTMI_SWITCH_DELAY_US }));
                program.push(
                    (
                        Target::Qscratch,
                        RegOp::Update {
                            offset: QSCRATCH_GENERAL_CFG,
                            clear: PIPE_UTMI_CLK_DIS,
                            set: 0,
                        },
                    ),
                );
                assert(program@ =~= start.success(value).1);
                self.go(
                    Stage::PipeEnabled,
                    program,
                    Ask::Read { target: Target::Qscratch, offset: QSCRATCH_GENERAL_CFG },
                )
            },
            Stage::PipeEnabled => {
                if is_set(value, PIPE_UTMI_CLK_DIS) || !is_set(value, PIPE_UTMI_CLK_SEL)
                    || !is_set(value, PIPE3_PHYSTATUS_SW) {
                    return self.give_up(
                        false,
                        true,
                        Some("qcom-dwc3: QSCRATCH UTMI PIPE clock did not enable"),
                    );
                }
                self.start_release()
            },
            Stage::VerifyUsb2 => self.go(
                Stage::VerifyPipe { usb2: value },
                program,
                Ask::Read { target: Target::Core, offset: DWC3_GUSB3PIPECTL },
            ),
            Stage::VerifyPipe { usb2 } => {
                if is_set(usb2, GUSB2PHYCFG_PHYSOFTRST) || is_set(usb2, GUSB2PHYCFG_SUSPHY) {
                    return self.give_up(
                        true,
                        true,
                        Some("qcom-dwc3: USB2 PHY reset or suspend remained asserted"),
                    );
                }
                if is_set(value, GUSB3PIPECTL_PHYSOFTRST) || is_set(value, GUSB3PIPECTL_SUSPHY) {
                    return self.give_up(
                        true,
                        true,
                        Some("qcom-dwc3: USB3 PIPE reset or suspend remained asserted"),
                    );
                }
                program.push((Target::Core, RegOp::Delay { us: 100 }));
                program.push(
                    (
                        Target::Core,
                        RegOp::Update { offset: DWC3_GCTL, clear: GCTL_CORESOFTRESET, set: 0 },
                    ),
                );
                assert(program@ =~= core_release_program());
                self.go(Stage::WaitReset, program, Ask::WaitForReset)
            },
            Stage::WaitReset => {
                if !self.high_speed_only {
                    return self.start_host();
                }
                program.push(
                    (
                        Target::Core,
                        RegOp::Update {
                            offset: DWC3_GUCTL1,
                            clear: 0,
                            set: GUCTL1_DEV_FORCE_20_CLK_FOR_30_CLK,
                        },
                    ),
                );
                assert(program@ =~= start.success(value).1);
                self.go(
                    Stage::ClockSelected,
                    program,
                    Ask::Read { target: Target::Core, offset: DWC3_GUCTL1 },
                )
            },
            Stage::ClockSelected => {
                if !is_set(value, GUCTL1_DEV_FORCE_20_CLK_FOR_30_CLK) {
                    return self.give_up(
                        true,
                        true,
                        Some("qcom-dwc3: GUCTL1 USB2 clock selection did not latch"),
                    );
                }
                self.start_host()
            },
            Stage::HostMode => {
                if value / 0x1000 % 4 != 1 {
                    return self.give_up(
                        true,
                        true,
                        Some("qcom-dwc3: GCTL host mode did not latch"),
                    );
                }
                if !self.high_speed_only {
                    return self.complete();
                }
                program.push(
                    (
                        Target::Core,
                        RegOp::Update {
                            offset: DWC3_GUSB3PIPECTL,
                            clear: 0,
                            set: GUSB3PIPECTL_SUSPHY,
                        },
                    ),
                );
                assert(program@ =~= start.success(value).1);
                self.go(
                    Stage::PipeSuspended,
                    program,
                    Ask::Read { target: Target::Core, offset: DWC3_GUSB3PIPECTL },
                )
            },
            Stage::PipeSuspended => {
                if !is_set(value, GUSB3PIPECTL_SUSPHY) {
                    return self.give_up(
                        true,
                        true,
                        Some("qcom-dwc3: SuperSpeed PIPE suspend did not latch"),
                    );
                }
                self.complete()
            },
            Stage::Over => self.give_up(false, false, None),
        }
    }

    /// Goes on after a step.
    pub fn advance(&mut self, event: Event) -> (r: (Vec<(Target, RegOp)>, Ask))
        ensures
            (*final(self), r.0@, r.1) == old(self).step(event),
    {
        match event {
            Event::Done { value } => self.succeeded(value),
            _ => self.failed(event),
        }
    }
}

// Laws.

/// Which PHYs are on when the last step was taken.
pub open spec fn powered_before(init: CoreInit) -> PowerOff {
    match init.stage {
        Stage::SoftReset => none_off(),
        Stage::PowerUsb2 => none_off(),
        Stage::PowerUsb3 => usb2_off(),
        Stage::Over => none_off(),
        _ => PowerOff { usb3: !init.high_speed_only, usb2: true },
    }
}

/// What every step keeps: the stages of the fallback belong to it.
pub open spec fn fallback_fits(init: CoreInit) -> bool {
    match init.stage {
        Stage::SoftReset => !init.high_speed_only,
        Stage::PowerUsb2 => !init.high_speed_only,
        Stage::PowerUsb3 => !init.high_speed_only,
        Stage::ReleaseUsb3 => init.high_speed_only,
        Stage::Preserve => init.high_speed_only,
        Stage::PipeGated => init.high_speed_only,
        Stage::PipeSelected => init.high_speed_only,
        Stage::PipeEnabled => init.high_speed_only,
        Stage::VerifyUsb2 => init.high_speed_only,
        Stage::VerifyPipe { .. } => init.high_speed_only,
        Stage::ClockSelected => init.high_speed_only,
        Stage::PipeSuspended => init.high_speed_only,
        _ => true,
    }
}

/// A failure powers off every PHY that is on.
pub proof fn failures_leave_no_phy_on(init: CoreInit, event: Event)
    requires
        fallback_fits(init),
    ensures
        fallback_fits(init.step(event).0),
        init.step(event).2 matches Ask::Fail { off, .. } ==> {
            &&& powered_before(init).usb2 ==> off.usb2
            &&& powered_before(init).usb3 ==> off.usb3
        },
{
}

/// Where the SuperSpeed PHY cannot be released, the core still comes up at high
/// speed.
pub proof fn the_release_is_best_effort(init: CoreInit, event: Event)
    requires
        init.stage == Stage::ReleaseUsb3,
    ensures
        init.step(event) == (
            CoreInit { stage: Stage::Preserve, ..init },
            Seq::<(Target, RegOp)>::empty(),
            Ask::Preserve,
        ),
{
}

/// The pipe clock is switched only in the fallback, and before the core comes
/// out of reset.
pub proof fn the_pipe_is_switched_in_reset(init: CoreInit, event: Event)
    requires
        fallback_fits(init),
        init.step(event).0.stage == Stage::WaitReset,
        init.high_speed_only,
    ensures
        init.stage is VerifyPipe,
{
}

/// The fallback runs only where the SuperSpeed PHY timed out.
pub proof fn only_a_timeout_leads_to_the_fallback(init: CoreInit, event: Event)
    requires
        !init.high_speed_only,
        init.step(event).0.high_speed_only,
    ensures
        init.stage == Stage::PowerUsb3,
        event == (Event::PhyFailed { error: PhyError::Timeout }),
{
}

} // verus!

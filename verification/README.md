# coachz_drivers

Drivers for a Qualcomm SC7180 ChromeOS tablet, verified with Verus.

`src/` holds what the drivers decide and compute: register programs, packet
formats, report decoding, state machines, power and clock sequencing. Every
function has a contract, and what holds across functions stands as public proof
functions next to them. The library touches no hardware: where a driver has to
read a register, move bytes over a bus or wait, a state machine says what to do
next and takes what came of it.

`app/` is the other half: loops that perform those requests over a handful of
traits that the kernel implements (`app/kernel.rs`).

| Area | Modules |
| --- | --- |
| Buses | `geni`, `geni_i2c`, `geni_spi`, `i2c`, `spi`, `spmi` |
| Embedded controller | `cros_ec_spi`, `mkbp`, `mkbp_button`, `mkbp_switch`, `motion_sense` |
| Input | `goodix`, `elan_ekth3000`, `usb_touchpad`, `input` |
| Power | `cmd_db`, `rpmh_rsc`, `rpmhpd`, `interconnect` |
| USB | `dwc3`, `qmp_usb3`, `qusb2`, `phy` |
| Storage and fuses | `sdhci`, `qfprom` |
| Security and time | `cr50`, `rtc` |
| Video | `venus` |
| Shared | `bytes`, `device_tree`, `mmio`, `platform`, `registry` |

Flattened device trees are read with the `fdt` crate. `device_tree` works out how
far a blob can be read, takes that much from the crate and no more, and is the
only module that trusts code outside the library.

The constants of the video front end's interface are passed in by the caller
(`venus::session::VideoInterface`); everything else that the hardware fixes is a
constant of the module that uses it.

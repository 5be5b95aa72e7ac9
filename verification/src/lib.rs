pub mod bytes;
pub mod cmd_db;
pub mod cr50;
pub mod cros_ec_spi;
pub mod device_tree;
pub mod dwc3;
pub mod elan_ekth3000;
pub mod geni;
pub mod geni_i2c;
pub mod geni_spi;
pub mod goodix;
pub mod i2c;
pub mod input;
pub mod interconnect;
pub mod mkbp;
pub mod mkbp_button;
pub mod mkbp_switch;
pub mod mmio;
pub mod motion_sense;
pub mod phy;
pub mod platform;
pub mod qfprom;
pub mod qmp_usb3;
pub mod qusb2;
pub mod registry;
pub mod rpmh_rsc;
pub mod rpmhpd;
pub mod rtc;
pub mod sdhci;
pub mod spi;
pub mod spmi;
pub mod usb_touchpad;
pub mod venus;

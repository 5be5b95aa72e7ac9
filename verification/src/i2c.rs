//! I2C messages and transfer errors, as the bus and its clients exchange them.

use vstd::prelude::*;

verus! {

/// Why a transfer failed.
#[derive(Clone, Copy, Debug, Eq, PartialEq, Structural)]
pub enum I2cError {
    InvalidArg,
    Nack,
    ArbitrationLost,
    BusError,
    Timeout,
}

/// One message of a combined transfer.
#[derive(Debug)]
pub struct I2cMessage {
    pub address: u8,
    /// The address is a ten-bit one.
    pub ten_bit: bool,
    pub read: bool,
    pub data: Vec<u8>,
    /// End the message with a stop condition.
    pub stop: bool,
    /// Go on without a start condition and an address.
    pub no_start: bool,
}

/// What a message holds.
#[verifier::ext_equal]
pub struct MessageView {
    pub address: u8,
    pub ten_bit: bool,
    pub read: bool,
    pub data: Seq<u8>,
    pub stop: bool,
    pub no_start: bool,
}

impl View for I2cMessage {
    type V = MessageView;

    open spec fn view(&self) -> MessageView {
        MessageView {
            address: self.address,
            ten_bit: self.ten_bit,
            read: self.read,
            data: self.data@,
            stop: self.stop,
            no_start: self.no_start,
        }
    }
}

/// A message that reads `length` bytes.
pub open spec fn read_view(address: u8, length: int, stop: bool) -> MessageView {
    MessageView {
        address,
        ten_bit: false,
        read: true,
        data: Seq::new(length as nat, |i: int| 0u8),
        stop,
        no_start: false,
    }
}

/// A message that writes `data`.
pub open spec fn write_view(address: u8, data: Seq<u8>, stop: bool) -> MessageView {
    MessageView { address, ten_bit: false, read: false, data, stop, no_start: false }
}

impl I2cMessage {
    /// A write of `data` to a seven-bit address.
    pub fn write(address: u8, data: &[u8], stop: bool) -> (r: I2cMessage)
        ensures
            r@ == write_view(address, data@, stop),
    {
        I2cMessage {
            address,
            ten_bit: false,
            read: false,
            data: crate::bytes::copy_bytes(data),
            stop,
            no_start: false,
        }
    }

    /// A read of `length` bytes from a seven-bit address; the buffer starts
    /// zeroed.
    pub fn read(address: u8, length: usize, stop: bool) -> (r: I2cMessage)
        ensures
            r@ == read_view(address, length as int, stop),
    {
        let data: Vec<u8> = vec![0u8; length];
        assert(data@ =~= Seq::new(length as nat, |i: int| 0u8));
        I2cMessage { address, ten_bit: false, read: true, data, stop, no_start: false }
    }
}

} // verus!

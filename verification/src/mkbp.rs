//! MKBP information queries, shared by the button and switch drivers.

use vstd::prelude::*;

use crate::bytes::{le32, read_le_u32};

verus! {

pub const EC_CMD_MKBP_INFO: u16 = 0x0061;

pub const EC_MKBP_INFO_SUPPORTED: u8 = 1;

pub const EC_MKBP_INFO_CURRENT: u8 = 2;

/// Sends host commands to an embedded controller.
pub trait EcCommand {
    type Error;

    fn command(&self, command: u16, version: u8, payload: &[u8]) -> Result<Vec<u8>, Self::Error>;
}

#[derive(Debug, PartialEq, Eq)]
pub enum QueryError<E> {
    Transport(E),
    MalformedResponse,
}

/// The mask in a reply: exactly four little-endian bytes.
pub open spec fn mask_of(reply: Seq<u8>) -> Option<u32> {
    if reply.len() == 4 {
        Some(le32(reply, 0) as u32)
    } else {
        None
    }
}

/// What a query gives for a reply.
pub open spec fn query_result<E>(reply: Result<Seq<u8>, E>) -> Result<u32, QueryError<E>> {
    match reply {
        Err(e) => Err(QueryError::Transport(e)),
        Ok(bytes) => match mask_of(bytes) {
            Some(mask) => Ok(mask),
            None => Err(QueryError::MalformedResponse),
        },
    }
}

pub open spec fn reply_bytes<E>(reply: Result<Vec<u8>, E>) -> Result<Seq<u8>, E> {
    match reply {
        Ok(bytes) => Ok(bytes@),
        Err(e) => Err(e),
    }
}

pub fn parse_mask(response: &[u8]) -> (r: Result<u32, QueryError<()>>)
    ensures
        r == query_result(Ok::<Seq<u8>, ()>(response@)),
{
    if response.len() != 4 {
        return Err(QueryError::MalformedResponse);
    }
    match read_le_u32(response, 0) {
        Some(mask) => Ok(mask),
        None => Err(QueryError::MalformedResponse),
    }
}

/// What a reply to a query means.
pub fn accept_reply<E>(reply: Result<Vec<u8>, E>) -> (r: Result<u32, QueryError<E>>)
    ensures
        r == query_result(reply_bytes(reply)),
{
    match reply {
        Err(e) => Err(QueryError::Transport(e)),
        Ok(bytes) => match parse_mask(&bytes) {
            Ok(mask) => Ok(mask),
            Err(_) => Err(QueryError::MalformedResponse),
        },
    }
}

/// Asks the controller for one mask of an event type.
pub fn query_mask<C: EcCommand>(ec: &C, info_type: u8, event_type: u8) -> (r: Result<
    u32,
    QueryError<C::Error>,
>)
    ensures
        exists|payload: &[u8], reply: Result<Vec<u8>, C::Error>|
            {
                &&& payload@ == seq![info_type, event_type]
                &&& #[trigger] call_ensures(C::command, (ec, EC_CMD_MKBP_INFO, 0u8, payload), reply)
                &&& r == query_result(reply_bytes(reply))
            },
{
    let request: [u8; 2] = [info_type, event_type];
    let payload: &[u8] = &request;
    assert(payload@ =~= seq![info_type, event_type]);
    let reply = ec.command(EC_CMD_MKBP_INFO, 0, payload);
    accept_reply(reply)
}

} // verus!

//! What a client holds after it asked for a subscription.

use vstd::prelude::*;

use crate::error::KvError;
use crate::pb::abi::CommandResponse;
use crate::pb::codec::{to_twos, twos};
use crate::pb::convert::leading_integer;

verus! {

/// The low 32 bits of a signed number.
pub open spec fn low_bits(i: i64) -> u32 {
    (twos(i) % 0x1_0000_0000) as u32
}

/// The subscription id that the first response on a stream announces, if it
/// announces one.
pub open spec fn announced_id(first: Option<Result<CommandResponse, KvError>>) -> Option<u32> {
    match first {
        Some(Ok(res)) => match leading_integer(res@) {
            Some(i) => Some(low_bits(i)),
            None => None,
        },
        _ => None,
    }
}

/// A subscription: its id, and the stream of what is published to it.
pub struct StreamResult<S> {
    /// The subscription's id, as the stream's first response announced it.
    pub id: u32,
    /// The stream behind its first response.
    pub inner: S,
}

impl<S> StreamResult<S> {
    /// Makes a subscription of the first item that came off a stream and the
    /// rest of that stream. The first item has to be a successful response
    /// that carries the id, an integer, as its first value; anything else is
    /// an internal error, "Invalid stream".
    pub fn new(first: Option<Result<CommandResponse, KvError>>, rest: S) -> (r: Result<
        Self,
        KvError,
    >)
        ensures
            match announced_id(first) {
                Some(id) => r matches Ok(s) && s.id == id && s.inner == rest,
                None => r matches Err(KvError::Internal(why)) && why@ == "Invalid stream"@,
            },
    {
        match first {
            Some(Ok(res)) => {
                if res.status != 200 || res.values.len() == 0 {
                    return Err(KvError::Internal("Invalid stream".to_owned()));
                }
                match res.values[0].as_integer() {
                    Some(id) => Ok(
                        StreamResult { id: (to_twos(id) % 0x1_0000_0000) as u32, inner: rest },
                    ),
                    None => Err(KvError::Internal("Invalid stream".to_owned())),
                }
            },
            _ => Err(KvError::Internal("Invalid stream".to_owned())),
        }
    }
}

} // verus!

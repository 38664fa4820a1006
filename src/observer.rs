//! Sorting of inbound multicast datagrams.
use vstd::prelude::*;

use crate::response::{coap_decode, Response};

verus! {

/// The UDP port that CoIoT devices announce from.
pub const COIOT_PORT: u16 = 5683;

/// The non-standard CoAP message code of an unsolicited status push.
pub const STATUS_PUSH_CODE: u8 = 30;

/// What the observer does with one inbound datagram.
#[derive(Debug)]
pub enum Announcement {
    /// Not a status push: the observer goes on listening.
    Ignored,
    /// Not a well-formed CoAP message: skipped, and the observer goes on.
    Malformed,
    /// A status push to decode and render.
    StatusPush(Response),
}

/// Keeps a decoded message only where its code is the status-push code.
pub fn classify_response(resp: Response) -> (r: Announcement)
    ensures
        resp.code == STATUS_PUSH_CODE ==> r == Announcement::StatusPush(resp),
        resp.code != STATUS_PUSH_CODE ==> r == Announcement::Ignored,
{
    if resp.code == STATUS_PUSH_CODE {
        Announcement::StatusPush(resp)
    } else {
        Announcement::Ignored
    }
}

/// Sorts a datagram received from source port `port`.
pub fn classify_datagram(port: u16, bytes: &[u8]) -> (r: Announcement)
    ensures
        port != COIOT_PORT ==> r == Announcement::Ignored,
        port == COIOT_PORT ==> match coap_decode(bytes@) {
            None => r == Announcement::Malformed,
            Some(d) => if d.0 == STATUS_PUSH_CODE {
                r matches Announcement::StatusPush(x) && x.code == d.0 && x.options.deep_view()
                    == d.1 && x.payload@ == d.2
            } else {
                r == Announcement::Ignored
            },
        },
        r matches Announcement::StatusPush(x) ==> x.code == STATUS_PUSH_CODE,
{
    if port != COIOT_PORT {
        return Announcement::Ignored;
    }
    match Response::from_bytes(bytes) {
        Ok(resp) => classify_response(resp),
        Err(_) => Announcement::Malformed,
    }
}

} // verus!

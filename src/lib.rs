//! Decoding of the CoIoT protocol: vendor CoAP options, device identity,
//! descriptor and status documents, and their correlation into readings.
use vstd::prelude::*;

pub mod correlate;
pub mod error;
pub mod fields;
pub mod identity;
pub mod json;
pub mod model;
pub mod observer;
pub mod response;

pub use correlate::{print_status, Reading, Rendered};
pub use error::DecodeError;
pub use identity::{parse_identity, DeviceIdentity, Version};
pub use json::{Json, JsonNumber};
pub use model::{BlockDesc, Description, RangeDesc, SenDesc, SenType, Status, StatusEntry};
pub use observer::{classify_datagram, classify_response, Announcement};
pub use response::{CoIoTOption, Response};

verus! {

} // verus!

//! A decoded CoAP message: its code, its option table and its payload, and
//! the CoIoT fields read from them.
use vstd::prelude::*;

use crate::error::DecodeError;
use crate::fields::{decode_validity, le_u16_of, read_u16_le, validity_millis};
use crate::identity::{
    id_device_serial, id_device_type, id_version, identity_of, parse_identity, serial_of_id,
    type_of_id, version_of_id, DeviceIdentity, Version,
};

verus! {

/// The text that a byte sequence denotes as UTF-8, where it is valid UTF-8.
pub uninterp spec fn utf8_decode(b: Seq<u8>) -> Option<Seq<char>>;

/// The code, option table and payload of a datagram decoded as a CoAP
/// message, where it is one.
pub uninterp spec fn coap_decode(b: Seq<u8>) -> Option<(u8, Seq<(u16, Seq<Seq<u8>>)>, Seq<u8>)>;

/// Option number of the global device-id.
pub const GLOBAL_DEV_ID: u16 = 3332;

/// Option number of the status validity interval.
pub const STATUS_VALIDITY: u16 = 3412;

/// Option number of the status sequence number.
pub const STATUS_SERIAL: u16 = 3420;

/// The vendor options of CoIoT.
#[derive(Debug, Copy, Clone, PartialEq, Eq, Structural)]
pub enum CoIoTOption {
    GlobalDevId,
    StatusValidity,
    StatusSerial,
}

/// The CoAP option number under which each vendor option travels.
pub open spec fn option_code(o: CoIoTOption) -> u16 {
    match o {
        CoIoTOption::GlobalDevId => GLOBAL_DEV_ID,
        CoIoTOption::StatusValidity => STATUS_VALIDITY,
        CoIoTOption::StatusSerial => STATUS_SERIAL,
    }
}

impl CoIoTOption {
    /// The CoAP option number of this option.
    pub fn code(self) -> (r: u16)
        ensures
            r == option_code(self),
    {
        match self {
            CoIoTOption::GlobalDevId => GLOBAL_DEV_ID,
            CoIoTOption::StatusValidity => STATUS_VALIDITY,
            CoIoTOption::StatusSerial => STATUS_SERIAL,
        }
    }
}

impl From<CoIoTOption> for u16 {
    fn from(o: CoIoTOption) -> (r: u16) {
        o.code()
    }
}

impl vstd::std_specs::convert::FromSpecImpl<CoIoTOption> for u16 {
    open spec fn obeys_from_spec() -> bool {
        true
    }

    open spec fn from_spec(o: CoIoTOption) -> u16 {
        option_code(o)
    }
}

/// The values listed under `code` in an option table; the first entry with
/// that code counts.
pub open spec fn lookup(entries: Seq<(u16, Seq<Seq<u8>>)>, code: u16) -> Option<Seq<Seq<u8>>>
    decreases entries.len(),
{
    if entries.len() == 0 {
        None
    } else if entries[0].0 == code {
        Some(entries[0].1)
    } else {
        lookup(entries.drop_first(), code)
    }
}

proof fn lemma_lookup_push(s: Seq<(u16, Seq<Seq<u8>>)>, e: (u16, Seq<Seq<u8>>), c: u16)
    ensures
        lookup(s.push(e), c) == (if lookup(s, c) is Some {
            lookup(s, c)
        } else if e.0 == c {
            Some(e.1)
        } else {
            None
        }),
    decreases s.len(),
{
    if s.len() > 0 {
        assert(s.push(e).drop_first() =~= s.drop_first().push(e));
        lemma_lookup_push(s.drop_first(), e, c);
    } else {
        assert(s.push(e).drop_first() =~= s);
    }
}

proof fn lemma_lookup_update(s: Seq<(u16, Seq<Seq<u8>>)>, i: int, vals: Seq<Seq<u8>>, c: u16)
    requires
        0 <= i < s.len(),
        forall|j: int| 0 <= j < i ==> s[j].0 != s[i].0,
    ensures
        lookup(s.update(i, (s[i].0, vals)), c) == (if c == s[i].0 {
            Some(vals)
        } else {
            lookup(s, c)
        }),
    decreases i,
{
    let t = s.update(i, (s[i].0, vals));
    if i > 0 {
        assert(t.drop_first() =~= s.drop_first().update(i - 1, (s[i].0, vals)));
        lemma_lookup_update(s.drop_first(), i - 1, vals, c);
    } else {
        assert(t.drop_first() =~= s.drop_first());
    }
}

/// Relies on `std::str::from_utf8`: the text of `b` where `b` is valid UTF-8.
#[verifier::external_body]
fn utf8_text(b: &[u8]) -> (r: Option<String>)
    ensures
        match r {
            Some(s) => utf8_decode(b@) == Some(s@),
            None => utf8_decode(b@) is None,
        },
{
    std::str::from_utf8(b).ok().map(|s| s.to_string())
}

/// Relies on `coap_lite::Packet::from_bytes`, which decodes a datagram as a
/// CoAP message; the header code is read through `u8::from`, and the options
/// through `Packet::options`, which walks the packet's option map in
/// ascending order of option number, each number once, with its values in
/// the order they were received.
#[verifier::external_body]
fn decode_packet(b: &[u8]) -> (r: Option<(u8, Vec<(u16, Vec<Vec<u8>>)>, Vec<u8>)>)
    ensures
        match r {
            Some(t) => coap_decode(b@) == Some((t.0, t.1.deep_view(), t.2@)),
            None => coap_decode(b@) is None,
        },
        r matches Some(t) ==> forall|i: int, j: int|
            0 <= i < j < t.1@.len() ==> t.1@[i].0 < t.1@[j].0,
{
    coap_lite::Packet::from_bytes(b).ok().map(|p| {
        let options = p.options().map(|(k, v)| (*k, v.iter().cloned().collect())).collect();
        (u8::from(p.header.code), options, p.payload)
    })
}

/// A CoAP message as the CoIoT decoder reads it.
#[derive(Debug, Clone)]
pub struct Response {
    /// The message code, as its one-byte wire value.
    pub code: u8,
    /// Option numbers with the values listed under each, in wire order.
    pub options: Vec<(u16, Vec<Vec<u8>>)>,
    pub payload: Vec<u8>,
}

impl Response {
    /// The values listed under option number `code`.
    pub open spec fn option_values(&self, code: u16) -> Option<Seq<Seq<u8>>> {
        lookup(self.options.deep_view(), code)
    }

    /// The first value listed under option number `code`.
    pub open spec fn first_value(&self, code: u16) -> Option<Seq<u8>> {
        match self.option_values(code) {
            Some(vs) => if vs.len() > 0 {
                Some(vs[0])
            } else {
                None
            },
            None => None,
        }
    }

    /// The device-id text, where the option is present and valid UTF-8.
    pub open spec fn device_id_text(&self) -> Option<Seq<char>> {
        match self.first_value(GLOBAL_DEV_ID) {
            Some(b) => utf8_decode(b),
            None => None,
        }
    }

    /// The little-endian `u16` at the start of the first value of `code`.
    pub open spec fn u16_field(&self, code: u16) -> Option<u16> {
        match self.first_value(code) {
            Some(b) => le_u16_of(b),
            None => None,
        }
    }

    /// A message with the given code and payload and no options.
    pub fn new(code: u8, payload: Vec<u8>) -> (r: Response)
        ensures
            r.code == code,
            r.payload@ == payload@,
            forall|c: u16| r.option_values(c) is None,
    {
        Response { code, options: Vec::new(), payload }
    }

    /// Decodes a datagram as a CoAP message.
    pub fn from_bytes(b: &[u8]) -> (r: Result<Response, DecodeError>)
        ensures
            match coap_decode(b@) {
                Some(d) => r matches Ok(m) && m.code == d.0 && m.options.deep_view() == d.1
                    && m.payload@ == d.2,
                None => r == Err::<Response, DecodeError>(DecodeError::MalformedPacket),
            },
            r matches Ok(m) ==> forall|i: int, j: int|
                0 <= i < j < m.options@.len() ==> m.options@[i].0 < m.options@[j].0,
    {
        match decode_packet(b) {
            Some((code, options, payload)) => Ok(Response { code, options, payload }),
            None => Err(DecodeError::MalformedPacket),
        }
    }

    /// The position of the first entry for option number `code`.
    fn find_option(&self, code: u16) -> (r: Option<usize>)
        ensures
            match r {
                Some(i) => i < self.options@.len() && self.options@[i as int].0 == code
                    && forall|j: int| 0 <= j < i ==> self.options@[j].0 != code,
                None => forall|j: int| 0 <= j < self.options@.len() ==> self.options@[j].0 != code,
            },
            match r {
                Some(i) => self.option_values(code) == Some(self.options@[i as int].1.deep_view()),
                None => self.option_values(code) is None,
            },
    {
        let ghost s = self.options.deep_view();
        let mut i: usize = 0;
        assert(s.subrange(0, s.len() as int) =~= s);
        while i < self.options.len()
            invariant
                s == self.options.deep_view(),
                i <= self.options@.len(),
                forall|j: int| 0 <= j < i ==> self.options@[j].0 != code,
                lookup(s, code) == lookup(s.subrange(i as int, s.len() as int), code),
            decreases self.options@.len() - i,
        {
            let ghost t = s.subrange(i as int, s.len() as int);
            assert(t.drop_first() =~= s.subrange(i + 1, s.len() as int));
            if self.options[i].0 == code {
                return Some(i);
            }
            i = i + 1;
        }
        None
    }

    /// The values listed under option number `code`, in wire order.
    pub fn option(&self, code: u16) -> (r: Option<&Vec<Vec<u8>>>)
        ensures
            match r {
                Some(vs) => self.option_values(code) == Some(vs.deep_view()),
                None => self.option_values(code) is None,
            },
    {
        match self.find_option(code) {
            Some(i) => Some(&self.options[i].1),
            None => None,
        }
    }

    /// The values listed under a vendor option, in wire order.
    pub fn get_opt(&self, opt: CoIoTOption) -> (r: Option<&Vec<Vec<u8>>>)
        ensures
            match r {
                Some(vs) => self.option_values(option_code(opt)) == Some(vs.deep_view()),
                None => self.option_values(option_code(opt)) is None,
            },
    {
        self.option(opt.code())
    }

    /// The first value listed under option number `code`.
    fn first_option(&self, code: u16) -> (r: Option<&Vec<u8>>)
        ensures
            match r {
                Some(b) => self.first_value(code) == Some(b@),
                None => self.first_value(code) is None,
            },
    {
        match self.option(code) {
            Some(vs) => {
                if vs.len() > 0 {
                    assert(vs.deep_view()[0] =~= vs@[0]@);
                    Some(&vs[0])
                } else {
                    None
                }
            },
            None => None,
        }
    }

    /// The device-id text carried in the global device-id option.
    pub fn device_id(&self) -> (r: Option<String>)
        ensures
            match r {
                Some(s) => self.device_id_text() == Some(s@),
                None => self.device_id_text() is None,
            },
    {
        match self.first_option(GLOBAL_DEV_ID) {
            Some(b) => utf8_text(b.as_slice()),
            None => None,
        }
    }

    /// The device identity: `None` where the device-id option is absent,
    /// an `Encoding` error where it is not UTF-8, else the parsed fields.
    pub fn identity(&self) -> (r: Option<Result<DeviceIdentity, DecodeError>>)
        ensures
            match self.first_value(GLOBAL_DEV_ID) {
                None => r is None,
                Some(b) => match utf8_decode(b) {
                    None => r == Some(Err::<DeviceIdentity, DecodeError>(DecodeError::Encoding)),
                    Some(id) => match r {
                        Some(Ok(d)) => identity_of(id) == Some(d@),
                        Some(Err(e)) => e == DecodeError::MalformedIdentity && identity_of(id) is None,
                        None => false,
                    },
                },
            },
    {
        match self.first_option(GLOBAL_DEV_ID) {
            Some(b) => match utf8_text(b.as_slice()) {
                Some(id) => Some(parse_identity(id.as_str())),
                None => Some(Err(DecodeError::Encoding)),
            },
            None => None,
        }
    }

    /// The device serial: the text between the first and second `#` of the device-id.
    pub fn device_serial(&self) -> (r: Option<String>)
        ensures
            match self.device_id_text() {
                Some(id) => match r {
                    Some(n) => serial_of_id(id) == Some(n@),
                    None => serial_of_id(id) is None,
                },
                None => r is None,
            },
    {
        match self.device_id() {
            Some(id) => id_device_serial(id.as_str()),
            None => None,
        }
    }

    /// The device type: the text before the first `#` of the device-id.
    pub fn device_type(&self) -> (r: Option<String>)
        ensures
            match self.device_id_text() {
                Some(id) => match r {
                    Some(t) => type_of_id(id) == Some(t@),
                    None => type_of_id(id) is None,
                },
                None => r is None,
            },
    {
        match self.device_id() {
            Some(id) => id_device_type(id.as_str()),
            None => None,
        }
    }

    /// The protocol version: the tag after the last `#` of the device-id.
    pub fn coiot_version(&self) -> (r: Option<Version>)
        ensures
            r == match self.device_id_text() {
                Some(id) => version_of_id(id),
                None => None,
            },
    {
        match self.device_id() {
            Some(id) => id_version(id.as_str()),
            None => None,
        }
    }

    /// How long the announced status stays valid, in milliseconds.
    pub fn validity_duration(&self) -> (r: Option<u64>)
        ensures
            r == match self.u16_field(STATUS_VALIDITY) {
                Some(f) => Some(validity_millis(f) as u64),
                None => None,
            },
    {
        match self.first_option(STATUS_VALIDITY) {
            Some(b) => match read_u16_le(b.as_slice()) {
                Some(f) => Some(decode_validity(f)),
                None => None,
            },
            None => None,
        }
    }

    /// The sequence number of the announcement.
    pub fn msg_seq_no(&self) -> (r: Option<u16>)
        ensures
            r == self.u16_field(STATUS_SERIAL),
    {
        match self.first_option(STATUS_SERIAL) {
            Some(b) => read_u16_le(b.as_slice()),
            None => None,
        }
    }

    /// The payload as text.
    pub fn payload_text(&self) -> (r: Result<String, DecodeError>)
        ensures
            match r {
                Ok(s) => utf8_decode(self.payload@) == Some(s@),
                Err(e) => e == DecodeError::Encoding && utf8_decode(self.payload@) is None,
            },
    {
        match utf8_text(self.payload.as_slice()) {
            Some(s) => Ok(s),
            None => Err(DecodeError::Encoding),
        }
    }

    /// Appends `value` to the values listed under option number `code`.
    pub fn add_option(&mut self, code: u16, value: Vec<u8>)
        ensures
            final(self).code == old(self).code,
            final(self).payload == old(self).payload,
            forall|c: u16|
                #[trigger] final(self).option_values(c) == (if c == code {
                    Some(
                        match old(self).option_values(code) {
                            Some(vs) => vs,
                            None => Seq::empty(),
                        }.push(value@),
                    )
                } else {
                    old(self).option_values(c)
                }),
    {
        let ghost s = old(self).options.deep_view();
        assert(value.deep_view() =~= value@);
        match self.find_option(code) {
            Some(i) => {
                let (c, mut vals) = self.options.remove(i);
                let ghost old_vals = vals.deep_view();
                vals.push(value);
                assert(vals.deep_view() =~= old_vals.push(value@));
                self.options.insert(i, (c, vals));
                proof {
                    assert(self.options.deep_view() =~= s.update(i as int, (code, old_vals.push(value@))));
                    assert forall|c: u16| #[trigger] self.option_values(c) == (if c == code {
                        Some(old_vals.push(value@))
                    } else {
                        lookup(s, c)
                    }) by {
                        lemma_lookup_update(s, i as int, old_vals.push(value@), c);
                    }
                }
            },
            None => {
                let mut vals: Vec<Vec<u8>> = Vec::new();
                vals.push(value);
                assert(vals.deep_view() =~= seq![value@]);
                assert(Seq::<Seq<u8>>::empty().push(value@) =~= seq![value@]);
                self.options.push((code, vals));
                proof {
                    assert(self.options.deep_view() =~= s.push((code, seq![value@])));
                    assert forall|c: u16| #[trigger] self.option_values(c) == (if c == code {
                        Some(seq![value@])
                    } else {
                        lookup(s, c)
                    }) by {
                        lemma_lookup_push(s, (code, seq![value@]), c);
                    }
                }
            },
        }
    }
}

} // verus!

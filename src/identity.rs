//! The device-id string `<type>#<serial>#<version>` and its three fields.
use vstd::prelude::*;

use crate::error::DecodeError;

verus! {

/// The CoIoT protocol version announced in a device-id.
#[derive(Debug, Copy, Clone, PartialEq, Eq, Structural)]
pub enum Version {
    V1,
    V2,
    Unknown(u32),
}

/// The three fields of a device-id.
#[derive(Debug, Clone)]
pub struct DeviceIdentity {
    pub device_type: String,
    pub device_serial: String,
    pub version: Version,
}

impl DeviceIdentity {
    pub open spec fn view(&self) -> (Seq<char>, Seq<char>, Version) {
        (self.device_type@, self.device_serial@, self.version)
    }
}

/// `i` is the position of the first `#` in `s`.
pub open spec fn is_first_hash(s: Seq<char>, i: int) -> bool {
    &&& 0 <= i < s.len()
    &&& s[i] == '#'
    &&& forall|j: int| 0 <= j < i ==> s[j] != '#'
}

/// `i` is the position of the last `#` in `s`.
pub open spec fn is_last_hash(s: Seq<char>, i: int) -> bool {
    &&& 0 <= i < s.len()
    &&& s[i] == '#'
    &&& forall|j: int| i < j < s.len() ==> s[j] != '#'
}

pub open spec fn hash_free(s: Seq<char>) -> bool {
    forall|j: int| 0 <= j < s.len() ==> s[j] != '#'
}

/// What stands before and after the first `#`, if there is one.
pub open spec fn split_first(s: Seq<char>) -> Option<(Seq<char>, Seq<char>)> {
    if exists|i: int| is_first_hash(s, i) {
        let i = choose|i: int| is_first_hash(s, i);
        Some((s.subrange(0, i), s.subrange(i + 1, s.len() as int)))
    } else {
        None
    }
}

/// What stands before and after the last `#`, if there is one.
pub open spec fn split_last(s: Seq<char>) -> Option<(Seq<char>, Seq<char>)> {
    if exists|i: int| is_last_hash(s, i) {
        let i = choose|i: int| is_last_hash(s, i);
        Some((s.subrange(0, i), s.subrange(i + 1, s.len() as int)))
    } else {
        None
    }
}

/// The device type: the text before the first `#`.
pub open spec fn type_of_id(s: Seq<char>) -> Option<Seq<char>> {
    match split_first(s) {
        Some(p) => Some(p.0),
        None => None,
    }
}

/// The device serial: the text between the first and the second `#`.
pub open spec fn serial_of_id(s: Seq<char>) -> Option<Seq<char>> {
    match split_first(s) {
        Some(p) => match split_first(p.1) {
            Some(q) => Some(q.0),
            None => None,
        },
        None => None,
    }
}

/// The version tag: the text after the last `#`.
pub open spec fn tag_of_id(s: Seq<char>) -> Option<Seq<char>> {
    match split_last(s) {
        Some(p) => Some(p.1),
        None => None,
    }
}

pub open spec fn is_digit(c: char) -> bool {
    '0' <= c && c <= '9'
}

/// The number that a non-empty string of decimal digits denotes.
pub open spec fn digits_value(s: Seq<char>) -> nat
    decreases s.len(),
{
    if s.len() == 0 {
        0
    } else {
        digits_value(s.drop_last()) * 10 + ((s.last() as u32 - '0' as u32) as nat)
    }
}

/// Every character of `d` is an ASCII digit.
pub open spec fn all_digits(d: Seq<char>) -> bool {
    forall|i: int| 0 <= i < d.len() ==> is_digit(#[trigger] d[i])
}

/// A decimal text without its optional leading `+`.
pub open spec fn unsigned_digits(s: Seq<char>) -> Seq<char> {
    if s.len() > 0 && s[0] == '+' {
        s.drop_first()
    } else {
        s
    }
}

/// The `u32` that a decimal text denotes: an optional `+`, then one or
/// more ASCII digits, with a value that fits in 32 bits.
pub open spec fn u32_text_value(s: Seq<char>) -> Option<u32> {
    let d = unsigned_digits(s);
    if d.len() > 0 && all_digits(d) && digits_value(d) <= u32::MAX {
        Some(digits_value(d) as u32)
    } else {
        None
    }
}

/// The version that a tag announces: `1` and `2` are the known versions,
/// any other decimal number is kept as it is.
pub open spec fn version_of_tag(t: Seq<char>) -> Option<Version> {
    if t == seq!['1'] {
        Some(Version::V1)
    } else if t == seq!['2'] {
        Some(Version::V2)
    } else {
        match u32_text_value(t) {
            Some(n) => Some(Version::Unknown(n)),
            None => None,
        }
    }
}

pub open spec fn version_of_id(s: Seq<char>) -> Option<Version> {
    match tag_of_id(s) {
        Some(t) => version_of_tag(t),
        None => None,
    }
}

/// The three fields of a device-id, where all of them can be read.
pub open spec fn identity_of(s: Seq<char>) -> Option<(Seq<char>, Seq<char>, Version)> {
    match (type_of_id(s), serial_of_id(s), version_of_id(s)) {
        (Some(t), Some(n), Some(v)) => Some((t, n, v)),
        _ => None,
    }
}

/// `t#n#v` as one string.
pub open spec fn join_id(t: Seq<char>, n: Seq<char>, v: Seq<char>) -> Seq<char> {
    t + seq!['#'] + n + seq!['#'] + v
}

proof fn lemma_split_first_at(s: Seq<char>, i: int)
    requires
        is_first_hash(s, i),
    ensures
        split_first(s) == Some((s.subrange(0, i), s.subrange(i + 1, s.len() as int))),
{
    let k = choose|k: int| is_first_hash(s, k);
    if k < i {
        assert(s[k] == '#');
    } else if i < k {
        assert(s[i] == '#');
    }
}

proof fn lemma_split_last_at(s: Seq<char>, i: int)
    requires
        is_last_hash(s, i),
    ensures
        split_last(s) == Some((s.subrange(0, i), s.subrange(i + 1, s.len() as int))),
{
    let k = choose|k: int| is_last_hash(s, k);
    if k < i {
        assert(s[i] == '#');
    } else if i < k {
        assert(s[k] == '#');
    }
}

/// Joining three `#`-free fields as `t#n#v` and splitting the result gives
/// the three fields back.
pub proof fn lemma_join_then_split(t: Seq<char>, n: Seq<char>, v: Seq<char>)
    requires
        hash_free(t),
        hash_free(n),
        hash_free(v),
    ensures
        type_of_id(join_id(t, n, v)) == Some(t),
        serial_of_id(join_id(t, n, v)) == Some(n),
        tag_of_id(join_id(t, n, v)) == Some(v),
        version_of_id(join_id(t, n, v)) == version_of_tag(v),
{
    let s = join_id(t, n, v);
    let a = t.len() as int;
    let b = a + 1 + n.len();
    assert(forall|j: int| 0 <= j < a ==> s[j] == t[j]);
    assert(s[a] == '#');
    lemma_split_first_at(s, a);
    let rest = s.subrange(a + 1, s.len() as int);
    assert(rest =~= n + seq!['#'] + v);
    assert(forall|j: int| 0 <= j < n.len() ==> rest[j] == n[j]);
    assert(rest[n.len() as int] == '#');
    lemma_split_first_at(rest, n.len() as int);
    assert(rest.subrange(0, n.len() as int) =~= n);
    assert(s.subrange(0, a) =~= t);
    assert(forall|j: int| b < j < s.len() ==> s[j] == v[j - b - 1]);
    assert(s[b] == '#');
    lemma_split_last_at(s, b);
    assert(s.subrange(b + 1, s.len() as int) =~= v);
}

/// Any device-id with at least two `#` separators splits into a type, a
/// serial and a version tag, and `type#serial#tag` splits into the same
/// three fields and announces the same version.
pub proof fn lemma_identity_round_trip(s: Seq<char>)
    requires
        serial_of_id(s) is Some,
    ensures
        type_of_id(s) is Some,
        tag_of_id(s) is Some,
        type_of_id(join_id(type_of_id(s)->0, serial_of_id(s)->0, tag_of_id(s)->0)) == type_of_id(s),
        serial_of_id(join_id(type_of_id(s)->0, serial_of_id(s)->0, tag_of_id(s)->0)) == serial_of_id(s),
        tag_of_id(join_id(type_of_id(s)->0, serial_of_id(s)->0, tag_of_id(s)->0)) == tag_of_id(s),
        identity_of(join_id(type_of_id(s)->0, serial_of_id(s)->0, tag_of_id(s)->0)) == identity_of(s),
{
    let i = choose|i: int| is_first_hash(s, i);
    let rest = s.subrange(i + 1, s.len() as int);
    let k = choose|k: int| is_first_hash(rest, k);
    assert(rest[k] == s[i + 1 + k]);
    lemma_last_hash_exists(s, i + 1 + k);
    let hi = choose|m: int| is_last_hash(s, m);
    assert(is_last_hash(s, hi));
    lemma_split_last_at(s, hi);
    let t = s.subrange(0, i);
    let n = rest.subrange(0, k);
    let v = s.subrange(hi + 1, s.len() as int);
    assert(hash_free(t));
    assert(hash_free(n));
    assert(forall|j: int| 0 <= j < v.len() ==> v[j] == s[hi + 1 + j]);
    assert(hash_free(v));
    lemma_join_then_split(t, n, v);
}

/// Where `s` has a `#` at `i`, it has a last `#`.
proof fn lemma_last_hash_exists(s: Seq<char>, i: int)
    requires
        0 <= i < s.len(),
        s[i] == '#',
    ensures
        exists|m: int| is_last_hash(s, m),
    decreases s.len() - i,
{
    if !is_last_hash(s, i) {
        let m = choose|m: int| i < m < s.len() && s[m] == '#';
        lemma_last_hash_exists(s, m);
    }
}

/// A prefix of a string of digits denotes no more than the whole.
proof fn lemma_digits_prefix(d: Seq<char>, k: int)
    requires
        0 <= k <= d.len(),
        forall|i: int| 0 <= i < d.len() ==> is_digit(#[trigger] d[i]),
    ensures
        digits_value(d.subrange(0, k)) <= digits_value(d),
    decreases d.len(),
{
    if k < d.len() {
        assert(d.drop_last().subrange(0, k) =~= d.subrange(0, k));
        lemma_digits_prefix(d.drop_last(), k);
        let x = digits_value(d.drop_last());
        assert(x <= x * 10) by (nonlinear_arith);
    } else {
        assert(d.subrange(0, k) =~= d);
    }
}

/// Reads a decimal `u32`: an optional `+`, then one or more ASCII digits
/// whose value fits in 32 bits.
fn parse_u32(s: &str) -> (r: Option<u32>)
    ensures
        r == u32_text_value(s@),
{
    let n = s.unicode_len();
    let start: usize = if n > 0 && s.get_char(0) == '+' {
        1
    } else {
        0
    };
    let ghost d = s@.subrange(start as int, n as int);
    assert(d =~= unsigned_digits(s@));
    if start == n {
        return None;
    }
    let mut acc: u64 = 0;
    let mut i: usize = start;
    assert(s@.subrange(start as int, start as int) =~= Seq::<char>::empty());
    while i < n
        invariant
            n == s@.len(),
            start <= i <= n,
            d == s@.subrange(start as int, n as int),
            d == unsigned_digits(s@),
            d.len() > 0,
            forall|k: int| start <= k < i ==> is_digit(#[trigger] s@[k]),
            acc == digits_value(s@.subrange(start as int, i as int)),
            acc <= u32::MAX,
        decreases n - i,
    {
        let c = s.get_char(i);
        if !('0' <= c && c <= '9') {
            assert(d[i - start] == c);
            assert(!is_digit(d[i - start]));
            return None;
        }
        let ghost pre = s@.subrange(start as int, i as int);
        let ghost next = s@.subrange(start as int, i + 1);
        assert(next.drop_last() =~= pre);
        assert(next.last() == c);
        acc = acc * 10 + (c as u32 - '0' as u32) as u64;
        if acc > 0xffff_ffff {
            proof {
                if all_digits(d) {
                    assert(d.subrange(0, i + 1 - start) =~= next);
                    lemma_digits_prefix(d, i + 1 - start);
                }
            }
            return None;
        }
        i = i + 1;
    }
    assert(s@.subrange(start as int, n as int) =~= d);
    assert(forall|k: int| 0 <= k < d.len() ==> d[k] == s@[k + start]);
    Some(acc as u32)
}

/// The position of the first `#` in `s`.
fn find_first_hash(s: &str) -> (r: Option<usize>)
    ensures
        match r {
            Some(i) => is_first_hash(s@, i as int) && split_first(s@) == Some(
                (s@.subrange(0, i as int), s@.subrange(i + 1, s@.len() as int)),
            ),
            None => hash_free(s@) && split_first(s@) is None,
        },
{
    let n = s.unicode_len();
    let mut i: usize = 0;
    while i < n
        invariant
            n == s@.len(),
            i <= n,
            forall|j: int| 0 <= j < i ==> s@[j] != '#',
        decreases n - i,
    {
        if s.get_char(i) == '#' {
            proof {
                lemma_split_first_at(s@, i as int);
            }
            return Some(i);
        }
        i = i + 1;
    }
    None
}

/// The position of the last `#` in `s`.
fn find_last_hash(s: &str) -> (r: Option<usize>)
    ensures
        match r {
            Some(i) => is_last_hash(s@, i as int) && split_last(s@) == Some(
                (s@.subrange(0, i as int), s@.subrange(i + 1, s@.len() as int)),
            ),
            None => hash_free(s@) && split_last(s@) is None,
        },
{
    let n = s.unicode_len();
    let mut i: usize = n;
    while i > 0
        invariant
            n == s@.len(),
            i <= n,
            forall|j: int| i <= j < n ==> s@[j] != '#',
        decreases i,
    {
        if s.get_char(i - 1) == '#' {
            proof {
                lemma_split_last_at(s@, i - 1);
            }
            return Some(i - 1);
        }
        i = i - 1;
    }
    None
}

/// The device type of a device-id: the text before its first `#`.
pub fn id_device_type(id: &str) -> (r: Option<String>)
    ensures
        match r {
            Some(t) => type_of_id(id@) == Some(t@),
            None => type_of_id(id@) is None,
        },
{
    match find_first_hash(id) {
        Some(i) => Some(id.substring_char(0, i).to_owned()),
        None => None,
    }
}

/// The device serial of a device-id: the text between its first and second `#`.
pub fn id_device_serial(id: &str) -> (r: Option<String>)
    ensures
        match r {
            Some(n) => serial_of_id(id@) == Some(n@),
            None => serial_of_id(id@) is None,
        },
{
    match find_first_hash(id) {
        Some(i) => {
            let len = id.unicode_len();
            let rest = id.substring_char(i + 1, len);
            match find_first_hash(rest) {
                Some(k) => Some(rest.substring_char(0, k).to_owned()),
                None => None,
            }
        },
        None => None,
    }
}

/// The version announced by a version tag.
pub fn version_from_tag(tag: &str) -> (r: Option<Version>)
    ensures
        r == version_of_tag(tag@),
{
    let n = tag.unicode_len();
    if n == 1 && tag.get_char(0) == '1' {
        assert(tag@ =~= seq!['1']);
        Some(Version::V1)
    } else if n == 1 && tag.get_char(0) == '2' {
        assert(tag@ =~= seq!['2']);
        Some(Version::V2)
    } else {
        assert(n != 1 || tag@[0] != '1' ==> tag@ != seq!['1']);
        assert(n != 1 || tag@[0] != '2' ==> tag@ != seq!['2']);
        match parse_u32(tag) {
            Some(v) => Some(Version::Unknown(v)),
            None => None,
        }
    }
}

/// The version of a device-id, read from the text after its last `#`.
pub fn id_version(id: &str) -> (r: Option<Version>)
    ensures
        r == version_of_id(id@),
{
    let len = id.unicode_len();
    match find_last_hash(id) {
        Some(i) => version_from_tag(id.substring_char(i + 1, len)),
        None => None,
    }
}

/// Splits a device-id into its type, serial and version.
pub fn parse_identity(id: &str) -> (r: Result<DeviceIdentity, DecodeError>)
    ensures
        match r {
            Ok(d) => identity_of(id@) == Some(d@),
            Err(e) => e == DecodeError::MalformedIdentity && identity_of(id@) is None,
        },
{
    let t = id_device_type(id);
    let n = id_device_serial(id);
    let v = id_version(id);
    match (t, n, v) {
        (Some(t), Some(n), Some(v)) => Ok(DeviceIdentity { device_type: t, device_serial: n, version: v }),
        _ => Err(DecodeError::MalformedIdentity),
    }
}

} // verus!

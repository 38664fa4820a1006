//! The descriptor catalog and the status stream, decoded from JSON.
use vstd::prelude::*;

use crate::error::DecodeError;
use crate::json::{field_of, json_number, json_str, json_u32, Json};

verus! {

pub type BlockId = u32;

pub type SenId = u32;

/// A sensor category.
#[derive(Debug, Copy, Clone, PartialEq, Eq, Structural)]
pub enum SenType {
    Alarm,
    Current,
    Energy,
    EventCounter,
    Power,
    Status,
    Voltage,
}

/// The category that a wire code names; only seven codes name one.
pub open spec fn category_of(code: Seq<char>) -> Option<SenType> {
    if code == seq!['A'] {
        Some(SenType::Alarm)
    } else if code == seq!['I'] {
        Some(SenType::Current)
    } else if code == seq!['E'] {
        Some(SenType::Energy)
    } else if code == seq!['E', 'V', 'C'] {
        Some(SenType::EventCounter)
    } else if code == seq!['P'] {
        Some(SenType::Power)
    } else if code == seq!['S'] {
        Some(SenType::Status)
    } else if code == seq!['V'] {
        Some(SenType::Voltage)
    } else {
        None
    }
}

/// A block: a logical sub-device that sensors belong to.
#[derive(Debug)]
pub struct BlockDesc {
    pub id: BlockId,
    pub descr: String,
}

/// The tokens of a sensor's range.
#[derive(Debug)]
pub struct RangeDesc(pub Vec<String>);

/// A sensor definition.
#[derive(Debug)]
pub struct SenDesc {
    pub id: SenId,
    pub descr: String,
    pub kind: SenType,
    pub unit: Option<String>,
    pub range: Option<RangeDesc>,
    pub links: Vec<BlockId>,
}

/// The catalog of a device's blocks and sensors.
#[derive(Debug)]
pub struct Description {
    pub blk: Vec<BlockDesc>,
    pub sen: Vec<SenDesc>,
}

/// One reading of the status stream; the value is kept as the decimal
/// text of the JSON number.
#[derive(Debug)]
pub struct StatusEntry {
    pub channel: u32,
    pub id: SenId,
    pub value: String,
}

/// The status stream of a device.
#[derive(Debug)]
pub struct Status {
    pub generic: Vec<StatusEntry>,
}

pub type BlockView = (u32, Seq<char>);

pub type SensorView = (u32, Seq<char>, SenType, Option<Seq<char>>, Option<Seq<Seq<char>>>, Seq<u32>);

pub type EntryView = (u32, u32, Seq<char>);

pub open spec fn strings_view(v: Seq<String>) -> Seq<Seq<char>> {
    v.map_values(|s: String| s@)
}

pub open spec fn opt_string_view(o: Option<String>) -> Option<Seq<char>> {
    match o {
        Some(s) => Some(s@),
        None => None,
    }
}

impl BlockDesc {
    pub open spec fn view(&self) -> BlockView {
        (self.id, self.descr@)
    }
}

impl RangeDesc {
    pub open spec fn view(&self) -> Seq<Seq<char>> {
        strings_view(self.0@)
    }
}

impl SenDesc {
    pub open spec fn view(&self) -> SensorView {
        (
            self.id,
            self.descr@,
            self.kind,
            opt_string_view(self.unit),
            match self.range {
                Some(r) => Some(r@),
                None => None,
            },
            self.links@,
        )
    }
}

impl Description {
    pub open spec fn view(&self) -> (Seq<BlockView>, Seq<SensorView>) {
        (self.blk@.map_values(|b: BlockDesc| b@), self.sen@.map_values(|s: SenDesc| s@))
    }
}

impl StatusEntry {
    pub open spec fn view(&self) -> EntryView {
        (self.channel, self.id, self.value@)
    }
}

impl Status {
    pub open spec fn view(&self) -> Seq<EntryView> {
        self.generic@.map_values(|e: StatusEntry| e@)
    }
}

/// A field that holds one `u32` or a list of them, as a list.
pub open spec fn ids_of(j: Json) -> Option<Seq<u32>> {
    match j {
        Json::Array(items) => if forall|i: int| 0 <= i < items@.len() ==> #[trigger] json_u32(items@[i]) is Some {
            Some(items@.map_values(|x: Json| json_u32(x)->0))
        } else {
            None
        },
        _ => match json_u32(j) {
            Some(u) => Some(seq![u]),
            None => None,
        },
    }
}

/// A field that holds one string or a list of them, as a list.
pub open spec fn texts_of(j: Json) -> Option<Seq<Seq<char>>> {
    match j {
        Json::Array(items) => if forall|i: int| 0 <= i < items@.len() ==> #[trigger] json_str(items@[i]) is Some {
            Some(items@.map_values(|x: Json| json_str(x)->0))
        } else {
            None
        },
        _ => match json_str(j) {
            Some(s) => Some(seq![s]),
            None => None,
        },
    }
}

/// An optional string field: absent or `null` is `Some(None)`, a string
/// is `Some(Some(s))`, anything else does not decode.
pub open spec fn optional_text(f: Option<Json>) -> Option<Option<Seq<char>>> {
    match f {
        None => Some(None),
        Some(Json::Null) => Some(None),
        Some(j) => match json_str(j) {
            Some(s) => Some(Some(s)),
            None => None,
        },
    }
}

/// An optional range field, read as `optional_text` reads a string.
pub open spec fn optional_texts(f: Option<Json>) -> Option<Option<Seq<Seq<char>>>> {
    match f {
        None => Some(None),
        Some(Json::Null) => Some(None),
        Some(j) => match texts_of(j) {
            Some(s) => Some(Some(s)),
            None => None,
        },
    }
}

pub open spec fn opt_u32(f: Option<Json>) -> Option<u32> {
    match f {
        Some(j) => json_u32(j),
        None => None,
    }
}

pub open spec fn opt_str(f: Option<Json>) -> Option<Seq<char>> {
    match f {
        Some(j) => json_str(j),
        None => None,
    }
}

/// A block object `{"I": id, "D": description}`.
pub open spec fn block_of(j: Json) -> Option<BlockView> {
    match (opt_u32(field_of(j, seq!['I'])), opt_str(field_of(j, seq!['D']))) {
        (Some(id), Some(d)) => Some((id, d)),
        _ => None,
    }
}

/// A sensor object `{"I", "D", "T", "U"?, "R"?, "L"}`.
pub open spec fn sensor_of(j: Json) -> Option<SensorView> {
    match (
        opt_u32(field_of(j, seq!['I'])),
        opt_str(field_of(j, seq!['D'])),
        opt_str(field_of(j, seq!['T'])),
        optional_text(field_of(j, seq!['U'])),
        optional_texts(field_of(j, seq!['R'])),
        field_of(j, seq!['L']),
    ) {
        (Some(id), Some(d), Some(t), Some(u), Some(r), Some(l)) => match (category_of(t), ids_of(l)) {
            (Some(k), Some(links)) => Some((id, d, k, u, r, links)),
            _ => None,
        },
        _ => None,
    }
}

/// A status entry `[channel, sensor-id, value]`, read by position.
pub open spec fn entry_of(j: Json) -> Option<EntryView> {
    match j {
        Json::Array(items) => if items@.len() == 3 {
            match (json_u32(items@[0]), json_u32(items@[1]), json_number(items@[2])) {
                (Some(c), Some(i), Some(v)) => Some((c, i, v)),
                _ => None,
            }
        } else {
            None
        },
        _ => None,
    }
}

/// A descriptor document `{"blk": [...], "sen": [...]}`.
pub open spec fn description_of(j: Json) -> Option<(Seq<BlockView>, Seq<SensorView>)> {
    match (field_of(j, seq!['b', 'l', 'k']), field_of(j, seq!['s', 'e', 'n'])) {
        (Some(Json::Array(bs)), Some(Json::Array(ss))) => if (forall|i: int|
            0 <= i < bs@.len() ==> #[trigger] block_of(bs@[i]) is Some) && (forall|i: int|
            0 <= i < ss@.len() ==> #[trigger] sensor_of(ss@[i]) is Some) {
            Some(
                (
                    bs@.map_values(|x: Json| block_of(x)->0),
                    ss@.map_values(|x: Json| sensor_of(x)->0),
                ),
            )
        } else {
            None
        },
        _ => None,
    }
}

/// A status document `{"G": [[channel, sensor-id, value], ...]}`.
pub open spec fn status_of(j: Json) -> Option<Seq<EntryView>> {
    match field_of(j, seq!['G']) {
        Some(Json::Array(es)) => if forall|i: int| 0 <= i < es@.len() ==> #[trigger] entry_of(es@[i]) is Some {
            Some(es@.map_values(|x: Json| entry_of(x)->0))
        } else {
            None
        },
        _ => None,
    }
}

/// A single id or text and a one-element list holding it decode to the
/// same list.
pub proof fn lemma_one_or_many(j: Json, items: Vec<Json>)
    requires
        items@ == seq![j],
        !(j is Array),
    ensures
        ids_of(Json::Array(items)) == ids_of(j),
        texts_of(Json::Array(items)) == texts_of(j),
{
    if json_u32(j) is Some {
        assert(items@.map_values(|x: Json| json_u32(x)->0) =~= seq![json_u32(j)->0]);
    } else {
        assert(json_u32(items@[0]) is None);
    }
    if json_str(j) is Some {
        assert(items@.map_values(|x: Json| json_str(x)->0) =~= seq![json_str(j)->0]);
    } else {
        assert(json_str(items@[0]) is None);
    }
}

/// Exactly the seven codes `A`, `I`, `E`, `EVC`, `P`, `S` and `V` name a
/// category, each its own.
pub proof fn lemma_category_codes(code: Seq<char>)
    ensures
        category_of(seq!['A']) == Some(SenType::Alarm),
        category_of(seq!['I']) == Some(SenType::Current),
        category_of(seq!['E']) == Some(SenType::Energy),
        category_of(seq!['E', 'V', 'C']) == Some(SenType::EventCounter),
        category_of(seq!['P']) == Some(SenType::Power),
        category_of(seq!['S']) == Some(SenType::Status),
        category_of(seq!['V']) == Some(SenType::Voltage),
        category_of(code) is Some <==> (code == seq!['A'] || code == seq!['I'] || code == seq!['E']
            || code == seq!['E', 'V', 'C'] || code == seq!['P'] || code == seq!['S'] || code
            == seq!['V']),
{
    assert(seq!['A'][0] == 'A' && seq!['I'][0] == 'I' && seq!['E'][0] == 'E');
    assert(seq!['P'][0] == 'P' && seq!['S'][0] == 'S' && seq!['V'][0] == 'V');
    assert(seq!['E'].len() == 1 && seq!['E', 'V', 'C'].len() == 3);
}

impl SenType {
    /// The category that a wire code names.
    pub fn from_code(code: &str) -> (r: Option<SenType>)
        ensures
            r == category_of(code@),
    {
        let n = code.unicode_len();
        if n == 1 {
            let c = code.get_char(0);
            assert(code@ =~= seq![c]);
            match c {
                'A' => Some(SenType::Alarm),
                'I' => Some(SenType::Current),
                'E' => Some(SenType::Energy),
                'P' => Some(SenType::Power),
                'S' => Some(SenType::Status),
                'V' => Some(SenType::Voltage),
                _ => None,
            }
        } else if n == 3 && code.get_char(0) == 'E' && code.get_char(1) == 'V' && code.get_char(2)
            == 'C' {
            assert(code@ =~= seq!['E', 'V', 'C']);
            Some(SenType::EventCounter)
        } else {
            assert(code@.len() != 1);
            assert(code@ != seq!['E', 'V', 'C']);
            None
        }
    }
}

/// Reads a field that holds one `u32` or a list of them.
pub fn decode_ids(j: &Json) -> (r: Option<Vec<u32>>)
    ensures
        match r {
            Some(v) => ids_of(*j) == Some(v@),
            None => ids_of(*j) is None,
        },
{
    match j {
        Json::Array(items) => {
            let mut out: Vec<u32> = Vec::new();
            let mut i: usize = 0;
            while i < items.len()
                invariant
                    *j == Json::Array(*items),
                    i <= items@.len(),
                    out@.len() == i,
                    forall|k: int| 0 <= k < i ==> json_u32(#[trigger] items@[k]) == Some(out@[k]),
                decreases items@.len() - i,
            {
                match items[i].as_u32() {
                    Some(u) => out.push(u),
                    None => return None,
                }
                i = i + 1;
            }
            assert(out@ =~= items@.map_values(|x: Json| json_u32(x)->0));
            Some(out)
        },
        _ => match j.as_u32() {
            Some(u) => {
                let v = vec![u];
                assert(v@ =~= seq![u]);
                Some(v)
            },
            None => None,
        },
    }
}

/// Reads a field that holds one string or a list of them.
pub fn decode_texts(j: &Json) -> (r: Option<Vec<String>>)
    ensures
        match r {
            Some(v) => texts_of(*j) == Some(strings_view(v@)),
            None => texts_of(*j) is None,
        },
{
    match j {
        Json::Array(items) => {
            let mut out: Vec<String> = Vec::new();
            let mut i: usize = 0;
            while i < items.len()
                invariant
                    *j == Json::Array(*items),
                    i <= items@.len(),
                    out@.len() == i,
                    forall|k: int| 0 <= k < i ==> json_str(#[trigger] items@[k]) == Some(out@[k]@),
                decreases items@.len() - i,
            {
                match items[i].as_text() {
                    Some(u) => out.push(u),
                    None => return None,
                }
                i = i + 1;
            }
            assert(strings_view(out@) =~= items@.map_values(|x: Json| json_str(x)->0));
            Some(out)
        },
        _ => match j.as_text() {
            Some(u) => {
                let v = vec![u];
                assert(strings_view(v@) =~= seq![v@[0]@]);
                Some(v)
            },
            None => None,
        },
    }
}

fn decode_unit(j: &Json, key: &str) -> (r: Option<Option<String>>)
    ensures
        match r {
            Some(u) => optional_text(field_of(*j, key@)) == Some(opt_string_view(u)),
            None => optional_text(field_of(*j, key@)) is None,
        },
{
    match j.field(key) {
        None => Some(None),
        Some(Json::Null) => Some(None),
        Some(j) => match j.as_text() {
            Some(s) => Some(Some(s)),
            None => None,
        },
    }
}

fn decode_range(j: &Json, key: &str) -> (r: Option<Option<RangeDesc>>)
    ensures
        match r {
            Some(Some(d)) => optional_texts(field_of(*j, key@)) == Some(Some(d@)),
            Some(None) => optional_texts(field_of(*j, key@)) == Some(None::<Seq<Seq<char>>>),
            None => optional_texts(field_of(*j, key@)) is None,
        },
{
    match j.field(key) {
        None => Some(None),
        Some(Json::Null) => Some(None),
        Some(j) => match decode_texts(j) {
            Some(v) => Some(Some(RangeDesc(v))),
            None => None,
        },
    }
}

fn get_u32(j: &Json, key: &str) -> (r: Option<u32>)
    ensures
        r == opt_u32(field_of(*j, key@)),
{
    match j.field(key) {
        Some(j) => j.as_u32(),
        None => None,
    }
}

fn get_text(j: &Json, key: &str) -> (r: Option<String>)
    ensures
        match r {
            Some(s) => opt_str(field_of(*j, key@)) == Some(s@),
            None => opt_str(field_of(*j, key@)) is None,
        },
{
    match j.field(key) {
        Some(j) => j.as_text(),
        None => None,
    }
}

impl BlockDesc {
    /// Reads a block object `{"I": id, "D": description}`.
    pub fn from_json(j: &Json) -> (r: Option<BlockDesc>)
        ensures
            match r {
                Some(b) => block_of(*j) == Some(b@),
                None => block_of(*j) is None,
            },
    {
        proof {
            reveal_strlit("I");
            assert("I"@ =~= seq!['I']);
            reveal_strlit("D");
            assert("D"@ =~= seq!['D']);
        }
        let id = get_u32(j, "I");
        let d = get_text(j, "D");
        match (id, d) {
            (Some(id), Some(descr)) => Some(BlockDesc { id, descr }),
            _ => None,
        }
    }
}

impl SenDesc {
    /// Reads a sensor object `{"I", "D", "T", "U"?, "R"?, "L"}`.
    pub fn from_json(j: &Json) -> (r: Option<SenDesc>)
        ensures
            match r {
                Some(s) => sensor_of(*j) == Some(s@),
                None => sensor_of(*j) is None,
            },
    {
        proof {
            reveal_strlit("I");
            assert("I"@ =~= seq!['I']);
            reveal_strlit("D");
            assert("D"@ =~= seq!['D']);
            reveal_strlit("T");
            assert("T"@ =~= seq!['T']);
            reveal_strlit("U");
            assert("U"@ =~= seq!['U']);
            reveal_strlit("R");
            assert("R"@ =~= seq!['R']);
            reveal_strlit("L");
            assert("L"@ =~= seq!['L']);
        }
        let id = get_u32(j, "I");
        let d = get_text(j, "D");
        let t = get_text(j, "T");
        let u = decode_unit(j, "U");
        let rg = decode_range(j, "R");
        let l = j.field("L");
        match (id, d, t, u, rg, l) {
            (Some(id), Some(descr), Some(t), Some(unit), Some(range), Some(l)) => {
                match (SenType::from_code(t.as_str()), decode_ids(l)) {
                    (Some(kind), Some(links)) => Some(SenDesc { id, descr, kind, unit, range, links }),
                    _ => None,
                }
            },
            _ => None,
        }
    }
}

impl StatusEntry {
    /// Reads a status entry `[channel, sensor-id, value]` by position.
    pub fn from_json(j: &Json) -> (r: Option<StatusEntry>)
        ensures
            match r {
                Some(e) => entry_of(*j) == Some(e@),
                None => entry_of(*j) is None,
            },
    {
        match j {
            Json::Array(items) => {
                if items.len() != 3 {
                    return None;
                }
                match (items[0].as_u32(), items[1].as_u32(), items[2].as_number_text()) {
                    (Some(channel), Some(id), Some(value)) => Some(StatusEntry { channel, id, value }),
                    _ => None,
                }
            },
            _ => None,
        }
    }
}

impl Description {
    /// Reads a descriptor document `{"blk": [...], "sen": [...]}`.
    pub fn from_json(j: &Json) -> (r: Result<Description, DecodeError>)
        ensures
            match r {
                Ok(d) => description_of(*j) == Some(d@),
                Err(e) => e == DecodeError::Schema(None) && description_of(*j) is None,
            },
    {
        proof {
            reveal_strlit("blk");
            assert("blk"@ =~= seq!['b', 'l', 'k']);
            reveal_strlit("sen");
            assert("sen"@ =~= seq!['s', 'e', 'n']);
        }
        let bf = j.field("blk");
        let sf = j.field("sen");
        let (bs, ss) = match (bf, sf) {
            (Some(Json::Array(bs)), Some(Json::Array(ss))) => (bs, ss),
            _ => return Err(DecodeError::Schema(None)),
        };
        let mut blk: Vec<BlockDesc> = Vec::new();
        let mut i: usize = 0;
        while i < bs.len()
            invariant
                field_of(*j, seq!['b', 'l', 'k']) == Some(Json::Array(*bs)),
                i <= bs@.len(),
                blk@.len() == i,
                forall|k: int| 0 <= k < i ==> block_of(#[trigger] bs@[k]) == Some(blk@[k]@),
            decreases bs@.len() - i,
        {
            match BlockDesc::from_json(&bs[i]) {
                Some(b) => blk.push(b),
                None => return Err(DecodeError::Schema(None)),
            }
            i = i + 1;
        }
        let mut sen: Vec<SenDesc> = Vec::new();
        let mut i: usize = 0;
        while i < ss.len()
            invariant
                field_of(*j, seq!['b', 'l', 'k']) == Some(Json::Array(*bs)),
                field_of(*j, seq!['s', 'e', 'n']) == Some(Json::Array(*ss)),
                forall|k: int| 0 <= k < bs@.len() ==> block_of(#[trigger] bs@[k]) == Some(blk@[k]@),
                blk@.len() == bs@.len(),
                i <= ss@.len(),
                sen@.len() == i,
                forall|k: int| 0 <= k < i ==> sensor_of(#[trigger] ss@[k]) == Some(sen@[k]@),
            decreases ss@.len() - i,
        {
            match SenDesc::from_json(&ss[i]) {
                Some(s) => sen.push(s),
                None => return Err(DecodeError::Schema(None)),
            }
            i = i + 1;
        }
        let d = Description { blk, sen };
        assert(d@.0 =~= bs@.map_values(|x: Json| block_of(x)->0));
        assert(d@.1 =~= ss@.map_values(|x: Json| sensor_of(x)->0));
        Ok(d)
    }
}

impl Status {
    /// Reads a status document `{"G": [[channel, sensor-id, value], ...]}`.
    pub fn from_json(j: &Json) -> (r: Result<Status, DecodeError>)
        ensures
            match r {
                Ok(s) => status_of(*j) == Some(s@),
                Err(e) => e == DecodeError::Schema(None) && status_of(*j) is None,
            },
    {
        proof {
            reveal_strlit("G");
            assert("G"@ =~= seq!['G']);
        }
        let es = match j.field("G") {
            Some(Json::Array(es)) => es,
            _ => return Err(DecodeError::Schema(None)),
        };
        let mut generic: Vec<StatusEntry> = Vec::new();
        let mut i: usize = 0;
        while i < es.len()
            invariant
                field_of(*j, seq!['G']) == Some(Json::Array(*es)),
                i <= es@.len(),
                generic@.len() == i,
                forall|k: int| 0 <= k < i ==> entry_of(#[trigger] es@[k]) == Some(generic@[k]@),
            decreases es@.len() - i,
        {
            match StatusEntry::from_json(&es[i]) {
                Some(e) => generic.push(e),
                None => return Err(DecodeError::Schema(None)),
            }
            i = i + 1;
        }
        let s = Status { generic };
        assert(s@ =~= es@.map_values(|x: Json| entry_of(x)->0));
        Ok(s)
    }

    /// The entries, in stream order.
    pub fn gen_entries(&self) -> (r: &Vec<StatusEntry>)
        ensures
            r@ == self.generic@,
    {
        &self.generic
    }
}

} // verus!

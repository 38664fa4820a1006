//! Joins a status entry to the sensor and blocks that the descriptor
//! defines for it.
use vstd::prelude::*;
use vstd::string::StringExecFns;

use crate::model::{
    strings_view, BlockDesc, BlockView, Description, SenDesc, SensorView, Status, StatusEntry,
};

verus! {

/// A reading with the descriptor's words attached.
#[derive(Debug)]
pub struct Reading {
    pub id: u32,
    /// The block or blocks that the sensor belongs to.
    pub device: String,
    pub descr: String,
    /// The decimal text of the value.
    pub value: String,
    /// The unit; empty where the sensor has none.
    pub unit: String,
    pub range: Option<Vec<String>>,
}

/// What the correlator makes of one status entry.
#[derive(Debug)]
pub enum Rendered {
    /// No sensor of the descriptor has the entry's sensor id.
    NoDescription { channel: u32, id: u32, value: String },
    Reading(Reading),
}

pub type ReadingView = (u32, Seq<char>, Seq<char>, Seq<char>, Seq<char>, Option<Seq<Seq<char>>>);

impl Reading {
    pub open spec fn view(&self) -> ReadingView {
        (
            self.id,
            self.device@,
            self.descr@,
            self.value@,
            self.unit@,
            match self.range {
                Some(r) => Some(strings_view(r@)),
                None => None,
            },
        )
    }
}

/// The label of a sensor that belongs to no known block.
pub open spec fn unknown_device() -> Seq<char> {
    seq!['U', 'n', 'k', 'n', 'o', 'w', 'n', ' ', 'd', 'e', 'v', 'i', 'c', 'e']
}

/// The first sensor with id `id`.
pub open spec fn find_sensor(sen: Seq<SensorView>, id: u32) -> Option<SensorView>
    decreases sen.len(),
{
    if sen.len() == 0 {
        None
    } else if sen[0].0 == id {
        Some(sen[0])
    } else {
        find_sensor(sen.drop_first(), id)
    }
}

/// The descriptions of the blocks whose id is among `links`, in
/// descriptor order.
pub open spec fn matching_blocks(blk: Seq<BlockView>, links: Seq<u32>) -> Seq<Seq<char>>
    decreases blk.len(),
{
    if blk.len() == 0 {
        Seq::empty()
    } else {
        let rest = matching_blocks(blk.drop_last(), links);
        if links.contains(blk.last().0) {
            rest.push(blk.last().1)
        } else {
            rest
        }
    }
}

/// The texts one after the other, with no separator.
pub open spec fn concat_all(ds: Seq<Seq<char>>) -> Seq<char>
    decreases ds.len(),
{
    if ds.len() == 0 {
        Seq::empty()
    } else {
        concat_all(ds.drop_last()) + ds.last()
    }
}

/// The device label of a sensor linked to `links`: "Unknown device" where
/// no block matches, else the matching descriptions run together.
pub open spec fn device_label(blk: Seq<BlockView>, links: Seq<u32>) -> Seq<char> {
    let m = matching_blocks(blk, links);
    if m.len() == 0 {
        unknown_device()
    } else {
        concat_all(m)
    }
}

/// The unit text of a sensor: empty where it has none.
pub open spec fn unit_text(u: Option<Seq<char>>) -> Seq<char> {
    match u {
        Some(s) => s,
        None => Seq::empty(),
    }
}

/// The record for a status entry `(channel, id, value)` under a descriptor.
pub open spec fn rendered_of(e: (u32, u32, Seq<char>), desc: (Seq<BlockView>, Seq<SensorView>)) -> Option<ReadingView> {
    match find_sensor(desc.1, e.1) {
        Some(s) => Some((e.1, device_label(desc.0, s.5), s.1, e.2, unit_text(s.3), s.4)),
        None => None,
    }
}

/// `r` is what the correlator owes for entry `e` under `desc`.
pub open spec fn renders(r: Rendered, e: (u32, u32, Seq<char>), desc: (Seq<BlockView>, Seq<SensorView>)) -> bool {
    match rendered_of(e, desc) {
        Some(v) => r matches Rendered::Reading(x) && x@ == v,
        None => r matches Rendered::NoDescription { channel, id, value } && channel == e.0 && id
            == e.1 && value@ == e.2,
    }
}

/// The device label follows the number of blocks that match: none gives
/// "Unknown device", one gives its description, two or more give their
/// descriptions run together in descriptor order.
pub proof fn lemma_device_label_rule(blk: Seq<BlockView>, links: Seq<u32>)
    ensures
        matching_blocks(blk, links).len() == 0 ==> device_label(blk, links) == unknown_device(),
        matching_blocks(blk, links).len() == 1 ==> device_label(blk, links) == matching_blocks(blk, links)[0],
        matching_blocks(blk, links).len() >= 2 ==> device_label(blk, links) == concat_all(
            matching_blocks(blk, links).drop_last(),
        ) + matching_blocks(blk, links).last(),
{
    let m = matching_blocks(blk, links);
    if m.len() == 1 {
        assert(m.drop_last().len() == 0);
        assert(concat_all(m.drop_last()) == Seq::<char>::empty());
        assert(concat_all(m) =~= m[0]);
    }
}

fn contains_id(links: &Vec<u32>, id: u32) -> (r: bool)
    ensures
        r == links@.contains(id),
{
    let mut i: usize = 0;
    while i < links.len()
        invariant
            i <= links@.len(),
            forall|k: int| 0 <= k < i ==> links@[k] != id,
        decreases links@.len() - i,
    {
        if links[i] == id {
            assert(links@[i as int] == id);
            return true;
        }
        i = i + 1;
    }
    false
}

fn copy_texts(v: &Vec<String>) -> (r: Vec<String>)
    ensures
        strings_view(r@) == strings_view(v@),
{
    let mut out: Vec<String> = Vec::new();
    let mut i: usize = 0;
    while i < v.len()
        invariant
            i <= v@.len(),
            out@.len() == i,
            forall|k: int| 0 <= k < i ==> out@[k]@ == v@[k]@,
        decreases v@.len() - i,
    {
        out.push(v[i].clone());
        i = i + 1;
    }
    assert(strings_view(out@) =~= strings_view(v@));
    out
}

/// The device label of a sensor linked to `links`.
pub fn label_for(blk: &Vec<BlockDesc>, links: &Vec<u32>) -> (r: String)
    ensures
        r@ == device_label(blk@.map_values(|b: BlockDesc| b@), links@),
{
    let ghost bs = blk@.map_values(|b: BlockDesc| b@);
    let mut out = String::new();
    let mut count: usize = 0;
    let mut i: usize = 0;
    while i < blk.len()
        invariant
            bs == blk@.map_values(|b: BlockDesc| b@),
            i <= blk@.len(),
            count <= i,
            count == matching_blocks(bs.subrange(0, i as int), links@).len(),
            out@ == concat_all(matching_blocks(bs.subrange(0, i as int), links@)),
        decreases blk@.len() - i,
    {
        let ghost pre = bs.subrange(0, i as int);
        let ghost next = bs.subrange(0, i + 1);
        assert(next.drop_last() =~= pre);
        assert(next.last() == blk@[i as int]@);
        if contains_id(links, blk[i].id) {
            let ghost m = matching_blocks(pre, links@);
            assert(matching_blocks(next, links@) == m.push(blk@[i as int].descr@));
            assert(m.push(blk@[i as int].descr@).drop_last() =~= m);
            out.append(blk[i].descr.as_str());
            count = count + 1;
        }
        i = i + 1;
    }
    assert(bs.subrange(0, blk@.len() as int) =~= bs);
    if count == 0 {
        let u = String::from_str("Unknown device");
        proof {
            reveal_strlit("Unknown device");
        }
        assert(u@ =~= unknown_device());
        u
    } else {
        out
    }
}

/// The first sensor of the descriptor with id `id`.
fn find_sensor_desc(sen: &Vec<SenDesc>, id: u32) -> (r: Option<&SenDesc>)
    ensures
        match r {
            Some(s) => find_sensor(sen@.map_values(|s: SenDesc| s@), id) == Some(s@),
            None => find_sensor(sen@.map_values(|s: SenDesc| s@), id) is None,
        },
{
    let ghost s = sen@.map_values(|s: SenDesc| s@);
    let mut i: usize = 0;
    assert(s.subrange(0, s.len() as int) =~= s);
    while i < sen.len()
        invariant
            s == sen@.map_values(|s: SenDesc| s@),
            i <= s.len(),
            find_sensor(s, id) == find_sensor(s.subrange(i as int, s.len() as int), id),
        decreases s.len() - i,
    {
        let ghost t = s.subrange(i as int, s.len() as int);
        assert(t.drop_first() =~= s.subrange(i + 1, s.len() as int));
        assert(t[0] == sen@[i as int]@);
        if sen[i].id == id {
            return Some(&sen[i]);
        }
        i = i + 1;
    }
    None
}

impl StatusEntry {
    /// Joins this entry to its sensor and the sensor's blocks.
    pub fn correlate(&self, desc: &Description) -> (r: Rendered)
        ensures
            renders(r, self@, desc@),
    {
        match find_sensor_desc(&desc.sen, self.id) {
            Some(s) => {
                let device = label_for(&desc.blk, &s.links);
                let unit = match &s.unit {
                    Some(u) => u.clone(),
                    None => String::new(),
                };
                let range = match &s.range {
                    Some(r) => Some(copy_texts(&r.0)),
                    None => None,
                };
                Rendered::Reading(
                    Reading {
                        id: self.id,
                        device,
                        descr: s.descr.clone(),
                        value: self.value.clone(),
                        unit,
                        range,
                    },
                )
            },
            None => Rendered::NoDescription {
                channel: self.channel,
                id: self.id,
                value: self.value.clone(),
            },
        }
    }
}

/// The records for all entries of a status stream, in stream order.
pub fn print_status(desc: &Description, status: &Status) -> (r: Vec<Rendered>)
    ensures
        r@.len() == status@.len(),
        forall|i: int| 0 <= i < r@.len() ==> renders(#[trigger] r@[i], status@[i], desc@),
{
    let es = status.gen_entries();
    let mut out: Vec<Rendered> = Vec::new();
    let mut i: usize = 0;
    while i < es.len()
        invariant
            es@ == status.generic@,
            i <= es@.len(),
            out@.len() == i,
            forall|k: int| 0 <= k < i ==> renders(#[trigger] out@[k], status@[k], desc@),
        decreases es@.len() - i,
    {
        out.push(es[i].correlate(desc));
        i = i + 1;
    }
    out
}

} // verus!

//! The two secondary indexes over the record collection: what each record
//! contributes to them, and how several entries under one key are reduced to
//! a single value.

use vstd::prelude::*;
use crate::record::{WorkoutInputs, WorkoutRecord};

verus! {

/// Model of the value stored beside an index key: the five fields of a record
/// that are not the key, in record order.
pub type ValueModel = (Seq<char>, Seq<char>, u32, Seq<char>, u8);

/// Model of one index entry.
pub ghost struct Entry {
    /// Identity of the record that contributed the entry.
    pub source: u64,
    pub key: Seq<char>,
    pub value: ValueModel,
}

/// Model of a key and the value stored beside it, without their source.
pub ghost struct Pair {
    pub key: Seq<char>,
    pub value: ValueModel,
}

/// A stored record together with the identity the store gave it.
#[derive(Debug, PartialEq, Eq)]
pub struct Document {
    pub id: u64,
    pub contents: WorkoutInputs,
}

/// One entry of a secondary index.
#[derive(Debug, PartialEq, Eq)]
pub struct Mapping {
    /// Identity of the record that contributed the entry.
    pub source: u64,
    pub key: String,
    pub value: (String, String, u32, String, u8),
}

/// A key of a secondary index and the value stored beside it: what a
/// reduction sees of an entry.
#[derive(Debug, PartialEq, Eq)]
pub struct MappedValue {
    pub key: String,
    pub value: (String, String, u32, String, u8),
}

/// The condition that a single-result query met no entry at all.
#[derive(Debug, Clone, Copy, PartialEq, Eq)]
pub struct NotFound;

/// Model of an index value.
pub open spec fn value_model(value: (String, String, u32, String, u8)) -> ValueModel {
    (value.0@, value.1@, value.2, value.3@, value.4)
}

impl View for Mapping {
    type V = Entry;

    open spec fn view(&self) -> Entry {
        Entry { source: self.source, key: self.key@, value: value_model(self.value) }
    }
}

impl Clone for Mapping {
    fn clone(&self) -> (res: Self)
        ensures
            res@ == self@,
    {
        Mapping {
            source: self.source,
            key: self.key.clone(),
            value: (
                self.value.0.clone(),
                self.value.1.clone(),
                self.value.2,
                self.value.3.clone(),
                self.value.4,
            ),
        }
    }
}

impl View for MappedValue {
    type V = Pair;

    open spec fn view(&self) -> Pair {
        Pair { key: self.key@, value: value_model(self.value) }
    }
}

/// The models of a sequence of index entries, in the same order.
pub open spec fn entries(mappings: Seq<Mapping>) -> Seq<Entry> {
    mappings.map_values(|m: Mapping| m@)
}

/// The models of a sequence of keys with their values, in the same order.
pub open spec fn pairs(mappings: Seq<MappedValue>) -> Seq<Pair> {
    mappings.map_values(|m: MappedValue| m@)
}

/// The key and the value of an entry.
pub open spec fn pair_of(entry: Entry) -> Pair {
    Pair { key: entry.key, value: entry.value }
}

/// The keys and the values of a sequence of entries, in the same order.
pub open spec fn stripped(entries: Seq<Entry>) -> Seq<Pair> {
    entries.map_values(|e: Entry| pair_of(e))
}

/// What a record contributes to the index by user: the user name as key, the
/// remaining fields as value.
pub open spec fn user_entry(id: u64, record: WorkoutRecord) -> Entry {
    Entry {
        source: id,
        key: record.username,
        value: (
            record.date,
            record.time,
            record.body_weight,
            record.muscle_group,
            record.intensity,
        ),
    }
}

/// What a record contributes to the index by date: the date as key, the
/// remaining fields as value, the user name first.
pub open spec fn date_entry(id: u64, record: WorkoutRecord) -> Entry {
    Entry {
        source: id,
        key: record.date,
        value: (
            record.username,
            record.time,
            record.body_weight,
            record.muscle_group,
            record.intensity,
        ),
    }
}

/// Holds of the entries filed under `key`.
pub open spec fn has_key(key: Seq<char>) -> spec_fn(Entry) -> bool {
    |e: Entry| e.key == key
}

/// Holds of the entries whose value names `username` in its first place, as
/// every entry of the index by date does for the owner of its record.
pub open spec fn names_user(username: Seq<char>) -> spec_fn(Entry) -> bool {
    |e: Entry| e.value.0 == username
}

/// The record from which the index by user derived `key` and `value`.
pub open spec fn user_record(key: Seq<char>, value: ValueModel) -> WorkoutRecord {
    WorkoutRecord {
        username: key,
        date: value.0,
        time: value.1,
        body_weight: value.2,
        muscle_group: value.3,
        intensity: value.4,
    }
}

/// The record from which the index by date derived `key` and `value`.
pub open spec fn date_record(key: Seq<char>, value: ValueModel) -> WorkoutRecord {
    WorkoutRecord {
        username: value.0,
        date: key,
        time: value.1,
        body_weight: value.2,
        muscle_group: value.3,
        intensity: value.4,
    }
}

/// The value of the last of `run` whose key is `key`, if any.
pub open spec fn last_for_key(run: Seq<Pair>, key: Seq<char>) -> Option<ValueModel>
    decreases run.len(),
{
    if run.len() == 0 {
        None
    } else if run.last().key == key {
        Some(run.last().value)
    } else {
        last_for_key(run.drop_last(), key)
    }
}

/// The single value that stands for a run of mapped values: that of the last
/// one sharing the key of the first. Nothing stands for an empty run.
pub open spec fn reduced(run: Seq<Pair>) -> Option<ValueModel> {
    if run.len() == 0 {
        None
    } else {
        last_for_key(run, run[0].key)
    }
}

/// Scans `mappings` once from the front and keeps the value of the last one
/// visited whose key equals the key of the first.
pub fn last_wins(mappings: &[MappedValue]) -> (res: Result<
    (String, String, u32, String, u8),
    NotFound,
>)
    ensures
        match res {
            Ok(value) => reduced(pairs(mappings@)) == Some(value_model(value)),
            Err(_) => reduced(pairs(mappings@)).is_none(),
        },
        res.is_ok() <==> mappings@.len() > 0,
{
    let n: usize = mappings.len();
    if n == 0 {
        return Err(NotFound);
    }
    let ghost all = pairs(mappings@);
    let mut kept: usize = 0;
    let mut i: usize = 1;
    proof {
        assert(all.take(1).drop_last().len() == 0);
        assert(all.take(1).last() == all[0]);
    }
    while i < n
        invariant
            n == mappings@.len(),
            all == pairs(mappings@),
            1 <= i <= n,
            kept < i,
            last_for_key(all.take(i as int), all[0].key) == Some(all[kept as int].value),
        decreases n - i,
    {
        proof {
            assert(all.take(i + 1).drop_last() =~= all.take(i as int));
            assert(all.take(i + 1).last() == all[i as int]);
        }
        if mappings[i].key == mappings[0].key {
            kept = i;
        }
        i += 1;
    }
    proof {
        assert(all.take(n as int) =~= all);
    }
    let value = &mappings[kept].value;
    Ok((value.0.clone(), value.1.clone(), value.2, value.3.clone(), value.4))
}

/// The entries of `index` filed under `key`, in index order.
pub fn with_key(index: &[Mapping], key: &str) -> (res: Vec<Mapping>)
    ensures
        entries(res@) == entries(index@).filter(has_key(key@)),
{
    let wanted: String = key.to_owned();
    let n: usize = index.len();
    let ghost all = entries(index@);
    let mut res: Vec<Mapping> = Vec::new();
    let mut i: usize = 0;
    proof {
        reveal(Seq::filter);
        assert(entries(res@) =~= all.take(0).filter(has_key(key@)));
    }
    while i < n
        invariant
            n == index@.len(),
            all == entries(index@),
            wanted@ == key@,
            i <= n,
            entries(res@) == all.take(i as int).filter(has_key(key@)),
        decreases n - i,
    {
        let ghost before = entries(res@);
        proof {
            reveal(Seq::filter);
            assert(all.take(i + 1).drop_last() =~= all.take(i as int));
            assert(all.take(i + 1).last() == all[i as int]);
        }
        if index[i].key == wanted {
            res.push(index[i].clone());
            proof {
                assert(entries(res@) =~= before.push(all[i as int]));
            }
        }
        i += 1;
    }
    proof {
        assert(all.take(n as int) =~= all);
    }
    res
}

/// The keys of `mappings` with their values, in the same order: what a
/// reduction is given of index entries.
pub fn mapped_values(mappings: &[Mapping]) -> (res: Vec<MappedValue>)
    ensures
        pairs(res@) == stripped(entries(mappings@)),
{
    let n: usize = mappings.len();
    let mut res: Vec<MappedValue> = Vec::new();
    let mut i: usize = 0;
    while i < n
        invariant
            n == mappings@.len(),
            i <= n,
            res@.len() == i,
            forall|k: int| 0 <= k < i ==> (#[trigger] res@[k])@ == pair_of(mappings@[k]@),
        decreases n - i,
    {
        let from = &mappings[i];
        res.push(
            MappedValue {
                key: from.key.clone(),
                value: (
                    from.value.0.clone(),
                    from.value.1.clone(),
                    from.value.2,
                    from.value.3.clone(),
                    from.value.4,
                ),
            },
        );
        i += 1;
    }
    proof {
        assert(pairs(res@) =~= stripped(entries(mappings@)));
    }
    res
}

/// The index of the record collection by user name.
#[derive(Debug, Clone, Copy, PartialEq, Eq)]
pub struct UserView;

/// The index of the record collection by date.
#[derive(Debug, Clone, Copy, PartialEq, Eq)]
pub struct DateView;

impl UserView {
    /// The entry that `document` contributes to the index by user.
    pub fn map(&self, document: Document) -> (res: Mapping)
        ensures
            res@ == user_entry(document.id, document.contents@),
    {
        let Document { id, contents } = document;
        Mapping {
            source: id,
            key: contents.username,
            value: (
                contents.date,
                contents.time,
                contents.body_weight,
                contents.muscle_group,
                contents.intensity,
            ),
        }
    }

    /// Reduces the mapped values of one key to the most recent value: the
    /// last one in the order given. Whether they are themselves results of
    /// an earlier reduction makes no difference.
    pub fn reduce(&self, mappings: &[MappedValue], _rereduce: bool) -> (res: Result<
        (String, String, u32, String, u8),
        NotFound,
    >)
        ensures
            match res {
                Ok(value) => reduced(pairs(mappings@)) == Some(value_model(value)),
                Err(_) => reduced(pairs(mappings@)).is_none(),
            },
            res.is_ok() <==> mappings@.len() > 0,
    {
        last_wins(mappings)
    }

    /// Puts a key of this index and the value stored beside it back together
    /// into the record they were derived from.
    pub fn record(&self, key: String, value: (String, String, u32, String, u8)) -> (res:
        WorkoutInputs)
        ensures
            res@ == user_record(key@, value_model(value)),
    {
        WorkoutInputs {
            username: key,
            date: value.0,
            time: value.1,
            body_weight: value.2,
            muscle_group: value.3,
            intensity: value.4,
        }
    }
}

impl DateView {
    /// The entry that `document` contributes to the index by date.
    pub fn map(&self, document: Document) -> (res: Mapping)
        ensures
            res@ == date_entry(document.id, document.contents@),
    {
        let Document { id, contents } = document;
        Mapping {
            source: id,
            key: contents.date,
            value: (
                contents.username,
                contents.time,
                contents.body_weight,
                contents.muscle_group,
                contents.intensity,
            ),
        }
    }

    /// Reduces the mapped values of one key to the most recent value: the
    /// last one in the order given. Whether they are themselves results of
    /// an earlier reduction makes no difference.
    pub fn reduce(&self, mappings: &[MappedValue], _rereduce: bool) -> (res: Result<
        (String, String, u32, String, u8),
        NotFound,
    >)
        ensures
            match res {
                Ok(value) => reduced(pairs(mappings@)) == Some(value_model(value)),
                Err(_) => reduced(pairs(mappings@)).is_none(),
            },
            res.is_ok() <==> mappings@.len() > 0,
    {
        last_wins(mappings)
    }

    /// Puts a key of this index and the value stored beside it back together
    /// into the record they were derived from.
    pub fn record(&self, key: String, value: (String, String, u32, String, u8)) -> (res:
        WorkoutInputs)
        ensures
            res@ == date_record(key@, value_model(value)),
    {
        WorkoutInputs {
            username: value.0,
            date: key,
            time: value.1,
            body_weight: value.2,
            muscle_group: value.3,
            intensity: value.4,
        }
    }

    /// Of entries that share a date, those that belong to `username`, in the
    /// order given. The key of this index cannot tell two users apart, so the
    /// user name is compared with the one that each entry stores in its value.
    pub fn for_user(&self, mappings: &[Mapping], username: &str) -> (res: Vec<Mapping>)
        ensures
            entries(res@) == entries(mappings@).filter(names_user(username@)),
    {
        let wanted: String = username.to_owned();
        let n: usize = mappings.len();
        let ghost all = entries(mappings@);
        let mut res: Vec<Mapping> = Vec::new();
        let mut i: usize = 0;
        proof {
            reveal(Seq::filter);
            assert(entries(res@) =~= all.take(0).filter(names_user(username@)));
        }
        while i < n
            invariant
                n == mappings@.len(),
                all == entries(mappings@),
                wanted@ == username@,
                i <= n,
                entries(res@) == all.take(i as int).filter(names_user(username@)),
            decreases n - i,
        {
            let ghost before = entries(res@);
            proof {
                reveal(Seq::filter);
                assert(all.take(i + 1).drop_last() =~= all.take(i as int));
                assert(all.take(i + 1).last() == all[i as int]);
            }
            if mappings[i].value.0 == wanted {
                res.push(mappings[i].clone());
                proof {
                    assert(entries(res@) =~= before.push(all[i as int]));
                }
            }
            i += 1;
        }
        proof {
            assert(all.take(n as int) =~= all);
        }
        res
    }
}

} // verus!

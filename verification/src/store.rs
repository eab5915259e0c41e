//! The record store: one append-only collection of workout records and the
//! two secondary indexes derived from it on every insert.

use vstd::prelude::*;
use crate::record::{models, session, WorkoutInputs, WorkoutRecord};
use crate::views::{
    date_entry, entries, has_key, mapped_values, names_user, reduced, stripped, user_entry,
    with_key, DateView, Document, Entry, Mapping, NotFound, UserView,
};

verus! {

/// Holds of the records that belong to `username`.
pub open spec fn owned_by(username: Seq<char>) -> spec_fn(WorkoutRecord) -> bool {
    |r: WorkoutRecord| r.username == username
}

/// Holds of the records logged on `date`, whoever owns them.
pub open spec fn logged_on(date: Seq<char>) -> spec_fn(WorkoutRecord) -> bool {
    |r: WorkoutRecord| r.date == date
}

/// Holds of the records that `username` logged on `date`.
pub open spec fn logged_on_by(date: Seq<char>, username: Seq<char>) -> spec_fn(
    WorkoutRecord,
) -> bool {
    |r: WorkoutRecord| r.date == date && r.username == username
}

/// The index by user that belongs to `records`: one entry per record, in
/// insertion order, each naming the position of its record as its source.
pub open spec fn user_index(records: Seq<WorkoutRecord>) -> Seq<Entry> {
    Seq::new(records.len(), |i: int| user_entry(i as u64, records[i]))
}

/// The index by date that belongs to `records`: one entry per record, in
/// insertion order, each naming the position of its record as its source.
pub open spec fn date_index(records: Seq<WorkoutRecord>) -> Seq<Entry> {
    Seq::new(records.len(), |i: int| date_entry(i as u64, records[i]))
}

/// `index` holds one entry per record, the entry at each position names that
/// position as its source, and `picks` selects an entry exactly when `keeps`
/// selects its record.
pub open spec fn tracks(
    index: Seq<Entry>,
    records: Seq<WorkoutRecord>,
    picks: spec_fn(Entry) -> bool,
    keeps: spec_fn(WorkoutRecord) -> bool,
) -> bool {
    &&& index.len() == records.len()
    &&& records.len() <= u64::MAX
    &&& forall|i: int|
        0 <= i < index.len() ==> (#[trigger] index[i]).source == i && picks(index[i]) == keeps(
            records[i],
        )
}

/// Selecting entries of an index and following their sources leads to the
/// selected records, one by one and in the same order.
pub proof fn lemma_selected_sources(
    index: Seq<Entry>,
    records: Seq<WorkoutRecord>,
    picks: spec_fn(Entry) -> bool,
    keeps: spec_fn(WorkoutRecord) -> bool,
)
    requires
        tracks(index, records, picks, keeps),
    ensures
        index.filter(picks).len() == records.filter(keeps).len(),
        forall|j: int|
            0 <= j < index.filter(picks).len() ==> {
                let source = (#[trigger] index.filter(picks)[j]).source as int;
                &&& 0 <= source < records.len()
                &&& index[source] == index.filter(picks)[j]
                &&& records[source] == records.filter(keeps)[j]
            },
    decreases index.len(),
{
    reveal(Seq::filter);
    if index.len() > 0 {
        let shorter = index.drop_last();
        let fewer = records.drop_last();
        assert(tracks(shorter, fewer, picks, keeps)) by {
            assert forall|i: int| 0 <= i < shorter.len() implies (#[trigger] shorter[i]).source == i
                && picks(shorter[i]) == keeps(fewer[i]) by {
                assert(shorter[i] == index[i]);
            }
        }
        lemma_selected_sources(shorter, fewer, picks, keeps);
        assert(index.last() == index[index.len() - 1]);
        assert forall|j: int| 0 <= j < index.filter(picks).len() implies {
            let source = (#[trigger] index.filter(picks)[j]).source as int;
            &&& 0 <= source < records.len()
            &&& index[source] == index.filter(picks)[j]
            &&& records[source] == records.filter(keeps)[j]
        } by {
            if j < shorter.filter(picks).len() {
                let source = shorter.filter(picks)[j].source as int;
                assert(shorter[source] == index[source]);
                assert(fewer[source] == records[source]);
            }
        }
    }
}

/// Holds of the entries of which both `first` and `second` hold.
pub open spec fn both(first: spec_fn(Entry) -> bool, second: spec_fn(Entry) -> bool) -> spec_fn(
    Entry,
) -> bool {
    |e: Entry| first(e) && second(e)
}

/// Selecting in two stages gives what selecting by both conditions at once
/// gives.
pub proof fn lemma_two_stages(
    index: Seq<Entry>,
    first: spec_fn(Entry) -> bool,
    second: spec_fn(Entry) -> bool,
)
    ensures
        index.filter(first).filter(second) == index.filter(both(first, second)),
    decreases index.len(),
{
    reveal(Seq::filter);
    if index.len() > 0 {
        lemma_two_stages(index.drop_last(), first, second);
        if first(index.last()) {
            let head = index.drop_last().filter(first);
            assert(head.push(index.last()).drop_last() =~= head);
        }
    }
}

/// An append-only store of workout records with an index by user and an
/// index by date.
///
/// Its model is the sequence of the records inserted so far, oldest first.
/// The identity of a record is its position in that sequence.
pub struct RecordStore {
    records: Vec<WorkoutInputs>,
    by_user: Vec<Mapping>,
    by_date: Vec<Mapping>,
}

impl View for RecordStore {
    type V = Seq<WorkoutRecord>;

    closed spec fn view(&self) -> Seq<WorkoutRecord> {
        models(self.records@)
    }
}

impl RecordStore {
    /// Both indexes are exactly what the records give rise to.
    #[verifier::type_invariant]
    spec fn indexes_in_step(&self) -> bool {
        &&& self.records@.len() <= usize::MAX
        &&& entries(self.by_user@) == user_index(models(self.records@))
        &&& entries(self.by_date@) == date_index(models(self.records@))
    }

    /// A store that holds no record.
    pub fn new() -> (res: Self)
        ensures
            res@ == Seq::<WorkoutRecord>::empty(),
    {
        let records: Vec<WorkoutInputs> = Vec::new();
        let by_user: Vec<Mapping> = Vec::new();
        let by_date: Vec<Mapping> = Vec::new();
        proof {
            assert(models(records@) =~= Seq::<WorkoutRecord>::empty());
            assert(entries(by_user@) =~= user_index(models(records@)));
            assert(entries(by_date@) =~= date_index(models(records@)));
        }
        RecordStore { records, by_user, by_date }
    }

    /// Appends `record` to the collection and files it in both indexes. The
    /// record is stored verbatim; its identity, which is returned, is its
    /// position in the collection.
    pub fn insert(&mut self, record: WorkoutInputs) -> (id: u64)
        ensures
            final(self)@ == old(self)@.push(record@),
            id == old(self)@.len(),
    {
        proof {
            use_type_invariant(&*self);
        }
        let ghost before = models(self.records@);
        let ghost users = entries(self.by_user@);
        let ghost dates = entries(self.by_date@);
        let mut grown = RecordStore::new();
        core::mem::swap(self, &mut grown);
        let RecordStore { mut records, mut by_user, mut by_date } = grown;
        records.push(record.clone());
        let id: u64 = (records.len() - 1) as u64;
        let filed_by_user = UserView.map(Document { id, contents: record.clone() });
        let filed_by_date = DateView.map(Document { id, contents: record });
        by_user.push(filed_by_user);
        by_date.push(filed_by_date);
        proof {
            assert(models(records@) =~= before.push(record@));
            assert(entries(by_user@) =~= users.push(filed_by_user@));
            assert(entries(by_date@) =~= dates.push(filed_by_date@));
            assert(entries(by_user@) =~= user_index(models(records@)));
            assert(entries(by_date@) =~= date_index(models(records@)));
        }
        *self = RecordStore { records, by_user, by_date };
        id
    }

    /// The records that the entries of `picked` come from, in the order of
    /// the entries.
    fn fetch(&self, picked: &Vec<Mapping>) -> (res: Vec<WorkoutInputs>)
        requires
            forall|j: int| 0 <= j < picked@.len() ==> (#[trigger] picked@[j]).source < self@.len(),
        ensures
            res@.len() == picked@.len(),
            forall|j: int|
                0 <= j < picked@.len() ==> (#[trigger] res@[j])@ == self@[picked@[j].source as int],
    {
        let n: usize = picked.len();
        let mut res: Vec<WorkoutInputs> = Vec::new();
        let mut j: usize = 0;
        while j < n
            invariant
                n == picked@.len(),
                j <= n,
                res@.len() == j,
                forall|k: int| 0 <= k < picked@.len() ==> (#[trigger] picked@[k]).source < self@.len(),
                forall|k: int| 0 <= k < j ==> (#[trigger] res@[k])@ == self@[picked@[k].source as int],
            decreases n - j,
        {
            proof {
                use_type_invariant(self);
                assert(picked@[j as int].source < self@.len());
            }
            let source: usize = picked[j].source as usize;
            res.push(self.records[source].clone());
            j += 1;
        }
        res
    }

    /// Every record that belongs to `username`, oldest first. A user without
    /// records has the empty sequence.
    pub fn lookup_by_user(&self, username: &str) -> (res: Vec<WorkoutInputs>)
        ensures
            models(res@) == self@.filter(owned_by(username@)),
    {
        proof {
            use_type_invariant(self);
        }
        let ghost records = models(self.records@);
        let picked = with_key(self.by_user.as_slice(), username);
        proof {
            lemma_selected_sources(
                user_index(records),
                records,
                has_key(username@),
                owned_by(username@),
            );
            assert forall|j: int| 0 <= j < picked@.len() implies (#[trigger] picked@[j]).source
                < self@.len() by {
                assert(entries(picked@)[j].source == picked@[j].source);
            }
        }
        let res = self.fetch(&picked);
        proof {
            assert forall|j: int| 0 <= j < res@.len() implies models(res@)[j] == records.filter(
                owned_by(username@),
            )[j] by {
                assert(entries(picked@)[j].source == picked@[j].source);
            }
            assert(models(res@) =~= records.filter(owned_by(username@)));
        }
        res
    }

    /// Every record that `username_filter` logged on `date`, oldest first.
    ///
    /// The index by date is asked for the date alone; the entries it returns
    /// are then narrowed to the user by the name stored in their values.
    pub fn lookup_by_date(&self, date: &str, username_filter: &str) -> (res: Vec<WorkoutInputs>)
        ensures
            models(res@) == self@.filter(logged_on_by(date@, username_filter@)),
    {
        proof {
            use_type_invariant(self);
        }
        let ghost records = models(self.records@);
        let ghost picks = both(has_key(date@), names_user(username_filter@));
        let ghost keeps = logged_on_by(date@, username_filter@);
        let on_date = with_key(self.by_date.as_slice(), date);
        let picked = DateView.for_user(on_date.as_slice(), username_filter);
        proof {
            lemma_two_stages(date_index(records), has_key(date@), names_user(username_filter@));
            lemma_selected_sources(date_index(records), records, picks, keeps);
            assert forall|j: int| 0 <= j < picked@.len() implies (#[trigger] picked@[j]).source
                < self@.len() by {
                assert(entries(picked@)[j].source == picked@[j].source);
            }
        }
        let res = self.fetch(&picked);
        proof {
            assert forall|j: int| 0 <= j < res@.len() implies models(res@)[j] == records.filter(
                keeps,
            )[j] by {
                assert(entries(picked@)[j].source == picked@[j].source);
            }
            assert(models(res@) =~= records.filter(keeps));
        }
        res
    }

    /// The most recent record of `username`: the last one met when the
    /// entries that the index by user holds for that name are scanned in
    /// order. A user without records is answered with `NotFound`.
    pub fn latest_by_user(&self, username: &str) -> (res: Result<WorkoutInputs, NotFound>)
        ensures
            match res {
                Ok(record) => {
                    &&& self@.filter(owned_by(username@)).len() > 0
                    &&& record@ == self@.filter(owned_by(username@)).last()
                },
                Err(_) => self@.filter(owned_by(username@)).len() == 0,
            },
    {
        proof {
            use_type_invariant(self);
        }
        let ghost records = models(self.records@);
        let picked = with_key(self.by_user.as_slice(), username);
        proof {
            let index = user_index(records);
            let found = index.filter(has_key(username@));
            lemma_selected_sources(index, records, has_key(username@), owned_by(username@));
            if found.len() > 0 {
                index.lemma_filter_pred(has_key(username@), 0);
                index.lemma_filter_pred(has_key(username@), found.len() - 1);
                assert(stripped(found).last().key == stripped(found)[0].key);
                assert(reduced(stripped(found)) == Some(found.last().value));
                let source = found.last().source as int;
                assert(index[source] == user_entry(source as u64, records[source]));
            }
        }
        match UserView.reduce(mapped_values(picked.as_slice()).as_slice(), false) {
            Ok(value) => Ok(UserView.record(username.to_owned(), value)),
            Err(missing) => Err(missing),
        }
    }

    /// The most recent record logged on `date`, whoever owns it: the last
    /// one met when the entries that the index by date holds for that date
    /// are scanned in order. A date without records is answered with
    /// `NotFound`.
    pub fn latest_by_date(&self, date: &str) -> (res: Result<WorkoutInputs, NotFound>)
        ensures
            match res {
                Ok(record) => {
                    &&& self@.filter(logged_on(date@)).len() > 0
                    &&& record@ == self@.filter(logged_on(date@)).last()
                },
                Err(_) => self@.filter(logged_on(date@)).len() == 0,
            },
    {
        proof {
            use_type_invariant(self);
        }
        let ghost records = models(self.records@);
        let picked = with_key(self.by_date.as_slice(), date);
        proof {
            let index = date_index(records);
            let found = index.filter(has_key(date@));
            lemma_selected_sources(index, records, has_key(date@), logged_on(date@));
            if found.len() > 0 {
                index.lemma_filter_pred(has_key(date@), 0);
                index.lemma_filter_pred(has_key(date@), found.len() - 1);
                assert(stripped(found).last().key == stripped(found)[0].key);
                assert(reduced(stripped(found)) == Some(found.last().value));
                let source = found.last().source as int;
                assert(index[source] == date_entry(source as u64, records[source]));
            }
        }
        match DateView.reduce(mapped_values(picked.as_slice()).as_slice(), false) {
            Ok(value) => Ok(DateView.record(date.to_owned(), value)),
            Err(missing) => Err(missing),
        }
    }

    /// The number of records in the store.
    pub fn len(&self) -> (res: usize)
        ensures
            res == self@.len(),
    {
        self.records.len()
    }
}

impl WorkoutInputs {
    /// Makes a record of the six fields, exactly as given, and inserts it
    /// into the store behind `connection`. Returns the identity of the new
    /// record.
    pub fn insert(
        connection: &mut RecordStore,
        username: String,
        date: String,
        time: String,
        body_weight: u32,
        muscle_group: String,
        intensity: u8,
    ) -> (id: u64)
        ensures
            final(connection)@ == old(connection)@.push(
                session(username@, date@, time@, body_weight, muscle_group@, intensity),
            ),
            id == old(connection)@.len(),
    {
        connection.insert(
            WorkoutInputs { username, date, time, body_weight, muscle_group, intensity },
        )
    }
}

} // verus!

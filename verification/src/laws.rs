//! What holds of the store as a whole, stated over its model: the sequence
//! of records inserted so far.

use vstd::prelude::*;
use crate::record::{models, WorkoutInputs, WorkoutRecord};
use crate::store::{logged_on, logged_on_by, owned_by};
use crate::views::{last_for_key, reduced, Pair};

verus! {

/// Round trip: once `fresh` has been inserted after `records`, looking up its
/// user finds it, equal in every field, as the most recent record of that
/// user.
pub proof fn lemma_insert_then_lookup(records: Seq<WorkoutRecord>, fresh: WorkoutRecord)
    ensures
        records.push(fresh).filter(owned_by(fresh.username)).contains(fresh),
        records.push(fresh).filter(owned_by(fresh.username)).last() == fresh,
        records.push(fresh).filter(owned_by(fresh.username)) == records.filter(
            owned_by(fresh.username),
        ).push(fresh),
{
    reveal(Seq::filter);
    let grown = records.push(fresh);
    assert(grown.drop_last() =~= records);
    assert(grown.last() == fresh);
    let found = grown.filter(owned_by(fresh.username));
    assert(found[found.len() - 1] == fresh);
}

/// Inserting a record of one user leaves what is looked up for any other
/// user as it was.
pub proof fn lemma_insert_keeps_other_users(
    records: Seq<WorkoutRecord>,
    fresh: WorkoutRecord,
    username: Seq<char>,
)
    requires
        fresh.username != username,
    ensures
        records.push(fresh).filter(owned_by(username)) == records.filter(owned_by(username)),
{
    reveal(Seq::filter);
    assert(records.push(fresh).drop_last() =~= records);
}

/// Once `fresh` has been inserted after `records`, looking up its date and
/// its user finds it as the most recent record of that user on that date;
/// what is looked up for any other date or user is as it was.
pub proof fn lemma_insert_then_lookup_by_date(
    records: Seq<WorkoutRecord>,
    fresh: WorkoutRecord,
    date: Seq<char>,
    username: Seq<char>,
)
    ensures
        records.push(fresh).filter(logged_on_by(date, username)) == if fresh.date == date
            && fresh.username == username {
            records.filter(logged_on_by(date, username)).push(fresh)
        } else {
            records.filter(logged_on_by(date, username))
        },
{
    reveal(Seq::filter);
    assert(records.push(fresh).drop_last() =~= records);
}

/// The two indexes agree: the records of a user on a date are the records of
/// that user, narrowed to the date, and they are the records of that date,
/// narrowed to the user.
pub proof fn lemma_indexes_agree(
    records: Seq<WorkoutRecord>,
    date: Seq<char>,
    username: Seq<char>,
)
    ensures
        records.filter(logged_on_by(date, username)) == records.filter(owned_by(username)).filter(
            logged_on(date),
        ),
        records.filter(logged_on_by(date, username)) == records.filter(logged_on(date)).filter(
            owned_by(username),
        ),
    decreases records.len(),
{
    reveal(Seq::filter);
    if records.len() > 0 {
        let rest = records.drop_last();
        lemma_indexes_agree(rest, date, username);
        if records.last().username == username {
            let head = rest.filter(owned_by(username));
            assert(head.push(records.last()).drop_last() =~= head);
        }
        if records.last().date == date {
            let head = rest.filter(logged_on(date));
            assert(head.push(records.last()).drop_last() =~= head);
        }
    }
}

/// Looking up a user yields only stored records, and only records of that
/// user.
pub proof fn lemma_lookup_by_user_sound(records: Seq<WorkoutRecord>, username: Seq<char>)
    ensures
        forall|r: WorkoutRecord| #[trigger]
            records.filter(owned_by(username)).contains(r) ==> r.username == username
                && records.contains(r),
{
    let found = records.filter(owned_by(username));
    assert forall|r: WorkoutRecord| #[trigger] found.contains(r) implies r.username == username
        && records.contains(r) by {
        let j = choose|j: int| 0 <= j < found.len() && found[j] == r;
        records.lemma_filter_pred(owned_by(username), j);
        records.lemma_filter_contains_rev(owned_by(username), r);
    }
}

/// Looking up a date and a user yields only stored records, and only records
/// of that date and that user: never those that another user logged on the
/// same date.
pub proof fn lemma_lookup_by_date_sound(
    records: Seq<WorkoutRecord>,
    date: Seq<char>,
    username: Seq<char>,
)
    ensures
        forall|r: WorkoutRecord| #[trigger]
            records.filter(logged_on_by(date, username)).contains(r) ==> r.date == date
                && r.username == username && records.contains(r),
{
    let found = records.filter(logged_on_by(date, username));
    assert forall|r: WorkoutRecord| #[trigger] found.contains(r) implies r.date == date
        && r.username == username && records.contains(r) by {
        let j = choose|j: int| 0 <= j < found.len() && found[j] == r;
        records.lemma_filter_pred(logged_on_by(date, username), j);
        records.lemma_filter_contains_rev(logged_on_by(date, username), r);
    }
}

/// No record is dropped and none is filed under a wrong key: a record is in
/// the store exactly when looking up some user finds it, and that user is
/// then its own.
pub proof fn lemma_lookups_cover_store(records: Seq<WorkoutRecord>)
    ensures
        forall|r: WorkoutRecord| #[trigger]
            records.contains(r) ==> records.filter(owned_by(r.username)).contains(r),
        forall|r: WorkoutRecord, username: Seq<char>| #[trigger]
            records.filter(owned_by(username)).contains(r) ==> records.contains(r) && r.username
                == username,
        records.to_set() == Set::new(
            |r: WorkoutRecord|
                exists|username: Seq<char>| #[trigger]
                    records.filter(owned_by(username)).contains(r),
        ),
{
    assert forall|r: WorkoutRecord| #[trigger] records.contains(r) implies records.filter(
        owned_by(r.username),
    ).contains(r) by {
        let i = choose|i: int| 0 <= i < records.len() && records[i] == r;
        records.lemma_filter_contains(owned_by(r.username), i);
    }
    assert forall|r: WorkoutRecord, username: Seq<char>| #[trigger]
        records.filter(owned_by(username)).contains(r) implies records.contains(r) && r.username
        == username by {
        lemma_lookup_by_user_sound(records, username);
    }
    let found_somewhere = Set::new(
        |r: WorkoutRecord|
            exists|username: Seq<char>| #[trigger] records.filter(owned_by(username)).contains(r),
    );
    assert forall|r: WorkoutRecord| records.to_set().contains(r) <==> found_somewhere.contains(
        r,
    ) by {
        if records.to_set().contains(r) {
            assert(records.contains(r));
            assert(records.filter(owned_by(r.username)).contains(r));
        }
    }
    assert(records.to_set() =~= found_somewhere);
}

/// Every record is found as often as it was inserted: among the records of
/// its own user as often as in the store, among those of another user never.
pub proof fn lemma_lookup_keeps_count(
    records: Seq<WorkoutRecord>,
    username: Seq<char>,
    r: WorkoutRecord,
)
    ensures
        records.filter(owned_by(username)).to_multiset().count(r) == if r.username == username {
            records.to_multiset().count(r)
        } else {
            0
        },
    decreases records.len(),
{
    reveal(Seq::filter);
    broadcast use vstd::seq_lib::group_to_multiset_ensures;

    if records.len() == 0 {
        assert(records.filter(owned_by(username)) =~= Seq::<WorkoutRecord>::empty());
    } else {
        let rest = records.drop_last();
        lemma_lookup_keeps_count(rest, username, r);
        assert(records =~= rest.push(records.last()));
    }
}

/// A user none of whose records is in the store has the empty sequence, and
/// only such a user has it.
pub proof fn lemma_unknown_user_has_none(records: Seq<WorkoutRecord>, username: Seq<char>)
    ensures
        records.filter(owned_by(username)).len() == 0 <==> forall|i: int|
            0 <= i < records.len() ==> (#[trigger] records[i]).username != username,
{
    let found = records.filter(owned_by(username));
    if found.len() > 0 {
        records.lemma_filter_pred(owned_by(username), 0);
        records.lemma_filter_contains_rev(owned_by(username), found[0]);
    }
    if exists|i: int| 0 <= i < records.len() && (#[trigger] records[i]).username == username {
        let i = choose|i: int| 0 <= i < records.len() && (#[trigger] records[i]).username
            == username;
        records.lemma_filter_contains(owned_by(username), i);
    }
}

/// Reading twice without an insert in between gives the same sequence: any
/// two answers to one lookup of one store agree, record by record.
pub proof fn lemma_lookup_repeatable(
    records: Seq<WorkoutRecord>,
    username: Seq<char>,
    first: Seq<WorkoutInputs>,
    second: Seq<WorkoutInputs>,
)
    requires
        models(first) == records.filter(owned_by(username)),
        models(second) == records.filter(owned_by(username)),
    ensures
        first.len() == second.len(),
        forall|i: int| 0 <= i < first.len() ==> (#[trigger] first[i])@ == second[i]@,
{
    assert(models(first).len() == first.len());
    assert(models(second).len() == second.len());
    assert forall|i: int| 0 <= i < first.len() implies (#[trigger] first[i])@ == second[i]@ by {
        assert(models(first)[i] == first[i]@);
        assert(models(second)[i] == second[i]@);
    }
}

/// Last wins: among the mapped values that share the key of the first one,
/// the one at the greatest position gives the reduced value, whatever its
/// fields say.
pub proof fn lemma_reduced_is_last_match(run: Seq<Pair>, last: int)
    requires
        0 <= last < run.len(),
        run[last].key == run[0].key,
        forall|j: int| last < j < run.len() ==> (#[trigger] run[j]).key != run[0].key,
    ensures
        reduced(run) == Some(run[last].value),
{
    lemma_last_for_key_is_last_match(run, run[0].key, last);
}

/// The value kept for `key` is that of the mapped value at the greatest
/// position that carries `key`.
pub proof fn lemma_last_for_key_is_last_match(run: Seq<Pair>, key: Seq<char>, last: int)
    requires
        0 <= last < run.len(),
        run[last].key == key,
        forall|j: int| last < j < run.len() ==> (#[trigger] run[j]).key != key,
    ensures
        last_for_key(run, key) == Some(run[last].value),
    decreases run.len(),
{
    if last < run.len() - 1 {
        lemma_last_for_key_is_last_match(run.drop_last(), key, last);
    }
}

/// A run in which every mapped value carries the same key reduces to the
/// value of its last one.
pub proof fn lemma_reduced_of_one_key(run: Seq<Pair>)
    requires
        run.len() > 0,
        forall|j: int| 0 <= j < run.len() ==> (#[trigger] run[j]).key == run[0].key,
    ensures
        reduced(run) == Some(run.last().value),
{
}

} // verus!

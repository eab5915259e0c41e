//! The command surface: the three things a user can ask of the store, and
//! the dispatch of each to the one store operation that answers it.

use vstd::prelude::*;
use crate::record::{models, session, WorkoutInputs};
use crate::store::{logged_on_by, owned_by, RecordStore};

verus! {

/// What the user asks for.
#[derive(Debug, PartialEq, Eq)]
pub enum MethodType {
    /// Read every workout logged by a user.
    ReadLogs { username: String },
    /// Read the workouts a user logged on one date.
    ReadDate { username: String, date: String },
    /// Log a workout.
    Write {
        /// User's full name, such as `First Last`.
        username: String,
        /// Date of the session, by convention `MM-DD-YYYY`.
        date: String,
        /// Duration of the session, by convention `HH:MM-HH:MM`.
        time: String,
        /// Weight of the user in pounds: the bits of a single-precision number.
        body_weight: u32,
        /// Muscles trained, a free-form comma-separated list.
        muscle_group: String,
        /// Intensity of the session, intended to lie between 1 and 10.
        intensity: u8,
    },
}

/// The parsed command line.
#[derive(Debug, PartialEq, Eq)]
pub struct GymtrackerArgs {
    pub user_method: MethodType,
}

/// What a command produced.
#[derive(Debug, PartialEq, Eq)]
pub enum Outcome {
    /// The records that a read command found, oldest first.
    Logs(Vec<WorkoutInputs>),
    /// The identity of the record that a write command stored.
    Written(u64),
}

/// Carries out one command on `store`: a read leaves the store as it is and
/// yields the matching records, a write appends one record and yields its
/// identity.
pub fn run(store: &mut RecordStore, args: GymtrackerArgs) -> (res: Outcome)
    ensures
        match args.user_method {
            MethodType::ReadLogs { username } => {
                &&& final(store)@ == old(store)@
                &&& res matches Outcome::Logs(found)
                &&& models(found@) == old(store)@.filter(owned_by(username@))
            },
            MethodType::ReadDate { username, date } => {
                &&& final(store)@ == old(store)@
                &&& res matches Outcome::Logs(found)
                &&& models(found@) == old(store)@.filter(logged_on_by(date@, username@))
            },
            MethodType::Write { username, date, time, body_weight, muscle_group, intensity } => {
                &&& final(store)@ == old(store)@.push(
                    session(username@, date@, time@, body_weight, muscle_group@, intensity),
                )
                &&& res == Outcome::Written(old(store)@.len() as u64)
            },
        },
{
    match args.user_method {
        MethodType::ReadLogs { username } => Outcome::Logs(store.lookup_by_user(username.as_str())),
        MethodType::ReadDate { username, date } => Outcome::Logs(
            store.lookup_by_date(date.as_str(), username.as_str()),
        ),
        MethodType::Write { username, date, time, body_weight, muscle_group, intensity } => {
            Outcome::Written(
                WorkoutInputs::insert(
                    store,
                    username,
                    date,
                    time,
                    body_weight,
                    muscle_group,
                    intensity,
                ),
            )
        },
    }
}

} // verus!

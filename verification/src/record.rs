//! The workout record and its mathematical model.

use vstd::prelude::*;

verus! {

/// Mathematical model of one logged training session.
///
/// Text fields are sequences of characters; the body weight is the exact bit
/// pattern of a single-precision number of pounds, so that it is carried
/// through the store without any loss.
pub ghost struct WorkoutRecord {
    pub username: Seq<char>,
    pub date: Seq<char>,
    pub time: Seq<char>,
    pub body_weight: u32,
    pub muscle_group: Seq<char>,
    pub intensity: u8,
}

/// One logged training session, as handed to and returned by the store.
///
/// No field is validated: dates, times and intensities are stored verbatim.
#[derive(Debug, PartialEq, Eq)]
pub struct WorkoutInputs {
    /// User's full name, such as `First Last`.
    pub username: String,
    /// Date of the session, by convention `MM-DD-YYYY`.
    pub date: String,
    /// Duration of the session, by convention `HH:MM-HH:MM`.
    pub time: String,
    /// Weight of the user in pounds: the bits of a single-precision number.
    pub body_weight: u32,
    /// Muscles trained, a free-form comma-separated list.
    pub muscle_group: String,
    /// Intensity of the session, intended to lie between 1 and 10.
    pub intensity: u8,
}

impl View for WorkoutInputs {
    type V = WorkoutRecord;

    open spec fn view(&self) -> WorkoutRecord {
        WorkoutRecord {
            username: self.username@,
            date: self.date@,
            time: self.time@,
            body_weight: self.body_weight,
            muscle_group: self.muscle_group@,
            intensity: self.intensity,
        }
    }
}

impl Clone for WorkoutInputs {
    fn clone(&self) -> (res: Self)
        ensures
            res@ == self@,
    {
        WorkoutInputs {
            username: self.username.clone(),
            date: self.date.clone(),
            time: self.time.clone(),
            body_weight: self.body_weight,
            muscle_group: self.muscle_group.clone(),
            intensity: self.intensity,
        }
    }
}

/// The record made of the six given fields.
pub open spec fn session(
    username: Seq<char>,
    date: Seq<char>,
    time: Seq<char>,
    body_weight: u32,
    muscle_group: Seq<char>,
    intensity: u8,
) -> WorkoutRecord {
    WorkoutRecord { username, date, time, body_weight, muscle_group, intensity }
}

/// The models of a sequence of records, in the same order.
pub open spec fn models(records: Seq<WorkoutInputs>) -> Seq<WorkoutRecord> {
    records.map_values(|r: WorkoutInputs| r@)
}

} // verus!

//! A workout log.
//!
//! * [`record`]: the record of one training session and its model.
//! * [`views`]: the two secondary indexes, by user and by date: what a record
//!   contributes to each, and the last-wins reduction of the entries of a key.
//! * [`store`]: the append-only record store that keeps both indexes in step
//!   with the collection, with lookup by user, by date and user, and of the
//!   most recent record of a key.
//! * [`command`]: the three commands and their dispatch to the store.
//! * [`laws`]: what holds of the store across inserts and lookups.
//!
//! Body weights are carried as the bits of a single-precision number; the
//! library never interprets them.

pub mod command;
pub mod laws;
pub mod record;
pub mod store;
pub mod views;

pub use command::{run, GymtrackerArgs, MethodType, Outcome};
pub use record::{WorkoutInputs, WorkoutRecord};
pub use store::RecordStore;
pub use views::{DateView, Document, MappedValue, Mapping, NotFound, UserView};

//! The logic of an application log: which files belong to it, which of them is shown, where its
//! last lines begin, which files have expired, and what becomes of a message before it is logged.
//!
//! Reading directories and files, removing files and writing records is left to the caller. What
//! was read comes in as plain values, and what is to be done goes out as plain values.

pub mod listing;
pub mod listing_laws;
pub mod mask;
pub mod names;
pub mod record;
pub mod retention;
pub mod sanitize;
pub mod tail;
pub mod text;
pub mod translate;
pub mod translate_laws;

//! Decision logic of a bulk downloader for a dated public archive, and of
//! the loader of the records that the archive carries.
//!
//! The library decides and computes; it performs no input or output. Work
//! that alternates with outside work is given as state machines: the
//! caller performs the action that a machine names and reports what came
//! of it as an event.
//!
//! - [`size`]: size tokens of a listing (`47M`, `1.8G`) as byte counts.
//! - [`listing`]: the latest snapshot folder of an index page, and the
//!   files of a folder's listing, smallest first.
//! - [`discovery`]: fetching the two pages, with attempts and pauses.
//! - [`retry`]: the policies of attempts, pauses and timeouts.
//! - [`transfer`]: the resumable transfer of one file; [`transfer_laws`]
//!   holds what is true of every transfer.
//! - [`scheduler`]: which transfer starts next under the budget of three.
//! - [`report`]: the outcomes of a batch, summed up.
//! - [`orchestrator`]: the course of one run, with its questions.
//! - [`dates`], [`cnpj`], [`sql`], [`load`], [`records`]: the reference
//!   date of a snapshot, registration numbers and activity codes, the text
//!   of statements, the rules of loading, and the records themselves.
//! - [`text`], [`decimal`]: characters and decimal numbers.

pub mod cnpj;
pub mod dates;
pub mod decimal;
pub mod discovery;
pub mod listing;
pub mod load;
pub mod orchestrator;
pub mod records;
pub mod report;
pub mod retry;
pub mod scheduler;
pub mod size;
pub mod sql;
pub mod text;
pub mod transfer;
pub mod transfer_laws;

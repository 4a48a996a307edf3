//! Storage-side logic of a braidpool node: the bead model, the encoding of a
//! bead into a row of the `bead` table and its decoding back, the SQL batch
//! that records a bead with its relatives, and the command handling of the
//! braid manager.

pub mod bead;
pub mod braid_manager;
pub mod database;
pub mod db;
pub mod foreign;
pub mod text;

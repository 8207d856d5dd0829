//! A passphrase generator: a catalog of symbol alphabets, the number of
//! symbols a requested amount of entropy calls for, and the assembly of the
//! drawn symbols into one string.

pub mod alphabet;
pub mod entropy;
pub mod generator;
pub mod natural;
pub mod text;
pub mod words;

//! A remote object read as a sequential byte stream, one ranged request at a
//! time. The decisions of the reader live here as a verified state machine;
//! the network calls that it asks for are made by its driver.
use vstd::prelude::*;

pub mod error;
pub mod range;
pub mod reader;
pub mod laws;

verus! {

} // verus!

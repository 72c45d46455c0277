use vstd::prelude::*;

pub mod error;
pub mod blob_key;
pub mod byte_list;
pub mod client;
pub mod config;
pub mod gate;
pub mod status;
pub mod text;

verus! {

} // verus!

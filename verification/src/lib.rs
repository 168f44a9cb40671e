//! Verified core of `awsome`: the configuration model, AWS CLI command
//! construction, output interpretation, scheduling arithmetic and the managed
//! SSH-config block.

pub mod aws_command;
pub mod cli;
pub mod client;
pub mod config;
pub mod schedule;
pub mod ssh_setup;
pub mod text;
pub mod text_props;

use vstd::prelude::*;

verus! {

} // verus!

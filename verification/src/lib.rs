//! Verified core of the Yimai music player.
use vstd::prelude::*;

pub mod commands;
pub mod json;
pub mod library;
pub mod lxsource;
pub mod models;
pub mod net;
pub mod paths;
pub mod patterns;
pub mod runtime;
pub mod smtc;
pub mod text;
pub mod track;
pub mod updater;

verus! {
} // verus!

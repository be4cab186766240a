//! Jianying drafts from local clips and copy, and a watch over upcoming
//! A-share lockup expiries, with their contracts proved by Verus.
use vstd::prelude::*;

pub mod client;
pub mod date;
pub mod draft;
pub mod id;
pub mod json;
pub mod media;
pub mod model;
pub mod project;
pub mod report;
pub mod script;
pub mod text;
pub mod timeline;
pub mod web;

verus! {
} // verus!

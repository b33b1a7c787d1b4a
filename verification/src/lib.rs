//! Normalisation of the upstream API responses behind the kiiyo.top homepage.
#![allow(unused_imports)]

use vstd::prelude::*;

pub mod json;
pub mod text;
pub mod model;
pub mod sources;
pub mod rank;
pub mod http;
pub mod cache;
pub mod snapshot;
pub mod routes;

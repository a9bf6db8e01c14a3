//! Error codes reused across the contracts so that callers decode them uniformly.
use vstd::prelude::*;

verus! {

pub const UNAUTHORIZED: u32 = 1;

pub const NOT_FOUND: u32 = 2;

pub const ALREADY_EXISTS: u32 = 3;

pub const EXPIRED: u32 = 4;

pub const INSUFFICIENT_AUTH: u32 = 5;

pub const REVOKED: u32 = 6;

pub const REPLAY: u32 = 7;

pub const INACTIVE: u32 = 8;

} // verus!

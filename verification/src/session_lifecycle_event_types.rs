//! Session lifecycle event type constants.

use vstd::prelude::*;

verus! {

pub const CREATED: &'static str = "session.created";
pub const DELETED: &'static str = "session.deleted";
pub const UPDATED: &'static str = "session.updated";
pub const FOREGROUND: &'static str = "session.foreground";
pub const BACKGROUND: &'static str = "session.background";

} // verus!

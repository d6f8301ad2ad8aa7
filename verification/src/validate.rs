//! Checks on what is configured, before anything is built from it.

use crate::notifiers::command::{describe, shell_split, split};
use crate::stores::redis::{parses, redis_url};
use vstd::prelude::*;

verus! {

/// What is said of a URL that is none of a Redis server.
pub open spec fn unknown_format() -> Seq<char> {
    "unknown format; See help."@
}

/// Accepts the URL of a Redis server.
pub fn valid_redis_url(v: String) -> (r: Result<(), String>)
    ensures
        r is Ok <==> redis_url(v@),
        r matches Err(why) ==> why@ == unknown_format(),
{
    if parses(v.as_str()) {
        Ok(())
    } else {
        Err(String::from_str("unknown format; See help."))
    }
}

/// Accepts a command line that can be split into words, and says what is wrong with one
/// that cannot.
pub fn valid_notify_command(v: String) -> (r: Result<(), String>)
    ensures
        r is Ok <==> shell_split(v@) is Some,
        r matches Err(why) ==> why@ == "missing closing quote"@,
{
    match split(v.as_str()) {
        Ok(_) => Ok(()),
        Err(error) => Err(describe(&error)),
    }
}

} // verus!

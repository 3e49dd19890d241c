//! `/ping`: answers "Pong!".

use vstd::prelude::*;
use crate::commands::{CommandSpec, Reply, is_text};

verus! {

pub const NAME: &'static str = "ping";

pub const DESCRIPTION: &'static str = "A ping command";

/// The answer to `/ping`.
pub const PONG: &'static str = "Pong!";

/// `c` declares `/ping`: no options.
pub open spec fn declares(c: CommandSpec) -> bool {
    &&& c.name@ == NAME@
    &&& c.description@ == DESCRIPTION@
    &&& c.options@.len() == 0
}

/// The declaration of `/ping`.
pub fn register() -> (c: CommandSpec)
    ensures
        declares(c),
{
    CommandSpec { name: String::from_str(NAME), description: String::from_str(DESCRIPTION), options: Vec::new() }
}

/// The answer to `/ping`.
pub fn run() -> (r: Reply)
    ensures
        is_text(r, PONG@),
{
    Reply::Text(String::from_str(PONG))
}

} // verus!

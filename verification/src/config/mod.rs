//! The bot's configuration.

pub mod restrict;
pub mod totp;
pub mod cloudflare;

use vstd::prelude::*;
use crate::config::cloudflare::Cloudflare;
use crate::config::restrict::Restrict;
use crate::config::totp::Totp;

verus! {

/// Everything the bot is configured with.
pub struct Config {
    /// The bot's Discord token.
    pub token: String,
    /// The guild whose slash commands the bot registers.
    pub guild: u64,
    pub cloudflare: Cloudflare,
    /// The TOTP applications, in the order in which they are listed.
    pub totp: Vec<Totp>,
    pub restrict: Restrict,
}

} // verus!

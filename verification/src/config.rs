//! The bot's own configuration: where the channel files are and whom it
//! listens to.

use vstd::prelude::*;
use crate::names::{has_name, listed};
use crate::text::{chars_of, join2, push_chars, strip_front, trim_front};

verus! {

/// The two circles of people the bot takes orders from.
#[derive(Clone, Copy, Debug, PartialEq, Eq)]
pub enum TrustLevel {
    Owner,
    Trusted,
}

/// The path of the file that configures `channel`, below the directory
/// `dir`.
pub open spec fn channel_config_path(dir: Seq<char>, channel: Seq<char>) -> Seq<char> {
    dir + "/channels/"@ + strip_front(channel, "#"@) + ".toml"@
}

/// What the bot is configured with.
#[derive(Debug)]
pub struct BotConfig {
    /// The directory that holds the channel configuration.
    pub channel_config: String,
    /// The accounts that own the bot.
    pub owners: Vec<String>,
    /// The accounts that the bot trusts.
    pub trusted: Vec<String>,
}

impl BotConfig {
    /// A configuration that names no directory and nobody.
    pub fn new() -> (r: Self)
        ensures
            r.channel_config@ == Seq::<char>::empty(),
            r.owners@ == Seq::<String>::empty(),
            r.trusted@ == Seq::<String>::empty(),
    {
        BotConfig { channel_config: String::new(), owners: Vec::new(), trusted: Vec::new() }
    }

    /// The accounts of the circle `level`.
    pub open spec fn circle(&self, level: TrustLevel) -> Seq<String> {
        match level {
            TrustLevel::Owner => self.owners@,
            TrustLevel::Trusted => self.trusted@,
        }
    }

    /// Whether `account` belongs to the circle `level`.
    pub fn trusts(&self, account: &str, level: TrustLevel) -> (r: bool)
        ensures
            r == listed(self.circle(level), account@),
    {
        match level {
            TrustLevel::Owner => has_name(&self.owners, account),
            TrustLevel::Trusted => has_name(&self.trusted, account),
        }
    }

    /// The file that holds the configuration of `channel`: in the
    /// directory `channels` of the configuration, named after the channel
    /// without its leading `#`, with the ending `.toml`.
    pub fn channel_file(&self, channel: &str) -> (r: String)
        ensures
            r@ == channel_config_path(self.channel_config@, channel@),
    {
        let hash = chars_of("#");
        let name = trim_front(&chars_of(channel), &hash);
        let mut r = join2(self.channel_config.as_str(), "/channels/");
        push_chars(&mut r, &name);
        r.append(".toml");
        r
    }
}

impl Default for BotConfig {
    fn default() -> (r: Self)
        ensures
            r.channel_config@ == Seq::<char>::empty(),
            r.owners@ == Seq::<String>::empty(),
            r.trusted@ == Seq::<String>::empty(),
    {
        BotConfig::new()
    }
}

} // verus!

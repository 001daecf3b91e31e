//! Reconciliation of chat-room access lists against a declared configuration.
//!
//! The bot learns the live access list of a channel from the directory
//! service, compares it with the channel's configuration, and issues the
//! commands that make up the difference. This library holds the model and
//! every decision; sending and receiving belong to the program around it.

use vstd::prelude::*;

pub mod channel;
pub mod chanserv;
pub mod command;
pub mod config;
pub mod flagset;
pub mod git;
pub mod laws;
pub mod names;
pub mod privilege;
pub mod report;
pub mod text;

use crate::channel::{LiveState, ManagedChannel, Report};
use crate::chanserv::{Message, Session};
use crate::config::{BotConfig, TrustLevel};
use crate::names::{listed, texts, NameMap};
use crate::text::same_text;

verus! {

/// What the bot keeps between messages.
#[derive(Debug)]
pub struct BotState {
    /// What the directory service is being asked right now.
    pub chanserv: Option<Message>,
    /// The channels that are being looked up.
    pub channels: NameMap<ManagedChannel>,
    pub botconfig: BotConfig,
}

/// The live state behind each name of a table of channels.
pub open spec fn live_views(table: Map<Seq<char>, ManagedChannel>) -> Map<Seq<char>, LiveState> {
    Map::new(|a: Seq<char>| table.dom().contains(a), |a: Seq<char>| table[a]@)
}

impl View for BotState {
    type V = Session;

    open spec fn view(&self) -> Session {
        Session {
            chanserv: match self.chanserv {
                Some(message) => Some(message@),
                None => None,
            },
            channels: live_views(self.channels@),
        }
    }
}

/// The replies of the server that carry a channel's lists.
#[derive(Clone, Copy, Debug, PartialEq, Eq)]
pub enum Response {
    /// One entry of the ban list.
    BanList,
    /// The end of the ban list.
    EndOfBanList,
    /// One entry of the list of invite exceptions.
    InviteList,
    /// The end of the list of invite exceptions.
    EndOfInviteList,
    /// Any other reply.
    Other,
}

impl Session {
    /// The state after a reply of the server with the arguments `data`:
    /// the second argument names the channel, the third is the entry. An
    /// entry is added to the channel's list, an end marks the list as
    /// complete, and a reply with too few arguments, or of another kind,
    /// changes nothing.
    pub open spec fn reply(self, response: Response, data: Seq<Seq<char>>) -> Session {
        match response {
            Response::BanList if data.len() > 2 => Session {
                channels: self.channels.insert(data[1], self.channel(data[1]).with_ban(data[2])),
                ..self
            },
            Response::EndOfBanList if data.len() > 1 => Session {
                channels: self.channels.insert(
                    data[1],
                    self.channel(data[1]).finished(Report::Bans),
                ),
                ..self
            },
            Response::InviteList if data.len() > 2 => Session {
                channels: self.channels.insert(
                    data[1],
                    self.channel(data[1]).with_invex(data[2]),
                ),
                ..self
            },
            Response::EndOfInviteList if data.len() > 1 => Session {
                channels: self.channels.insert(
                    data[1],
                    self.channel(data[1]).finished(Report::Invexes),
                ),
                ..self
            },
            _ => self,
        }
    }
}

/// Takes in a reply of the server that carries part of a channel's lists.
///
/// A reply for a channel of which nothing is kept, be it the first that is
/// heard of the channel or one that comes in late, after the channel was
/// taken out, starts a fresh record of that channel.
pub fn handle_response(state: &mut BotState, response: Response, data: &Vec<String>)
    ensures
        final(state)@ == old(state)@.reply(response, texts(data@)),
        final(state).botconfig == old(state).botconfig,
{
    let entry = match response {
        Response::BanList | Response::InviteList => true,
        Response::EndOfBanList | Response::EndOfInviteList => false,
        Response::Other => {
            return ;
        },
    };
    if data.len() < 2 || (entry && data.len() < 3) {
        return ;
    }
    let channel = data[1].clone();
    let mut managed = state.take_channel(channel.as_str());
    match response {
        Response::BanList => {
            managed.add_ban(data[2].as_str());
        },
        Response::EndOfBanList => {
            managed.finish(Report::Bans);
        },
        Response::InviteList => {
            managed.add_invex(data[2].as_str());
        },
        _ => {
            managed.finish(Report::Invexes);
        },
    }
    let ghost known = managed@;
    let ghost room = channel@;
    assert(room == data@[1]@);
    state.channels.insert(channel, managed);
    assert(state@.channels =~= old(state)@.channels.remove(room).insert(room, known));
    assert(state@.channels =~= old(state)@.channels.insert(room, known));
}

/// The letter that marks a founder in a channel's access list.
pub const FOUNDER_LETTER: char = 'F';

impl BotState {
    /// A state with no query outstanding and no channel looked up.
    pub fn new(botconfig: BotConfig) -> (r: Self)
        ensures
            r@ == (Session { chanserv: None, channels: Map::empty() }),
            r.botconfig == botconfig,
    {
        let r = BotState { chanserv: None, channels: NameMap::new(), botconfig };
        assert(r@.channels =~= Map::<Seq<char>, LiveState>::empty());
        r
    }

    /// Whether all three reports of `channel` have come in to their end.
    pub fn is_channel_done(&self, channel: &str) -> (r: bool)
        ensures
            r == self@.channel(channel@).is_done(),
    {
        match self.channels.get(channel) {
            Some(managed) => managed.is_done(),
            None => false,
        }
    }

    /// Whether the access list of `channel` has come in to its end.
    pub fn is_flags_done(&self, channel: &str) -> (r: bool)
        ensures
            r == self@.channel(channel@).flags_done,
    {
        match self.channels.get(channel) {
            Some(managed) => managed.flags_done,
            None => false,
        }
    }

    /// Whether `username` holds the founder letter on `channel`, as far as
    /// the access list has come in. The answer is final once
    /// [`BotState::is_flags_done`] holds.
    pub fn is_founder_on(&self, channel: &str, username: &str) -> (r: bool)
        ensures
            r == self@.channel(channel@).letters_of(username@).contains(FOUNDER_LETTER),
    {
        match self.channels.get(channel) {
            Some(managed) => managed.letters_of(username).contains(FOUNDER_LETTER),
            None => false,
        }
    }

    /// Takes what is known of `channel` out of the state, or starts anew
    /// where nothing is known. Afterwards the state keeps nothing of the
    /// channel.
    pub fn take_channel(&mut self, channel: &str) -> (r: ManagedChannel)
        ensures
            r@ == old(self)@.channel(channel@),
            final(self)@ == (Session {
                channels: old(self)@.channels.remove(channel@),
                ..old(self)@
            }),
            final(self).botconfig == old(self).botconfig,
            final(self).chanserv == old(self).chanserv,
    {
        let r = match self.channels.remove(channel) {
            Some(managed) => managed,
            None => ManagedChannel::new(),
        };
        assert(self@.channels =~= old(self)@.channels.remove(channel@));
        r
    }
}

/// One tag of a received message: its key and, where it has one, its value.
#[derive(Debug)]
pub struct Tag(pub String, pub Option<String>);

/// Who sent a message.
#[derive(Debug)]
pub enum Prefix {
    /// A server, by its name.
    ServerName(String),
    /// A user: nickname, user name and host.
    Nickname(String, String, String),
}

/// What the bot reads of a message it received.
#[derive(Debug)]
pub struct Received {
    /// The tags of the message, where it has any.
    pub tags: Option<Vec<Tag>>,
    /// The sender.
    pub prefix: Option<Prefix>,
    /// Where an answer goes: the channel the message was sent to, or the
    /// sender where it was sent to the bot alone.
    pub response_target: Option<String>,
}

/// Whether `tag` carries the account of the sender.
pub open spec fn is_account_tag(tag: Tag) -> bool {
    tag.0@ == "account"@ && tag.1 is Some
}

/// The value of the first account tag of `tags` at or after index `from`.
pub open spec fn first_account(tags: Seq<Tag>, from: int) -> Option<Seq<char>>
    decreases tags.len() - from,
{
    if from < 0 || from >= tags.len() {
        None
    } else if is_account_tag(tags[from]) {
        Some(tags[from].1->0@)
    } else {
        first_account(tags, from + 1)
    }
}

/// The account that sent `message`, as its tags tell it.
pub open spec fn account_of(message: Received) -> Option<Seq<char>> {
    match message.tags {
        Some(tags) => first_account(tags@, 0),
        None => None,
    }
}

/// The account that sent `message`: the value of its first account tag.
pub fn extract_account(message: &Received) -> (r: Option<String>)
    ensures
        match r {
            Some(account) => account_of(*message) == Some(account@),
            None => account_of(*message) is None,
        },
{
    if let Some(tags) = &message.tags {
        let mut i: usize = 0;
        while i < tags.len()
            invariant
                i <= tags.len(),
                message.tags == Some(*tags),
                first_account(tags@, 0) == first_account(tags@, i as int),
            decreases tags.len() - i,
        {
            let tag = &tags[i];
            if same_text(tag.0.as_str(), "account") {
                if let Some(name) = &tag.1 {
                    assert(is_account_tag(tags@[i as int]));
                    assert(first_account(tags@, i as int) == Some(name@));
                    return Some(name.clone());
                }
            }
            i += 1;
        }
    }
    None
}

/// Whether `message` comes from an account of the circle `level`.
pub fn is_trusted(state: &BotState, message: &Received, level: TrustLevel) -> (r: bool)
    ensures
        r == match account_of(*message) {
            Some(account) => listed(state.botconfig.circle(level), account),
            None => false,
        },
{
    match extract_account(message) {
        Some(account) => state.botconfig.trusts(account.as_str(), level),
        None => false,
    }
}

/// Whether `message` was sent by the user `name`.
pub fn is_from(message: &Received, name: &str) -> (r: bool)
    ensures
        r == (message.prefix matches Some(Prefix::Nickname(_, user, _)) && user@ == name@),
{
    match &message.prefix {
        Some(Prefix::Nickname(_, user, _)) => same_text(user.as_str(), name),
        _ => false,
    }
}

/// One member of a channel.
#[derive(Debug)]
pub struct User {
    pub nickname: String,
    /// Whether the member is an operator of the channel.
    pub oper: bool,
}

/// Whether the first member of `users` at or after `from` that goes by
/// `nickname` is an operator; `false` where nobody goes by it.
pub open spec fn opped(users: Seq<User>, from: int, nickname: Seq<char>) -> bool
    decreases users.len() - from,
{
    if from < 0 || from >= users.len() {
        false
    } else if users[from].nickname@ == nickname {
        users[from].oper
    } else {
        opped(users, from + 1, nickname)
    }
}

/// Whether the bot, known as `nickname`, is an operator of the channel
/// with the members `users`. A channel the bot knows no members of gives
/// `false`.
pub fn is_opped_in(users: &Option<Vec<User>>, nickname: &str) -> (r: bool)
    ensures
        r == match users {
            Some(list) => opped(list@, 0, nickname@),
            None => false,
        },
{
    if let Some(list) = users {
        let mut i: usize = 0;
        while i < list.len()
            invariant
                i <= list.len(),
                *users == Some(*list),
                opped(list@, 0, nickname@) == opped(list@, i as int, nickname@),
            decreases list.len() - i,
        {
            if same_text(list[i].nickname.as_str(), nickname) {
                assert(opped(list@, i as int, nickname@) == list@[i as int].oper);
                return list[i].oper;
            }
            i += 1;
        }
    }
    false
}

} // verus!

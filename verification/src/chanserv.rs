//! The conversation with the directory service.
//!
//! The service answers in plain notices that name no channel, so only one
//! query may be outstanding at a time: the bot keeps the channel it asked
//! about in one slot, and every notice that comes in while the slot is
//! taken belongs to that channel.

use vstd::prelude::*;
use crate::channel::{LiveState, ManagedChannel, Report};
use crate::report::{closing, heading, is_closing, is_heading, ParseError};
use crate::text::{chars_of, join2};
use crate::BotState;

verus! {

/// What travels to the part of the bot that talks to the directory service.
#[derive(Debug)]
pub enum Message {
    /// A request for the access list of a channel.
    Flags(String),
    /// A notice that the directory service sent.
    Notice(String),
}

/// A [`Message`] with its text as a sequence of characters.
pub enum MessageText {
    Flags(Seq<char>),
    Notice(Seq<char>),
}

impl View for Message {
    type V = MessageText;

    open spec fn view(&self) -> MessageText {
        match self {
            Message::Flags(channel) => MessageText::Flags(channel@),
            Message::Notice(notice) => MessageText::Notice(notice@),
        }
    }
}

impl Clone for Message {
    fn clone(&self) -> (r: Self)
        ensures
            r == *self,
    {
        match self {
            Message::Flags(channel) => Message::Flags(channel.clone()),
            Message::Notice(notice) => Message::Notice(notice.clone()),
        }
    }
}

/// How the bot's part that talks to the directory service answers a message.
#[derive(Debug, PartialEq, Eq)]
pub enum Reply {
    /// Another query is outstanding: nothing was done, and the request has
    /// to be made again after a pause.
    Wait,
    /// The query is now outstanding: this text goes to the directory
    /// service.
    Send(String),
    /// The notice was a heading and was passed over.
    Skipped,
    /// The notice was taken in as a line of the outstanding report.
    Recorded,
    /// The notice closed the outstanding report.
    Finished,
    /// The notice cannot be read as a line of the outstanding report.
    Refused(ParseError),
    /// No query is outstanding: the notice belongs to no channel.
    Discarded,
}

/// The state of the conversation and of the channels being looked up.
pub struct Session {
    /// The query that is outstanding, if any.
    pub chanserv: Option<MessageText>,
    /// What is known of each channel.
    pub channels: Map<Seq<char>, LiveState>,
}

impl Session {
    /// What is known of `channel`: nothing, where it was never heard of.
    pub open spec fn channel(self, channel: Seq<char>) -> LiveState {
        if self.channels.dom().contains(channel) {
            self.channels[channel]
        } else {
            LiveState::unknown()
        }
    }

    /// The channel whose report is outstanding, if any.
    pub open spec fn awaited(self) -> Option<Seq<char>> {
        match self.chanserv {
            Some(MessageText::Flags(channel)) => Some(channel),
            _ => None,
        }
    }

    /// The state after a request for the access list of `channel`: the
    /// request takes the slot if it is free and changes nothing otherwise.
    pub open spec fn request(self, channel: Seq<char>) -> Session {
        if self.chanserv is Some {
            self
        } else {
            Session { chanserv: Some(MessageText::Flags(channel)), ..self }
        }
    }

    /// The state after a notice of the directory service. A heading changes
    /// nothing. While a report is outstanding, its closing line marks the
    /// channel's flags as complete and frees the slot, and any other line
    /// is taken in as a line of that channel's report. With no report
    /// outstanding a notice changes nothing.
    pub open spec fn notice(self, line: Seq<char>) -> Session {
        if is_heading(line) {
            self
        } else {
            match self.awaited() {
                Some(channel) => if is_closing(line) {
                    Session {
                        chanserv: None,
                        channels: self.channels.insert(
                            channel,
                            self.channel(channel).finished(Report::Flags),
                        ),
                    }
                } else {
                    Session {
                        channels: self.channels.insert(channel, self.channel(channel).ingest(line)),
                        ..self
                    }
                },
                None => self,
            }
        }
    }

    /// The state after `message`.
    pub open spec fn step(self, message: MessageText) -> Session {
        match message {
            MessageText::Flags(channel) => self.request(channel),
            MessageText::Notice(line) => self.notice(line),
        }
    }
}

/// The text that asks the directory service for the access list of
/// `channel`.
pub open spec fn query_text(channel: Seq<char>) -> Seq<char> {
    "flags "@ + channel
}

/// Whether `reply` is the answer owed to `message` in the state `before`.
pub open spec fn answers(before: Session, message: MessageText, reply: Reply) -> bool {
    match message {
        MessageText::Flags(channel) => if before.chanserv is Some {
            reply == Reply::Wait
        } else {
            reply matches Reply::Send(text) && text@ == query_text(channel)
        },
        MessageText::Notice(line) => if is_heading(line) {
            reply == Reply::Skipped
        } else if before.awaited() is None {
            reply == Reply::Discarded
        } else if is_closing(line) {
            reply == Reply::Finished
        } else if LiveState::accepts(line) {
            reply == Reply::Recorded
        } else {
            reply matches Reply::Refused(e) && e.line@ == line
        },
    }
}

/// Takes one message of the conversation with the directory service:
/// moves the state on and says what is to be done.
pub fn listen(state: &mut BotState, message: Message) -> (reply: Reply)
    ensures
        final(state)@ == old(state)@.step(message@),
        answers(old(state)@, message@, reply),
        final(state).botconfig == old(state).botconfig,
{
    match message {
        Message::Flags(channel) => {
            if state.chanserv.is_some() {
                Reply::Wait
            } else {
                let text = join2("flags ", channel.as_str());
                state.chanserv = Some(Message::Flags(channel));
                assert(state@.channels =~= old(state)@.channels);
                Reply::Send(text)
            }
        },
        Message::Notice(notice) => {
            let line = chars_of(notice.as_str());
            if heading(&line) {
                return Reply::Skipped;
            }
            let awaited: Option<String> = match &state.chanserv {
                Some(Message::Flags(channel)) => Some(channel.clone()),
                _ => None,
            };
            match awaited {
                None => Reply::Discarded,
                Some(channel) => {
                    let mut managed = state.take_channel(channel.as_str());
                    let reply = if closing(&line) {
                        managed.finish(Report::Flags);
                        state.chanserv = None;
                        Reply::Finished
                    } else {
                        match managed.add_flags_from_chanserv(notice.as_str()) {
                            Ok(()) => Reply::Recorded,
                            Err(e) => Reply::Refused(e),
                        }
                    };
                    let ghost room = channel@;
                    let ghost known = managed@;
                    assert(old(state)@.awaited() == Some(room));
                    assert(message@ == MessageText::Notice(line@));
                    assert(known == if is_closing(line@) {
                        old(state)@.channel(room).finished(Report::Flags)
                    } else {
                        old(state)@.channel(room).ingest(line@)
                    });
                    state.channels.insert(channel, managed);
                    assert(state@.channels =~= old(state)@.channels.remove(room).insert(
                        room,
                        known,
                    ));
                    assert(state@.channels =~= old(state)@.channels.insert(room, known));
                    reply
                },
            }
        },
    }
}

} // verus!

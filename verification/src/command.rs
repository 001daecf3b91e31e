//! The commands that people give the bot, as decisions.
//!
//! Each command is a function from what the bot knows and what has just
//! happened to what the bot does next. The program around the library
//! carries the actions out and reports back what came of them.

use vstd::prelude::*;
use crate::channel::{
    acl_commands, emits, flag_commands, BanChange, ConfiguredChannel, LiveState, ManagedChannel,
    ModeOp,
};
use crate::names::{has_name, listed};
use crate::text::{chars_of, join2};
use crate::{account_of, extract_account, Received};

verus! {

/// The channel in which the configuration may be pulled.
pub const PULL_CHANNEL: &'static str = "#wikimedia-ops";

/// The pause that [`Action::Pause`] asks for, in milliseconds.
pub const PACE_MS: u64 = 1000;

/// The nickname of the directory service.
pub const CHANSERV: &'static str = "ChanServ";

/// Why a command was turned down.
#[derive(Debug, PartialEq, Eq)]
pub enum CommandError {
    /// The command was not given in a channel.
    NotInChannel,
    /// The command was not given in the one channel that takes it.
    WrongChannel(String),
    /// The requestor may not change the channel's settings.
    NotPermitted,
}

/// A [`CommandError`] with its text as a sequence of characters.
pub enum CommandErrorText {
    NotInChannel,
    WrongChannel(Seq<char>),
    NotPermitted,
}

impl View for CommandError {
    type V = CommandErrorText;

    open spec fn view(&self) -> CommandErrorText {
        match self {
            CommandError::NotInChannel => CommandErrorText::NotInChannel,
            CommandError::WrongChannel(channel) => CommandErrorText::WrongChannel(channel@),
            CommandError::NotPermitted => CommandErrorText::NotPermitted,
        }
    }
}

impl CommandErrorText {
    /// The error as a sentence.
    pub open spec fn message(self) -> Seq<char> {
        match self {
            CommandErrorText::NotInChannel => "This command must be used in-channel."@,
            CommandErrorText::WrongChannel(channel) => "This command can only be used in "@
                + channel,
            CommandErrorText::NotPermitted =>
                "You don't have permission to update channel settings"@,
        }
    }
}

impl CommandError {
    /// The error as a sentence.
    pub fn message(&self) -> (r: String)
        ensures
            r@ == self@.message(),
    {
        match self {
            CommandError::NotInChannel => String::from_str(
                "This command must be used in-channel.",
            ),
            CommandError::WrongChannel(channel) => join2(
                "This command can only be used in ",
                channel.as_str(),
            ),
            CommandError::NotPermitted => String::from_str(
                "You don't have permission to update channel settings",
            ),
        }
    }
}

/// Whether `target` names a channel: it begins with `#`.
pub open spec fn is_channel_name(target: Seq<char>) -> bool {
    target.len() > 0 && target[0] == '#'
}

/// The channel in which `message` was given, or the error that it was given
/// elsewhere.
pub fn must_be_in_a_channel(message: &Received) -> (r: Result<String, CommandError>)
    ensures
        match message.response_target {
            Some(target) if is_channel_name(target@) => r matches Ok(channel) && channel@
                == target@,
            _ => r == Err::<String, CommandError>(CommandError::NotInChannel),
        },
{
    if let Some(target) = &message.response_target {
        let text = chars_of(target.as_str());
        if text.len() > 0 && text[0] == '#' {
            return Ok(target.clone());
        }
    }
    Err(CommandError::NotInChannel)
}

/// Accepts `message` where it was given in `channel`, and names the channel
/// in the error where it was not.
pub fn must_be_in(message: &Received, channel: &str) -> (r: Result<(), CommandError>)
    ensures
        match message.response_target {
            Some(target) if target@ == channel@ => r is Ok,
            _ => r matches Err(e) && e@ == CommandErrorText::WrongChannel(channel@),
        },
{
    if let Some(target) = &message.response_target {
        if crate::text::same_text(target.as_str(), channel) {
            return Ok(());
        }
    }
    Err(CommandError::WrongChannel(String::from_str(channel)))
}

/// One thing for the program to do.
#[derive(Debug, PartialEq, Eq)]
pub enum Action {
    /// Ask the directory service for the channel's access list, through
    /// the one conversation with it.
    RequestFlags(String),
    /// Wait until the channel's access list has come in.
    AwaitFlags(String),
    /// Say `text` to `target`.
    Privmsg { target: String, text: String },
    /// Become an operator of the channel, or learn that this fails.
    EnsureOp(String),
    /// Ask the server for the channel's ban list.
    ListBans(String),
    /// Ask the server for the channel's list of invite exceptions.
    ListInvexes(String),
    /// Wait until all three reports of the channel have come in, then take
    /// the channel out of the state and load its configuration.
    Gather(String),
    /// Change the channel's ban list.
    SetMode { channel: String, op: ModeOp },
    /// Let a moment pass, so that the server is not flooded.
    Pause,
    /// Join the channel.
    Join(String),
    /// Give up being an operator of the channel.
    Deop(String),
}

/// An [`Action`] with its texts as sequences of characters.
pub enum ActionText {
    RequestFlags(Seq<char>),
    AwaitFlags(Seq<char>),
    Privmsg { target: Seq<char>, text: Seq<char> },
    EnsureOp(Seq<char>),
    ListBans(Seq<char>),
    ListInvexes(Seq<char>),
    Gather(Seq<char>),
    SetMode { channel: Seq<char>, op: BanChange },
    Pause,
    Join(Seq<char>),
    Deop(Seq<char>),
}

impl View for Action {
    type V = ActionText;

    open spec fn view(&self) -> ActionText {
        match self {
            Action::RequestFlags(channel) => ActionText::RequestFlags(channel@),
            Action::AwaitFlags(channel) => ActionText::AwaitFlags(channel@),
            Action::Privmsg { target, text } => ActionText::Privmsg {
                target: target@,
                text: text@,
            },
            Action::EnsureOp(channel) => ActionText::EnsureOp(channel@),
            Action::ListBans(channel) => ActionText::ListBans(channel@),
            Action::ListInvexes(channel) => ActionText::ListInvexes(channel@),
            Action::Gather(channel) => ActionText::Gather(channel@),
            Action::SetMode { channel, op } => ActionText::SetMode { channel: channel@, op: op@ },
            Action::Pause => ActionText::Pause,
            Action::Join(channel) => ActionText::Join(channel@),
            Action::Deop(channel) => ActionText::Deop(channel@),
        }
    }
}

/// The actions of a list, each with its texts as sequences of characters.
pub open spec fn texts_of(actions: Seq<Action>) -> Seq<ActionText> {
    actions.map_values(|a: Action| a@)
}

impl BanChange {
    /// The change as the server writes it: the sign, the letter `b` and
    /// the mask.
    pub open spec fn text(self) -> Seq<char> {
        match self {
            BanChange::Add(mask) => "+b "@ + mask,
            BanChange::Remove(mask) => "-b "@ + mask,
        }
    }
}

impl ModeOp {
    /// The change as the server writes it.
    pub fn text(&self) -> (r: String)
        ensures
            r@ == self@.text(),
    {
        match self {
            ModeOp::AddBan(mask) => join2("+b ", mask.as_str()),
            ModeOp::RemoveBan(mask) => join2("-b ", mask.as_str()),
        }
    }

    /// A copy of the change.
    pub fn copy(&self) -> (r: ModeOp)
        ensures
            r@ == self@,
    {
        match self {
            ModeOp::AddBan(mask) => ModeOp::AddBan(mask.clone()),
            ModeOp::RemoveBan(mask) => ModeOp::RemoveBan(mask.clone()),
        }
    }
}

/// What the directory service is told to change an account's letters.
pub open spec fn flags_order(channel: Seq<char>, account: Seq<char>, mode: Seq<char>) -> Seq<
    char,
> {
    "flags "@ + channel + " "@ + account + " "@ + mode
}

/// What the channel is told once an account's letters were changed.
pub open spec fn flags_notice(channel: Seq<char>, account: Seq<char>, mode: Seq<char>) -> Seq<
    char,
> {
    "Set /cs flags "@ + channel + " "@ + account + " "@ + mode
}

/// What the channel is told once its ban list was changed.
pub open spec fn mode_notice(channel: Seq<char>, op: BanChange) -> Seq<char> {
    "Set /mode "@ + channel + " "@ + op.text()
}

/// The steps that change one account's letters: the order to the directory
/// service, a pause, the notice to the channel, a pause.
pub open spec fn flag_steps(channel: Seq<char>, account: Seq<char>, mode: Seq<char>) -> Seq<
    ActionText,
> {
    seq![
        ActionText::Privmsg { target: CHANSERV@, text: flags_order(channel, account, mode) },
        ActionText::Pause,
        ActionText::Privmsg { target: channel, text: flags_notice(channel, account, mode) },
        ActionText::Pause,
    ]
}

/// The steps that make one change to the ban list: the change, a pause,
/// the notice to the channel, a pause.
pub open spec fn mode_steps(channel: Seq<char>, op: BanChange) -> Seq<ActionText> {
    seq![
        ActionText::SetMode { channel, op },
        ActionText::Pause,
        ActionText::Privmsg { target: channel, text: mode_notice(channel, op) },
        ActionText::Pause,
    ]
}

/// The steps for the first `n` of the flag commands `flags`, in order.
pub open spec fn flag_plan(channel: Seq<char>, flags: Seq<(String, String)>, n: int) -> Seq<
    ActionText,
>
    decreases n,
{
    if n <= 0 || n > flags.len() {
        Seq::empty()
    } else {
        flag_plan(channel, flags, n - 1) + flag_steps(channel, flags[n - 1].0@, flags[n - 1].1@)
    }
}

/// The steps for the first `n` of the list commands `modes`, in order.
pub open spec fn mode_plan(channel: Seq<char>, modes: Seq<ModeOp>, n: int) -> Seq<ActionText>
    decreases n,
{
    if n <= 0 || n > modes.len() {
        Seq::empty()
    } else {
        mode_plan(channel, modes, n - 1) + mode_steps(channel, modes[n - 1]@)
    }
}

/// The steps that apply the commands of a sync: every flag command first,
/// then every list command, each followed by its notice, with a pause
/// after every step.
pub open spec fn plan(channel: Seq<char>, flags: Seq<(String, String)>, modes: Seq<ModeOp>) -> Seq<
    ActionText,
> {
    flag_plan(channel, flags, flags.len() as int) + mode_plan(channel, modes, modes.len() as int)
}

/// The text `head` and, with a blank between them, the channel, the
/// account and the mode string.
fn write3(head: &str, channel: &str, account: &str, mode: &str) -> (r: String)
    ensures
        r@ == head@ + channel@ + " "@ + account@ + " "@ + mode@,
{
    let mut r = String::from_str(head);
    r.append(channel);
    r.append(" ");
    r.append(account);
    r.append(" ");
    r.append(mode);
    r
}

/// The steps that apply the commands of a sync to `channel`: every flag
/// command first, then every list command, each followed by its notice to
/// the channel, with a pause after every step.
pub fn sync_channel(channel: &str, flags: &Vec<(String, String)>, modes: &Vec<ModeOp>) -> (r: Vec<
    Action,
>)
    ensures
        texts_of(r@) == plan(channel@, flags@, modes@),
{
    let mut out: Vec<Action> = Vec::new();
    let mut i: usize = 0;
    assert(texts_of(out@) =~= flag_plan(channel@, flags@, 0));
    while i < flags.len()
        invariant
            i <= flags.len(),
            texts_of(out@) == flag_plan(channel@, flags@, i as int),
        decreases flags.len() - i,
    {
        let account = flags[i].0.as_str();
        let mode = flags[i].1.as_str();
        let ghost before = out@;
        out.push(
            Action::Privmsg {
                target: String::from_str(CHANSERV),
                text: write3("flags ", channel, account, mode),
            },
        );
        out.push(Action::Pause);
        out.push(
            Action::Privmsg {
                target: String::from_str(channel),
                text: write3("Set /cs flags ", channel, account, mode),
            },
        );
        out.push(Action::Pause);
        i += 1;
        assert(texts_of(out@) =~= texts_of(before) + flag_steps(
            channel@,
            flags@[i - 1].0@,
            flags@[i - 1].1@,
        ));
    }
    let ghost first = texts_of(out@);
    let mut j: usize = 0;
    assert(texts_of(out@) =~= first + mode_plan(channel@, modes@, 0));
    while j < modes.len()
        invariant
            j <= modes.len(),
            texts_of(out@) == first + mode_plan(channel@, modes@, j as int),
        decreases modes.len() - j,
    {
        let op = &modes[j];
        let ghost before = out@;
        let mut notice = join2("Set /mode ", channel);
        notice.append(" ");
        notice.append(op.text().as_str());
        out.push(Action::SetMode { channel: String::from_str(channel), op: op.copy() });
        out.push(Action::Pause);
        out.push(Action::Privmsg { target: String::from_str(channel), text: notice });
        out.push(Action::Pause);
        j += 1;
        assert(texts_of(out@) =~= texts_of(before) + mode_steps(channel@, modes@[j - 1]@));
    }
    out
}

/// Where a sync stands.
#[derive(Clone, Copy, Debug, PartialEq, Eq)]
pub enum Phase {
    /// Nothing has been asked yet.
    Idle,
    /// The access list was asked for; who may sync is decided once it is in.
    Authorizing,
    /// The bot is becoming an operator to ask for the channel's lists.
    QueryingLiveState,
    /// The lists were asked for; the sync waits for all reports to end.
    AwaitingCompletion,
    /// The commands are known and change the ban list: the bot makes sure
    /// that it is an operator before it applies them.
    AcquiringPrivilege,
    /// The commands were handed out, and with them the order to step down.
    Done,
    /// The sync was given up.
    Error,
}

/// One sync of one channel.
#[derive(Debug)]
pub struct Sync {
    pub phase: Phase,
    /// The channel that is synced.
    pub channel: String,
    /// The account that asked for the sync.
    pub account: String,
    /// The flag commands that wait to be applied.
    pub flags: Vec<(String, String)>,
    /// The list commands that wait to be applied.
    pub modes: Vec<ModeOp>,
}

/// What the program reports back to a sync.
#[derive(Debug)]
pub enum Event {
    /// Somebody gave the command.
    Invoked(Received),
    /// The channel's access list is in. `owner` tells whether the
    /// requestor owns the bot, `founder` whether the list has them as a
    /// founder of the channel.
    FlagsDone { owner: bool, founder: bool },
    /// The bot is an operator now (`true`), or it waited in vain (`false`).
    Opped(bool),
    /// All reports are in: the live state as it was taken out of the bot's
    /// state, and the configuration, or why it could not be loaded.
    Gathered { live: ManagedChannel, config: Result<ConfiguredChannel, String> },
    /// Something could not be sent.
    SendFailed,
}

/// What the channel is told when a sync begins.
pub open spec fn syncing_notice(channel: Seq<char>, account: Seq<char>) -> Seq<char> {
    "Syncing "@ + channel + " (requested by "@ + account + ")"@
}

/// What the channel is told when its configuration cannot be loaded.
pub open spec fn config_notice(reason: Seq<char>) -> Seq<char> {
    "Error reading channel configuration: "@ + reason
}

/// What the channel is told when nothing has to change.
pub open spec fn idle_notice(channel: Seq<char>) -> Seq<char> {
    "No updates for "@ + channel
}

/// The list commands of a list, each with its mask as text.
pub open spec fn changes_of(modes: Seq<ModeOp>) -> Seq<BanChange> {
    modes.map_values(|op: ModeOp| op@)
}

/// What follows the command itself: the sync takes note of the channel
/// and of the requestor and asks for the access list. A command given
/// outside a channel, or by someone whose account is not known, is turned
/// down, and the sender is told so where there is a place to answer.
pub open spec fn on_invoked(message: Received, after: Sync, actions: Seq<ActionText>) -> bool {
    match message.response_target {
        Some(target) => if !is_channel_name(target@) {
            &&& after.phase == Phase::Error
            &&& actions == seq![
                ActionText::Privmsg {
                    target: target@,
                    text: CommandErrorText::NotInChannel.message(),
                },
            ]
        } else {
            match account_of(message) {
                Some(account) => {
                    &&& after.phase == Phase::Authorizing
                    &&& after.channel@ == target@
                    &&& after.account@ == account
                    &&& actions == seq![
                        ActionText::RequestFlags(target@),
                        ActionText::AwaitFlags(target@),
                    ]
                },
                None => {
                    &&& after.phase == Phase::Error
                    &&& actions == seq![
                        ActionText::Privmsg {
                            target: target@,
                            text: CommandErrorText::NotPermitted.message(),
                        },
                    ]
                },
            }
        },
        None => after.phase == Phase::Error && actions == Seq::<ActionText>::empty(),
    }
}

/// What follows once the access list is in: an owner of the bot or a
/// founder of the channel may go on, and the channel is told that the sync
/// begins; anybody else is turned down.
pub open spec fn on_flags_done(
    before: Sync,
    permitted: bool,
    after: Sync,
    actions: Seq<ActionText>,
) -> bool {
    let channel = before.channel@;
    if permitted {
        &&& after.phase == Phase::QueryingLiveState
        &&& actions == seq![
            ActionText::Privmsg { target: channel, text: syncing_notice(channel, before.account@) },
            ActionText::EnsureOp(channel),
        ]
    } else {
        &&& after.phase == Phase::Error
        &&& actions == seq![
            ActionText::Privmsg { target: channel, text: CommandErrorText::NotPermitted.message() },
        ]
    }
}

/// What follows once live state and configuration are at hand: the sync
/// keeps the commands that reconcile the two. Where there are none the
/// channel is told so and the bot steps down. Where the ban list has to
/// change the bot first makes sure that it is an operator. Otherwise the
/// commands are applied and the bot steps down. A configuration that
/// could not be loaded ends the sync with a notice to the channel.
pub open spec fn on_gathered(
    before: Sync,
    live: ManagedChannel,
    config: Result<ConfiguredChannel, String>,
    after: Sync,
    actions: Seq<ActionText>,
) -> bool {
    let channel = before.channel@;
    match config {
        Err(reason) => {
            &&& after.phase == Phase::Error
            &&& actions == seq![
                ActionText::Privmsg { target: channel, text: config_notice(reason@) },
            ]
        },
        Ok(cfg) => {
            &&& emits(after.flags@, flag_commands(live@, cfg@))
            &&& changes_of(after.modes@) == acl_commands(live@, cfg@)
            &&& if after.flags@.len() == 0 && after.modes@.len() == 0 {
                &&& after.phase == Phase::Done
                &&& actions == seq![
                    ActionText::Privmsg { target: channel, text: idle_notice(channel) },
                    ActionText::Deop(channel),
                ]
            } else if after.modes@.len() > 0 {
                &&& after.phase == Phase::AcquiringPrivilege
                &&& actions == seq![ActionText::EnsureOp(channel)]
            } else {
                &&& after.phase == Phase::Done
                &&& actions == plan(channel, after.flags@, after.modes@).push(
                    ActionText::Deop(channel),
                )
            }
        },
    }
}

/// Whether the sync `after` and the actions `actions` are what follows from
/// the sync `before` and the event `event`.
///
/// A sync moves from the command through authorizing, querying, awaiting
/// and, where the ban list changes, acquiring the operator's privilege, to
/// the end. An event that the phase does not wait for, a privilege that
/// was not granted, and a failure to send all end the sync in `Error`; no
/// action follows from `Done` or `Error`.
pub open spec fn follows(before: Sync, event: Event, after: Sync, actions: Seq<ActionText>) -> bool {
    match (before.phase, event) {
        (Phase::Idle, Event::Invoked(message)) => on_invoked(message, after, actions),
        (Phase::Authorizing, Event::FlagsDone { owner, founder }) => {
            &&& after.channel == before.channel
            &&& after.account == before.account
            &&& on_flags_done(before, owner || founder, after, actions)
        },
        (Phase::QueryingLiveState, Event::Opped(true)) => {
            &&& after.channel == before.channel
            &&& after.account == before.account
            &&& after.phase == Phase::AwaitingCompletion
            &&& actions == seq![
                ActionText::ListBans(before.channel@),
                ActionText::ListInvexes(before.channel@),
                ActionText::Gather(before.channel@),
            ]
        },
        (Phase::AwaitingCompletion, Event::Gathered { live, config }) => {
            &&& after.channel == before.channel
            &&& after.account == before.account
            &&& on_gathered(before, live, config, after, actions)
        },
        (Phase::AcquiringPrivilege, Event::Opped(true)) => {
            &&& after.channel == before.channel
            &&& after.account == before.account
            &&& after.phase == Phase::Done
            &&& actions == plan(before.channel@, before.flags@, before.modes@).push(
                ActionText::Deop(before.channel@),
            )
        },
        _ => {
            &&& after.channel == before.channel
            &&& after.account == before.account
            &&& after.phase == (if before.phase == Phase::Done {
                Phase::Done
            } else {
                Phase::Error
            })
            &&& actions == Seq::<ActionText>::empty()
        },
    }
}

impl Sync {
    /// A sync that has not begun: it stands for no channel and no
    /// requestor yet, and no command waits.
    pub fn new() -> (r: Self)
        ensures
            r.phase == Phase::Idle,
            r.channel@ == Seq::<char>::empty(),
            r.account@ == Seq::<char>::empty(),
            r.flags@ == Seq::<(String, String)>::empty(),
            r.modes@ == Seq::<ModeOp>::empty(),
    {
        Sync {
            phase: Phase::Idle,
            channel: String::new(),
            account: String::new(),
            flags: Vec::new(),
            modes: Vec::new(),
        }
    }

    /// Whether the sync has come to an end, one way or the other.
    pub fn is_over(&self) -> (r: bool)
        ensures
            r == (self.phase == Phase::Done || self.phase == Phase::Error),
    {
        match self.phase {
            Phase::Done | Phase::Error => true,
            _ => false,
        }
    }

    /// Ends the sync in `Error` with a notice to `target`.
    fn turn_down(&mut self, target: &str, error: CommandError) -> (actions: Vec<Action>)
        ensures
            final(self).phase == Phase::Error,
            final(self).channel == old(self).channel,
            final(self).account == old(self).account,
            texts_of(actions@) == seq![
                ActionText::Privmsg { target: target@, text: error@.message() },
            ],
    {
        self.phase = Phase::Error;
        let mut actions: Vec<Action> = Vec::new();
        actions.push(Action::Privmsg { target: String::from_str(target), text: error.message() });
        assert(texts_of(actions@) =~= seq![
            ActionText::Privmsg { target: target@, text: error@.message() },
        ]);
        actions
    }

    /// Begins the sync that `message` asks for.
    fn begin(&mut self, message: &Received) -> (actions: Vec<Action>)
        ensures
            on_invoked(*message, *final(self), texts_of(actions@)),
    {
        let target = match &message.response_target {
            Some(target) => target.clone(),
            None => {
                self.phase = Phase::Error;
                let actions: Vec<Action> = Vec::new();
                assert(texts_of(actions@) =~= Seq::<ActionText>::empty());
                return actions;
            },
        };
        match must_be_in_a_channel(message) {
            Err(error) => self.turn_down(target.as_str(), error),
            Ok(channel) => match extract_account(message) {
                None => self.turn_down(target.as_str(), CommandError::NotPermitted),
                Some(account) => {
                    let mut actions: Vec<Action> = Vec::new();
                    actions.push(Action::RequestFlags(channel.clone()));
                    actions.push(Action::AwaitFlags(channel.clone()));
                    self.phase = Phase::Authorizing;
                    self.channel = channel;
                    self.account = account;
                    assert(texts_of(actions@) =~= seq![
                        ActionText::RequestFlags(target@),
                        ActionText::AwaitFlags(target@),
                    ]);
                    actions
                },
            },
        }
    }

    /// Goes on once the access list is in.
    fn authorize(&mut self, permitted: bool) -> (actions: Vec<Action>)
        ensures
            final(self).channel == old(self).channel,
            final(self).account == old(self).account,
            on_flags_done(*old(self), permitted, *final(self), texts_of(actions@)),
    {
        if !permitted {
            let channel = self.channel.clone();
            return self.turn_down(channel.as_str(), CommandError::NotPermitted);
        }
        let mut notice = join2("Syncing ", self.channel.as_str());
        notice.append(" (requested by ");
        notice.append(self.account.as_str());
        notice.append(")");
        let mut actions: Vec<Action> = Vec::new();
        actions.push(Action::Privmsg { target: self.channel.clone(), text: notice });
        actions.push(Action::EnsureOp(self.channel.clone()));
        self.phase = Phase::QueryingLiveState;
        assert(texts_of(actions@) =~= seq![
            ActionText::Privmsg {
                target: self.channel@,
                text: syncing_notice(self.channel@, self.account@),
            },
            ActionText::EnsureOp(self.channel@),
        ]);
        actions
    }

    /// Asks for the channel's lists.
    fn query(&mut self) -> (actions: Vec<Action>)
        ensures
            final(self).channel == old(self).channel,
            final(self).account == old(self).account,
            final(self).phase == Phase::AwaitingCompletion,
            texts_of(actions@) == seq![
                ActionText::ListBans(old(self).channel@),
                ActionText::ListInvexes(old(self).channel@),
                ActionText::Gather(old(self).channel@),
            ],
    {
        let mut actions: Vec<Action> = Vec::new();
        actions.push(Action::ListBans(self.channel.clone()));
        actions.push(Action::ListInvexes(self.channel.clone()));
        actions.push(Action::Gather(self.channel.clone()));
        self.phase = Phase::AwaitingCompletion;
        assert(texts_of(actions@) =~= seq![
            ActionText::ListBans(self.channel@),
            ActionText::ListInvexes(self.channel@),
            ActionText::Gather(self.channel@),
        ]);
        actions
    }

    /// Hands out the commands that wait, and the order to step down.
    fn apply(&mut self) -> (actions: Vec<Action>)
        ensures
            final(self).channel == old(self).channel,
            final(self).account == old(self).account,
            final(self).flags == old(self).flags,
            final(self).modes == old(self).modes,
            final(self).phase == Phase::Done,
            texts_of(actions@) == plan(old(self).channel@, old(self).flags@, old(self).modes@).push(
                ActionText::Deop(old(self).channel@),
            ),
    {
        let mut actions = sync_channel(self.channel.as_str(), &self.flags, &self.modes);
        let ghost steps = actions@;
        actions.push(Action::Deop(self.channel.clone()));
        self.phase = Phase::Done;
        assert(texts_of(actions@) =~= texts_of(steps).push(ActionText::Deop(self.channel@)));
        actions
    }

    /// Compares live state and configuration and decides how to go on.
    fn diff(&mut self, live: &ManagedChannel, config: Result<ConfiguredChannel, String>) -> (actions:
        Vec<Action>)
        ensures
            final(self).channel == old(self).channel,
            final(self).account == old(self).account,
            on_gathered(*old(self), *live, config, *final(self), texts_of(actions@)),
    {
        let cfg = match config {
            Ok(cfg) => cfg,
            Err(reason) => {
                self.phase = Phase::Error;
                let mut actions: Vec<Action> = Vec::new();
                actions.push(
                    Action::Privmsg {
                        target: self.channel.clone(),
                        text: join2("Error reading channel configuration: ", reason.as_str()),
                    },
                );
                assert(texts_of(actions@) =~= seq![
                    ActionText::Privmsg { target: self.channel@, text: config_notice(reason@) },
                ]);
                return actions;
            },
        };
        self.flags = live.fix_flags(&cfg);
        self.modes = live.fix_modes(&cfg);
        if self.flags.len() == 0 && self.modes.len() == 0 {
            let mut actions: Vec<Action> = Vec::new();
            actions.push(
                Action::Privmsg {
                    target: self.channel.clone(),
                    text: join2("No updates for ", self.channel.as_str()),
                },
            );
            actions.push(Action::Deop(self.channel.clone()));
            self.phase = Phase::Done;
            assert(texts_of(actions@) =~= seq![
                ActionText::Privmsg { target: self.channel@, text: idle_notice(self.channel@) },
                ActionText::Deop(self.channel@),
            ]);
            actions
        } else if self.modes.len() > 0 {
            let mut actions: Vec<Action> = Vec::new();
            actions.push(Action::EnsureOp(self.channel.clone()));
            self.phase = Phase::AcquiringPrivilege;
            assert(texts_of(actions@) =~= seq![ActionText::EnsureOp(self.channel@)]);
            actions
        } else {
            self.apply()
        }
    }
}

/// Moves a sync on by one event: says what the program has to do next and
/// takes note of where the sync stands.
pub fn iss_sync(sync: &mut Sync, event: Event) -> (actions: Vec<Action>)
    ensures
        follows(*old(sync), event, *final(sync), texts_of(actions@)),
{
    match (sync.phase, event) {
        (Phase::Idle, Event::Invoked(message)) => {
            let a = sync.begin(&message);
            a
        },
        (Phase::Authorizing, Event::FlagsDone { owner, founder }) => {
            let a = sync.authorize(owner || founder);
            a
        },
        (Phase::QueryingLiveState, Event::Opped(true)) => {
            let a = sync.query();
            a
        },
        (Phase::AwaitingCompletion, Event::Gathered { live, config }) => {
            let a = sync.diff(&live, config);
            a
        },
        (Phase::AcquiringPrivilege, Event::Opped(true)) => {
            let a = sync.apply();
            a
        },
        _ => {
            match sync.phase {
                Phase::Done => {},
                _ => {
                    sync.phase = Phase::Error;
                },
            }
            let actions: Vec<Action> = Vec::new();
            assert(texts_of(actions@) =~= Seq::<ActionText>::empty());
            actions
        },
    }
}

/// The first `n` names of `list`, written with `, ` between them.
pub open spec fn joined(list: Seq<String>, n: int) -> Seq<char>
    decreases n,
{
    if n <= 0 || n > list.len() {
        Seq::empty()
    } else if n == 1 {
        list[0]@
    } else {
        joined(list, n - 1) + ", "@ + list[n - 1]@
    }
}

/// The orders to join those of the first `n` channels of `changed` that
/// are not among `present`, in order.
pub open spec fn joins(changed: Seq<String>, present: Seq<String>, n: int) -> Seq<ActionText>
    decreases n,
{
    if n <= 0 || n > changed.len() {
        Seq::empty()
    } else if listed(present, changed[n - 1]@) {
        joins(changed, present, n - 1)
    } else {
        joins(changed, present, n - 1).push(ActionText::Join(changed[n - 1]@))
    }
}

/// What follows a pull of the configuration that changed the channels
/// `changed`, while the bot is in the channels `present`: the pull channel
/// is told which channels changed, and the bot joins those it is not in
/// yet. Where nothing changed the pull channel is told so.
pub open spec fn pull_plan(changed: Seq<String>, present: Seq<String>) -> Seq<ActionText> {
    if changed.len() == 0 {
        seq![
            ActionText::Privmsg { target: PULL_CHANNEL@, text: "There are no pending changes."@ },
        ]
    } else {
        seq![
            ActionText::Privmsg {
                target: PULL_CHANNEL@,
                text: "Pulled changes for: "@ + joined(changed, changed.len() as int),
            },
        ] + joins(changed, present, changed.len() as int)
    }
}

/// Says what to do after the configuration was pulled: `changed` are the
/// channels whose configuration changed, `present` the channels the bot is
/// in.
pub fn iss_pull(changed: &Vec<String>, present: &Vec<String>) -> (actions: Vec<Action>)
    ensures
        texts_of(actions@) == pull_plan(changed@, present@),
{
    let mut actions: Vec<Action> = Vec::new();
    if changed.len() == 0 {
        actions.push(
            Action::Privmsg {
                target: String::from_str(PULL_CHANNEL),
                text: String::from_str("There are no pending changes."),
            },
        );
        assert(texts_of(actions@) =~= pull_plan(changed@, present@));
        return actions;
    }
    let mut names = String::new();
    let mut i: usize = 0;
    while i < changed.len()
        invariant
            i <= changed.len(),
            names@ == joined(changed@, i as int),
        decreases changed.len() - i,
    {
        if i > 0 {
            names.append(", ");
        }
        names.append(changed[i].as_str());
        i += 1;
        assert(names@ =~= joined(changed@, i as int));
    }
    actions.push(
        Action::Privmsg {
            target: String::from_str(PULL_CHANNEL),
            text: join2("Pulled changes for: ", names.as_str()),
        },
    );
    let ghost head = texts_of(actions@);
    assert(head =~= seq![
        ActionText::Privmsg {
            target: PULL_CHANNEL@,
            text: "Pulled changes for: "@ + joined(changed@, changed@.len() as int),
        },
    ]);
    let mut j: usize = 0;
    assert(texts_of(actions@) =~= head + joins(changed@, present@, 0));
    while j < changed.len()
        invariant
            j <= changed.len(),
            texts_of(actions@) == head + joins(changed@, present@, j as int),
        decreases changed.len() - j,
    {
        let ghost before = actions@;
        if !has_name(present, changed[j].as_str()) {
            actions.push(Action::Join(changed[j].clone()));
            assert(texts_of(actions@) =~= texts_of(before).push(ActionText::Join(changed@[j as int]@)));
        }
        j += 1;
        assert(texts_of(actions@) =~= head + joins(changed@, present@, j as int));
    }
    actions
}

} // verus!

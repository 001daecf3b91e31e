//! The access-list model of one channel: what is configured, what is live,
//! and the commands that take the live state to the configured one.

use vstd::prelude::*;
use crate::flagset::{flags_in, letter_run, parse_flags, FlagSet};
use crate::names::{enumerates, NameMap, NameSet};
use crate::report::{heading, is_heading, read_record, record_of, ParseError};
use crate::text::{chars_of, push_char, push_chars, same_text};

verus! {

/// The access letters of a founder.
pub const FOUNDER: &'static str = "AFRefiorstv";

/// The access letters of a bureaucrat.
pub const CRAT: &'static str = "Afiortv";

/// The access letters of an operator.
pub const OP: &'static str = "Aiotv";

/// The access letter of someone who may op themselves.
pub const PLUS_O: &'static str = "o";

/// The access letters of someone who is voiced on joining.
pub const AUTOVOICE: &'static str = "Vv";

/// The access letters granted to the operator bot.
pub const OPBOT: &'static str = "ot";

/// The ban entry that refers to the shared ban list.
pub const GLOBAL_BANS: &'static str = "$j:#wikimedia-bans";

/// The mask of the network's staff.
pub const LIBERA_STAFF: &'static str = "*!*@libera/staff/*";

/// The account of the network's utility bot.
pub const LITHARGE: &'static str = "litharge";

/// The account of the operator bot.
pub const WMOPBOT: &'static str = "wmopbot";

/// The three reports that make up a channel's live state.
#[derive(Clone, Copy, Debug, PartialEq, Eq)]
pub enum Report {
    /// The access list, which the directory service sends.
    Flags,
    /// The ban list.
    Bans,
    /// The list of invite exceptions.
    Invexes,
}

/// What a channel's configuration asks for.
pub struct DesiredState {
    pub founders: Set<Seq<char>>,
    pub crats: Set<Seq<char>>,
    pub ops: Set<Seq<char>>,
    pub plus_o: Set<Seq<char>>,
    pub autovoice: Set<Seq<char>>,
    pub global_bans: bool,
    pub libera_staff: bool,
    pub wmopbot: bool,
    pub invexes: Set<Seq<char>>,
}

/// What has been learned of a channel's live state so far.
pub struct LiveState {
    pub current: Map<Seq<char>, Set<char>>,
    pub bans: Set<Seq<char>>,
    pub invexes: Set<Seq<char>>,
    pub flags_done: bool,
    pub bans_done: bool,
    pub invexes_done: bool,
}

/// The letters of `tier` if `member` holds, no letters otherwise.
pub open spec fn granted(member: bool, tier: Seq<char>) -> Set<char> {
    if member {
        flags_in(tier)
    } else {
        Set::empty()
    }
}

impl DesiredState {
    /// The configuration that lists nobody and asks for nothing.
    pub open spec fn nothing() -> DesiredState {
        DesiredState {
            founders: Set::empty(),
            crats: Set::empty(),
            ops: Set::empty(),
            plus_o: Set::empty(),
            autovoice: Set::empty(),
            global_bans: false,
            libera_staff: false,
            wmopbot: false,
            invexes: Set::empty(),
        }
    }

    /// The letters that `account` should hold: the union of the letters of
    /// every tier that lists it and of every fixed grant that names it.
    pub open spec fn letters_for(self, account: Seq<char>) -> Set<char> {
        granted(self.founders.contains(account), FOUNDER@)
            + granted(self.crats.contains(account), CRAT@)
            + granted(self.ops.contains(account), OP@)
            + granted(self.plus_o.contains(account), PLUS_O@)
            + granted(self.autovoice.contains(account), AUTOVOICE@)
            + granted(
            self.libera_staff && (account == LIBERA_STAFF@ || account == LITHARGE@),
            PLUS_O@,
        ) + granted(self.wmopbot && account == WMOPBOT@, OPBOT@)
    }
}

impl LiveState {
    /// The state of a channel of which nothing is known yet.
    pub open spec fn unknown() -> LiveState {
        LiveState {
            current: Map::empty(),
            bans: Set::empty(),
            invexes: Set::empty(),
            flags_done: false,
            bans_done: false,
            invexes_done: false,
        }
    }

    /// The letters that `account` was seen to hold.
    pub open spec fn letters_of(self, account: Seq<char>) -> Set<char> {
        if self.current.dom().contains(account) {
            self.current[account]
        } else {
            Set::empty()
        }
    }

    /// Whether all three reports have ended.
    pub open spec fn is_done(self) -> bool {
        self.flags_done && self.bans_done && self.invexes_done
    }

    /// Whether a line of the access report can be taken in: it is a heading
    /// or a record line.
    pub open spec fn accepts(line: Seq<char>) -> bool {
        is_heading(line) || record_of(line) is Some
    }

    /// The state after a line of the access report has been taken in. A
    /// record line replaces what was known of its account; a heading, or a
    /// line that cannot be read, changes nothing.
    pub open spec fn ingest(self, line: Seq<char>) -> LiveState {
        if is_heading(line) {
            self
        } else {
            match record_of(line) {
                Some(record) => LiveState {
                    current: self.current.insert(record.account, flags_in(record.letters)),
                    ..self
                },
                None => self,
            }
        }
    }

    /// The state after `report` has come to its end.
    pub open spec fn finished(self, report: Report) -> LiveState {
        match report {
            Report::Flags => LiveState { flags_done: true, ..self },
            Report::Bans => LiveState { bans_done: true, ..self },
            Report::Invexes => LiveState { invexes_done: true, ..self },
        }
    }

    /// Whether `report` has come to its end.
    pub open spec fn has_finished(self, report: Report) -> bool {
        match report {
            Report::Flags => self.flags_done,
            Report::Bans => self.bans_done,
            Report::Invexes => self.invexes_done,
        }
    }

    /// The state after one entry of the ban list has been taken in.
    pub open spec fn with_ban(self, mask: Seq<char>) -> LiveState {
        LiveState { bans: self.bans.insert(mask), ..self }
    }

    /// The state after one entry of the invite-exception list has been
    /// taken in.
    pub open spec fn with_invex(self, mask: Seq<char>) -> LiveState {
        LiveState { invexes: self.invexes.insert(mask), ..self }
    }
}

/// The mode string that takes the letters `current` to the letters `should`:
/// a `-` and the letters to take away, then a `+` and the letters to give,
/// each group in ascending order and left out when it is empty.
pub open spec fn mode_text(current: Set<char>, should: Set<char>) -> Seq<char> {
    let remove = letter_run(current.difference(should));
    let add = letter_run(should.difference(current));
    (if remove.len() > 0 {
        seq!['-'] + remove
    } else {
        Seq::empty()
    }) + (if add.len() > 0 {
        seq!['+'] + add
    } else {
        Seq::empty()
    })
}

/// The flag commands that reconcile `live` with `desired`: one mode string
/// for each account whose letters differ, and none for any other.
pub open spec fn flag_commands(live: LiveState, desired: DesiredState) -> Map<
    Seq<char>,
    Seq<char>,
> {
    Map::new(
        |a: Seq<char>| live.letters_of(a) != desired.letters_for(a),
        |a: Seq<char>| mode_text(live.letters_of(a), desired.letters_for(a)),
    )
}

/// The letters one account holds and the letters it should hold.
#[derive(Debug)]
pub struct FlagChange {
    pub current: FlagSet,
    pub should: FlagSet,
}

impl FlagChange {
    /// A change from no letters to no letters.
    pub fn new() -> (r: Self)
        ensures
            r.current@ == Set::<char>::empty(),
            r.should@ == Set::<char>::empty(),
    {
        FlagChange { current: FlagSet::new(), should: FlagSet::new() }
    }

    /// The mode string that makes the change, or `None` where the two sets
    /// of letters agree.
    pub fn to_mode(&self) -> (r: Option<String>)
        ensures
            match r {
                Some(mode) => self.current@ != self.should@ && mode@ == mode_text(
                    self.current@,
                    self.should@,
                ),
                None => self.current@ == self.should@,
            },
    {
        if self.current.same_as(&self.should) {
            return None;
        }
        let remove = self.current.difference(&self.should).letters();
        let add = self.should.difference(&self.current).letters();
        let mut mode = String::new();
        if remove.len() > 0 {
            push_char(&mut mode, '-');
            push_chars(&mut mode, &remove);
        }
        if add.len() > 0 {
            push_char(&mut mode, '+');
            push_chars(&mut mode, &add);
        }
        proof {
            assert(seq!['-'] + remove@ =~= Seq::<char>::empty().push('-') + remove@);
            assert(mode@ =~= mode_text(self.current@, self.should@));
        }
        Some(mode)
    }
}

impl Default for FlagChange {
    fn default() -> (r: Self)
        ensures
            r.current@ == Set::<char>::empty(),
            r.should@ == Set::<char>::empty(),
    {
        FlagChange::new()
    }
}

/// A channel's configuration: who belongs to which tier, and which fixed
/// grants and shared lists apply.
#[derive(Debug)]
pub struct ConfiguredChannel {
    pub founders: NameSet,
    pub crats: NameSet,
    pub ops: NameSet,
    pub plus_o: NameSet,
    pub autovoice: NameSet,
    pub global_bans: bool,
    /// Gives the network's staff and its utility bot the letter `o`.
    pub libera_staff: bool,
    /// Gives the operator bot the letters `o` and `t`.
    pub wmopbot: bool,
    pub invexes: NameSet,
}

impl View for ConfiguredChannel {
    type V = DesiredState;

    open spec fn view(&self) -> DesiredState {
        DesiredState {
            founders: self.founders@,
            crats: self.crats@,
            ops: self.ops@,
            plus_o: self.plus_o@,
            autovoice: self.autovoice@,
            global_bans: self.global_bans,
            libera_staff: self.libera_staff,
            wmopbot: self.wmopbot,
            invexes: self.invexes@,
        }
    }
}

impl ConfiguredChannel {
    /// A configuration that lists nobody and asks for nothing.
    pub fn new() -> (r: Self)
        ensures
            r@ == DesiredState::nothing(),
    {
        ConfiguredChannel {
            founders: NameSet::new(),
            crats: NameSet::new(),
            ops: NameSet::new(),
            plus_o: NameSet::new(),
            autovoice: NameSet::new(),
            global_bans: false,
            libera_staff: false,
            wmopbot: false,
            invexes: NameSet::new(),
        }
    }

    /// The letters that `account` should hold.
    pub fn letters_for(&self, account: &str) -> (r: FlagSet)
        ensures
            r@ == self@.letters_for(account@),
    {
        let mut r = FlagSet::new();
        if self.founders.contains(account) {
            r.extend(&parse_flags(FOUNDER));
        }
        if self.crats.contains(account) {
            r.extend(&parse_flags(CRAT));
        }
        if self.ops.contains(account) {
            r.extend(&parse_flags(OP));
        }
        if self.plus_o.contains(account) {
            r.extend(&parse_flags(PLUS_O));
        }
        if self.autovoice.contains(account) {
            r.extend(&parse_flags(AUTOVOICE));
        }
        if self.libera_staff && (same_text(account, LIBERA_STAFF) || same_text(
            account,
            LITHARGE,
        )) {
            r.extend(&parse_flags(PLUS_O));
        }
        if self.wmopbot && same_text(account, WMOPBOT) {
            r.extend(&parse_flags(OPBOT));
        }
        assert(r@ =~= self@.letters_for(account@));
        r
    }
}

impl Default for ConfiguredChannel {
    fn default() -> (r: Self)
        ensures
            r@ == DesiredState::nothing(),
    {
        ConfiguredChannel::new()
    }
}

/// The letters behind each name of a table of flag sets.
pub open spec fn flag_views(table: Map<Seq<char>, FlagSet>) -> Map<Seq<char>, Set<char>> {
    Map::new(|a: Seq<char>| table.dom().contains(a), |a: Seq<char>| table[a]@)
}

/// What the bot has gathered of one channel's live state.
#[derive(Debug)]
pub struct ManagedChannel {
    pub bans: NameSet,
    pub invexes: NameSet,
    /// The letters each account was reported to hold.
    pub current: NameMap<FlagSet>,
    pub flags_done: bool,
    pub bans_done: bool,
    pub invexes_done: bool,
}

impl View for ManagedChannel {
    type V = LiveState;

    open spec fn view(&self) -> LiveState {
        LiveState {
            current: flag_views(self.current@),
            bans: self.bans@,
            invexes: self.invexes@,
            flags_done: self.flags_done,
            bans_done: self.bans_done,
            invexes_done: self.invexes_done,
        }
    }
}

/// One change to a channel's ban list.
#[derive(Debug, PartialEq, Eq)]
pub enum ModeOp {
    /// Put the mask on the ban list.
    AddBan(String),
    /// Take the mask off the ban list.
    RemoveBan(String),
}

/// A change to a ban list, with the mask as text.
pub enum BanChange {
    Add(Seq<char>),
    Remove(Seq<char>),
}

impl View for ModeOp {
    type V = BanChange;

    open spec fn view(&self) -> BanChange {
        match self {
            ModeOp::AddBan(mask) => BanChange::Add(mask@),
            ModeOp::RemoveBan(mask) => BanChange::Remove(mask@),
        }
    }
}

/// The list commands that reconcile `live` with `desired`: the reference to
/// the shared ban list is added where it is asked for and missing, removed
/// where it is present and not asked for, and nothing else is touched.
pub open spec fn acl_commands(live: LiveState, desired: DesiredState) -> Seq<BanChange> {
    if desired.global_bans && !live.bans.contains(GLOBAL_BANS@) {
        seq![BanChange::Add(GLOBAL_BANS@)]
    } else if !desired.global_bans && live.bans.contains(GLOBAL_BANS@) {
        seq![BanChange::Remove(GLOBAL_BANS@)]
    } else {
        Seq::empty()
    }
}

/// Whether the list `out` carries exactly the commands `commands`, one entry
/// for each account, in any order.
pub open spec fn emits(out: Seq<(String, String)>, commands: Map<Seq<char>, Seq<char>>) -> bool {
    &&& forall|i: int, j: int| 0 <= i < j < out.len() ==> out[i].0@ != out[j].0@
    &&& forall|i: int|
        0 <= i < out.len() ==> commands.contains_pair(#[trigger] out[i].0@, out[i].1@)
    &&& forall|a: Seq<char>| #[trigger]
        commands.dom().contains(a) ==> exists|i: int| 0 <= i < out.len() && out[i].0@ == a
}

/// The texts that a list of strings holds.
pub open spec fn named_by(list: Seq<String>) -> Set<Seq<char>> {
    Set::new(|a: Seq<char>| exists|i: int| 0 <= i < list.len() && list[i]@ == a)
}

/// Adds every name of `list` to `names`.
fn add_all(names: &mut NameSet, list: &Vec<String>)
    ensures
        final(names)@ == old(names)@ + named_by(list@),
{
    let mut i: usize = 0;
    while i < list.len()
        invariant
            i <= list.len(),
            names@ == old(names)@ + named_by(list@.take(i as int)),
        decreases list.len() - i,
    {
        names.insert(list[i].clone());
        i += 1;
        proof {
            let a = list@.take(i - 1);
            let b = list@.take(i as int);
            assert forall|t: Seq<char>| named_by(b).contains(t) <==> (named_by(a).contains(t) || t
                == list@[i - 1]@) by {
                if named_by(b).contains(t) {
                    let k = choose|k: int| 0 <= k < b.len() && b[k]@ == t;
                    if k < a.len() {
                        assert(a[k]@ == t);
                    }
                }
                if named_by(a).contains(t) {
                    let k = choose|k: int| 0 <= k < a.len() && a[k]@ == t;
                    assert(b[k]@ == t);
                }
                if t == list@[i - 1]@ {
                    assert(b[i - 1]@ == t);
                }
            }
            assert(names@ =~= old(names)@ + named_by(b));
        }
    }
    assert(list@.take(list@.len() as int) == list@);
}

impl ManagedChannel {
    /// A channel of which nothing is known yet.
    pub fn new() -> (r: Self)
        ensures
            r@ == LiveState::unknown(),
    {
        let r = ManagedChannel {
            bans: NameSet::new(),
            invexes: NameSet::new(),
            current: NameMap::new(),
            flags_done: false,
            bans_done: false,
            invexes_done: false,
        };
        assert(r@.current =~= Map::<Seq<char>, Set<char>>::empty());
        r
    }

    /// Whether the flags, the bans and the invite exceptions have all been
    /// reported to their end.
    pub fn is_done(&self) -> (r: bool)
        ensures
            r == self@.is_done(),
    {
        self.flags_done && self.bans_done && self.invexes_done
    }

    /// Takes in one line of the access report. A record line replaces
    /// what was known of its account, a heading is passed over, and any
    /// other line is refused and changes nothing.
    pub fn add_flags_from_chanserv(&mut self, line: &str) -> (r: Result<(), ParseError>)
        ensures
            final(self)@ == old(self)@.ingest(line@),
            r is Ok <==> LiveState::accepts(line@),
            r matches Err(e) ==> e.line@ == line@,
    {
        let text = chars_of(line);
        if heading(&text) {
            return Ok(());
        }
        match read_record(&text) {
            Some((account, letters)) => {
                let flags = parse_flags(letters.as_str());
                self.current.insert(account, flags);
                assert(self@.current =~= old(self)@.ingest(line@).current);
                Ok(())
            },
            None => Err(ParseError { line: String::from_str(line) }),
        }
    }

    /// Notes that `report` has come to its end.
    pub fn finish(&mut self, report: Report)
        ensures
            final(self)@ == old(self)@.finished(report),
    {
        match report {
            Report::Flags => {
                self.flags_done = true;
            },
            Report::Bans => {
                self.bans_done = true;
            },
            Report::Invexes => {
                self.invexes_done = true;
            },
        }
    }

    /// Takes in one entry of the ban list.
    pub fn add_ban(&mut self, mask: &str)
        ensures
            final(self)@ == old(self)@.with_ban(mask@),
    {
        self.bans.insert(String::from_str(mask));
    }

    /// Takes in one entry of the invite-exception list.
    pub fn add_invex(&mut self, mask: &str)
        ensures
            final(self)@ == old(self)@.with_invex(mask@),
    {
        self.invexes.insert(String::from_str(mask));
    }

    /// The letters that `account` was seen to hold.
    pub fn letters_of(&self, account: &str) -> (r: FlagSet)
        ensures
            r@ == self@.letters_of(account@),
    {
        match self.current.get(account) {
            Some(flags) => flags.clone(),
            None => FlagSet::new(),
        }
    }

    /// The names that can need a flag command: every account seen live and
    /// every account the configuration grants anything.
    fn candidates(&self, cfg: &ConfiguredChannel) -> (names: NameSet)
        ensures
            forall|a: Seq<char>|
                self@.letters_of(a) != cfg@.letters_for(a) ==> #[trigger] names@.contains(a),
    {
        let mut names = NameSet::new();
        let live = self.current.keys();
        add_all(&mut names, &live);
        let founders = cfg.founders.names();
        let crats = cfg.crats.names();
        let ops = cfg.ops.names();
        let plus_o = cfg.plus_o.names();
        let autovoice = cfg.autovoice.names();
        add_all(&mut names, founders);
        add_all(&mut names, crats);
        add_all(&mut names, ops);
        add_all(&mut names, plus_o);
        add_all(&mut names, autovoice);
        if cfg.libera_staff {
            names.insert(String::from_str(LIBERA_STAFF));
            names.insert(String::from_str(LITHARGE));
        }
        if cfg.wmopbot {
            names.insert(String::from_str(WMOPBOT));
        }
        proof {
            assert forall|a: Seq<char>|
                self@.letters_of(a) != cfg@.letters_for(a) implies #[trigger] names@.contains(
                a,
            ) by {
                if !names@.contains(a) {
                    assert(!named_by(live@).contains(a));
                    assert(!self.current@.dom().contains(a));
                    assert(!named_by(founders@).contains(a));
                    assert(!named_by(crats@).contains(a));
                    assert(!named_by(ops@).contains(a));
                    assert(!named_by(plus_o@).contains(a));
                    assert(!named_by(autovoice@).contains(a));
                    assert(cfg@.letters_for(a) =~= Set::<char>::empty());
                }
            }
        }
        names
    }

    /// The flag commands that take this live state to the configuration
    /// `cfg`: for every account whose letters differ, its name and the mode
    /// string that makes up the difference. The order of the commands is
    /// not fixed.
    pub fn fix_flags(&self, cfg: &ConfiguredChannel) -> (r: Vec<(String, String)>)
        ensures
            emits(r@, flag_commands(self@, cfg@)),
    {
        let names = self.candidates(cfg);
        let list = names.names();
        let ghost commands = flag_commands(self@, cfg@);
        let mut out: Vec<(String, String)> = Vec::new();
        let ghost mut origin: Seq<int> = Seq::empty();
        let mut i: usize = 0;
        while i < list.len()
            invariant
                i <= list.len(),
                commands == flag_commands(self@, cfg@),
                enumerates(list@, names@),
                origin.len() == out@.len(),
                forall|k: int|
                    0 <= k < out@.len() ==> 0 <= #[trigger] origin[k] < i && out@[k].0@
                        == list@[origin[k]]@,
                forall|k: int, l: int| 0 <= k < l < out@.len() ==> origin[k] < origin[l],
                forall|k: int|
                    0 <= k < out@.len() ==> commands.contains_pair(
                        #[trigger] out@[k].0@,
                        out@[k].1@,
                    ),
                forall|j: int|
                    0 <= j < i && commands.dom().contains(#[trigger] list@[j]@) ==> exists|k: int|
                        0 <= k < out@.len() && out@[k].0@ == list@[j]@,
            decreases list.len() - i,
        {
            let name = &list[i];
            let change = FlagChange {
                current: self.letters_of(name.as_str()),
                should: cfg.letters_for(name.as_str()),
            };
            let ghost before = out@;
            match change.to_mode() {
                Some(mode) => {
                    out.push((name.clone(), mode));
                    proof {
                        origin = origin.push(i as int);
                        assert forall|j: int|
                            0 <= j < i + 1 && commands.dom().contains(
                                #[trigger] list@[j]@,
                            ) implies exists|k: int|
                            0 <= k < out@.len() && out@[k].0@ == list@[j]@ by {
                            if j < i {
                                let k = choose|k: int|
                                    0 <= k < before.len() && before[k].0@ == list@[j]@;
                                assert(out@[k].0@ == list@[j]@);
                            } else {
                                assert(out@[before.len() as int].0@ == list@[j]@);
                            }
                        }
                    }
                },
                None => {},
            }
            i += 1;
        }
        proof {
            assert forall|k: int, l: int| 0 <= k < l < out@.len() implies out@[k].0@
                != out@[l].0@ by {
                assert(origin[k] < origin[l]);
            }
            assert forall|a: Seq<char>| #[trigger]
                commands.dom().contains(a) implies exists|k: int|
                0 <= k < out@.len() && out@[k].0@ == a by {
                assert(names@.contains(a));
                let j = choose|j: int| 0 <= j < list@.len() && list@[j]@ == a;
                assert(commands.dom().contains(list@[j]@));
            }
        }
        out
    }

    /// The list commands that take this live state to the configuration
    /// `cfg`.
    pub fn fix_modes(&self, cfg: &ConfiguredChannel) -> (r: Vec<ModeOp>)
        ensures
            r@.map_values(|op: ModeOp| op@) == acl_commands(self@, cfg@),
    {
        let mut cmds: Vec<ModeOp> = Vec::new();
        let listed = self.bans.contains(GLOBAL_BANS);
        if cfg.global_bans && !listed {
            cmds.push(ModeOp::AddBan(String::from_str(GLOBAL_BANS)));
        } else if !cfg.global_bans && listed {
            cmds.push(ModeOp::RemoveBan(String::from_str(GLOBAL_BANS)));
        }
        assert(cmds@.map_values(|op: ModeOp| op@) =~= acl_commands(self@, cfg@));
        cmds
    }
}

impl Default for ManagedChannel {
    fn default() -> (r: Self)
        ensures
            r@ == LiveState::unknown(),
    {
        ManagedChannel::new()
    }
}

/// The account under which the bot itself is known to the directory
/// service.
pub const ACCOUNT: &'static str = "ircservserv-wm";

/// The most founders a channel can have.
pub const MAX_FOUNDERS: usize = 4;

/// Why a channel's configuration cannot be used.
#[derive(Debug, PartialEq, Eq)]
pub enum ConfigError {
    /// More founders are listed than a channel can have.
    TooManyFounders,
    /// The bot itself is not listed as a founder.
    MissingFounder,
}

impl ConfigError {
    /// The error as a sentence.
    pub fn message(&self) -> (r: String)
        ensures
            r@ == match self {
                ConfigError::TooManyFounders => "Can only have 4 founders"@,
                ConfigError::MissingFounder => ACCOUNT@ + " must be listed as a founder"@,
            },
    {
        match self {
            ConfigError::TooManyFounders => String::from_str("Can only have 4 founders"),
            ConfigError::MissingFounder => crate::text::join2(
                ACCOUNT,
                " must be listed as a founder",
            ),
        }
    }
}

/// Checks that a channel's configuration can be used: it lists at most
/// [`MAX_FOUNDERS`] founders, and the bot is one of them.
pub fn validate(cfg: &ConfiguredChannel) -> (r: Result<(), ConfigError>)
    ensures
        r == if cfg@.founders.len() > MAX_FOUNDERS {
            Err::<(), ConfigError>(ConfigError::TooManyFounders)
        } else if !cfg@.founders.contains(ACCOUNT@) {
            Err::<(), ConfigError>(ConfigError::MissingFounder)
        } else {
            Ok::<(), ConfigError>(())
        },
{
    if cfg.founders.len() > MAX_FOUNDERS {
        return Err(ConfigError::TooManyFounders);
    }
    if !cfg.founders.contains(ACCOUNT) {
        return Err(ConfigError::MissingFounder);
    }
    Ok(())
}

} // verus!

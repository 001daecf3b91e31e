//! What holds of the library as a whole: laws that relate its functions to
//! one another, proved over the models that their contracts speak of.

use vstd::prelude::*;
use crate::channel::{
    acl_commands, emits, flag_commands, granted, mode_text, BanChange, DesiredState, LiveState, ManagedChannel,
    Report, AUTOVOICE, CRAT, FOUNDER, LIBERA_STAFF, LITHARGE, OP, OPBOT, PLUS_O, WMOPBOT,
};
use crate::chanserv::{MessageText, Session};
use crate::command::{flag_plan, follows, mode_plan, plan, ActionText, Event, Phase, Sync};
use crate::flagset::{
    flags_in, is_sign, lemma_flag_set_is_valid, lemma_flags_in_are_valid, lemma_run_lists,
    letter_run, lists, valid_flags,
};
use crate::report::{is_closing, is_heading};
use crate::Response;

verus! {

/// The commands that a list of flag commands carries, by account.
pub open spec fn commands_of(out: Seq<(String, String)>) -> Map<Seq<char>, Seq<char>> {
    Map::new(
        |a: Seq<char>| exists|i: int| 0 <= i < out.len() && out[i].0@ == a,
        |a: Seq<char>| out[choose|i: int| 0 <= i < out.len() && out[i].0@ == a].1@,
    )
}

/// A list that carries the commands `commands` carries nothing else: read
/// by account, it is `commands`.
pub proof fn lemma_emitted_commands(out: Seq<(String, String)>, commands: Map<Seq<char>, Seq<char>>)
    requires
        emits(out, commands),
    ensures
        commands_of(out) == commands,
{
    assert forall|a: Seq<char>| commands_of(out).dom().contains(a) <==> commands.dom().contains(
        a,
    ) by {
        if commands_of(out).dom().contains(a) {
            let i = choose|i: int| 0 <= i < out.len() && out[i].0@ == a;
            assert(commands.contains_pair(out[i].0@, out[i].1@));
        }
    }
    assert forall|a: Seq<char>| commands_of(out).dom().contains(a) implies commands_of(out)[a]
        == commands[a] by {
        let i = choose|i: int| 0 <= i < out.len() && out[i].0@ == a;
        assert(commands.contains_pair(out[i].0@, out[i].1@));
    }
    assert(commands_of(out) =~= commands);
}

/// The diff is deterministic but for the order of its commands: two runs
/// on the same live state and the same configuration give every account
/// the same mode string.
pub proof fn lemma_diff_is_deterministic(
    first: Seq<(String, String)>,
    second: Seq<(String, String)>,
    live: LiveState,
    desired: DesiredState,
)
    requires
        emits(first, flag_commands(live, desired)),
        emits(second, flag_commands(live, desired)),
    ensures
        commands_of(first) == commands_of(second),
{
    lemma_emitted_commands(first, flag_commands(live, desired));
    lemma_emitted_commands(second, flag_commands(live, desired));
}

/// The group of a mode string that `sign` opens: the sign and the letters,
/// or nothing where there are no letters.
pub open spec fn group(sign: char, letters: Seq<char>) -> Seq<char> {
    if letters.len() > 0 {
        seq![sign] + letters
    } else {
        Seq::empty()
    }
}

/// Within a mode string the letters to take away come before the letters
/// to give, and the letters of each group ascend by code point and are
/// exactly the letters to take away, or to give.
pub proof fn lemma_mode_text_in_order(held: Set<char>, should: Set<char>)
    requires
        held.finite(),
        should.finite(),
    ensures
        mode_text(held, should) == group('-', letter_run(held.difference(should))) + group(
            '+',
            letter_run(should.difference(held)),
        ),
        lists(letter_run(held.difference(should)), held.difference(should)),
        lists(letter_run(should.difference(held)), should.difference(held)),
{
    lemma_run_lists(held.difference(should));
    lemma_run_lists(should.difference(held));
}

/// The letters that an account should hold are the union of the letters
/// of all tiers that list it and of all fixed grants that name it: a
/// letter is among them exactly where one of these gives it.
pub proof fn lemma_letters_are_the_union(desired: DesiredState, account: Seq<char>, c: char)
    ensures
        desired.letters_for(account).contains(c) <==> {
            ||| desired.founders.contains(account) && flags_in(FOUNDER@).contains(c)
            ||| desired.crats.contains(account) && flags_in(CRAT@).contains(c)
            ||| desired.ops.contains(account) && flags_in(OP@).contains(c)
            ||| desired.plus_o.contains(account) && flags_in(PLUS_O@).contains(c)
            ||| desired.autovoice.contains(account) && flags_in(AUTOVOICE@).contains(c)
            ||| desired.libera_staff && (account == LIBERA_STAFF@ || account == LITHARGE@)
                && flags_in(PLUS_O@).contains(c)
            ||| desired.wmopbot && account == WMOPBOT@ && flags_in(OPBOT@).contains(c)
        },
{
}

/// An account that is listed both as founder and for voice should hold
/// the letters of both tiers.
pub proof fn lemma_founder_with_voice(desired: DesiredState, account: Seq<char>)
    requires
        desired.founders.contains(account),
        desired.autovoice.contains(account),
    ensures
        (flags_in(FOUNDER@) + flags_in(AUTOVOICE@)).subset_of(desired.letters_for(account)),
{
}

/// Once each of the three reports has ended, in whatever order, the
/// channel is done.
pub proof fn lemma_done_after_all_three(
    live: LiveState,
    first: Report,
    second: Report,
    third: Report,
)
    requires
        first != second,
        second != third,
        first != third,
    ensures
        live.finished(first).finished(second).finished(third).is_done(),
{
}

/// A channel is done exactly when each of the three reports has ended; the
/// end of one report leaves the others as they were, and what a report
/// carries ends none.
pub proof fn lemma_done_needs_all_three(live: LiveState, report: Report, other: Report, text: Seq<char>)
    ensures
        live.is_done() <==> live.has_finished(Report::Flags) && live.has_finished(Report::Bans)
            && live.has_finished(Report::Invexes),
        live.finished(report).has_finished(report),
        other != report ==> live.finished(report).has_finished(other) == live.has_finished(other),
        live.ingest(text).has_finished(other) == live.has_finished(other),
        live.with_ban(text).has_finished(other) == live.has_finished(other),
        live.with_invex(text).has_finished(other) == live.has_finished(other),
{
}

/// The state after the lines of a report have been taken in, one after
/// another.
pub open spec fn ingest_all(live: LiveState, lines: Seq<Seq<char>>) -> LiveState
    decreases lines.len(),
{
    if lines.len() == 0 {
        live
    } else {
        ingest_all(live, lines.drop_last()).ingest(lines.last())
    }
}

/// A line that cannot be read does not stand in the way of the others: the
/// report leaves the same state with the line as without it.
pub proof fn lemma_malformed_line_is_skipped(live: LiveState, lines: Seq<Seq<char>>, i: int)
    requires
        0 <= i < lines.len(),
        !LiveState::accepts(lines[i]),
    ensures
        ingest_all(live, lines) == ingest_all(live, lines.remove(i)),
    decreases lines.len(),
{
    if i == lines.len() - 1 {
        assert(lines.remove(i) =~= lines.drop_last());
    } else {
        lemma_malformed_line_is_skipped(live, lines.drop_last(), i);
        assert(lines.remove(i).drop_last() =~= lines.drop_last().remove(i));
        assert(lines.remove(i).last() == lines.last());
    }
}

/// A request made while a query is outstanding changes nothing: it has to
/// wait.
pub proof fn lemma_busy_request_waits(session: Session, channel: Seq<char>)
    requires
        session.chanserv is Some,
    ensures
        session.request(channel) == session,
{
}

/// A notice is only ever attributed to the channel whose report is
/// outstanding: what is known of any other channel stays as it is.
pub proof fn lemma_notice_goes_to_awaited(session: Session, line: Seq<char>, other: Seq<char>)
    requires
        session.awaited() != Some(other),
    ensures
        session.notice(line).channel(other) == session.channel(other),
{
}

/// The slot stays taken until the closing line of the outstanding report
/// comes in, and is free right after it.
pub proof fn lemma_slot_is_held_until_closing(session: Session, line: Seq<char>)
    requires
        session.awaited() is Some,
    ensures
        session.notice(line).chanserv is None <==> !is_heading(line) && is_closing(line),
        session.notice(line).chanserv is Some ==> session.notice(line).chanserv
            == session.chanserv,
{
}

/// The state after a run of notices.
pub open spec fn after_notices(session: Session, lines: Seq<Seq<char>>) -> Session
    decreases lines.len(),
{
    if lines.len() == 0 {
        session
    } else {
        after_notices(session, lines.drop_last()).notice(lines.last())
    }
}

/// Of two requests for different channels the second is delayed: as long
/// as the report of the first has not closed, the slot is the first's,
/// and no line is attributed to the second channel.
pub proof fn lemma_second_query_is_delayed(
    session: Session,
    first: Seq<char>,
    second: Seq<char>,
    lines: Seq<Seq<char>>,
)
    requires
        session.chanserv is None,
        first != second,
        forall|i: int| 0 <= i < lines.len() ==> is_heading(lines[i]) || !is_closing(lines[i]),
    ensures
        session.request(first).request(second) == session.request(first),
        after_notices(session.request(first), lines).awaited() == Some(first),
        after_notices(session.request(first), lines).channel(second) == session.channel(second),
        after_notices(session.request(first), lines).request(second) == after_notices(
            session.request(first),
            lines,
        ),
    decreases lines.len(),
{
    if lines.len() > 0 {
        lemma_second_query_is_delayed(session, first, second, lines.drop_last());
        let before = after_notices(session.request(first), lines.drop_last());
        assert(is_heading(lines.last()) || !is_closing(lines.last()));
        lemma_notice_goes_to_awaited(before, lines.last(), second);
    }
}

/// Once the report of the first channel has closed, the request for the
/// second takes the slot.
pub proof fn lemma_second_query_follows(session: Session, line: Seq<char>, second: Seq<char>)
    requires
        session.awaited() is Some,
        !is_heading(line),
        is_closing(line),
    ensures
        session.notice(line).request(second).awaited() == Some(second),
        session.notice(line).channel(session.awaited()->0).flags_done,
{
}

/// The letters held after the rest of a mode string was applied to the
/// letters `held`; `adding` tells whether the last sign read was a `+`.
pub open spec fn apply_signed(held: Set<char>, mode: Seq<char>, adding: bool) -> Set<char>
    decreases mode.len(),
{
    if mode.len() == 0 {
        held
    } else {
        let c = mode[0];
        let rest = mode.drop_first();
        if c == '+' {
            apply_signed(held, rest, true)
        } else if c == '-' {
            apply_signed(held, rest, false)
        } else if adding {
            apply_signed(held.insert(c), rest, true)
        } else {
            apply_signed(held.remove(c), rest, false)
        }
    }
}

/// The letters held after a mode string was applied to the letters `held`:
/// the letters behind a `-` are taken away, the letters behind a `+` are
/// given.
pub open spec fn apply_mode(held: Set<char>, mode: Seq<char>) -> Set<char> {
    apply_signed(held, mode, true)
}

/// The members of a sequence.
spec fn members(q: Seq<char>) -> Set<char> {
    Set::new(|c: char| q.contains(c))
}

/// A run of letters gives, or takes away, each of its letters.
proof fn lemma_apply_run(held: Set<char>, run: Seq<char>, rest: Seq<char>, adding: bool)
    requires
        forall|i: int| 0 <= i < run.len() ==> !is_sign(run[i]),
    ensures
        apply_signed(held, run + rest, adding) == apply_signed(
            if adding {
                held + members(run)
            } else {
                held.difference(members(run))
            },
            rest,
            adding,
        ),
    decreases run.len(),
{
    if run.len() == 0 {
        assert(run + rest =~= rest);
        assert(held + members(run) =~= held);
        assert(held.difference(members(run)) =~= held);
    } else {
        let c = run[0];
        let tail = run.drop_first();
        assert(!is_sign(run[0]));
        assert((run + rest)[0] == c);
        assert((run + rest).drop_first() =~= tail + rest);
        assert forall|i: int| 0 <= i < tail.len() implies !is_sign(tail[i]) by {
            assert(tail[i] == run[i + 1]);
        }
        assert forall|d: char| members(run).contains(d) <==> (d == c || members(tail).contains(
            d,
        )) by {
            if run.contains(d) {
                let k = choose|k: int| 0 <= k < run.len() && run[k] == d;
                if k > 0 {
                    assert(tail[k - 1] == d);
                }
            }
            if tail.contains(d) {
                let k = choose|k: int| 0 <= k < tail.len() && tail[k] == d;
                assert(run[k + 1] == d);
            }
            if d == c {
                assert(run[0] == d);
            }
        }
        if adding {
            lemma_apply_run(held.insert(c), tail, rest, true);
            assert(held.insert(c) + members(tail) =~= held + members(run));
        } else {
            lemma_apply_run(held.remove(c), tail, rest, false);
            assert(held.remove(c).difference(members(tail)) =~= held.difference(members(run)));
        }
    }
}

/// Applying the mode string that takes `held` to `should` leaves exactly
/// the letters `should`.
pub proof fn lemma_mode_text_takes_there(held: Set<char>, should: Set<char>)
    requires
        valid_flags(held),
        valid_flags(should),
    ensures
        apply_mode(held, mode_text(held, should)) == should,
{
    let minus = held.difference(should);
    let plus = should.difference(held);
    lemma_run_lists(minus);
    lemma_run_lists(plus);
    let remove = letter_run(minus);
    let add = letter_run(plus);
    assert forall|i: int| 0 <= i < remove.len() implies !is_sign(remove[i]) by {
        assert(remove.contains(remove[i]));
        assert(minus.contains(remove[i]));
    }
    assert forall|i: int| 0 <= i < add.len() implies !is_sign(add[i]) by {
        assert(add.contains(add[i]));
        assert(plus.contains(add[i]));
    }
    assert(members(remove) =~= minus);
    assert(members(add) =~= plus);
    let second = group('+', add);
    let mode = mode_text(held, should);
    assert(mode == group('-', remove) + second);
    let taken = held.difference(minus);
    // the group of the letters to take away
    assert(apply_signed(held, mode, true) == apply_signed(taken, second, remove.len() == 0)) by {
        if remove.len() > 0 {
            assert(mode[0] == '-');
            assert(mode.drop_first() =~= remove + second);
            lemma_apply_run(held, remove, second, false);
        } else {
            assert(mode =~= second);
            assert(taken =~= held);
        }
    }
    // the group of the letters to give
    assert(apply_signed(taken, second, remove.len() == 0) == taken + plus) by {
        if add.len() > 0 {
            assert(second[0] == '+');
            assert(second.drop_first() =~= add + Seq::<char>::empty());
            lemma_apply_run(taken, add, Seq::<char>::empty(), true);
        } else {
            assert(taken + plus =~= taken);
        }
    }
    assert(taken + plus =~= should);
}

/// The letters that an account should hold can be held by a flag set.
pub proof fn lemma_desired_letters_are_valid(desired: DesiredState, account: Seq<char>)
    ensures
        valid_flags(desired.letters_for(account)),
{
    lemma_flags_in_are_valid(FOUNDER@);
    lemma_flags_in_are_valid(CRAT@);
    lemma_flags_in_are_valid(OP@);
    lemma_flags_in_are_valid(PLUS_O@);
    lemma_flags_in_are_valid(AUTOVOICE@);
    lemma_flags_in_are_valid(OPBOT@);
}

impl LiveState {
    /// Whether the letters seen for each account can be held by a flag set.
    pub open spec fn valid(self) -> bool {
        forall|a: Seq<char>| self.current.dom().contains(a) ==> valid_flags(#[trigger] self.current[a])
    }

    /// The live state once the flag commands `commands` have taken effect.
    pub open spec fn after_flags(self, commands: Map<Seq<char>, Seq<char>>) -> LiveState {
        LiveState {
            current: Map::new(
                |a: Seq<char>| self.current.dom().contains(a) || commands.dom().contains(a),
                |a: Seq<char>|
                    if commands.dom().contains(a) {
                        apply_mode(self.letters_of(a), commands[a])
                    } else {
                        self.current[a]
                    },
            ),
            ..self
        }
    }

    /// The live state once one change to the ban list has taken effect.
    pub open spec fn after_change(self, change: BanChange) -> LiveState {
        match change {
            BanChange::Add(mask) => LiveState { bans: self.bans.insert(mask), ..self },
            BanChange::Remove(mask) => LiveState { bans: self.bans.remove(mask), ..self },
        }
    }

    /// The live state once the list commands `changes` have taken effect,
    /// in order.
    pub open spec fn after_changes(self, changes: Seq<BanChange>) -> LiveState
        decreases changes.len(),
    {
        if changes.len() == 0 {
            self
        } else {
            self.after_changes(changes.drop_last()).after_change(changes.last())
        }
    }
}

/// What a channel's table of flags holds is valid, whatever the channel.
pub proof fn lemma_live_state_is_valid(channel: ManagedChannel)
    ensures
        channel@.valid(),
{
    assert forall|a: Seq<char>| channel@.current.dom().contains(a) implies valid_flags(
        #[trigger] channel@.current[a],
    ) by {
        lemma_flag_set_is_valid(channel.current@[a]);
    }
}

/// The diff is idempotent: once its commands have taken effect, a second
/// diff against the same configuration has nothing left to ask for.
pub proof fn lemma_diff_is_idempotent(live: LiveState, desired: DesiredState)
    requires
        live.valid(),
    ensures
        ({
            let next = live.after_flags(flag_commands(live, desired)).after_changes(
                acl_commands(live, desired),
            );
            &&& flag_commands(next, desired) == Map::<Seq<char>, Seq<char>>::empty()
            &&& acl_commands(next, desired) == Seq::<BanChange>::empty()
        }),
{
    let commands = flag_commands(live, desired);
    let changes = acl_commands(live, desired);
    let flagged = live.after_flags(commands);
    let next = flagged.after_changes(changes);
    assert(next.current == flagged.current && next.bans == flagged.after_changes(changes).bans) by {
        reveal_with_fuel(LiveState::after_changes, 3);
        if changes.len() == 1 {
            assert(changes.drop_last() =~= Seq::<BanChange>::empty());
        }
    }
    assert forall|a: Seq<char>| next.letters_of(a) == desired.letters_for(a) by {
        lemma_desired_letters_are_valid(desired, a);
        if commands.dom().contains(a) {
            assert(valid_flags(live.letters_of(a)));
            lemma_mode_text_takes_there(live.letters_of(a), desired.letters_for(a));
        }
    }
    assert(flag_commands(next, desired) =~= Map::<Seq<char>, Seq<char>>::empty());
    assert(acl_commands(next, desired) =~= Seq::<BanChange>::empty()) by {
        reveal_with_fuel(LiveState::after_changes, 3);
        if changes.len() == 1 {
            assert(changes.drop_last() =~= Seq::<BanChange>::empty());
        }
    }
}

/// A sync that was given up stays given up, and a sync that is over hands
/// out nothing more.
pub proof fn lemma_over_is_over(before: Sync, event: Event, after: Sync, actions: Seq<ActionText>)
    requires
        follows(before, event, after, actions),
        before.phase == Phase::Done || before.phase == Phase::Error,
    ensures
        after.phase == before.phase,
        actions == Seq::<ActionText>::empty(),
{
}

/// The steps for flag commands never touch the ban list.
proof fn lemma_flag_plan_sets_no_mode(channel: Seq<char>, flags: Seq<(String, String)>, n: int, i: int)
    requires
        0 <= i < flag_plan(channel, flags, n).len(),
    ensures
        !(flag_plan(channel, flags, n)[i] is SetMode),
    decreases n,
{
    if 0 < n <= flags.len() {
        let head = flag_plan(channel, flags, n - 1);
        if i < head.len() {
            lemma_flag_plan_sets_no_mode(channel, flags, n - 1, i);
        }
    }
}

/// The ban list is only ever changed right after the bot has made sure
/// that it is an operator: a change to it is handed out in answer to no
/// event but the grant of the privilege.
pub proof fn lemma_ban_list_changes_need_privilege(
    before: Sync,
    event: Event,
    after: Sync,
    actions: Seq<ActionText>,
    i: int,
)
    requires
        follows(before, event, after, actions),
        0 <= i < actions.len(),
        actions[i] is SetMode,
    ensures
        before.phase == Phase::AcquiringPrivilege,
        event == Event::Opped(true),
{
    match (before.phase, event) {
        (Phase::AwaitingCompletion, Event::Gathered { live, config }) => {
            if config is Ok && after.modes@.len() == 0 && after.flags@.len() > 0 {
                assert(mode_plan(before.channel@, after.modes@, 0) =~= Seq::<ActionText>::empty());
                let steps = flag_plan(before.channel@, after.flags@, after.flags@.len() as int);
                assert(plan(before.channel@, after.flags@, after.modes@) =~= steps);
                if i < steps.len() {
                    lemma_flag_plan_sets_no_mode(
                        before.channel@,
                        after.flags@,
                        after.flags@.len() as int,
                        i,
                    );
                }
            }
        },
        _ => {},
    }
}

/// A sync that comes to its end tells the bot to step down, and that is
/// the last thing it tells.
pub proof fn lemma_done_steps_down(before: Sync, event: Event, after: Sync, actions: Seq<ActionText>)
    requires
        follows(before, event, after, actions),
        before.phase != Phase::Done,
        after.phase == Phase::Done,
    ensures
        actions.len() > 0,
        actions.last() == ActionText::Deop(before.channel@),
{
}

/// A report that has ended stays ended, whatever message or reply comes
/// next.
pub proof fn lemma_ended_reports_stay_ended(
    session: Session,
    channel: Seq<char>,
    report: Report,
    message: MessageText,
    response: Response,
    data: Seq<Seq<char>>,
)
    requires
        session.channel(channel).has_finished(report),
    ensures
        session.step(message).channel(channel).has_finished(report),
        session.reply(response, data).channel(channel).has_finished(report),
{
}

/// Each of the three ends marks its report: the closing line of the access
/// report while the channel's query is outstanding, and the two replies
/// that end the channel's lists. With the law before, a channel is done
/// once all three have come, in whatever order.
pub proof fn lemma_ends_mark_their_report(
    session: Session,
    channel: Seq<char>,
    line: Seq<char>,
    data: Seq<Seq<char>>,
)
    ensures
        session.awaited() == Some(channel) && !is_heading(line) && is_closing(line)
            ==> session.notice(line).channel(channel).has_finished(Report::Flags),
        data.len() > 1 && data[1] == channel ==> session.reply(
            Response::EndOfBanList,
            data,
        ).channel(channel).has_finished(Report::Bans),
        data.len() > 1 && data[1] == channel ==> session.reply(
            Response::EndOfInviteList,
            data,
        ).channel(channel).has_finished(Report::Invexes),
{
}

} // verus!

use ircservserv::channel::{
    validate, ConfigError, ConfiguredChannel, FlagChange, ManagedChannel, ModeOp, Report, FOUNDER,
    LIBERA_STAFF, LITHARGE,
};
use ircservserv::flagset::{parse_flags, FlagSet};
use ircservserv::names::NameSet;

fn set(arg: &str) -> NameSet {
    let mut set = NameSet::new();
    set.insert(arg.to_string());
    set
}

fn letters(list: &[char]) -> FlagSet {
    let mut set = FlagSet::new();
    for c in list {
        set.insert(*c);
    }
    set
}

#[test]
fn test_fix_flags() {
    let mut managed = ManagedChannel::default();
    managed.current.insert("foo".to_string(), parse_flags(FOUNDER));
    let cfg = ConfiguredChannel {
        founders: set("bar"),
        ops: set("foo"),
        ..Default::default()
    };
    let mut res = managed.fix_flags(&cfg);
    res.sort();
    let expected = vec![
        ("bar".to_string(), "+AFRefiorstv".to_string()),
        ("foo".to_string(), "-FRefrs".to_string()),
    ];
    assert_eq!(expected, res);
}

#[test]
fn test_libera_staff() {
    let cfg = ConfiguredChannel {
        libera_staff: true,
        ..Default::default()
    };
    let mut res = ManagedChannel::default().fix_flags(&cfg);
    res.sort();
    let expected = vec![
        (LIBERA_STAFF.to_string(), "+o".to_string()),
        (LITHARGE.to_string(), "+o".to_string()),
    ];
    assert_eq!(expected, res);
}

#[test]
fn test_flag_change() {
    let mut change = FlagChange::default();
    change.current.extend(&letters(&['A', 'B', 'C']));
    assert_eq!(&change.to_mode().unwrap(), "-ABC");
    change.should.extend(&letters(&['A', 'B', 'D']));
    assert_eq!(&change.to_mode().unwrap(), "-C+D");
    change.current = FlagSet::new();
    assert_eq!(&change.to_mode().unwrap(), "+ABD");
}

#[test]
fn test_add_chanserv_flags_line() {
    let mut channel = ManagedChannel::default();
    channel.add_flags_from_chanserv(
        "1        legoktm                +AFRefiorstv         (FOUNDER) [modified 9s ago, on May 30 09:21:18 2021 +0000, by legoktm]"
    ).unwrap();
    assert_eq!(channel.current.len(), 1);
    assert_eq!(
        channel.current.get("legoktm"),
        Some(&letters(&['A', 'F', 'R', 'e', 'f', 'i', 'o', 'r', 's', 't', 'v']))
    );
    channel.add_flags_from_chanserv(
        "2        addshore               +Aiotv               [modified 30m 34s ago, on May 30 08:50:53 2021 +0000, by legoktm]"
    ).unwrap();
    assert_eq!(channel.current.len(), 2);
    assert_eq!(
        channel.current.get("legoktm"),
        Some(&letters(&['A', 'F', 'R', 'e', 'f', 'i', 'o', 'r', 's', 't', 'v']))
    );
    assert_eq!(
        channel.current.get("addshore"),
        Some(&letters(&['A', 'i', 'o', 't', 'v']))
    );
}

#[test]
fn test_parse_flags() {
    assert_eq!(parse_flags("+Vv"), letters(&['v', 'V']));
}

fn table(entries: &[(&str, &str)]) -> ManagedChannel {
    let mut managed = ManagedChannel::default();
    for (name, flags) in entries {
        managed.current.insert(name.to_string(), parse_flags(flags));
    }
    managed
}

fn apply(held: &FlagSet, mode: &str) -> FlagSet {
    let mut kept: Vec<char> = held.letters();
    let mut adding = true;
    for c in mode.chars() {
        match c {
            '+' => adding = true,
            '-' => adding = false,
            _ if adding => {
                if !kept.contains(&c) {
                    kept.push(c)
                }
            }
            _ => kept.retain(|k| *k != c),
        }
    }
    letters(&kept)
}

#[test]
fn diff_gives_the_same_commands_on_every_run() {
    let managed = table(&[("foo", "AFRefiorstv"), ("baz", "Vv"), ("qux", "o")]);
    let cfg = ConfiguredChannel {
        founders: set("bar"),
        ops: set("foo"),
        autovoice: set("baz"),
        ..Default::default()
    };
    let mut first = managed.fix_flags(&cfg);
    let mut second = managed.fix_flags(&cfg);
    first.sort();
    second.sort();
    assert_eq!(first, second);
    assert_eq!(
        first,
        vec![
            ("bar".to_string(), "+AFRefiorstv".to_string()),
            ("foo".to_string(), "-FRefrs".to_string()),
            ("qux".to_string(), "-o".to_string()),
        ]
    );
}

#[test]
fn diff_has_nothing_to_ask_for_once_its_commands_took_effect() {
    let mut managed = table(&[("foo", "AFRefiorstv"), ("baz", "Vv"), ("qux", "ov")]);
    let mut cfg = ConfiguredChannel {
        founders: set("bar"),
        ops: set("foo"),
        plus_o: set("baz"),
        global_bans: true,
        wmopbot: true,
        ..Default::default()
    };
    cfg.autovoice.insert("qux".to_string());
    let flags = managed.fix_flags(&cfg);
    let modes = managed.fix_modes(&cfg);
    assert_eq!(flags.len(), 5);
    assert_eq!(modes.len(), 1);
    for (account, mode) in &flags {
        let held = managed.letters_of(account);
        managed.current.insert(account.clone(), apply(&held, mode));
    }
    for op in &modes {
        match op {
            ModeOp::AddBan(mask) => managed.add_ban(mask),
            ModeOp::RemoveBan(_) => unreachable!(),
        }
    }
    assert!(managed.fix_flags(&cfg).is_empty());
    assert!(managed.fix_modes(&cfg).is_empty());
}

#[test]
fn mode_string_takes_away_first_and_ascends_within_each_group() {
    let mut change = FlagChange::default();
    for c in ['z', 'a', 'Q', 'B', 'm'] {
        change.current.insert(c);
    }
    for c in ['m', 'y', 'C', 'x', 'A'] {
        change.should.insert(c);
    }
    assert_eq!(change.to_mode(), Some("-BQaz+ACxy".to_string()));
}

#[test]
fn mode_string_is_none_where_nothing_changes() {
    let change = FlagChange {
        current: parse_flags("ot"),
        should: parse_flags("to"),
    };
    assert_eq!(change.to_mode(), None);
    assert_eq!(FlagChange::default().to_mode(), None);
}

#[test]
fn founder_with_voice_gets_the_letters_of_both_tiers() {
    let cfg = ConfiguredChannel {
        founders: set("ada"),
        autovoice: set("ada"),
        ..Default::default()
    };
    assert_eq!(cfg.letters_for("ada"), parse_flags("AFRefiorstvV"));
    let res = ManagedChannel::default().fix_flags(&cfg);
    assert_eq!(res, vec![("ada".to_string(), "+AFRVefiorstv".to_string())]);
}

#[test]
fn every_tier_has_its_letters() {
    let cfg = ConfiguredChannel {
        founders: set("f"),
        crats: set("c"),
        ops: set("o"),
        plus_o: set("p"),
        autovoice: set("v"),
        ..Default::default()
    };
    assert_eq!(cfg.letters_for("f").letters(), "AFRefiorstv".chars().collect::<Vec<char>>());
    assert_eq!(cfg.letters_for("c").letters(), "Afiortv".chars().collect::<Vec<char>>());
    assert_eq!(cfg.letters_for("o").letters(), "Aiotv".chars().collect::<Vec<char>>());
    assert_eq!(cfg.letters_for("p").letters(), vec!['o']);
    assert_eq!(cfg.letters_for("v").letters(), vec!['V', 'v']);
    assert!(cfg.letters_for("nobody").is_empty());
    assert!(cfg.letters_for("wmopbot").is_empty());
}

#[test]
fn operator_bot_is_granted_its_letters() {
    let cfg = ConfiguredChannel {
        wmopbot: true,
        ..Default::default()
    };
    let res = ManagedChannel::default().fix_flags(&cfg);
    assert_eq!(res, vec![("wmopbot".to_string(), "+ot".to_string())]);
}

#[test]
fn unknown_letters_are_taken_away() {
    let managed = table(&[("stranger", "xyZ")]);
    let res = managed.fix_flags(&ConfiguredChannel::default());
    assert_eq!(res, vec![("stranger".to_string(), "-Zxy".to_string())]);
}

#[test]
fn account_without_letters_is_left_out() {
    let managed = table(&[("idle", "")]);
    assert!(managed.fix_flags(&ConfiguredChannel::default()).is_empty());
    let cfg = ConfiguredChannel {
        invexes: set("idle"),
        ..Default::default()
    };
    assert!(managed.fix_flags(&cfg).is_empty());
}

#[test]
fn missing_global_bans_are_added() {
    let cfg = ConfiguredChannel {
        global_bans: true,
        ..Default::default()
    };
    let res = ManagedChannel::default().fix_modes(&cfg);
    assert_eq!(
        res,
        vec![ModeOp::AddBan("$j:#wikimedia-bans".to_string())]
    );
}

#[test]
fn unwanted_global_bans_are_removed() {
    let mut managed = ManagedChannel::default();
    managed.add_ban("*!*@example.org");
    managed.add_ban("$j:#wikimedia-bans");
    let res = managed.fix_modes(&ConfiguredChannel::default());
    assert_eq!(
        res,
        vec![ModeOp::RemoveBan("$j:#wikimedia-bans".to_string())]
    );
}

#[test]
fn ban_list_in_agreement_is_left_alone() {
    let mut managed = ManagedChannel::default();
    managed.add_ban("*!*@example.org");
    assert!(managed.fix_modes(&ConfiguredChannel::default()).is_empty());
    managed.add_ban("$j:#wikimedia-bans");
    let cfg = ConfiguredChannel {
        global_bans: true,
        ..Default::default()
    };
    assert!(managed.fix_modes(&cfg).is_empty());
}

#[test]
fn configured_invexes_are_not_reconciled() {
    let mut managed = ManagedChannel::default();
    managed.add_invex("*!*@old.example.org");
    let cfg = ConfiguredChannel {
        invexes: set("*!*@new.example.org"),
        ..Default::default()
    };
    assert!(managed.fix_modes(&cfg).is_empty());
    assert!(managed.fix_flags(&cfg).is_empty());
}

#[test]
fn channel_is_done_once_all_three_reports_ended() {
    let (flags, bans, invexes) = (Report::Flags, Report::Bans, Report::Invexes);
    let orders = [
        [flags, bans, invexes],
        [flags, invexes, bans],
        [bans, flags, invexes],
        [bans, invexes, flags],
        [invexes, flags, bans],
        [invexes, bans, flags],
    ];
    for order in orders {
        let mut managed = ManagedChannel::default();
        assert!(!managed.is_done());
        managed.finish(order[0]);
        assert!(!managed.is_done());
        managed.finish(order[1]);
        assert!(!managed.is_done());
        managed.finish(order[0]);
        assert!(!managed.is_done());
        managed.finish(order[2]);
        assert!(managed.is_done());
    }
}

#[test]
fn malformed_line_does_not_stop_the_report() {
    let mut channel = ManagedChannel::default();
    channel
        .add_flags_from_chanserv("1        legoktm                +AFRefiorstv         (FOUNDER)")
        .unwrap();
    let err = channel
        .add_flags_from_chanserv("this is not a record")
        .unwrap_err();
    assert_eq!(err.line, "this is not a record");
    assert_eq!(err.message(), "Couldn't parse: this is not a record");
    channel
        .add_flags_from_chanserv("3        addshore               +Aiotv")
        .unwrap();
    assert_eq!(channel.current.len(), 2);
    assert_eq!(channel.letters_of("legoktm"), parse_flags("AFRefiorstv"));
    assert_eq!(channel.letters_of("addshore"), parse_flags("Aiotv"));
}

#[test]
fn later_record_replaces_the_earlier() {
    let mut channel = ManagedChannel::default();
    channel.add_flags_from_chanserv("1 ada +AFR").unwrap();
    channel.add_flags_from_chanserv("1 ada +Vv").unwrap();
    assert_eq!(channel.current.len(), 1);
    assert_eq!(channel.letters_of("ada"), parse_flags("Vv"));
}

#[test]
fn headings_are_passed_over() {
    let mut channel = ManagedChannel::default();
    channel
        .add_flags_from_chanserv("Entry    Nickname/Host          Flags")
        .unwrap();
    channel
        .add_flags_from_chanserv("-----    ----------------------  -----")
        .unwrap_err();
    channel
        .add_flags_from_chanserv("--------------------------------------")
        .unwrap();
    assert_eq!(channel.current.len(), 0);
    assert!(channel
        .add_flags_from_chanserv("End of #channel FLAGS listing.")
        .is_err());
}

#[test]
fn validation_wants_the_bot_among_at_most_four_founders() {
    let mut cfg = ConfiguredChannel::default();
    assert_eq!(validate(&cfg), Err(ConfigError::MissingFounder));
    assert_eq!(
        ConfigError::MissingFounder.message(),
        "ircservserv-wm must be listed as a founder"
    );
    cfg.founders.insert("ircservserv-wm".to_string());
    assert_eq!(validate(&cfg), Ok(()));
    for name in ["a", "b", "c"] {
        cfg.founders.insert(name.to_string());
    }
    cfg.founders.insert("a".to_string());
    assert_eq!(validate(&cfg), Ok(()));
    cfg.founders.insert("d".to_string());
    assert_eq!(validate(&cfg), Err(ConfigError::TooManyFounders));
    assert_eq!(ConfigError::TooManyFounders.message(), "Can only have 4 founders");
}

#[test]
fn flag_sets_leave_signs_out() {
    let mut flags = FlagSet::new();
    assert!(!flags.insert('+'));
    assert!(!flags.insert('-'));
    assert!(flags.insert('o'));
    assert!(!flags.insert('o'));
    assert_eq!(flags.len(), 1);
    assert!(flags.contains('o'));
    assert!(!flags.contains('+'));
    assert_eq!(parse_flags("-a+b-").letters(), vec!['a', 'b']);
    assert!(parse_flags("+-").is_empty());
    assert!(parse_flags("ab").same_as(&parse_flags("+ba")));
    assert!(!parse_flags("ab").same_as(&parse_flags("a")));
    assert_eq!(parse_flags("abc").difference(&parse_flags("bd")).letters(), vec!['a', 'c']);
}

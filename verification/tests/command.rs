use ircservserv::channel::{ConfiguredChannel, ManagedChannel, ModeOp};
use ircservserv::command::{
    iss_pull, iss_sync, must_be_in, must_be_in_a_channel, sync_channel, Action, CommandError,
    Event, Phase, Sync,
};
use ircservserv::flagset::parse_flags;
use ircservserv::{Received, Tag};

fn message(target: Option<&str>, account: Option<&str>) -> Received {
    Received {
        tags: account.map(|a| vec![Tag("account".to_string(), Some(a.to_string()))]),
        prefix: None,
        response_target: target.map(|t| t.to_string()),
    }
}

fn say(target: &str, text: &str) -> Action {
    Action::Privmsg {
        target: target.to_string(),
        text: text.to_string(),
    }
}

fn started(channel: &str, account: &str) -> Sync {
    let mut sync = Sync::new();
    let actions = iss_sync(&mut sync, Event::Invoked(message(Some(channel), Some(account))));
    assert_eq!(
        actions,
        vec![
            Action::RequestFlags(channel.to_string()),
            Action::AwaitFlags(channel.to_string()),
        ]
    );
    assert_eq!(sync.phase, Phase::Authorizing);
    assert_eq!(sync.channel, channel);
    assert_eq!(sync.account, account);
    sync
}

fn gathering(channel: &str, account: &str) -> Sync {
    let mut sync = started(channel, account);
    let actions = iss_sync(
        &mut sync,
        Event::FlagsDone {
            owner: false,
            founder: true,
        },
    );
    assert_eq!(
        actions,
        vec![
            say(channel, &format!("Syncing {} (requested by {})", channel, account)),
            Action::EnsureOp(channel.to_string()),
        ]
    );
    assert_eq!(sync.phase, Phase::QueryingLiveState);
    let actions = iss_sync(&mut sync, Event::Opped(true));
    assert_eq!(
        actions,
        vec![
            Action::ListBans(channel.to_string()),
            Action::ListInvexes(channel.to_string()),
            Action::Gather(channel.to_string()),
        ]
    );
    assert_eq!(sync.phase, Phase::AwaitingCompletion);
    sync
}

#[test]
fn command_must_come_from_a_channel() {
    assert_eq!(
        must_be_in_a_channel(&message(Some("#ops"), None)),
        Ok("#ops".to_string())
    );
    assert_eq!(
        must_be_in_a_channel(&message(Some("ada"), None)),
        Err(CommandError::NotInChannel)
    );
    assert_eq!(
        must_be_in_a_channel(&message(Some(""), None)),
        Err(CommandError::NotInChannel)
    );
    assert_eq!(
        must_be_in_a_channel(&message(None, None)),
        Err(CommandError::NotInChannel)
    );
    assert_eq!(
        CommandError::NotInChannel.message(),
        "This command must be used in-channel."
    );
}

#[test]
fn command_must_come_from_the_named_channel() {
    assert_eq!(must_be_in(&message(Some("#ops"), None), "#ops"), Ok(()));
    assert_eq!(
        must_be_in(&message(Some("#other"), None), "#ops"),
        Err(CommandError::WrongChannel("#ops".to_string()))
    );
    assert_eq!(
        must_be_in(&message(None, None), "#ops"),
        Err(CommandError::WrongChannel("#ops".to_string()))
    );
    assert_eq!(
        CommandError::WrongChannel("#ops".to_string()).message(),
        "This command can only be used in #ops"
    );
}

#[test]
fn sync_outside_a_channel_is_turned_down() {
    let mut sync = Sync::new();
    let actions = iss_sync(&mut sync, Event::Invoked(message(Some("ada"), Some("ada"))));
    assert_eq!(actions, vec![say("ada", "This command must be used in-channel.")]);
    assert_eq!(sync.phase, Phase::Error);

    let mut sync = Sync::new();
    let actions = iss_sync(&mut sync, Event::Invoked(message(None, Some("ada"))));
    assert_eq!(actions, vec![]);
    assert_eq!(sync.phase, Phase::Error);
    assert!(sync.is_over());
}

#[test]
fn sync_without_an_account_is_turned_down() {
    let mut sync = Sync::new();
    let actions = iss_sync(&mut sync, Event::Invoked(message(Some("#a"), None)));
    assert_eq!(
        actions,
        vec![say("#a", "You don't have permission to update channel settings")]
    );
    assert_eq!(sync.phase, Phase::Error);
}

#[test]
fn sync_is_for_owners_and_founders() {
    let mut sync = started("#a", "ada");
    let actions = iss_sync(
        &mut sync,
        Event::FlagsDone {
            owner: false,
            founder: false,
        },
    );
    assert_eq!(
        actions,
        vec![say("#a", "You don't have permission to update channel settings")]
    );
    assert_eq!(sync.phase, Phase::Error);

    let mut sync = started("#a", "ada");
    let actions = iss_sync(
        &mut sync,
        Event::FlagsDone {
            owner: true,
            founder: false,
        },
    );
    assert_eq!(
        actions,
        vec![
            say("#a", "Syncing #a (requested by ada)"),
            Action::EnsureOp("#a".to_string()),
        ]
    );
    assert_eq!(sync.phase, Phase::QueryingLiveState);
}

#[test]
fn sync_ends_where_the_bot_is_not_opped() {
    let mut sync = started("#a", "ada");
    iss_sync(
        &mut sync,
        Event::FlagsDone {
            owner: true,
            founder: true,
        },
    );
    assert_eq!(iss_sync(&mut sync, Event::Opped(false)), vec![]);
    assert_eq!(sync.phase, Phase::Error);
    assert_eq!(iss_sync(&mut sync, Event::Opped(true)), vec![]);
    assert_eq!(sync.phase, Phase::Error);
}

#[test]
fn sync_without_updates_says_so_and_steps_down() {
    let mut sync = gathering("#a", "ada");
    let actions = iss_sync(
        &mut sync,
        Event::Gathered {
            live: ManagedChannel::default(),
            config: Ok(ConfiguredChannel::default()),
        },
    );
    assert_eq!(
        actions,
        vec![say("#a", "No updates for #a"), Action::Deop("#a".to_string())]
    );
    assert_eq!(sync.phase, Phase::Done);
    assert!(sync.is_over());
    assert_eq!(iss_sync(&mut sync, Event::SendFailed), vec![]);
    assert_eq!(sync.phase, Phase::Done);
}

#[test]
fn sync_reports_a_configuration_that_cannot_be_loaded() {
    let mut sync = gathering("#a", "ada");
    let actions = iss_sync(
        &mut sync,
        Event::Gathered {
            live: ManagedChannel::default(),
            config: Err("No such file or directory (os error 2)".to_string()),
        },
    );
    assert_eq!(
        actions,
        vec![say(
            "#a",
            "Error reading channel configuration: No such file or directory (os error 2)"
        )]
    );
    assert_eq!(sync.phase, Phase::Error);
}

#[test]
fn sync_applies_flag_commands_without_asking_for_op_again() {
    let mut sync = gathering("#a", "ada");
    let mut live = ManagedChannel::default();
    live.current.insert("bob".to_string(), parse_flags("Vv"));
    let actions = iss_sync(
        &mut sync,
        Event::Gathered {
            live,
            config: Ok(ConfiguredChannel::default()),
        },
    );
    assert_eq!(
        actions,
        vec![
            say("ChanServ", "flags #a bob -Vv"),
            Action::Pause,
            say("#a", "Set /cs flags #a bob -Vv"),
            Action::Pause,
            Action::Deop("#a".to_string()),
        ]
    );
    assert_eq!(sync.phase, Phase::Done);
}

#[test]
fn sync_makes_sure_of_op_before_it_changes_the_ban_list() {
    let mut sync = gathering("#a", "ada");
    let mut live = ManagedChannel::default();
    live.current.insert("bob".to_string(), parse_flags("Vv"));
    let mut cfg = ConfiguredChannel::default();
    cfg.autovoice.insert("bob".to_string());
    cfg.ops.insert("eve".to_string());
    cfg.global_bans = true;
    let actions = iss_sync(
        &mut sync,
        Event::Gathered {
            live,
            config: Ok(cfg),
        },
    );
    assert_eq!(actions, vec![Action::EnsureOp("#a".to_string())]);
    assert_eq!(sync.phase, Phase::AcquiringPrivilege);
    assert!(!sync.is_over());
    let actions = iss_sync(&mut sync, Event::Opped(true));
    assert_eq!(
        actions,
        vec![
            say("ChanServ", "flags #a eve +Aiotv"),
            Action::Pause,
            say("#a", "Set /cs flags #a eve +Aiotv"),
            Action::Pause,
            Action::SetMode {
                channel: "#a".to_string(),
                op: ModeOp::AddBan("$j:#wikimedia-bans".to_string()),
            },
            Action::Pause,
            say("#a", "Set /mode #a +b $j:#wikimedia-bans"),
            Action::Pause,
            Action::Deop("#a".to_string()),
        ]
    );
    assert_eq!(sync.phase, Phase::Done);
}

#[test]
fn sync_applies_nothing_where_the_privilege_is_not_granted() {
    let mut sync = gathering("#a", "ada");
    let mut cfg = ConfiguredChannel::default();
    cfg.global_bans = true;
    iss_sync(
        &mut sync,
        Event::Gathered {
            live: ManagedChannel::default(),
            config: Ok(cfg),
        },
    );
    assert_eq!(sync.phase, Phase::AcquiringPrivilege);
    assert_eq!(iss_sync(&mut sync, Event::Opped(false)), vec![]);
    assert_eq!(sync.phase, Phase::Error);
}

#[test]
fn sync_ends_on_a_failure_to_send_and_on_events_out_of_turn() {
    let mut sync = started("#a", "ada");
    assert_eq!(iss_sync(&mut sync, Event::SendFailed), vec![]);
    assert_eq!(sync.phase, Phase::Error);

    let mut sync = started("#a", "ada");
    assert_eq!(iss_sync(&mut sync, Event::Opped(true)), vec![]);
    assert_eq!(sync.phase, Phase::Error);

    let mut sync = Sync::new();
    assert_eq!(
        iss_sync(
            &mut sync,
            Event::FlagsDone {
                owner: true,
                founder: true
            }
        ),
        vec![]
    );
    assert_eq!(sync.phase, Phase::Error);
}

#[test]
fn plan_applies_flags_first_then_modes() {
    let flags = vec![
        ("ada".to_string(), "+o".to_string()),
        ("bob".to_string(), "-v+V".to_string()),
    ];
    let modes = vec![ModeOp::RemoveBan("$j:#wikimedia-bans".to_string())];
    assert_eq!(
        sync_channel("#chan", &flags, &modes),
        vec![
            say("ChanServ", "flags #chan ada +o"),
            Action::Pause,
            say("#chan", "Set /cs flags #chan ada +o"),
            Action::Pause,
            say("ChanServ", "flags #chan bob -v+V"),
            Action::Pause,
            say("#chan", "Set /cs flags #chan bob -v+V"),
            Action::Pause,
            Action::SetMode {
                channel: "#chan".to_string(),
                op: ModeOp::RemoveBan("$j:#wikimedia-bans".to_string()),
            },
            Action::Pause,
            say("#chan", "Set /mode #chan -b $j:#wikimedia-bans"),
            Action::Pause,
        ]
    );
    assert_eq!(sync_channel("#chan", &vec![], &vec![]), vec![]);
}

#[test]
fn mode_changes_are_written_as_the_server_writes_them() {
    assert_eq!(ModeOp::AddBan("a!b@c".to_string()).text(), "+b a!b@c");
    assert_eq!(ModeOp::RemoveBan("a!b@c".to_string()).text(), "-b a!b@c");
    assert_eq!(
        ModeOp::AddBan("m".to_string()).copy(),
        ModeOp::AddBan("m".to_string())
    );
}

#[test]
fn pull_without_changes_says_so() {
    assert_eq!(
        iss_pull(&vec![], &vec!["#a".to_string()]),
        vec![say("#wikimedia-ops", "There are no pending changes.")]
    );
}

#[test]
fn pull_names_the_channels_and_joins_the_new_ones() {
    let changed = vec!["#a".to_string(), "#b".to_string(), "#c".to_string()];
    let present = vec!["#b".to_string(), "#wikimedia-ops".to_string()];
    assert_eq!(
        iss_pull(&changed, &present),
        vec![
            say("#wikimedia-ops", "Pulled changes for: #a, #b, #c"),
            Action::Join("#a".to_string()),
            Action::Join("#c".to_string()),
        ]
    );
    assert_eq!(
        iss_pull(&vec!["#b".to_string()], &present),
        vec![say("#wikimedia-ops", "Pulled changes for: #b")]
    );
}

#[test]
fn new_sync_stands_for_nothing_yet() {
    let sync = Sync::new();
    assert_eq!(sync.phase, Phase::Idle);
    assert_eq!(sync.channel, "");
    assert_eq!(sync.account, "");
    assert!(sync.flags.is_empty());
    assert!(sync.modes.is_empty());
    assert!(!sync.is_over());
}

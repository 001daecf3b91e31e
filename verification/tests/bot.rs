use ircservserv::config::{BotConfig, TrustLevel};
use ircservserv::git::{changes, pull};
use ircservserv::privilege::{wait_for_op, OpStep, OpWait};
use ircservserv::text::{
    chars_of, has_prefix, has_suffix, join2, same_text, slice_of, string_of, trim_back,
    trim_front,
};
use ircservserv::{
    extract_account, is_from, is_opped_in, is_trusted, BotState, Prefix, Received, Tag, User,
};

fn chars(text: &str) -> Vec<char> {
    text.chars().collect()
}

fn strings(list: &[&str]) -> Vec<String> {
    list.iter().map(|s| s.to_string()).collect()
}

fn tagged(tags: Option<Vec<Tag>>) -> Received {
    Received {
        tags,
        prefix: None,
        response_target: None,
    }
}

fn tag(key: &str, value: Option<&str>) -> Tag {
    Tag(key.to_string(), value.map(|v| v.to_string()))
}

#[test]
fn account_is_the_value_of_the_first_account_tag() {
    assert_eq!(extract_account(&tagged(None)), None);
    assert_eq!(extract_account(&tagged(Some(vec![]))), None);
    assert_eq!(
        extract_account(&tagged(Some(vec![tag("time", Some("now")), tag("account", None)]))),
        None
    );
    assert_eq!(
        extract_account(&tagged(Some(vec![
            tag("time", Some("now")),
            tag("account", None),
            tag("account", Some("ada")),
            tag("account", Some("bob")),
        ]))),
        Some("ada".to_string())
    );
    assert_eq!(
        extract_account(&tagged(Some(vec![tag("Account", Some("ada"))]))),
        None
    );
}

#[test]
fn trust_goes_by_the_circle_asked_for() {
    let state = BotState::new(BotConfig {
        channel_config: "/srv/config".to_string(),
        owners: strings(&["ada"]),
        trusted: strings(&["bob", "eve"]),
    });
    let from = |name: &str| tagged(Some(vec![tag("account", Some(name))]));
    assert!(is_trusted(&state, &from("ada"), TrustLevel::Owner));
    assert!(!is_trusted(&state, &from("ada"), TrustLevel::Trusted));
    assert!(is_trusted(&state, &from("eve"), TrustLevel::Trusted));
    assert!(!is_trusted(&state, &from("eve"), TrustLevel::Owner));
    assert!(!is_trusted(&state, &from("mallory"), TrustLevel::Trusted));
    assert!(!is_trusted(&state, &tagged(None), TrustLevel::Owner));
    assert!(state.botconfig.trusts("bob", TrustLevel::Trusted));
    assert!(!state.botconfig.trusts("bo", TrustLevel::Trusted));
}

#[test]
fn sender_is_known_by_the_user_name() {
    let mut message = tagged(None);
    assert!(!is_from(&message, "ChanServ"));
    message.prefix = Some(Prefix::ServerName("ChanServ".to_string()));
    assert!(!is_from(&message, "ChanServ"));
    message.prefix = Some(Prefix::Nickname(
        "ChanServ".to_string(),
        "services".to_string(),
        "services.libera.chat".to_string(),
    ));
    assert!(!is_from(&message, "ChanServ"));
    assert!(is_from(&message, "services"));
}

#[test]
fn bot_is_opped_where_its_own_entry_says_so() {
    let user = |nickname: &str, oper: bool| User {
        nickname: nickname.to_string(),
        oper,
    };
    assert!(!is_opped_in(&None, "bot"));
    assert!(!is_opped_in(&Some(vec![]), "bot"));
    assert!(!is_opped_in(&Some(vec![user("ada", true)]), "bot"));
    assert!(is_opped_in(&Some(vec![user("ada", false), user("bot", true)]), "bot"));
    assert!(!is_opped_in(&Some(vec![user("ada", true), user("bot", false)]), "bot"));
    assert!(!is_opped_in(
        &Some(vec![user("bot", false), user("bot", true)]),
        "bot"
    ));
}

#[test]
fn channel_file_lies_below_the_channels_directory() {
    let mut config = BotConfig::default();
    config.channel_config = "/srv/config".to_string();
    assert_eq!(config.channel_file("#wikimedia-ops"), "/srv/config/channels/wikimedia-ops.toml");
    assert_eq!(config.channel_file("##rust"), "/srv/config/channels/rust.toml");
    assert_eq!(config.channel_file("a#b"), "/srv/config/channels/a#b.toml");
    assert_eq!(BotConfig::new().channel_file("#"), "/channels/.toml");
}

#[test]
fn wait_asks_once_then_polls_until_the_time_is_up() {
    let mut wait = OpWait::Fresh;
    assert_eq!(
        wait_for_op(&mut wait, "#a", false),
        OpStep::Ask("op #a".to_string())
    );
    assert_eq!(wait, OpWait::Asked(0));
    let mut polls = 0;
    loop {
        match wait_for_op(&mut wait, "#a", false) {
            OpStep::Poll => polls += 1,
            OpStep::GiveUp(text) => {
                assert_eq!(text, "Error: Unable to get opped in #a");
                break;
            }
            _ => unreachable!(),
        }
    }
    assert_eq!(polls, 25);
    assert_eq!(wait, OpWait::Asked(5000));
    assert_eq!(
        wait_for_op(&mut wait, "#a", false),
        OpStep::GiveUp("Error: Unable to get opped in #a".to_string())
    );
}

#[test]
fn wait_ends_as_soon_as_the_bot_is_opped() {
    let mut wait = OpWait::Fresh;
    assert_eq!(wait_for_op(&mut wait, "#a", true), OpStep::Granted);
    assert_eq!(wait, OpWait::Fresh);
    wait_for_op(&mut wait, "#a", false);
    assert_eq!(wait_for_op(&mut wait, "#a", false), OpStep::Poll);
    assert_eq!(wait, OpWait::Asked(200));
    assert_eq!(wait_for_op(&mut wait, "#a", true), OpStep::Granted);
    assert_eq!(wait, OpWait::Asked(200));
}

#[test]
fn pulled_files_name_their_channels() {
    assert_eq!(
        pull(&strings(&[
            "channels/wikimedia-ops.toml",
            "README.md",
            "channels/notes.txt",
            "other/x.toml",
            "channels/#mediawiki.toml",
        ])),
        strings(&["#wikimedia-ops", "##mediawiki"])
    );
    assert_eq!(pull(&strings(&[""])), strings(&[]));
    assert_eq!(pull(&strings(&[])), strings(&[]));
}

#[test]
fn pulled_file_loses_every_repetition_of_directory_and_ending() {
    assert_eq!(
        pull(&strings(&["channels/channels/x.toml.toml", "channels/.toml"])),
        strings(&["#x", "#"])
    );
}

#[test]
fn listing_is_cut_into_lines() {
    assert_eq!(
        changes("channels/a.toml\nREADME.md\n"),
        strings(&["channels/a.toml", "README.md"])
    );
    assert_eq!(changes("  a\n\nb \n c\t\n"), strings(&["a", "", "b ", " c"]));
    assert_eq!(changes(""), strings(&[""]));
    assert_eq!(changes(" \n "), strings(&[""]));
    assert_eq!(changes("one"), strings(&["one"]));
}

#[test]
fn text_helpers_read_and_build_strings() {
    assert_eq!(chars_of("héllo"), chars("héllo"));
    assert_eq!(string_of(&chars("héllo")), "héllo");
    assert_eq!(join2("ab", "cd"), "abcd");
    assert!(same_text("abc", "abc"));
    assert!(!same_text("abc", "abd"));
    assert!(!same_text("abc", "ab"));
    assert!(has_prefix(&chars("End of list"), &chars("End of")));
    assert!(!has_prefix(&chars("End"), &chars("End of")));
    assert!(has_prefix(&chars("x"), &chars("")));
    assert!(has_prefix(&chars("abc"), &chars("ab")));
    assert!(!has_prefix(&chars("abc"), &chars("bc")));
    assert!(has_suffix(&chars("abc"), &chars("bc")));
    assert!(!has_suffix(&chars("abc"), &chars("ab")));
    assert!(!has_suffix(&chars("c"), &chars("bc")));
    assert_eq!(slice_of(&chars("abcdef"), 2, 4), chars("cd"));
    assert_eq!(trim_front(&chars("ababc"), &chars("ab")), chars("c"));
    assert_eq!(trim_front(&chars("abc"), &chars("")), chars("abc"));
    assert_eq!(trim_back(&chars("cabab"), &chars("ab")), chars("c"));
    assert_eq!(trim_back(&chars("abab"), &chars("ab")), chars(""));
}

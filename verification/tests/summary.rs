use imap_sorter::config::prefer;
use imap_sorter::config::Configuration;
use imap_sorter::engine::build_plan;
use imap_sorter::rules::FolderRule;
use imap_sorter::rules::Rule;
use imap_sorter::rules::RulesSet;
use imap_sorter::summary::format_address;
use imap_sorter::summary::format_columns;
use imap_sorter::summary::get_addresses;
use imap_sorter::summary::summary_header;
use imap_sorter::summary::Address;
use imap_sorter::summary::MessageSummary;
use imap_sorter::verbosity::format_record;
use imap_sorter::verbosity::shows_matches;
use imap_sorter::verbosity::threshold;
use imap_sorter::verbosity::Level;

fn bytes(text: &str) -> Option<Vec<u8>> {
    Some(text.as_bytes().to_vec())
}

fn full_address() -> Address {
    Address { name: bytes("Ann Lee"), adl: bytes("@relay:"), mailbox: bytes("ann"), host: bytes("example.org") }
}

#[test]
fn address_with_every_part() {
    assert_eq!(full_address().to_formated(), "<Ann Lee> ann@relay:@example.org");
}

#[test]
fn address_without_name_and_route() {
    let plain = Address { name: None, adl: None, mailbox: bytes("bob"), host: bytes("example.org") };
    assert_eq!(plain.to_formated(), "bob@example.org");
}

#[test]
fn address_with_missing_mailbox_and_host_shows_question_marks() {
    let empty = Address { name: None, adl: None, mailbox: None, host: None };
    assert_eq!(empty.to_formated(), "?@?");
    let named = Address { name: bytes("N"), adl: None, mailbox: None, host: bytes("h") };
    assert_eq!(named.to_formated(), "<N> ?@h");
}

#[test]
fn address_with_bytes_that_are_not_text_shows_replacements() {
    let odd = Address {
        name: Some(vec![0xff, b'x']),
        adl: None,
        mailbox: Some(vec![b'm', 0xfe]),
        host: bytes("h"),
    };
    assert_eq!(odd.to_formated(), "<\u{fffd}x> m\u{fffd}@h");
}

#[test]
fn format_address_puts_the_parts_in_order() {
    assert_eq!(format_address(Some("N"), "m", "r", "h"), "<N> mr@h");
    assert_eq!(format_address(None, "m", "", "h"), "m@h");
    assert_eq!(format_address(Some(""), "", "", ""), "<> @");
}

#[test]
fn addresses_are_joined_or_unknown() {
    assert_eq!(get_addresses(None), "UNKNOWN");
    assert_eq!(get_addresses(Some(&vec![])), "");
    let list = vec![
        full_address(),
        Address { name: None, adl: None, mailbox: bytes("bob"), host: bytes("example.org") },
    ];
    assert_eq!(get_addresses(Some(&list)), "<Ann Lee> ann@relay:@example.org, bob@example.org");
}

#[test]
fn columns_have_fixed_widths() {
    let line = format_columns("Mon, 1 Jan 2024", "Hello", "a@b", "c@d");
    assert_eq!(
        line,
        format!("{:<22} {:<40} {:<30} {:<30}", "Mon, 1 Jan 2024", "Hello", "a@b", "c@d")
    );
    assert_eq!(line.chars().count(), 125);
}

#[test]
fn columns_cut_what_is_too_long() {
    let date = "Monday, the first of January 2024";
    let subject = "A subject that is much longer than the forty characters it may take";
    let from = "someone.with.a.very.long.address@example.org";
    let to = "é".repeat(31);
    let line = format_columns(date, subject, from, &to);
    let expected = format!(
        "{:<22} {:<40} {:<30} {:<30}",
        date.chars().take(22).collect::<String>(),
        subject.chars().take(40).collect::<String>(),
        from.chars().take(30).collect::<String>(),
        to.chars().take(30).collect::<String>()
    );
    assert_eq!(line, expected);
    assert_eq!(line.chars().count(), 125);
}

#[test]
fn header_names_the_columns() {
    assert_eq!(
        summary_header(),
        format!("{:<22} {:<40} {:<30} {:<30}", "date", "subject", "from", "to")
    );
}

#[test]
fn message_line_shows_envelope_parts() {
    let message = MessageSummary {
        date: bytes("Tue, 2 Jan 2024 10:00:00 +0000"),
        subject: bytes("Offer"),
        from: Some(vec![full_address()]),
        to: None,
    };
    assert_eq!(
        message.line(),
        format!(
            "{:<22} {:<40} {:<30} {:<30}",
            "Tue, 2 Jan 2024 10:00:",
            "Offer",
            "<Ann Lee> ann@relay:@example.o",
            "UNKNOWN"
        )
    );
}

#[test]
fn message_line_shows_a_dash_for_what_is_missing() {
    let message = MessageSummary { date: None, subject: None, from: Some(vec![]), to: Some(vec![]) };
    assert_eq!(message.line(), format!("{:<22} {:<40} {:<30} {:<30}", "-", "-", "", ""));
}

#[test]
fn message_line_degrades_bytes_that_are_not_text() {
    let message = MessageSummary { date: None, subject: Some(vec![0xe9, b't', 0xe9]), from: None, to: None };
    assert_eq!(
        message.line(),
        format!("{:<22} {:<40} {:<30} {:<30}", "-", "\u{fffd}t\u{fffd}", "UNKNOWN", "UNKNOWN")
    );
}

#[test]
fn default_configuration_is_that_of_a_fresh_installation() {
    let configuration = Configuration::default();
    assert_eq!(configuration.imap_server, "localhost");
    assert_eq!(configuration.imap_port, 993);
    assert_eq!(configuration.imap_username, "user");
    assert_eq!(configuration.imap_password, "");
    assert_eq!(configuration.rules_conf_path, "rules.yaml");
    assert_eq!(configuration.secure_store_path, "config.json");
    assert_eq!(configuration.key_path, "secrets.key");
    assert_eq!(configuration.clone(), configuration);
}

#[test]
fn secrets_go_before_the_settings() {
    let effective = Configuration::default().with_secrets(
        Some("mail.example.org".to_string()),
        None,
        Some("hunter2".to_string()),
    );
    assert_eq!(effective.imap_server, "mail.example.org");
    assert_eq!(effective.imap_username, "user");
    assert_eq!(effective.imap_password, "hunter2");
    assert_eq!(effective.imap_port, 993);
    assert_eq!(effective.rules_conf_path, "rules.yaml");
    assert_eq!(effective.secure_store_path, "config.json");
    assert_eq!(effective.key_path, "secrets.key");
    assert_eq!(Configuration::default().with_secrets(None, None, None), Configuration::default());
}

#[test]
fn rules_path_of_the_command_line_goes_first() {
    let configuration = Configuration::default();
    assert_eq!(configuration.rules_path(Some("mine.yaml".to_string())), "mine.yaml");
    assert_eq!(configuration.rules_path(None), "rules.yaml");
    assert_eq!(prefer(None, "b".to_string()), "b");
    assert_eq!(prefer(Some("a".to_string()), "b".to_string()), "a");
}

#[test]
fn threshold_follows_the_switches_in_their_order() {
    assert_eq!(threshold(false, false, false), Level::Info);
    assert_eq!(threshold(true, false, false), Level::Warn);
    assert_eq!(threshold(true, true, true), Level::Warn);
    assert_eq!(threshold(false, true, false), Level::Debug);
    assert_eq!(threshold(false, true, true), Level::Debug);
    assert_eq!(threshold(false, false, true), Level::Trace);
}

#[test]
fn matches_are_shown_from_the_detailed_level_on() {
    assert!(!shows_matches(Level::Error));
    assert!(!shows_matches(Level::Warn));
    assert!(!shows_matches(Level::Info));
    assert!(shows_matches(Level::Debug));
    assert!(shows_matches(Level::Trace));
}

#[test]
fn records_carry_their_level_unless_they_say_what_the_run_did() {
    assert_eq!(format_record(Level::Info, "processed 3 messages"), "processed 3 messages");
    assert_eq!(format_record(Level::Debug, "details"), "details");
    assert_eq!(format_record(Level::Error, "no server"), "ERROR: no server");
    assert_eq!(format_record(Level::Warn, "slow"), "WARN: slow");
    assert_eq!(format_record(Level::Trace, "line"), "TRACE: line");
}

#[test]
fn plan_lists_each_folder_with_its_rules() {
    let rule = |name: &str| Rule {
        name: name.to_string(),
        filter: String::new(),
        target: String::new(),
        enable: true,
        tags: None,
    };
    let rules = RulesSet {
        folders: vec![
            FolderRule { folder: "A".to_string(), folders: Some(vec!["B".to_string()]), rules: vec![rule("x")] },
            FolderRule { folder: "B".to_string(), folders: None, rules: vec![rule("y")] },
        ],
    };
    let pairs = |only: Option<String>| -> Vec<(String, String)> {
        build_plan(&rules, &only).into_iter().map(|task| (task.folder, task.rule.name)).collect()
    };
    let pair = |folder: &str, name: &str| (folder.to_string(), name.to_string());
    assert_eq!(pairs(None), vec![pair("A", "x"), pair("B", "x"), pair("B", "y")]);
    assert_eq!(pairs(Some("B".to_string())), vec![pair("B", "x"), pair("B", "y")]);
    assert_eq!(pairs(Some("C".to_string())), vec![]);
}

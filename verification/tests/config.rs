use esmail::config::{derive_smtp_host, AccountConfig, Config, TlsMode};

fn account(name: &str, host: &str, user: &str) -> AccountConfig {
    AccountConfig::new(name.into(), host.into(), 993, user.into())
}

#[test]
fn account_id_combines_username_and_host_so_two_accounts_on_one_host_differ() {
    let a = AccountConfig::new("A".into(), "imap.example.com".into(), 993, "alice".into());
    let b = AccountConfig::new("B".into(), "imap.example.com".into(), 993, "bob".into());
    assert_ne!(a.id, b.id);
}

#[test]
fn a_new_account_has_the_usual_defaults() {
    let a = account("Home", "imap.example.com", "alice");
    assert_eq!(a.id, "alice@imap.example.com");
    assert_eq!(a.display_name, "Home");
    assert_eq!(a.imap_port, 993);
    assert_eq!(a.imap_tls, TlsMode::Ssl);
    assert_eq!(a.smtp_host, "smtp.example.com");
    assert_eq!(a.smtp_port, 465);
    assert_eq!(a.smtp_tls, TlsMode::Ssl);
    assert_eq!(a.username, "alice");
}

#[test]
fn upsert_replaces_the_matching_account_rather_than_duplicating_it() {
    let mut config = Config::default();
    let mut account = AccountConfig::new("Home".into(), "imap.example.com".into(), 993, "alice".into());
    config.upsert_account(account.clone());

    account.display_name = "Home (renamed)".into();
    config.upsert_account(account.clone());

    assert_eq!(config.accounts.len(), 1);
    assert_eq!(config.accounts[0].display_name, "Home (renamed)");
}

#[test]
fn upsert_appends_when_the_id_is_new() {
    let mut config = Config::default();
    config.upsert_account(AccountConfig::new("Home".into(), "a.example.com".into(), 993, "alice".into()));
    config.upsert_account(AccountConfig::new("Work".into(), "b.example.com".into(), 993, "alice".into()));
    assert_eq!(config.accounts.len(), 2);
}

#[test]
fn upsert_keeps_the_place_of_the_account_it_replaces() {
    let mut config = Config::default();
    config.upsert_account(account("A", "a.example.com", "u"));
    config.upsert_account(account("B", "b.example.com", "u"));
    config.upsert_account(account("A2", "a.example.com", "u"));
    let names: Vec<&str> = config.accounts.iter().map(|a| a.display_name.as_str()).collect();
    assert_eq!(names, vec!["A2", "B"]);
    let once = config.clone();
    config.upsert_account(account("A2", "a.example.com", "u"));
    assert_eq!(config, once);
}

#[test]
fn remove_account_drops_only_the_matching_id() {
    let mut config = Config::default();
    config.upsert_account(AccountConfig::new("Home".into(), "a.example.com".into(), 993, "alice".into()));
    let keep = AccountConfig::new("Work".into(), "b.example.com".into(), 993, "alice".into());
    config.upsert_account(keep.clone());

    config.remove_account(&AccountConfig::new("Home".into(), "a.example.com".into(), 993, "alice".into()).id);

    assert_eq!(config.accounts, vec![keep]);
}

#[test]
fn removing_takes_every_entry_of_the_id_and_keeps_the_order() {
    let mut config = Config::default();
    config.accounts.push(account("1", "x", "u"));
    config.accounts.push(account("2", "y", "u"));
    config.accounts.push(account("3", "x", "u"));
    config.accounts.push(account("4", "z", "u"));
    config.remove_account("u@x");
    let names: Vec<&str> = config.accounts.iter().map(|a| a.display_name.as_str()).collect();
    assert_eq!(names, vec!["2", "4"]);
    config.remove_account("nobody");
    assert_eq!(config.accounts.len(), 2);
}

#[test]
fn migrate_legacy_parses_the_three_line_format() {
    let mut config = Config::default();
    let migrated = config.migrate_legacy_content("imap.gmail.com\n993\nalice@gmail.com\n");
    assert!(migrated);
    assert_eq!(config.accounts.len(), 1);
    assert_eq!(config.accounts[0].imap_host, "imap.gmail.com");
    assert_eq!(config.accounts[0].imap_port, 993);
    assert_eq!(config.accounts[0].username, "alice@gmail.com");
}

#[test]
fn migrate_legacy_trims_and_falls_back_on_the_port() {
    let mut config = Config::default();
    assert!(config.migrate_legacy_content("  imap.x \r\n nonsense\r\n bob \r\nmore"));
    assert_eq!(config.accounts[0].imap_host, "imap.x");
    assert_eq!(config.accounts[0].imap_port, 993);
    assert_eq!(config.accounts[0].username, "bob");
    assert_eq!(config.accounts[0].display_name, "bob");

    let mut other = Config::default();
    assert!(other.migrate_legacy_content("h\n+0143\nu"));
    assert_eq!(other.accounts[0].imap_port, 143);
    let mut third = Config::default();
    assert!(third.migrate_legacy_content("h\n65536\nu"));
    assert_eq!(third.accounts[0].imap_port, 993);
}

#[test]
fn migrate_legacy_does_nothing_if_accounts_already_exist() {
    let mut config = Config::default();
    config.upsert_account(AccountConfig::new("Home".into(), "imap.example.com".into(), 993, "alice".into()));
    let before = config.clone();

    let migrated = config.migrate_legacy_content("imap.gmail.com\n993\nalice@gmail.com\n");

    assert!(!migrated);
    assert_eq!(config, before);
}

#[test]
fn migrate_legacy_rejects_malformed_or_empty_input() {
    let mut config = Config::default();
    assert!(!config.migrate_legacy_content(""));
    assert!(!config.migrate_legacy_content("only one line"));
    assert!(!config.migrate_legacy_content("\n993\nalice")); // empty host
    assert_eq!(config.accounts.len(), 0);
}

#[test]
fn migrate_legacy_rejects_a_blank_user_name() {
    let mut config = Config::default();
    assert!(!config.migrate_legacy_content("host\n993\n   \n"));
    assert!(!config.migrate_legacy_content("host\n993\n"));
    assert_eq!(config.accounts.len(), 0);
}

#[test]
fn the_sending_host_is_guessed_from_the_reading_host() {
    assert_eq!(derive_smtp_host("imap.gmail.com"), "smtp.gmail.com");
    assert_eq!(derive_smtp_host("imap."), "smtp.");
    assert_eq!(derive_smtp_host("mail.example.com"), "mail.example.com");
    assert_eq!(derive_smtp_host("myimap.example.com"), "myimap.example.com");
    assert_eq!(derive_smtp_host(""), "");
}

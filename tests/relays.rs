use whitenoise_cli::commands::parse_relay_type;
use whitenoise_cli::error::CliError;
use whitenoise_cli::relays::{RelayConfig, RelayManager, RelayType, RelayWrite};

fn strings(v: &[&str]) -> Vec<String> {
    v.iter().map(|s| s.to_string()).collect()
}

#[test]
fn default_config_lists() {
    let m = RelayManager::new();
    let c = m.get_config();
    assert_eq!(c.nostr_relays.len(), 5);
    assert_eq!(c.inbox_relays.len(), 4);
    assert_eq!(c.key_package_relays.len(), 4);
    assert_eq!(c.nostr_relays[0], "ws://localhost:10547");
    assert_eq!(c.key_package_relays[2], "wss://nos.lol");
    let d = RelayConfig::default();
    assert_eq!(d.inbox_relays, c.inbox_relays);
}

#[test]
fn relay_admission_is_syntactic() {
    let m = RelayManager::new();
    assert!(m.test_relay_connection("wss://relay.damus.io"));
    assert!(m.test_relay_connection("ws://localhost:10547"));
    assert!(!m.test_relay_connection("http://example.com"));
    assert!(!m.test_relay_connection("not a url"));
    assert!(!m.test_relay_connection("wss://"));
}

#[test]
fn cleanup_removes_deny_listed_in_order() {
    let mut m = RelayManager::new();
    let r = m.update_relays(
        RelayType::Nostr,
        strings(&["wss://good.example", "wss://purplepag.es", "wss://nos.lol"]),
    );
    assert_eq!(r.unwrap(), RelayWrite::LocalOnly);
    m.cleanup_unwanted_relays();
    assert_eq!(
        m.get_relays_for_type(&RelayType::Nostr),
        &strings(&["wss://good.example", "wss://nos.lol"])
    );
}

#[test]
fn cleanup_touches_every_role() {
    let mut m = RelayManager::new();
    m.update_relays(RelayType::Inbox, strings(&["wss://relay.purplepag.es", "wss://a.example"]))
        .unwrap();
    m.update_relays(RelayType::KeyPackage, strings(&["wss://purplepag.es"])).unwrap();
    m.cleanup_unwanted_relays();
    assert_eq!(m.get_relays_for_type(&RelayType::Inbox), &strings(&["wss://a.example"]));
    assert!(m.get_relays_for_type(&RelayType::KeyPackage).is_empty());
    assert_eq!(m.get_relays_for_type(&RelayType::Nostr).len(), 5);
}

#[test]
fn add_is_idempotent() {
    let mut m = RelayManager::new();
    m.add_relay_to_type(RelayType::Inbox, "wss://new.example".to_string()).unwrap();
    let after_first = m.get_relays_for_type(&RelayType::Inbox).clone();
    assert_eq!(after_first.len(), 5);
    assert_eq!(after_first[4], "wss://new.example");
    m.add_relay_to_type(RelayType::Inbox, "wss://new.example".to_string()).unwrap();
    assert_eq!(m.get_relays_for_type(&RelayType::Inbox), &after_first);
}

#[test]
fn add_rejects_invalid_url() {
    let mut m = RelayManager::new();
    let r = m.add_relay_to_type(RelayType::Nostr, "https://x.example".to_string());
    assert!(matches!(r, Err(CliError::Validation(_))));
    assert_eq!(m.get_relays_for_type(&RelayType::Nostr).len(), 5);
}

#[test]
fn update_rejects_whole_list_on_one_invalid_entry() {
    let mut m = RelayManager::new();
    let r = m.update_relays(RelayType::Nostr, strings(&["wss://ok.example", "ftp://bad"]));
    assert!(matches!(r, Err(CliError::Validation(_))));
    assert_eq!(m.get_relays_for_type(&RelayType::Nostr).len(), 5);
}

#[test]
fn remove_takes_all_occurrences() {
    let mut m = RelayManager::new();
    m.update_relays(
        RelayType::Nostr,
        strings(&["wss://a.example", "wss://b.example", "wss://a.example"]),
    )
    .unwrap();
    m.remove_relay_from_type(RelayType::Nostr, "wss://a.example").unwrap();
    assert_eq!(m.get_relays_for_type(&RelayType::Nostr), &strings(&["wss://b.example"]));
    m.remove_relay_from_type(RelayType::Nostr, "wss://absent.example").unwrap();
    assert_eq!(m.get_relays_for_type(&RelayType::Nostr), &strings(&["wss://b.example"]));
}

#[test]
fn relay_type_names() {
    let m = RelayManager::new();
    assert_eq!(m.relay_type_name(&RelayType::Nostr), "Nostr");
    assert_eq!(m.relay_type_name(&RelayType::Inbox), "Inbox");
    assert_eq!(m.relay_type_name(&RelayType::KeyPackage), "KeyPackage");
    assert_eq!(
        RelayManager::all_relay_types(),
        vec![RelayType::Nostr, RelayType::Inbox, RelayType::KeyPackage]
    );
}

#[test]
fn relay_type_parsing_ignores_case() {
    assert_eq!(parse_relay_type("NOSTR").unwrap(), RelayType::Nostr);
    assert_eq!(parse_relay_type("Inbox").unwrap(), RelayType::Inbox);
    assert_eq!(parse_relay_type("keypackage").unwrap(), RelayType::KeyPackage);
    assert_eq!(parse_relay_type("Key_Package").unwrap(), RelayType::KeyPackage);
    match parse_relay_type("Bogus") {
        Err(CliError::Validation(m)) => assert!(m.contains("Bogus")),
        other => panic!("unexpected {:?}", other),
    }
}

#[test]
fn new_account_defaults() {
    let mut m = RelayManager::new();
    m.setup_default_relays();
    assert_eq!(
        m.get_relays_for_type(&RelayType::Nostr),
        &strings(&["wss://relay.damus.io", "wss://relay.primal.net", "wss://nos.lol"])
    );
    assert_eq!(
        m.get_relays_for_type(&RelayType::Inbox),
        &strings(&["wss://relay.damus.io", "wss://relay.primal.net"])
    );
    assert_eq!(
        m.get_relays_for_type(&RelayType::KeyPackage),
        &strings(&["wss://relay.damus.io", "wss://nos.lol"])
    );
}

use whitenoise_cli::error::CliError;
use whitenoise_cli::relays::RelayType;
use whitenoise_cli::session::{AccountHandle, AccountManager, Storage};

const KEY: &str = "0123456789abcdef0123456789abcdef0123456789abcdef0123456789abcdef";

fn handle(relays: usize) -> AccountHandle {
    let list: Vec<String> = (0..relays).map(|i| format!("wss://r{}.example", i)).collect();
    AccountHandle {
        pubkey: KEY.to_string(),
        nip65_relays: list.clone(),
        inbox_relays: list.clone(),
        key_package_relays: list,
    }
}

#[test]
fn pointer_round_trips() {
    let storage = Storage::new("/tmp/state".to_string());
    let written = storage.save_current_account_pubkey(KEY);
    assert_eq!(storage.load_current_account_pubkey(Some(written)).as_deref(), Some(KEY));
    assert_eq!(storage.load_current_account_pubkey(None), None);
}

#[test]
fn pointer_read_drops_surrounding_whitespace() {
    let storage = Storage::new("/tmp/state".to_string());
    let read = storage.load_current_account_pubkey(Some(format!("  {}\n", KEY)));
    assert_eq!(read.as_deref(), Some(KEY));
}

#[test]
fn storage_paths() {
    let storage = Storage::new("/tmp/state".to_string());
    assert_eq!(storage.contacts_path(), "/tmp/state/contacts.json");
    assert_eq!(storage.current_account_path(), "/tmp/state/current_account_pubkey.txt");
}

#[test]
fn one_active_account_at_a_time() {
    let mut session = AccountManager::new();
    assert!(!session.is_logged_in());
    assert!(matches!(session.require_account(), Err(CliError::State(_))));
    assert!(session.logout().is_none());
    session.set_current_account(handle(1));
    assert!(session.is_logged_in());
    assert_eq!(session.get_current_account().unwrap().pubkey, KEY);
    let mut other = handle(2);
    other.pubkey = "ff".repeat(32);
    session.set_current_account(other);
    assert_eq!(session.require_account().unwrap().pubkey, "ff".repeat(32));
    let ended = session.logout().unwrap();
    assert_eq!(ended.nip65_relays.len(), 2);
    assert!(!session.is_logged_in());
}

#[test]
fn relay_repair_due_only_on_empty_lists() {
    assert!(handle(0).needs_relay_repair());
    assert!(!handle(1).needs_relay_repair());
    let mut h = handle(1);
    h.inbox_relays.clear();
    assert!(h.needs_relay_repair());
}

#[test]
fn account_relays_by_role() {
    let mut h = handle(2);
    h.inbox_relays = vec!["wss://inbox.example".to_string()];
    assert_eq!(h.relays_for(RelayType::Nostr).len(), 2);
    assert_eq!(h.relays_for(RelayType::Inbox), &vec!["wss://inbox.example".to_string()]);
    assert_eq!(h.relays_for(RelayType::KeyPackage).len(), 2);
}

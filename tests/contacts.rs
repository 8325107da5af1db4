use whitenoise_cli::contacts::{classify_pubkey, Contact, ContactManager, ContactMetadata, PubkeyForm};
use whitenoise_cli::error::CliError;
use whitenoise_cli::output::Timestamp;

const KEY: &str = "abcdef0123456789abcdef0123456789abcdef0123456789abcdef0123456789";
const OTHER: &str = "9999999999999999999999999999999999999999999999999999999999999999";

fn at() -> Timestamp {
    Timestamp { seconds: 1_700_000_000, nanos: 0 }
}

fn contact(name: &str, key: &str) -> Contact {
    Contact { name: name.to_string(), public_key: key.to_string(), metadata: None, added_at: at() }
}

#[test]
fn pubkey_shapes() {
    assert_eq!(classify_pubkey(KEY).unwrap(), PubkeyForm::Hex);
    assert_eq!(classify_pubkey(&KEY.to_uppercase()).unwrap(), PubkeyForm::Hex);
    assert_eq!(classify_pubkey("npub1xyz").unwrap(), PubkeyForm::Bech32);
    assert!(matches!(classify_pubkey("abcd"), Err(CliError::Validation(_))));
    assert!(matches!(classify_pubkey(&"g".repeat(64)), Err(CliError::Validation(_))));
    assert!(matches!(classify_pubkey(""), Err(CliError::Validation(_))));
}

#[test]
fn contacts_add_replace_remove() {
    let mut book = ContactManager::new();
    assert!(book.is_empty());
    book.add(contact("alice", KEY));
    book.add(contact("bob", OTHER));
    book.add(contact("alice2", KEY));
    let names: Vec<&str> = book.list().iter().map(|c| c.name.as_str()).collect();
    assert_eq!(names, vec!["alice2", "bob"]);
    assert_eq!(book.get(OTHER).unwrap().name, "bob");
    book.remove(KEY);
    assert!(book.get(KEY).is_none());
    assert_eq!(book.list().len(), 1);
    book.remove(KEY);
    assert_eq!(book.list().len(), 1);
}

#[test]
fn fetched_contacts_are_named_from_metadata_or_key() {
    let meta = ContactMetadata {
        display_name: Some("Carol".to_string()),
        about: None,
        picture: None,
        banner: None,
        nip05: None,
        lud16: None,
    };
    let named = Contact::from_fetched(KEY.to_string(), Some(meta), at());
    assert_eq!(named.name, "Carol");
    let unnamed = Contact::from_fetched(OTHER.to_string(), None, at());
    assert_eq!(unnamed.name, "9999999999999999");
    let mut book = ContactManager::new();
    book.add(contact("stale", "dead"));
    book.replace_all(vec![named, unnamed]);
    assert_eq!(book.list().len(), 2);
    assert!(book.get("dead").is_none());
    assert_eq!(book.get(KEY).unwrap().name, "Carol");
}

#[test]
fn metadata_keeps_only_parsable_image_urls() {
    let meta = ContactMetadata {
        display_name: Some("d".to_string()),
        about: Some("a".to_string()),
        picture: Some("https://img.example/p.png".to_string()),
        banner: Some("not a url".to_string()),
        nip05: Some("n@example.com".to_string()),
        lud16: None,
    };
    let clean = meta.sanitized();
    assert_eq!(clean.picture.as_deref(), Some("https://img.example/p.png"));
    assert_eq!(clean.banner, None);
    assert_eq!(clean.display_name.as_deref(), Some("d"));
    assert_eq!(clean.nip05.as_deref(), Some("n@example.com"));
}

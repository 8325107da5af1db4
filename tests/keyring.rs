use whitenoise_cli::keyring::{KeyEntry, KeyringHelper};

#[test]
fn test_obfuscation() {
    let helper = KeyringHelper::new();
    let original = "test_private_key_12345";
    let obfuscated = helper.obfuscate(original);
    let deobfuscated = helper.deobfuscate(&obfuscated).unwrap();
    assert_eq!(original, deobfuscated);
}

#[test]
fn obfuscation_is_xor_then_base64() {
    let helper = KeyringHelper::new();
    // 'a' (0x61) ^ 'W' (0x57) = 0x36, whose base64 is "Ng==".
    assert_eq!(helper.obfuscate("a"), "Ng==");
    assert_eq!(helper.obfuscate(""), "");
    assert_ne!(helper.obfuscate("secret"), "secret");
}

#[test]
fn damaged_stored_form_is_an_error() {
    let helper = KeyringHelper::new();
    assert!(helper.deobfuscate("not base64!").is_err());
    // 0x97 ^ 'W' = 0xc0, which is not valid UTF-8 on its own.
    assert!(helper.deobfuscate("lw==").is_err());
}

#[test]
fn store_get_list_remove() {
    let mut helper = KeyringHelper::new();
    assert_eq!(helper.get_key("pk1").unwrap(), None);
    helper.store_key("pk1", "nsec-one");
    helper.store_key("pk2", "nsec-two");
    helper.store_key("pk1", "nsec-three");
    assert_eq!(helper.get_key("pk1").unwrap().as_deref(), Some("nsec-three"));
    assert_eq!(helper.get_key("pk2").unwrap().as_deref(), Some("nsec-two"));
    let mut keys = helper.list_keys();
    keys.sort();
    assert_eq!(keys, vec!["pk1".to_string(), "pk2".to_string()]);
    helper.remove_key("pk1");
    assert_eq!(helper.get_key("pk1").unwrap(), None);
    assert_eq!(helper.list_keys(), vec!["pk2".to_string()]);
    helper.remove_key("absent");
    assert_eq!(helper.list_keys().len(), 1);
}

#[test]
fn store_reloads_from_entries() {
    let mut helper = KeyringHelper::new();
    helper.store_key("pk", "nsec");
    let saved: Vec<KeyEntry> = helper
        .entries()
        .iter()
        .map(|e| KeyEntry { pubkey: e.pubkey.clone(), obfuscated: e.obfuscated.clone() })
        .collect();
    let loaded = KeyringHelper::from_entries(helper.store_version(), saved);
    assert_eq!(loaded.store_version(), 1);
    assert_eq!(loaded.get_key("pk").unwrap().as_deref(), Some("nsec"));
}

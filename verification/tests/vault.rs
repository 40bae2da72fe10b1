use ircx_sspi::vault::{
    is_non_existent_domain, is_absent_domain_name, normalize_domain, nt_hash, nt_hash_hex, open_vault,
    seal_vault, encrypt_vault, utf16le_bytes, SaveError, UserLevel, Vault, VaultAccount, VaultError,
};

#[test]
fn test_domain_normalization() {
    assert!(is_non_existent_domain(""));
    assert!(is_non_existent_domain("   "));
    assert!(is_non_existent_domain("."));
    assert!(is_non_existent_domain("workgroup"));
    assert!(is_non_existent_domain("WORKGROUP"));

    assert!(!is_non_existent_domain("msn.com"));
    assert!(!is_non_existent_domain("ircx.msn.com"));
}

#[test]
fn absent_domain_names_are_exact() {
    assert!(is_absent_domain_name(""));
    assert!(is_absent_domain_name("."));
    assert!(is_absent_domain_name("workgroup"));
    assert!(!is_absent_domain_name("WORKGROUP"));
    assert!(!is_absent_domain_name(" workgroup"));
    assert!(!is_absent_domain_name(".."));
}

#[test]
fn stored_domain_is_trimmed_lowercase_or_empty() {
    assert_eq!(normalize_domain("  MSN.com "), "msn.com");
    assert_eq!(normalize_domain(" WorkGroup "), "");
    assert_eq!(normalize_domain("."), "");
    assert_eq!(normalize_domain(""), "");
}

#[test]
fn user_levels_parse_in_any_case() {
    assert_eq!(UserLevel::from_str("admin"), Ok(UserLevel::Admin));
    assert_eq!(UserLevel::from_str("SysOp"), Ok(UserLevel::Sysop));
    assert_eq!(UserLevel::from_str("GUIDE"), Ok(UserLevel::Guide));
    assert_eq!(
        UserLevel::from_str("owner"),
        Err("Invalid user level: owner. Allowed values: admin, sysop, guide".to_string())
    );
    assert_eq!(UserLevel::Admin.to_string(), "Admin");
    assert_eq!(UserLevel::Sysop.to_string(), "Sysop");
    assert_eq!(UserLevel::Guide.to_string(), "Guide");
}

#[test]
fn utf16le_encodes_each_character() {
    assert_eq!(utf16le_bytes("Ab"), vec![0x41, 0x00, 0x62, 0x00]);
    assert_eq!(utf16le_bytes("é"), vec![0xE9, 0x00]);
    assert_eq!(utf16le_bytes("😀"), vec![0x3D, 0xD8, 0x00, 0xDE]);
    assert_eq!(utf16le_bytes(""), Vec::<u8>::new());
}

#[test]
fn nt_hash_matches_known_values() {
    assert_eq!(nt_hash_hex("password"), "8846f7eaee8fb117ad06bdd830b7586c");
    assert_eq!(nt_hash_hex(""), "31d6cfe0d16ae931b73c59d7e0c089c0");
    assert_eq!(nt_hash("password")[0], 0x88);
}

#[test]
fn test_vault_roundtrip() {
    let key = [42u8; 32];
    let nonce = [7u8; 12];
    let plaintext = br#"{"bob":{"username":"bob","nt_hash":"0123456789abcdef0123456789abcdef","level":"Admin","domain":"msn.com"}}"#;
    let sealed = seal_vault(&key, &nonce, plaintext).unwrap();
    assert_eq!(&sealed[..12], &nonce[..]);
    assert_eq!(sealed.len(), 12 + plaintext.len() + 16);
    let opened = open_vault(&key, &sealed).unwrap();
    assert_eq!(opened, plaintext.to_vec());
}

#[test]
fn vault_with_fresh_nonce_opens_again() {
    let key = [3u8; 32];
    let sealed = encrypt_vault(&key, b"hello vault").unwrap();
    assert_eq!(open_vault(&key, &sealed).unwrap(), b"hello vault".to_vec());
}

#[test]
fn vault_refuses_short_or_foreign_files() {
    let key = [42u8; 32];
    assert_eq!(open_vault(&key, &[1, 2, 3]), Err(VaultError::InvalidVault));
    let sealed = seal_vault(&key, &[0u8; 12], b"data").unwrap();
    assert_eq!(open_vault(&[43u8; 32], &sealed), Err(VaultError::Crypto));
    let mut tampered = sealed.clone();
    let last = tampered.len() - 1;
    tampered[last] ^= 1;
    assert_eq!(open_vault(&key, &tampered), Err(VaultError::Crypto));
}

#[test]
fn test_case_insensitive_usernames() {
    let mut vault = Vault::new();
    vault.add_user("JoshByrnes", "super_secret_password", "msn.com", UserLevel::Admin);
    assert!(vault.contains_key("joshbyrnes"));
    assert!(!vault.contains_key("JoshByrnes"));
    let account = vault.get("joshbyrnes").unwrap();
    assert_eq!(account.username, "JoshByrnes");
    assert_eq!(account.nt_hash, nt_hash_hex("super_secret_password"));
    assert_eq!(account.domain, "msn.com");
    assert_eq!(account.level, UserLevel::Admin);
}

#[test]
fn adding_a_user_again_replaces_the_account() {
    let mut vault = Vault::new();
    vault.add_user(" Alice ", "one", "WORKGROUP", UserLevel::Guide);
    vault.add_user(" alice ", "two", "  IRCX.msn.com ", UserLevel::Sysop);
    assert_eq!(vault.len(), 1);
    let account = vault.get(" alice ").unwrap();
    assert_eq!(account.username, "alice");
    assert_eq!(account.nt_hash, nt_hash_hex("two"));
    assert_eq!(account.domain, "ircx.msn.com");
    assert_eq!(account.level, UserLevel::Sysop);
}

#[test]
fn loaded_records_take_their_key_as_missing_username() {
    let records = vec![
        (
            "bob".to_string(),
            VaultAccount {
                username: String::new(),
                nt_hash: "aa".to_string(),
                level: UserLevel::Admin,
                domain: "msn.com".to_string(),
            },
        ),
        (
            "carol".to_string(),
            VaultAccount {
                username: "Carol".to_string(),
                nt_hash: "bb".to_string(),
                level: UserLevel::Guide,
                domain: String::new(),
            },
        ),
    ];
    let vault = Vault::from_records(records);
    assert_eq!(vault.len(), 2);
    assert_eq!(vault.get("bob").unwrap().username, "bob");
    assert_eq!(vault.get("carol").unwrap().username, "Carol");
}

#[test]
fn legacy_pairs_become_guides_of_ircx() {
    let vault = Vault::from_legacy(vec![("Dave".to_string(), "cc".to_string())]);
    let account = vault.get("dave").unwrap();
    assert_eq!(account.username, "Dave");
    assert_eq!(account.nt_hash, "cc");
    assert_eq!(account.level, UserLevel::Guide);
    assert_eq!(account.domain, "ircx.msn.com");
    assert_eq!(vault.entries().len(), 1);
}

#[test]
fn editor_save_checks_in_order() {
    let mut v = Vault::new();
    assert_eq!(v.save_account(false, None, "   ", "", "", UserLevel::Guide), Err(SaveError::EmptyUsername));
    assert_eq!(v.save_account(false, None, "Bob", "", "", UserLevel::Guide), Err(SaveError::PasswordRequired));
    assert_eq!(v.save_account(false, None, "Bob", "pw", "", UserLevel::Guide), Err(SaveError::MasterKeyMissing));
    assert_eq!(v.save_account(true, Some("ghost"), "Bob", "", "", UserLevel::Guide), Err(SaveError::EditedAccountMissing));
    assert_eq!(v.len(), 0);
}

#[test]
fn editor_save_creates_and_edits_accounts() {
    let mut v = Vault::new();
    assert_eq!(v.save_account(true, None, "  Alice ", "password", " MSN.com ", UserLevel::Sysop), Ok(()));
    let a = v.get("alice").unwrap();
    assert_eq!(a.username, "Alice");
    assert_eq!(a.nt_hash, "8846f7eaee8fb117ad06bdd830b7586c");
    assert_eq!(a.domain, "msn.com");
    assert_eq!(a.level, UserLevel::Sysop);

    // An edit without a password keeps the hash.
    assert_eq!(v.save_account(true, Some("alice"), "Alice", "", "workgroup", UserLevel::Admin), Ok(()));
    let a = v.get("alice").unwrap();
    assert_eq!(a.nt_hash, "8846f7eaee8fb117ad06bdd830b7586c");
    assert_eq!(a.domain, "");
    assert_eq!(a.level, UserLevel::Admin);
    assert_eq!(v.len(), 1);

    // An edit with a password replaces it.
    assert_eq!(v.save_account(true, Some("alice"), "Alice", "other", "", UserLevel::Admin), Ok(()));
    assert_eq!(v.get("alice").unwrap().nt_hash, nt_hash_hex("other"));
}

#[test]
fn removing_an_account() {
    let mut v = Vault::new();
    v.add_user("Alice", "pw", "", UserLevel::Guide);
    v.add_user("Bob", "pw", "", UserLevel::Guide);
    assert!(v.remove("alice"));
    assert!(!v.remove("alice"));
    assert!(v.get("alice").is_none());
    assert!(v.get("bob").is_some());
    assert_eq!(v.len(), 1);
}

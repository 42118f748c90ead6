use zeropass::modal::{
    form_warning, password_acceptable, text_looks_encrypted, ExchangeTab, FormWarning, Modal,
};
use zeropass::model::{settings_or_default, Settings};
use zeropass::registry::{
    registry_or_default, resolve_new_vault_path, NewVaultPath, VaultRecord, VaultRegistry,
};
use zeropass::toast::{
    add_toast, drop_expired, toast_phase, Toast, ToastKind, ToastPhase, TOAST_TOTAL_MS,
};

fn record(name: &str, path: &str, at: u64) -> VaultRecord {
    VaultRecord { name: name.to_string(), path: path.to_string(), last_opened: at }
}

fn three() -> VaultRegistry {
    VaultRegistry {
        vaults: vec![record("A", "/a", 1), record("B", "/b", 2), record("C", "/c", 3)],
        last_used_index: Some(1),
    }
}

#[test]
fn default_preferences() {
    let s = Settings::default();
    assert_eq!(s.clipboard_timeout_secs, Some(10));
    assert_eq!(s.default_password_length, 16);
    assert_eq!(s.auto_lock_timeout_mins, 5);
    assert!(s.vsync_enabled && s.dark_mode && !s.auto_lock_enabled && !s.lock_on_focus_loss);
    assert!(s.gen_use_uppercase && s.gen_use_numbers && s.gen_use_symbols);
    assert!(!s.show_passwords && !s.has_seen_beta_warning);
    assert_eq!(settings_or_default(None), s);
    let other = Settings { dark_mode: false, ..s };
    assert_eq!(settings_or_default(Some(other)), other);
}

#[test]
fn empty_register_learns_of_the_default() {
    let mut r = registry_or_default(None);
    let path = "/data/vault.json.enc".to_string();
    assert!(!r.register_default(&path, false));
    assert!(r.vaults.is_empty());
    assert!(r.register_default(&path, true));
    assert_eq!(r.vaults[0].name, "Default Vault");
    assert_eq!(r.vaults[0].path, path);
    assert_eq!(r.vaults[0].last_opened, 0);
    assert!(!r.register_default(&path, true));
    assert_eq!(r.startup_path(&path), path);
}

#[test]
fn last_used_vault_is_opened_next() {
    let mut r = three();
    assert_eq!(r.startup_path(&"/d".to_string()), "/b");
    r.last_used_index = Some(9);
    assert_eq!(r.startup_path(&"/d".to_string()), "/d");
    r.note_opened(&"/c".to_string(), &None, 50);
    assert_eq!(r.vaults.len(), 3);
    assert_eq!(r.vaults[2].last_opened, 50);
    assert_eq!(r.startup_path(&"/d".to_string()), "/c");
    r.note_opened(&"/new/work.enc".to_string(), &Some("work".to_string()), 60);
    assert_eq!(r.vaults[3].name, "work");
    assert_eq!(r.startup_path(&"/d".to_string()), "/new/work.enc");
    r.note_opened(&"/x".to_string(), &None, 70);
    assert_eq!(r.vaults[4].name, "Vault");
    assert_eq!(r.last_used_index, Some(4));
}

#[test]
fn removing_records_keeps_the_last_used() {
    let mut r = three();
    r.remove_record(0);
    assert_eq!(r.last_used_index, Some(0));
    assert_eq!(r.vaults[0].name, "B");
    let mut r = three();
    r.remove_record(2);
    assert_eq!(r.last_used_index, Some(1));
    let mut r = three();
    r.remove_record(1);
    assert_eq!(r.last_used_index, None);
}

#[test]
fn renaming_records() {
    let mut r = three();
    r.rename(1, &"  Bee ".to_string());
    assert_eq!(r.vaults[1].name, "Bee");
    r.rename(7, &"nobody".to_string());
    assert_eq!(r.vaults.len(), 3);
}

#[test]
fn paths_of_new_vaults() {
    let at = |name: &str, input: &str, dir: bool| {
        match resolve_new_vault_path(&name.to_string(), &input.to_string(), dir) {
            NewVaultPath::InDataDir(s) => (true, s),
            NewVaultPath::At(s) => (false, s),
        }
    };
    assert_eq!(at(" My Work ", "", true), (true, "my_work.enc".to_string()));
    assert_eq!(at(" My Work ", "  ", false), (false, "My Work.enc".to_string()));
    assert_eq!(at("x", " /tmp/v.enc ", true), (false, "/tmp/v.enc".to_string()));
}

#[test]
fn toasts_replace_their_kind() {
    let mut t: Vec<Toast> = Vec::new();
    add_toast(&mut t, "a".to_string(), ToastKind::Info, 0);
    add_toast(&mut t, "b".to_string(), ToastKind::Error, 1);
    add_toast(&mut t, "c".to_string(), ToastKind::Info, 2);
    assert_eq!(t.len(), 2);
    assert_eq!(t[0].message, "b");
    assert_eq!(t[1].message, "c");
}

#[test]
fn toasts_expire() {
    let mut t: Vec<Toast> = Vec::new();
    add_toast(&mut t, "a".to_string(), ToastKind::Info, 1000);
    drop_expired(&mut t, 1000 + TOAST_TOTAL_MS - 1);
    assert_eq!(t.len(), 1);
    drop_expired(&mut t, 0);
    assert_eq!(t.len(), 1);
    drop_expired(&mut t, 1000 + TOAST_TOTAL_MS);
    assert_eq!(t.len(), 0);
    assert_eq!(toast_phase(0), ToastPhase::Entering);
    assert_eq!(toast_phase(250), ToastPhase::Holding);
    assert_eq!(toast_phase(3050), ToastPhase::Holding);
    assert_eq!(toast_phase(3051), ToastPhase::Leaving);
}

fn s(t: &str) -> String {
    t.to_string()
}

#[test]
fn dialogs_say_when_they_may_be_confirmed() {
    assert!(!Modal::Closed.can_confirm());
    assert!(Modal::BetaWarning.can_confirm());
    let mut add = Modal::add_entry(s("pw"), 16);
    assert!(!add.can_confirm());
    if let Modal::AddEntry { service, username, .. } = &mut add {
        *service = s("x");
        assert!(username.is_empty());
        *username = s("y");
    }
    assert!(add.can_confirm());
    let change = |a: &str, b: &str, c: &str| {
        Modal::ChangePassword { current: s(a), replacement: s(b), confirm: s(c) }.can_confirm()
    };
    assert!(change("old", "longenough", "longenough"));
    assert!(!change("", "longenough", "longenough"));
    assert!(!change("old", "short", "short"));
    assert!(!change("old", "longenough", "different"));
    assert!(!Modal::DeleteVault { confirmation: s("") }.can_confirm());
    assert!(Modal::DeleteVault { confirmation: s("x") }.can_confirm());
    assert!(!Modal::RenameVault { index: 0, new_name: s("") }.can_confirm());
    assert!(!Modal::add_note().can_confirm());
    assert!(!Modal::create_vault().can_confirm());
}

#[test]
fn import_needs_a_password_for_encrypted_text() {
    let encrypted = s("{\"magic\": \"RV_GUI_V1\", \"cipher_b64\": \"AA==\"}");
    assert!(text_looks_encrypted(&encrypted));
    assert!(!text_looks_encrypted(&s("{\"entries\": []}")));
    assert!(!text_looks_encrypted(&s("\"magic\"")));
    let with = |text: &String, password: &str| {
        Modal::ImportExport {
            active_tab: ExchangeTab::Import,
            import_text: text.clone(),
            export_preview: s(""),
            export_password: s(""),
            import_password: s(password),
            encrypted_export: true,
        }
        .can_confirm()
    };
    assert!(!with(&encrypted, ""));
    assert!(with(&encrypted, "p"));
    assert!(with(&s("{}"), ""));
    assert!(!with(&s("  "), "p"));
    assert!(!Modal::exchange(s("")).can_confirm());
}

#[test]
fn remarks_on_new_passwords() {
    assert_eq!(form_warning(&s(""), &s("")), FormWarning::Fine);
    assert_eq!(form_warning(&s("short"), &s("other")), FormWarning::TooShort);
    assert_eq!(form_warning(&s("longenough"), &s("other")), FormWarning::Mismatch);
    assert_eq!(form_warning(&s("longenough"), &s("")), FormWarning::Fine);
    assert!(password_acceptable(&s("12345678"), &s("12345678")));
    assert!(!password_acceptable(&s("1234567"), &s("1234567")));
    // Bytes are counted.
    assert!(password_acceptable(&s("éééé"), &s("éééé")));
}

#[test]
fn closing_wipes_the_secrets_of_a_dialog() {
    let mut m = Modal::add_entry(s("secret"), 16);
    if let Modal::AddEntry { service, totp_secret, .. } = &mut m {
        *service = s("GitHub");
        *totp_secret = s("JBSWY3DP");
    }
    m.zeroize_sensitive();
    match &m {
        Modal::AddEntry { service, password, totp_secret, password_length, .. } => {
            assert_eq!(service, "GitHub");
            assert_eq!(password, "");
            assert_eq!(totp_secret, "");
            assert_eq!(*password_length, 16);
        }
        _ => panic!("another dialog"),
    }
    let mut m = Modal::CreateVault { name: s("n"), path_input: s("p"), password: s("a"), confirm: s("a") };
    m.zeroize_sensitive();
    match &m {
        Modal::CreateVault { name, path_input, password, confirm } => {
            assert_eq!((name.as_str(), path_input.as_str()), ("n", "p"));
            assert_eq!((password.as_str(), confirm.as_str()), ("", ""));
        }
        _ => panic!("another dialog"),
    }
    let mut m = Modal::AddNote { title: s("t"), content: s("c"), category: s(""), tags: s("") };
    m.zeroize_sensitive();
    assert!(matches!(&m, Modal::AddNote { title, content, .. } if title == "t" && content.is_empty()));
    let mut m = Modal::EditNote {
        original_id: s("i"),
        title: s("t"),
        content: s("c"),
        category: s("k"),
        tags: s("a, b"),
    };
    m.zeroize_sensitive();
    match &m {
        Modal::EditNote { original_id, title, content, category, tags } => {
            assert_eq!((original_id.as_str(), title.as_str()), ("i", "t"));
            assert_eq!((category.as_str(), tags.as_str()), ("k", "a, b"));
            assert_eq!(content, "");
        }
        _ => panic!("another dialog"),
    }
    let mut m = Modal::exchange(s("hunter2"));
    if let Modal::ImportExport { import_text, export_password, import_password, .. } = &mut m {
        *import_text = s("pasted");
        *export_password = s("e");
        *import_password = s("i");
    }
    m.zeroize_sensitive();
    match &m {
        Modal::ImportExport {
            import_text,
            export_preview,
            export_password,
            import_password,
            encrypted_export,
            ..
        } => {
            assert_eq!((import_text.as_str(), export_preview.as_str()), ("", ""));
            assert_eq!((export_password.as_str(), import_password.as_str()), ("", ""));
            assert!(*encrypted_export);
        }
        _ => panic!("another dialog"),
    }
}

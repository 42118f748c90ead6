use zeropass::fields::{optional_field, parse_tags, secret_field};
use zeropass::import::{import_vault, import_with_ids};
use zeropass::listing::{
    all_categories, all_note_categories, all_note_tags, all_tags, visible_entries, visible_notes,
};
use zeropass::model::{Entry, PasswordHistoryEntry, SecureNote, Vault};
use zeropass::text::join;
use zeropass::totp::totp_base32_decode;
use zeropass::vault::{
    clear_history, delete_entries, delete_notes, edit_entry, edit_note, find_entry, move_entry,
    remember_password, remove_former_password, toggle_entry_pin, wipe_vault, EntryForm, HISTORY_CAP,
};

fn entry(id: &str, service: &str, category: Option<&str>, tags: &[&str]) -> Entry {
    Entry {
        id: id.to_string(),
        service: service.to_string(),
        username: "user".to_string(),
        password: format!("pw-{}", id),
        totp_secret: None,
        category: category.map(|c| c.to_string()),
        tags: tags.iter().map(|t| t.to_string()).collect(),
        pinned: false,
        password_history: Vec::new(),
    }
}

fn note(id: &str, category: Option<&str>, tags: &[&str]) -> SecureNote {
    SecureNote {
        id: id.to_string(),
        title: format!("title {}", id),
        content: format!("content {}", id),
        category: category.map(|c| c.to_string()),
        tags: tags.iter().map(|t| t.to_string()).collect(),
    }
}

fn sample() -> Vec<Entry> {
    vec![
        entry("a", "GitHub", Some("Work"), &["dev", "2fa"]),
        entry("b", "Gmail", Some("Mail"), &["2fa"]),
        entry("c", "Bank", None, &[]),
        entry("d", "GitLab", Some("Work"), &["dev"]),
    ]
}

fn ids(entries: &Vec<Entry>) -> Vec<&str> {
    entries.iter().map(|e| e.id.as_str()).collect()
}

#[test]
fn search_looks_everywhere() {
    let e = sample();
    assert_eq!(visible_entries(&e, "", &None, &None, false), vec![0, 1, 2, 3]);
    assert_eq!(visible_entries(&e, "GIT", &None, &None, false), vec![0, 3]);
    assert_eq!(visible_entries(&e, "mail", &None, &None, false), vec![1]);
    assert_eq!(visible_entries(&e, "2FA", &None, &None, false), vec![0, 1]);
    assert_eq!(visible_entries(&e, "USER", &None, &None, false), vec![0, 1, 2, 3]);
    assert_eq!(visible_entries(&e, "nothing", &None, &None, false), Vec::<usize>::new());
}

#[test]
fn filters_narrow_the_list() {
    let e = sample();
    let work = Some("Work".to_string());
    let dev = Some("dev".to_string());
    assert_eq!(visible_entries(&e, "", &work, &None, false), vec![0, 3]);
    assert_eq!(visible_entries(&e, "", &None, &dev, false), vec![0, 3]);
    assert_eq!(visible_entries(&e, "hub", &work, &dev, false), vec![0]);
    assert_eq!(
        visible_entries(&e, "", &Some("work".to_string()), &None, false),
        Vec::<usize>::new()
    );
}

#[test]
fn pinned_entries_come_first() {
    let mut e = sample();
    e[2].pinned = true;
    e[3].pinned = true;
    assert_eq!(visible_entries(&e, "", &None, &None, false), vec![2, 3, 0, 1]);
    assert_eq!(visible_entries(&e, "", &None, &None, true), vec![0, 1, 2, 3]);
}

#[test]
fn notes_are_filtered() {
    let n = vec![note("1", Some("Home"), &["x"]), note("2", None, &["x", "y"]), note("3", None, &[])];
    assert_eq!(visible_notes(&n, &None, &None), vec![0, 1, 2]);
    assert_eq!(visible_notes(&n, &Some("Home".to_string()), &None), vec![0]);
    assert_eq!(visible_notes(&n, &None, &Some("x".to_string())), vec![0, 1]);
}

#[test]
fn categories_and_tags_in_use() {
    let mut e = sample();
    e[2].category = Some(String::new());
    e[2].tags = vec![String::new(), "alpha".to_string()];
    assert_eq!(all_categories(&e), vec!["Mail", "Work"]);
    assert_eq!(all_tags(&e), vec!["2fa", "alpha", "dev"]);
    let n = vec![note("1", Some("b"), &["z"]), note("2", Some("a"), &["z", "y"])];
    assert_eq!(all_note_categories(&n), vec!["a", "b"]);
    assert_eq!(all_note_tags(&n), vec!["y", "z"]);
}

#[test]
fn moving_entries() {
    let mut e = sample();
    move_entry(&mut e, 0, Some(2));
    assert_eq!(ids(&e), vec!["b", "a", "c", "d"]);
    move_entry(&mut e, 3, Some(0));
    assert_eq!(ids(&e), vec!["d", "b", "a", "c"]);
    move_entry(&mut e, 0, None);
    assert_eq!(ids(&e), vec!["b", "a", "c", "d"]);
    move_entry(&mut e, 1, Some(1));
    move_entry(&mut e, 1, Some(9));
    move_entry(&mut e, 9, None);
    assert_eq!(ids(&e), vec!["b", "a", "c", "d"]);
}

#[test]
fn pinning() {
    let mut e = sample();
    toggle_entry_pin(&mut e, &"b".to_string());
    assert!(e[1].pinned);
    toggle_entry_pin(&mut e, &"b".to_string());
    assert!(!e[1].pinned);
    toggle_entry_pin(&mut e, &"unknown".to_string());
    assert!(e.iter().all(|x| !x.pinned));
}

#[test]
fn deleting() {
    let mut e = sample();
    e.push(entry("a", "Twin", None, &[]));
    delete_entries(&mut e, &"a".to_string());
    assert_eq!(ids(&e), vec!["b", "c", "d"]);
    assert!(find_entry(&e, &"a".to_string()).is_none());
    assert_eq!(find_entry(&e, &"d".to_string()), Some(2));
    let mut n = vec![note("1", None, &[]), note("2", None, &[])];
    delete_notes(&mut n, &"1".to_string());
    assert_eq!(n.len(), 1);
    assert_eq!(n[0].id, "2");
}

#[test]
fn history_is_capped() {
    let mut h: Vec<PasswordHistoryEntry> = Vec::new();
    for i in 0..25u64 {
        remember_password(&mut h, format!("p{}", i), i);
    }
    assert_eq!(h.len(), HISTORY_CAP);
    assert_eq!(h[0].password, "p24");
    assert_eq!(h[0].changed_at, 24);
    assert_eq!(h[19].password, "p5");
}

#[test]
fn history_can_be_pruned() {
    let mut e = sample();
    for i in 0..3u64 {
        remember_password(&mut e[0].password_history, format!("p{}", i), i);
    }
    remove_former_password(&mut e, &"a".to_string(), 1);
    assert_eq!(e[0].password_history.len(), 2);
    assert_eq!(e[0].password_history[1].password, "p0");
    remove_former_password(&mut e, &"a".to_string(), 7);
    assert_eq!(e[0].password_history.len(), 2);
    clear_history(&mut e, &"a".to_string());
    assert!(e[0].password_history.is_empty());
}

#[test]
fn editing_an_entry() {
    let mut e = sample();
    let service = " New ".to_string();
    let username = "me".to_string();
    let password = "changed".to_string();
    let totp_secret = " jbsw-y3dp ehpk=".to_string();
    let category = "  ".to_string();
    let tags = "One, two,, THREE ".to_string();
    let form = EntryForm {
        service: &service,
        username: &username,
        password: &password,
        totp_secret: &totp_secret,
        category: &category,
        tags: &tags,
    };
    assert!(edit_entry(&mut e, &"a".to_string(), &form, 77));
    assert_eq!(e[0].service, " New ");
    assert_eq!(e[0].totp_secret.as_deref(), Some("JBSWY3DPEHPK="));
    assert_eq!(e[0].category, None);
    assert_eq!(e[0].tags, vec!["one", "two", "three"]);
    assert_eq!(e[0].password_history.len(), 1);
    assert_eq!(e[0].password_history[0].password, "pw-a");
    assert_eq!(e[0].password_history[0].changed_at, 77);
    // The same password again is no change.
    assert!(edit_entry(&mut e, &"a".to_string(), &form, 99));
    assert_eq!(e[0].password_history.len(), 1);
    assert!(!edit_entry(&mut e, &"unknown".to_string(), &form, 99));
    assert_eq!(e.len(), 4);
}

#[test]
fn editing_a_note() {
    let mut n = vec![note("1", None, &[]), note("2", None, &[])];
    edit_note(
        &mut n,
        &"2".to_string(),
        &" T ".to_string(),
        &" body ".to_string(),
        &" c ".to_string(),
        &"Ab, ,cD".to_string(),
    );
    assert_eq!(n[1].title, "T");
    assert_eq!(n[1].content, " body ");
    assert_eq!(n[1].category.as_deref(), Some("c"));
    assert_eq!(n[1].tags, vec!["Ab", "cD"]);
    assert_eq!(n[0].title, "title 1");
}

#[test]
fn form_fields() {
    assert_eq!(optional_field("  "), None);
    assert_eq!(optional_field(" x "), Some("x".to_string()));
    assert_eq!(secret_field(""), None);
    assert_eq!(secret_field("ab-cd ef"), Some("ABCDEF".to_string()));
    assert_eq!(parse_tags("", true), Vec::<String>::new());
    assert_eq!(parse_tags("A,B", false), vec!["A", "B"]);
    assert_eq!(parse_tags("A,B", true), vec!["a", "b"]);
}

#[test]
fn tags_survive_the_form() {
    let tags = vec!["work".to_string(), "two words".to_string(), "x".to_string()];
    assert_eq!(parse_tags(&join(&tags, ", "), true), tags);
    assert_eq!(parse_tags(&join(&tags, ", "), false), tags);
}

#[test]
fn kept_secrets_decode_as_typed() {
    for typed in ["jbsw y3dp-ehpk 3pxp", "  JBSWY3DP  ", "mzxw6ytboi======"] {
        let kept = secret_field(typed).unwrap();
        assert_eq!(totp_base32_decode(&kept), totp_base32_decode(typed));
    }
}

#[test]
fn importing_keeps_everything() {
    let mut vault = Vault { entries: sample(), notes: vec![note("1", None, &[])] };
    let other = Vault {
        entries: vec![entry("b", "Other", None, &[]), entry("z", "Zed", None, &[])],
        notes: vec![note("1", None, &[]), note("9", None, &[])],
    };
    let fresh = vec!["f0".to_string(), "f1".to_string()];
    let fresh_notes = vec!["g0".to_string(), "g1".to_string()];
    let added = import_with_ids(&mut vault, other, &fresh, &fresh_notes);
    assert_eq!(added, 4);
    assert_eq!(ids(&vault.entries), vec!["a", "b", "c", "d", "f0", "z"]);
    assert_eq!(vault.entries[4].service, "Other");
    assert_eq!(vault.notes[1].id, "g0");
    assert_eq!(vault.notes[2].id, "9");
}

#[test]
fn importing_into_an_empty_vault_gives_the_same_vault() {
    let mut vault = Vault::default();
    let mut entries = sample();
    entries[1].pinned = true;
    entries[2].totp_secret = Some("JBSWY3DP".to_string());
    // Even two items with the same identifier stay as they are.
    entries.push(entry("a", "Again", Some("k"), &["t"]));
    let other = Vault { entries, notes: vec![note("1", Some("c"), &["x", "y"])] };
    assert_eq!(import_vault(&mut vault, other), 6);
    assert_eq!(ids(&vault.entries), vec!["a", "b", "c", "d", "a"]);
    assert!(vault.entries[1].pinned);
    assert_eq!(vault.entries[2].totp_secret.as_deref(), Some("JBSWY3DP"));
    assert_eq!(vault.entries[4].tags, vec!["t"]);
    assert_eq!(vault.notes[0].id, "1");
    assert_eq!(vault.notes[0].tags, vec!["x", "y"]);
}

#[test]
fn importing_draws_new_identifiers() {
    let mut vault = Vault { entries: sample(), notes: Vec::new() };
    let other = Vault { entries: sample(), notes: Vec::new() };
    assert_eq!(import_vault(&mut vault, other), 4);
    assert_eq!(vault.entries.len(), 8);
    for i in 0..8 {
        for j in 0..i {
            assert_ne!(vault.entries[i].id, vault.entries[j].id);
        }
    }
    assert_eq!(vault.entries[4].service, "GitHub");
    assert_eq!(vault.entries[4].id.len(), 22);
}

#[test]
fn wiping_a_vault() {
    let mut vault = Vault { entries: sample(), notes: vec![note("1", None, &[])] };
    vault.entries[0].totp_secret = Some("JBSWY3DP".to_string());
    remember_password(&mut vault.entries[0].password_history, "older".to_string(), 3);
    wipe_vault(&mut vault);
    assert_eq!(vault.entries.len(), 4);
    assert!(vault.entries.iter().all(|e| e.password.is_empty()));
    assert_eq!(vault.entries[0].totp_secret.as_deref(), Some(""));
    assert_eq!(vault.entries[0].password_history[0].password, "");
    assert_eq!(vault.entries[0].password_history[0].changed_at, 3);
    assert_eq!(vault.entries[0].service, "GitHub");
    assert_eq!(vault.notes[0].content, "");
    assert_eq!(vault.notes[0].title, "title 1");
}

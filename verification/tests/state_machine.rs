use zeropass::actions::SaveReason;
use zeropass::frame::FrameInput;
use zeropass::manage::{CreateOutcome, DeleteOutcome, ExportOutcome, ImportRequest};
use zeropass::modal::{ExchangeTab, Modal};
use zeropass::model::{Entry, PasswordHistoryEntry, SecureNote, Settings, Vault, VaultError};
use zeropass::registry::{NewVaultPath, VaultRecord, VaultRegistry};
use zeropass::session::{
    creation_result, unlock_result, AppState, CopyOutcome, DropTarget, FilterKind, NavTarget, Page,
    SettingsChange, UnlockResult, VaultGui,
};
use zeropass::toast::ToastKind;
use zeropass::update::UpdateStatus;

fn s(t: &str) -> String {
    t.to_string()
}

fn entry(id: &str, service: &str) -> Entry {
    Entry {
        id: s(id),
        service: s(service),
        username: s("user"),
        password: format!("pw-{}", id),
        totp_secret: None,
        category: Some(s("Work")),
        tags: vec![s("dev")],
        pinned: false,
        password_history: Vec::new(),
    }
}

fn note(id: &str) -> SecureNote {
    SecureNote { id: s(id), title: s("T"), content: s("body"), category: None, tags: vec![s("x")] }
}

fn settings() -> Settings {
    Settings { has_seen_beta_warning: true, ..Settings::default() }
}

fn start() -> VaultGui {
    VaultGui::new(s("/v/main.enc"), true, settings(), VaultRegistry::default(), 1000)
}

fn unlocked() -> VaultGui {
    let mut g = start();
    g.master_password = s("master password");
    assert!(g.unlock_vault(1000).is_some());
    let vault = Vault {
        entries: vec![entry("a", "A"), entry("b", "B"), entry("c", "C")],
        notes: vec![note("n")],
    };
    assert!(g.finish_unlock(UnlockResult::Success(vault), true, &Some(s("main")), 500, 1500));
    g
}

fn last_toast(g: &VaultGui) -> (&str, ToastKind) {
    let t = g.toasts.last().expect("a toast");
    (t.message.as_str(), t.kind)
}

fn ids(g: &VaultGui) -> Vec<&str> {
    g.vault.entries.iter().map(|e| e.id.as_str()).collect()
}

#[test]
fn startup() {
    let g = start();
    assert_eq!(g.state, AppState::Locked);
    assert!(matches!(g.modal, Modal::Closed));
    assert_eq!(g.to_settings(), settings());
    let g = VaultGui::new(s("/v"), false, Settings::default(), VaultRegistry::default(), 0);
    assert_eq!(g.state, AppState::NoVault);
    assert!(matches!(g.modal, Modal::BetaWarning));
}

#[test]
fn beta_warning_is_put_away() {
    let mut g = VaultGui::new(s("/v"), false, Settings::default(), VaultRegistry::default(), 0);
    g.dismiss_beta_warning();
    assert!(g.to_settings().has_seen_beta_warning);
    assert!(matches!(g.modal, Modal::Closed));
}

#[test]
fn creating_a_vault_checks_the_password() {
    let mut g = start();
    assert!(g.create_new_vault(1).is_none());
    assert_eq!(last_toast(&g).0, "Master password cannot be empty");
    g.master_password = s("short");
    assert!(g.create_new_vault(1).is_none());
    assert_eq!(last_toast(&g).0, "Master password must be at least 8 characters");
    g.master_password = s("long enough");
    g.master_password_confirm = s("other");
    assert!(!g.can_create());
    assert!(g.create_new_vault(1).is_none());
    assert_eq!(last_toast(&g), ("Passwords don't match", ToastKind::Error));
    assert_eq!(g.state, AppState::Locked);
    g.master_password_confirm = s("long enough");
    assert!(g.can_create());
    assert_eq!(g.create_new_vault(7).as_deref(), Some("long enough"));
    assert_eq!(g.state, AppState::CreatingVault(7));
    assert_eq!(g.master_password_confirm, "");
    assert!(g.unlock_pending);
    assert!(g.finish_unlock(creation_result(Ok(())), true, &None, 9, 9));
    assert_eq!(g.state, AppState::Unlocked);
    assert!(g.vault.entries.is_empty());
}

#[test]
fn failed_creation_is_reported() {
    let mut g = start();
    g.master_password = s("long enough");
    g.master_password_confirm = s("long enough");
    g.create_new_vault(7);
    let failed = creation_result(Err(VaultError::Io(s("disk full"))));
    assert!(!g.finish_unlock(failed, false, &None, 9, 9));
    assert_eq!(g.state, AppState::NoVault);
    assert_eq!(last_toast(&g).0, "Failed to create vault: IO error: disk full");
}

#[test]
fn unlocking_needs_a_password() {
    let mut g = start();
    assert!(!g.can_unlock());
    assert!(g.unlock_vault(1).is_none());
    assert_eq!(last_toast(&g), ("Enter master password", ToastKind::Error));
    g.master_password = s("x");
    assert_eq!(g.unlock_vault(5).as_deref(), Some("x"));
    assert_eq!(g.state, AppState::Unlocking(5));
    let wrong = unlock_result(Err(VaultError::Msg(s("Decryption failed (wrong password?)"))));
    assert!(!g.finish_unlock(wrong, true, &None, 0, 6));
    assert_eq!(g.state, AppState::Locked);
    assert_eq!(last_toast(&g).0, "Decryption failed (wrong password?)");
    assert_eq!(g.master_password, "x");
}

#[test]
fn unlocking_updates_the_register() {
    let g = unlocked();
    assert_eq!(g.state, AppState::Unlocked);
    assert_eq!(last_toast(&g), ("Vault unlocked.", ToastKind::Success));
    assert_eq!(g.vault_registry.vaults.len(), 1);
    assert_eq!(g.vault_registry.vaults[0].name, "main");
    assert_eq!(g.vault_registry.vaults[0].last_opened, 500);
    assert_eq!(g.vault_registry.last_used_index, Some(0));
}

#[test]
fn locking_leaves_nothing() {
    let mut g = unlocked();
    g.search_query = s("git");
    g.click_filter(Page::Entries, FilterKind::Tag, &s("dev"));
    g.open_edit_entry(0);
    g.finish_copy(CopyOutcome::Copied, 2000);
    g.lock_vault(true, 3000);
    assert_eq!(g.state, AppState::Locked);
    assert!(g.vault.entries.is_empty() && g.vault.notes.is_empty());
    assert_eq!(g.master_password, "");
    assert_eq!(g.search_query, "");
    assert!(matches!(g.modal, Modal::Closed));
    assert!(!g.is_filtered(Page::Entries));
    // What was copied is still cleared when its time is up.
    assert!(!g.is_clipboard_due(11_999));
    assert!(g.is_clipboard_due(12_000));
    assert_eq!(last_toast(&g), ("Vault locked.", ToastKind::Info));
    assert_eq!(g.vault_registry.vaults.len(), 1);
    assert!(!g.finish_unlock(UnlockResult::Success(Vault::default()), true, &None, 1, 1));
    assert_eq!(g.state, AppState::Locked);
}

#[test]
fn clipboard_is_cleared_in_time() {
    let mut g = unlocked();
    g.finish_copy(CopyOutcome::Copied, 2000);
    assert_eq!(last_toast(&g).0, "Copied. Clearing clipboard in 10s.");
    assert!(!g.is_clipboard_due(11_999));
    assert!(g.is_clipboard_due(12_000));
    g.clear_clipboard_if_needed(true, 11_999);
    assert!(g.clipboard_clear_time.is_some());
    g.clear_clipboard_if_needed(true, 12_000);
    assert_eq!(last_toast(&g), ("Clipboard cleared.", ToastKind::Info));
    assert!(!g.is_clipboard_due(u64::MAX));
    g.change_settings(SettingsChange::ToggleClipboardClear);
    g.finish_copy(CopyOutcome::Copied, 1);
    assert_eq!(last_toast(&g).0, "Copied to clipboard.");
    assert!(g.clipboard_clear_time.is_none());
    g.finish_copy(CopyOutcome::SetFailed, 1);
    assert_eq!(last_toast(&g), ("Failed to copy to clipboard.", ToastKind::Error));
    g.finish_copy(CopyOutcome::NoAccess, 1);
    assert_eq!(last_toast(&g).0, "Failed to access clipboard.");
}

#[test]
fn idle_vault_locks_itself() {
    let mut g = unlocked();
    g.change_settings(SettingsChange::ToggleAutoLock);
    g.change_settings(SettingsChange::AutoLockMinutes(1));
    g.note_activity(true, 10_000);
    assert!(g.is_timeout_countable());
    g.enforce_locks(true, true, 69_999);
    assert_eq!(g.state, AppState::Unlocked);
    g.enforce_locks(true, true, 70_000);
    assert_eq!(g.state, AppState::Locked);
    assert_eq!(last_toast(&g).0, "Vault auto-locked due to inactivity.");
    g.change_settings(SettingsChange::AutoLockMinutes(u64::MAX));
    assert!(g.is_timeout_countable());
    g.state = AppState::Unlocked;
    assert!(!g.is_timeout_countable());
}

#[test]
fn focus_loss_locks_when_asked() {
    let mut g = unlocked();
    g.enforce_locks(true, false, 2000);
    assert_eq!(g.state, AppState::Unlocked);
    g.change_settings(SettingsChange::ToggleFocusLock);
    g.enforce_locks(true, true, 2000);
    assert_eq!(g.state, AppState::Unlocked);
    g.navigate(NavTarget::Notes, 2000);
    g.enforce_locks(true, false, 2000);
    assert_eq!(g.state, AppState::Notes);
    g.navigate(NavTarget::Passwords, 2000);
    g.enforce_locks(false, false, 2000);
    assert_eq!(g.state, AppState::NoVault);
    assert_eq!(last_toast(&g).0, "Vault auto-locked due to focus loss.");
}

#[test]
fn sidebar_toggles_pages() {
    let mut g = unlocked();
    for (t, page) in [
        (NavTarget::Notes, AppState::Notes),
        (NavTarget::Generator, AppState::GeneratorView),
        (NavTarget::Settings, AppState::SettingsView),
        (NavTarget::Info, AppState::KnownBugs),
        (NavTarget::Vaults, AppState::VaultManager),
    ] {
        g.navigate(t, 2000);
        assert_eq!(g.state, page);
        assert!(g.shows_sidebar());
        g.navigate(t, 2001);
        assert_eq!(g.state, AppState::Unlocked);
        assert_eq!(g.view_opened, Some(2001));
    }
    g.navigate(NavTarget::Info, 1);
    g.navigate(NavTarget::Passwords, 2);
    assert_eq!(g.info_page_opened, None);
    g.lock_vault(true, 3);
    assert!(!g.shows_sidebar());
}

#[test]
fn one_filter_at_a_time() {
    let mut g = unlocked();
    g.click_filter(Page::Entries, FilterKind::Category, &s("Work"));
    assert!(g.is_filtered_by(Page::Entries, FilterKind::Category, &s("Work")));
    g.click_filter(Page::Entries, FilterKind::Tag, &s("dev"));
    assert_eq!(g.active_category_filter, None);
    assert_eq!(g.active_tag_filter, Some(s("dev")));
    g.click_filter(Page::Entries, FilterKind::Tag, &s("dev"));
    assert!(!g.is_filtered(Page::Entries));
    g.click_filter(Page::Notes, FilterKind::Tag, &s("y"));
    assert_eq!(g.notes_badge(), "0/1");
    g.clear_filters(Page::Notes);
    assert_eq!(g.notes_badge(), "1");
}

#[test]
fn sidebar_offers_what_is_in_use() {
    let mut g = unlocked();
    let f = g.sidebar_filters().unwrap();
    assert_eq!(f.page, Page::Entries);
    assert_eq!(f.categories, vec!["Work"]);
    assert_eq!(f.tags, vec!["dev"]);
    g.navigate(NavTarget::Notes, 1);
    let f = g.sidebar_filters().unwrap();
    assert_eq!(f.page, Page::Notes);
    assert!(f.categories.is_empty());
    assert_eq!(f.tags, vec!["x"]);
    g.delete_note(&s("n"));
    assert!(g.sidebar_filters().is_none());
    g.navigate(NavTarget::Settings, 1);
    assert!(g.sidebar_filters().is_none());
    g.navigate(NavTarget::Passwords, 1);
    for e in g.vault.entries.iter_mut() {
        e.category = None;
    }
    // Tags alone bring up no filters for entries.
    assert!(g.sidebar_filters().is_none());
}

#[test]
fn preferences_change_one_by_one() {
    let mut g = start();
    for c in [
        SettingsChange::ToggleDarkMode,
        SettingsChange::ToggleShowPasswords,
        SettingsChange::ToggleAutoLock,
        SettingsChange::ToggleFocusLock,
        SettingsChange::ToggleUppercase,
        SettingsChange::ToggleNumbers,
        SettingsChange::ToggleSymbols,
        SettingsChange::ToggleVsync,
    ] {
        let before = g.to_settings();
        g.change_settings(c);
        assert_ne!(g.to_settings(), before);
        g.change_settings(c);
        assert_eq!(g.to_settings(), before);
    }
    g.change_settings(SettingsChange::ToggleClipboardClear);
    assert_eq!(g.settings.clipboard_timeout_secs, None);
    g.change_settings(SettingsChange::ToggleClipboardClear);
    assert_eq!(g.settings.clipboard_timeout_secs, Some(30));
    g.change_settings(SettingsChange::ClipboardSeconds(45));
    assert_eq!(g.settings.clipboard_timeout_secs, Some(45));
    g.change_settings(SettingsChange::DefaultLength(20));
    assert_eq!(g.settings.default_password_length, 20);
}

#[test]
fn update_checks() {
    let mut g = start();
    assert!(g.start_due_update_check());
    assert!(!g.start_due_update_check());
    assert!(!g.recheck_updates());
    g.receive_update(UpdateStatus::UpToDate, 5);
    assert!(g.toasts.is_empty());
    assert!(!g.update_check_pending);
    assert!(!g.start_due_update_check());
    assert!(g.recheck_updates());
    g.receive_update(UpdateStatus::StableAvailable { version: s("9"), url: s("u") }, 5);
    assert_eq!(last_toast(&g), ("Update available: v9", ToastKind::Info));
    g.recheck_updates();
    g.receive_update(UpdateStatus::BetaAvailable { version: s("9-b"), url: s("u") }, 5);
    assert_eq!(last_toast(&g).0, "Beta update available: v9-b");
    g.receive_update(UpdateStatus::UpToDate, 5);
    assert!(matches!(g.update_status, UpdateStatus::BetaAvailable { .. }));
}

#[test]
fn frames_begin_in_order() {
    let mut g = start();
    g.master_password = s("x");
    g.unlock_vault(5);
    let input = FrameInput {
        unlocked: Some(UnlockResult::Success(Vault::default())),
        update: None,
        file_exists: true,
        stem: Some(s("main")),
        clipboard_accessible: true,
        active: true,
        unix_now: 42,
        now: 9000,
    };
    let a = g.begin_frame(input);
    assert!(a.vault_opened);
    assert!(a.start_update_check);
    assert_eq!(g.state, AppState::Unlocked);
    assert_eq!(g.last_activity, 9000);
    g.finish_copy(CopyOutcome::Copied, 9000);
    let a = g.begin_frame(FrameInput {
        unlocked: None,
        update: Some(UpdateStatus::UpToDate),
        file_exists: true,
        stem: None,
        clipboard_accessible: true,
        active: false,
        unix_now: 43,
        now: 19_000,
    });
    assert!(!a.vault_opened && !a.start_update_check);
    assert!(g.clipboard_clear_time.is_none());
    assert_eq!(last_toast(&g).0, "Clipboard cleared.");
    assert!(matches!(g.update_status, UpdateStatus::UpToDate));
}

#[test]
fn toasts_go_by_themselves() {
    let mut g = start();
    g.handle_success("done", 0);
    assert_eq!(g.message, "done");
    g.handle_error(&VaultError::Msg(s("bad")), 10);
    assert_eq!(g.message, "Error: bad");
    assert_eq!(g.toasts.len(), 2);
    g.expire_toasts(3355);
    assert_eq!(g.toasts.len(), 1);
    g.expire_toasts(3360);
    assert!(g.toasts.is_empty());
}

#[test]
fn adding_an_entry() {
    let mut g = unlocked();
    g.open_add_entry();
    assert!(!g.confirm_add_entry(1));
    if let Modal::AddEntry { service, username, password, category, tags, password_length, .. } =
        &mut g.modal
    {
        assert_eq!(*password_length, 16);
        *service = s(" GitHub ");
        *username = s("me");
        *password = s("pw");
        *category = s("  Work ");
        *tags = s("A, b");
    }
    assert!(g.confirm_add_entry_as(s("new-id"), 1));
    assert!(matches!(g.modal, Modal::Closed));
    let e = g.vault.entries.last().unwrap();
    assert_eq!((e.id.as_str(), e.service.as_str(), e.password.as_str()), ("new-id", "GitHub", "pw"));
    assert_eq!(e.category.as_deref(), Some("Work"));
    assert_eq!(e.tags, vec!["a", "b"]);
    assert_eq!(e.totp_secret, None);
    g.finish_save(SaveReason::EntryAdded, &Ok(()), 2);
    assert_eq!(g.message, "Entry saved successfully.");
    g.open_add_entry();
    if let Modal::AddEntry { service, username, .. } = &mut g.modal {
        *service = s("x");
        *username = s("y");
    }
    assert!(g.confirm_add_entry(1));
    assert_eq!(g.vault.entries.last().unwrap().id.len(), 22);
}

#[test]
fn entries_need_service_and_username() {
    let mut g = unlocked();
    assert!(!g.add_entry_as(s("i"), &s(""), &s("u"), s("p"), None, &None, Vec::new(), 1));
    assert_eq!(last_toast(&g).0, "Service and username are required");
    assert_eq!(g.vault.entries.len(), 3);
    assert!(!g.add_note_as(s("i"), &s(""), s("c"), &None, Vec::new(), 1));
    assert_eq!(last_toast(&g).0, "Title is required");
}

#[test]
fn editing_through_the_dialog() {
    let mut g = unlocked();
    g.open_edit_entry(1);
    if let Modal::EditEntry { original_id, password, tags, category, .. } = &mut g.modal {
        assert_eq!(original_id, "b");
        assert_eq!(tags, "dev");
        assert_eq!(category, "Work");
        *password = s("fresh");
    }
    assert!(g.confirm_edit_entry(99));
    assert_eq!(g.vault.entries[1].password, "fresh");
    assert_eq!(g.vault.entries[1].password_history[0].password, "pw-b");
    g.open_history(1);
    let (title, history) = g.history_content();
    assert_eq!(title, "Password History — B");
    assert_eq!(history.len(), 1);
    assert_eq!(history[0].changed_at, 99);
    assert!(g.remove_shown_former(0));
    assert!(matches!(g.modal, Modal::PasswordHistory { .. }));
    assert!(g.vault.entries[1].password_history.is_empty());
    g.vault.entries[1]
        .password_history
        .push(PasswordHistoryEntry { password: s("x"), changed_at: 1 });
    assert!(g.clear_shown_history());
    assert!(matches!(g.modal, Modal::Closed));
    assert!(g.vault.entries[1].password_history.is_empty());
    g.open_history(1);
    assert!(matches!(g.modal, Modal::Closed));
    assert_eq!(g.history_content().0, "Password History — Entry");
}

#[test]
fn editing_a_missing_entry_just_closes() {
    let mut g = unlocked();
    g.open_edit_entry(0);
    g.delete_entry(&s("a"));
    assert!(!g.confirm_edit_entry(1));
    assert!(matches!(g.modal, Modal::Closed));
    assert_eq!(ids(&g), vec!["b", "c"]);
}

#[test]
fn lists_of_the_password_page() {
    let mut g = unlocked();
    g.toggle_pin(&s("c"));
    assert_eq!(g.shown_entries(), vec![2, 0, 1]);
    assert!(!g.is_searching());
    g.search_query = s("B");
    assert!(g.is_searching());
    assert_eq!(g.shown_entries(), vec![1]);
}

#[test]
fn dragging_an_entry() {
    let mut g = unlocked();
    g.begin_drag(0);
    g.start_drag_frame();
    g.pass_card(0, true);
    assert_eq!(g.drag_target, None);
    g.pass_card(1, false);
    g.pass_card(2, true);
    assert_eq!(g.drag_target, Some(DropTarget::Before(2)));
    g.end_drag_frame(true);
    assert!(g.drop_dragged());
    assert_eq!(ids(&g), vec!["b", "a", "c"]);
    assert_eq!(g.drag_source, None);
    g.begin_drag(0);
    g.start_drag_frame();
    g.pass_card(1, false);
    g.end_drag_frame(true);
    assert_eq!(g.drag_target, Some(DropTarget::End));
    assert!(g.drop_dragged());
    assert_eq!(ids(&g), vec!["a", "c", "b"]);
    assert!(!g.drop_dragged());
    g.begin_drag(8);
    assert!(!g.drop_dragged());
}

#[test]
fn notes_through_the_dialogs() {
    let mut g = unlocked();
    g.open_add_note();
    if let Modal::AddNote { title, content, tags, .. } = &mut g.modal {
        *title = s(" Title ");
        *content = s("text");
        *tags = s("Keep, Case");
    }
    assert!(g.confirm_add_note_as(s("n2"), 1));
    assert_eq!(g.vault.notes[1].title, "Title");
    assert_eq!(g.vault.notes[1].tags, vec!["Keep", "Case"]);
    g.open_edit_note(1);
    if let Modal::EditNote { title, category, .. } = &mut g.modal {
        *title = s("Other");
        *category = s("c");
    }
    assert!(g.confirm_edit_note());
    assert_eq!(g.vault.notes[1].title, "Other");
    assert_eq!(g.vault.notes[1].content, "text");
    assert_eq!(g.vault.notes[1].category.as_deref(), Some("c"));
    g.finish_save(SaveReason::NoteEdited, &Ok(()), 1);
    assert_eq!(last_toast(&g).0, "Note updated.");
    g.delete_note(&s("n2"));
    g.finish_save(SaveReason::NoteDeleted, &Ok(()), 1);
    assert_eq!(last_toast(&g), ("Note deleted.", ToastKind::Info));
    assert_eq!(g.shown_notes(), vec![0]);
    g.finish_save(SaveReason::NoteAdded, &Ok(()), 1);
    assert_eq!(g.message, "Note saved.");
    g.finish_save(SaveReason::Changed, &Err(VaultError::Crypto(s("x"))), 1);
    assert_eq!(g.message, "Error: Crypto error: x");
}

#[test]
fn changing_the_master_password() {
    let mut g = unlocked();
    g.open_change_password();
    assert!(g.confirm_change_password(1).is_none());
    if let Modal::ChangePassword { current, replacement, confirm } = &mut g.modal {
        *current = s("wrong");
        *replacement = s("new password");
        *confirm = s("new password");
    }
    assert!(g.confirm_change_password(1).is_none());
    assert_eq!(last_toast(&g).0, "Incorrect current password.");
    if let Modal::ChangePassword { current, .. } = &mut g.modal {
        *current = s("master password");
    }
    assert_eq!(g.confirm_change_password(1).as_deref(), Some("new password"));
    g.finish_change_password(&Err(VaultError::Io(s("full"))), 2);
    assert_eq!(g.master_password, "master password");
    assert!(matches!(g.modal, Modal::ChangePassword { .. }));
    g.finish_change_password(&Ok(()), 3);
    assert_eq!(g.master_password, "new password");
    assert!(matches!(g.modal, Modal::Closed));
    assert_eq!(g.message, "Master password changed.");
    assert_eq!(g.vault.entries.len(), 3);
}

#[test]
fn deleting_the_open_vault() {
    let mut g = unlocked();
    g.open_delete_vault();
    assert!(g.password_to_delete().is_none());
    if let Modal::DeleteVault { confirmation } = &mut g.modal {
        *confirmation = s("guess");
    }
    assert_eq!(g.password_to_delete().as_deref(), Some("guess"));
    g.finish_delete_vault(DeleteOutcome::WrongPassword, true, 1);
    assert_eq!(last_toast(&g).0, "Incorrect password. Vault not deleted.");
    g.finish_delete_vault(DeleteOutcome::RemoveFailed(s("denied")), true, 1);
    assert_eq!(g.message, "Error: IO error: denied");
    assert_eq!(g.vault.entries.len(), 3);
    g.finish_delete_vault(DeleteOutcome::Deleted, false, 1);
    assert_eq!(g.state, AppState::NoVault);
    assert_eq!(g.message, "Vault deleted successfully.");
    assert!(g.vault.entries.is_empty());
}

#[test]
fn creating_another_vault() {
    let mut g = unlocked();
    g.open_create_vault();
    assert!(g.new_vault_request(true).is_none());
    if let Modal::CreateVault { name, password, confirm, .. } = &mut g.modal {
        *name = s(" Side Vault ");
        *password = s("password");
        *confirm = s("password");
    }
    let r = g.new_vault_request(true).unwrap();
    assert!(matches!(&r.path, NewVaultPath::InDataDir(f) if f == "side_vault.enc"));
    assert_eq!(r.password, "password");
    assert!(!g.finish_create_vault(CreateOutcome::PathTaken, 1));
    assert_eq!(last_toast(&g).0, "A file already exists at that path.");
    assert!(!g.finish_create_vault(CreateOutcome::Failed(VaultError::Msg(s("no"))), 1));
    assert_eq!(last_toast(&g).0, "Failed: no");
    assert!(g.finish_create_vault(CreateOutcome::Created(s("/d/side_vault.enc"), 33), 1));
    assert_eq!(last_toast(&g).0, "Vault 'Side Vault' created!");
    assert_eq!(g.vault_registry.vaults[1].path, "/d/side_vault.enc");
    assert_eq!(g.vault_registry.vaults[1].last_opened, 33);
    assert!(matches!(g.modal, Modal::Closed));
}

fn with_two_vaults() -> VaultGui {
    let mut g = unlocked();
    g.vault_registry.vaults.push(VaultRecord {
        name: s("Side"),
        path: s("/v/side.enc"),
        last_opened: 0,
    });
    g
}

#[test]
fn renaming_a_known_vault() {
    let mut g = with_two_vaults();
    g.open_rename(1);
    assert!(matches!(&g.modal, Modal::RenameVault { index: 1, new_name } if new_name == "Side"));
    if let Modal::RenameVault { new_name, .. } = &mut g.modal {
        *new_name = s(" Home ");
    }
    assert!(g.confirm_rename(1));
    assert_eq!(g.vault_registry.vaults[1].name, "Home");
    assert_eq!(last_toast(&g).0, "Vault renamed.");
}

#[test]
fn deleting_a_known_vault() {
    let mut g = with_two_vaults();
    g.open_delete_record(1);
    assert_eq!(g.confirmed_record(), None);
    assert!(!g.confirm_delete_record(true, 1));
    if let Modal::DeleteVaultRecord { confirmation, .. } = &mut g.modal {
        *confirmation = s(" Side ");
    }
    assert_eq!(g.confirmed_record(), Some(1));
    assert!(!g.is_current_record(1));
    assert!(g.confirm_delete_record(true, 1));
    assert_eq!(g.state, AppState::Unlocked);
    assert_eq!(g.vault_registry.vaults.len(), 1);
    assert_eq!(last_toast(&g), ("Vault deleted.", ToastKind::Info));
    let mut g = with_two_vaults();
    assert!(g.is_current_record(0));
    g.open_delete_record(0);
    if let Modal::DeleteVaultRecord { confirmation, .. } = &mut g.modal {
        *confirmation = s("main");
    }
    assert!(g.confirm_delete_record(false, 1));
    assert_eq!(g.state, AppState::NoVault);
    assert!(g.vault.entries.is_empty());
    assert_eq!(g.vault_registry.last_used_index, None);
}

#[test]
fn switching_vaults() {
    let mut g = with_two_vaults();
    assert!(!g.switch_vault(5, true, true, 1));
    assert_eq!(g.state, AppState::Unlocked);
    assert!(g.switch_vault(1, true, false, 1));
    assert_eq!(g.vault_path, "/v/side.enc");
    assert_eq!(g.state, AppState::NoVault);
    assert_eq!(g.vault_registry.last_used_index, Some(1));
    assert_eq!(g.vault_registry.startup_path(&s("/d")), "/v/side.enc");
    assert!(g.vault.entries.is_empty());
}

#[test]
fn importing_and_exporting() {
    let mut g = unlocked();
    g.open_exchange(s("{}"));
    assert!(g.import_request().is_none());
    if let Modal::ImportExport { active_tab, import_text, .. } = &mut g.modal {
        *active_tab = ExchangeTab::Import;
        *import_text = s("{\"entries\":[]}");
    }
    assert!(matches!(g.import_request(), Some(ImportRequest::Plain(t)) if t == "{\"entries\":[]}"));
    if let Modal::ImportExport { import_text, import_password, .. } = &mut g.modal {
        *import_text = s("{\"magic\":1,\"cipher_b64\":2}");
        *import_password = s("p");
    }
    assert!(matches!(g.import_request(), Some(ImportRequest::Encrypted(_, p)) if p == "p"));
    g.fail_import(&VaultError::Serde(s("eof")), 1);
    assert_eq!(last_toast(&g).0, "Import failed: Serialization error: eof");
    let n = g.import(Vault { entries: vec![entry("a", "Again")], notes: vec![note("m")] });
    assert_eq!(n, 2);
    assert_eq!(g.vault.entries.len(), 4);
    g.finish_save(SaveReason::Imported(n), &Ok(()), 1);
    assert_eq!(last_toast(&g).0, "Imported 2 item(s) successfully.");
    assert!(matches!(g.modal, Modal::Closed));
    for (o, text) in [
        (ExportOutcome::EncryptedCopied, "Encrypted export copied to clipboard."),
        (ExportOutcome::PlaintextCopied, "Plaintext JSON copied to clipboard."),
        (ExportOutcome::SerializeFailed(s("e")), "Serialization error: e"),
        (ExportOutcome::EncryptFailed(VaultError::Msg(s("m"))), "Encryption failed: m"),
    ] {
        g.finish_export(&o, 1);
        assert_eq!(last_toast(&g).0, text);
    }
    let before = g.toasts.len();
    g.finish_export(&ExportOutcome::NoClipboard, 1);
    assert_eq!(g.toasts.len(), before);
}

#[test]
fn generated_passwords_reach_the_dialog() {
    let mut g = unlocked();
    g.open_add_entry();
    g.generate_into_dialog();
    match &g.modal {
        Modal::AddEntry { password, service, .. } => {
            assert_eq!(password.len(), 16);
            assert_eq!(service, "");
        }
        _ => panic!("another dialog"),
    }
    g.open_generator(7);
    assert_eq!(g.state, AppState::GeneratorView);
    assert!(matches!(g.modal, Modal::AddEntry { .. }));
    g.use_generated(s("abc"), 3, 8);
    assert_eq!(g.state, AppState::Unlocked);
    assert!(matches!(&g.modal, Modal::AddEntry { password, .. } if password == "abc"));
    g.close_modal();
    g.generate_into_dialog();
    assert!(matches!(g.modal, Modal::Closed));
}

#[test]
fn leaving_wipes_every_secret() {
    let mut g = unlocked();
    g.master_password_confirm = s("left over");
    g.open_edit_entry(0);
    g.on_exit();
    assert_eq!(g.master_password, "");
    assert_eq!(g.master_password_confirm, "");
    assert!(g.vault.entries.iter().all(|e| e.password.is_empty()));
    assert_eq!(g.vault.notes[0].content, "");
    assert!(matches!(&g.modal, Modal::EditEntry { password, .. } if password.is_empty()));
}

#[test]
fn untouched_edits_change_nothing() {
    let mut g = unlocked();
    g.vault.entries[1].totp_secret = Some(s("JBSWY3DPEHPK3PXP"));
    g.vault.entries[1].tags = vec![s("dev"), s("home")];
    g.open_edit_entry(1);
    assert!(g.confirm_edit_entry(99));
    let e = &g.vault.entries[1];
    assert_eq!(e.service, "B");
    assert_eq!(e.password, "pw-b");
    assert_eq!(e.totp_secret.as_deref(), Some("JBSWY3DPEHPK3PXP"));
    assert_eq!(e.category.as_deref(), Some("Work"));
    assert_eq!(e.tags, vec!["dev", "home"]);
    assert!(e.password_history.is_empty());
    let (title, content) = (g.vault.notes[0].title.clone(), g.vault.notes[0].content.clone());
    g.vault.notes[0].tags = vec![s("Mixed Case"), s("two")];
    g.open_edit_note(0);
    assert!(g.confirm_edit_note());
    assert_eq!(g.vault.notes[0].title, title);
    assert_eq!(g.vault.notes[0].content, content);
    assert_eq!(g.vault.notes[0].tags, vec!["Mixed Case", "two"]);
}

#[test]
fn notes_get_an_identifier() {
    let mut g = unlocked();
    g.open_add_note();
    if let Modal::AddNote { title, content, .. } = &mut g.modal {
        *title = s(" Plan ");
        *content = s("text");
    }
    assert!(g.confirm_add_note(2000));
    assert_eq!(g.vault.notes.len(), 2);
    assert_eq!(g.vault.notes[1].title, "Plan");
    assert_eq!(g.vault.notes[1].content, "text");
    assert_eq!(g.vault.notes[1].id.len(), 22);
    assert!(matches!(g.modal, Modal::Closed));
}

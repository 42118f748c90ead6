//! What is done with whole vaults: changing the master password, creating,
//! renaming, deleting and switching vaults, importing and exporting; and how the
//! dialogs are opened.
use crate::actions::outcome_view;
use crate::crypto::wipe_text;
use crate::generator::{charset, drawn_from, generate_password};
use crate::import::{import_vault, imports_to};
use crate::modal::{
    ExchangeTab, Modal, ModalView, add_entry_dialog, add_note_dialog, create_vault_dialog,
    edit_entry_dialog, edit_note_dialog, exchange_dialog, looks_encrypted, text_looks_encrypted,
};
use crate::model::{ErrorView, Settings, Vault, VaultError, history_views, opt_view};
use crate::registry::{
    NewVaultPath, RecordView, RegistryView, new_vault_path, resolve_new_vault_path,
};
use crate::session::{AppState, GuiView, VaultGui, closed_state};
use crate::text::{trim, trimmed};
use crate::toast::ToastKind;
use vstd::prelude::*;
use vstd::utf8::encode_utf8;

verus! {

// ---------------------------------------------------------------------------
// The master password
// ---------------------------------------------------------------------------

impl GuiView {
    /// The password to encrypt the vault with anew, if the dialog asks for it: the
    /// present one was typed correctly.
    pub open spec fn password_change_asked(self) -> Option<Seq<char>> {
        match self.modal {
            ModalView::ChangePassword { current, replacement, .. } => if self.modal.confirmable()
                && current == self.master_password {
                Some(replacement)
            } else {
                None
            },
            _ => None,
        }
    }

    /// The state after the dialog for a new master password was confirmed: a wrong
    /// present password is reported.
    pub open spec fn password_change_checked(self, now: u64) -> GuiView {
        if self.modal is ChangePassword && self.modal.confirmable()
            && self.password_change_asked() is None {
            self.toasted("Incorrect current password."@, ToastKind::Error, now)
        } else {
            self
        }
    }

    /// The state after the vault was encrypted anew, or could not be.
    pub open spec fn password_change_ended(
        self,
        outcome: Result<(), ErrorView>,
        now: u64,
    ) -> GuiView {
        match self.password_change_asked() {
            Some(replacement) => match outcome {
                Ok(()) => GuiView {
                    master_password: replacement,
                    modal: ModalView::Closed,
                    ..self.succeeded("Master password changed."@, now)
                },
                Err(e) => self.failed(e, now),
            },
            None => self,
        }
    }
}

impl VaultGui {
    fn asked_password(&self) -> (res: Option<String>)
        ensures
            opt_view(res) == self@.password_change_asked(),
    {
        if !self.modal.can_confirm() {
            return None;
        }
        match &self.modal {
            Modal::ChangePassword { current, replacement, .. } => if *current
                == self.master_password {
                Some(replacement.clone())
            } else {
                None
            },
            _ => None,
        }
    }

    /// Confirms the dialog for a new master password; returns the password to save
    /// the vault under, if it is to be done.
    pub fn confirm_change_password(&mut self, now: u64) -> (password: Option<String>)
        ensures
            final(self)@ == old(self)@.password_change_checked(now),
            opt_view(password) == old(self)@.password_change_asked(),
    {
        let asked: Option<String> = self.asked_password();
        let open: bool = match &self.modal {
            Modal::ChangePassword { .. } => true,
            _ => false,
        };
        if open && self.modal.can_confirm() && asked.is_none() {
            self.push_toast("Incorrect current password.".to_string(), ToastKind::Error, now);
        }
        asked
    }

    /// Takes in what came of saving the vault under a new master password.
    pub fn finish_change_password(&mut self, outcome: &Result<(), VaultError>, now: u64)
        ensures
            final(self)@ == old(self)@.password_change_ended(outcome_view(*outcome), now),
    {
        match self.asked_password() {
            Some(replacement) => match outcome {
                Ok(()) => {
                    wipe_text(&mut self.master_password);
                    self.master_password = replacement;
                    self.handle_success("Master password changed.", now);
                    self.close_modal();
                },
                Err(e) => self.handle_error(e, now),
            },
            None => {},
        }
    }
}

/// The master password changes only when the present one was typed and the vault
/// was saved; the vault itself never changes with it.
pub proof fn law_password_changes_only_when_saved(
    s: GuiView,
    outcome: Result<(), ErrorView>,
    now: u64,
)
    ensures
        s.password_change_ended(outcome, now).vault == s.vault,
        s.password_change_checked(now).master_password == s.master_password,
        s.password_change_ended(outcome, now).master_password != s.master_password ==> outcome is Ok
            && s.password_change_asked() is Some,
        outcome is Ok && s.password_change_asked() is Some ==> s.password_change_ended(
            outcome,
            now,
        ).master_password == s.password_change_asked().unwrap(),
{
}

// ---------------------------------------------------------------------------
// Deleting the open vault
// ---------------------------------------------------------------------------

/// What came of deleting the open vault.
pub enum DeleteOutcome {
    /// The file could not be read and decrypted with the password typed.
    WrongPassword,
    /// The file could not be removed.
    RemoveFailed(String),
    Deleted,
}

impl GuiView {
    /// The state after the attempt to delete the open vault.
    pub open spec fn delete_ended(
        self,
        outcome: DeleteOutcome,
        file_exists: bool,
        now: u64,
    ) -> GuiView {
        if !(self.modal is DeleteVault) {
            self
        } else {
            match outcome {
                DeleteOutcome::WrongPassword => self.toasted(
                    "Incorrect password. Vault not deleted."@,
                    ToastKind::Error,
                    now,
                ),
                DeleteOutcome::RemoveFailed(e) => self.failed(ErrorView::Io(e@), now),
                DeleteOutcome::Deleted => self.succeeded(
                    "Vault deleted successfully."@,
                    now,
                ).locked(file_exists, now),
            }
        }
    }
}

impl VaultGui {
    /// The password to try the file with before the open vault is deleted.
    pub fn password_to_delete(&self) -> (res: Option<String>)
        ensures
            opt_view(res) == (match self@.modal {
                ModalView::DeleteVault { confirmation } => if confirmation.len() > 0 {
                    Some(confirmation)
                } else {
                    None
                },
                _ => None,
            }),
    {
        match &self.modal {
            Modal::DeleteVault { confirmation } => if confirmation.as_str().is_empty() {
                None
            } else {
                Some(confirmation.clone())
            },
            _ => None,
        }
    }

    /// Takes in what came of deleting the open vault.
    pub fn finish_delete_vault(&mut self, outcome: DeleteOutcome, file_exists: bool, now: u64)
        ensures
            final(self)@ == old(self)@.delete_ended(outcome, file_exists, now),
    {
        let open: bool = match &self.modal {
            Modal::DeleteVault { .. } => true,
            _ => false,
        };
        if open {
            match outcome {
                DeleteOutcome::WrongPassword => {
                    self.push_toast(
                        "Incorrect password. Vault not deleted.".to_string(),
                        ToastKind::Error,
                        now,
                    );
                },
                DeleteOutcome::RemoveFailed(e) => {
                    let err = VaultError::Io(e);
                    self.handle_error(&err, now);
                },
                DeleteOutcome::Deleted => {
                    self.handle_success("Vault deleted successfully.", now);
                    self.lock_vault(file_exists, now);
                },
            }
        }
    }
}

/// A deletion that did not happen leaves the vault open as it was, and one that
/// happened leaves nothing of it.
pub proof fn law_delete_all_or_nothing(
    s: GuiView,
    outcome: DeleteOutcome,
    file_exists: bool,
    now: u64,
)
    requires
        s.modal is DeleteVault,
    ensures
        outcome is Deleted ==> s.delete_ended(outcome, file_exists, now).holds_no_vault(),
        !(outcome is Deleted) ==> s.delete_ended(outcome, file_exists, now).vault == s.vault
            && s.delete_ended(outcome, file_exists, now).state == s.state,
{
}

// ---------------------------------------------------------------------------
// Creating another vault
// ---------------------------------------------------------------------------

/// What came of creating another vault.
pub enum CreateOutcome {
    /// There is a file at the path already.
    PathTaken,
    /// The file was written to this path at this Unix time.
    Created(String, u64),
    Failed(VaultError),
}

impl GuiView {
    /// The state after the attempt to create another vault.
    pub open spec fn create_ended(self, outcome: CreateOutcome, now: u64) -> GuiView {
        match self.modal {
            ModalView::CreateVault { name, .. } => match outcome {
                CreateOutcome::PathTaken => self.toasted(
                    "A file already exists at that path."@,
                    ToastKind::Error,
                    now,
                ),
                CreateOutcome::Created(path, at) => GuiView {
                    vault_registry: self.vault_registry.with_record(
                        RecordView { name: trimmed(name), path: path@, last_opened: at },
                    ),
                    modal: ModalView::Closed,
                    ..self.toasted(
                        "Vault '"@ + trimmed(name) + "' created!"@,
                        ToastKind::Success,
                        now,
                    )
                },
                CreateOutcome::Failed(e) => self.toasted(
                    "Failed: "@ + e@.text(),
                    ToastKind::Error,
                    now,
                ),
            },
            _ => self,
        }
    }
}

/// Where to write another vault, and under which password.
pub struct NewVault {
    pub path: NewVaultPath,
    pub password: String,
}

impl VaultGui {
    /// Where to write the vault that the dialog asks for, and under which password,
    /// if it may be confirmed.
    pub fn new_vault_request(&self, has_data_dir: bool) -> (res: Option<NewVault>)
        ensures
            match res {
                Some(r) => {
                    &&& self@.modal.confirmable()
                    &&& self@.modal matches ModalView::CreateVault {
                        name,
                        path_input,
                        password,
                        ..
                    } && r.path@ == new_vault_path(name, path_input, has_data_dir) && r.password@
                        == password
                },
                None => !(self@.modal is CreateVault && self@.modal.confirmable()),
            },
    {
        if !self.modal.can_confirm() {
            return None;
        }
        match &self.modal {
            Modal::CreateVault { name, path_input, password, .. } => Some(
                NewVault {
                    path: resolve_new_vault_path(name, path_input, has_data_dir),
                    password: password.clone(),
                },
            ),
            _ => None,
        }
    }

    /// Takes in what came of creating another vault; says whether the register is
    /// to be saved.
    pub fn finish_create_vault(&mut self, outcome: CreateOutcome, now: u64) -> (save: bool)
        ensures
            final(self)@ == old(self)@.create_ended(outcome, now),
            save == (old(self)@.modal is CreateVault && outcome is Created),
    {
        let name: Option<String> = match &self.modal {
            Modal::CreateVault { name, .. } => Some(trim(name.as_str())),
            _ => None,
        };
        match name {
            Some(vault_name) => match outcome {
                CreateOutcome::PathTaken => {
                    self.push_toast(
                        "A file already exists at that path.".to_string(),
                        ToastKind::Error,
                        now,
                    );
                    false
                },
                CreateOutcome::Created(path, at) => {
                    let text: String = "Vault '".to_string().concat(vault_name.as_str()).concat(
                        "' created!",
                    );
                    self.vault_registry.add_record(vault_name, path, at);
                    self.push_toast(text, ToastKind::Success, now);
                    self.close_modal();
                    true
                },
                CreateOutcome::Failed(e) => {
                    self.push_toast(
                        "Failed: ".to_string().concat(e.message().as_str()),
                        ToastKind::Error,
                        now,
                    );
                    false
                },
            },
            None => false,
        }
    }
}

// ---------------------------------------------------------------------------
// Known vaults
// ---------------------------------------------------------------------------

impl GuiView {
    /// The state after the dialog for a new name was confirmed.
    pub open spec fn rename_confirmed(self, now: u64) -> GuiView {
        match self.modal {
            ModalView::RenameVault { index, new_name } => if self.modal.confirmable() {
                GuiView {
                    vault_registry: self.vault_registry.renamed(index as int, new_name),
                    modal: ModalView::Closed,
                    ..self.toasted("Vault renamed."@, ToastKind::Success, now)
                }
            } else {
                self
            },
            _ => self,
        }
    }

    /// The name of the vault that the dialog would delete: empty if there is no
    /// such record.
    pub open spec fn record_name(self, index: int) -> Seq<char> {
        if 0 <= index < self.vault_registry.vaults.len() {
            self.vault_registry.vaults[index].name
        } else {
            Seq::empty()
        }
    }

    /// The record that the dialog is to delete: its name was typed.
    pub open spec fn record_to_delete(self) -> Option<usize> {
        match self.modal {
            ModalView::DeleteVaultRecord { index, confirmation } => if trimmed(confirmation)
                == self.record_name(index as int) {
                Some(index)
            } else {
                None
            },
            _ => None,
        }
    }

    /// The record that the dialog is to delete exists.
    pub open spec fn record_deletable(self) -> bool {
        self.record_to_delete() is Some ==> self.record_to_delete().unwrap()
            < self.vault_registry.vaults.len()
    }

    /// The state after a record was deleted. If it is that of the open vault, the
    /// vault is locked.
    pub open spec fn record_deleted(self, file_exists: bool, now: u64) -> GuiView {
        match self.record_to_delete() {
            Some(index) => {
                let first = if self.vault_registry.vaults[index as int].path == self.vault_path {
                    self.locked(file_exists, now)
                } else {
                    self
                };
                GuiView {
                    vault_registry: first.vault_registry.without_record(index as int),
                    modal: ModalView::Closed,
                    ..first.toasted("Vault deleted."@, ToastKind::Info, now)
                }
            },
            None => self,
        }
    }

    /// The state after the user switched to another known vault: the open one is
    /// locked, and the other is waiting to be unlocked.
    pub open spec fn switched(
        self,
        index: int,
        file_exists: bool,
        other_exists: bool,
        now: u64,
    ) -> GuiView {
        if 0 <= index < self.vault_registry.vaults.len() {
            let l = self.locked(file_exists, now);
            GuiView {
                vault_path: self.vault_registry.vaults[index].path,
                vault_registry: RegistryView {
                    last_used_index: Some(index as usize),
                    ..self.vault_registry
                },
                state: closed_state(other_exists),
                view_opened: Some(now),
                ..l
            }
        } else {
            self
        }
    }
}

impl VaultGui {
    /// Confirms the dialog for a new name; says whether the register is to be saved.
    pub fn confirm_rename(&mut self, now: u64) -> (save: bool)
        ensures
            final(self)@ == old(self)@.rename_confirmed(now),
            save == (old(self)@.modal is RenameVault && old(self)@.modal.confirmable()),
    {
        if !self.modal.can_confirm() {
            return false;
        }
        let mut renaming: bool = false;
        match &self.modal {
            Modal::RenameVault { index, new_name } => {
                renaming = true;
                self.vault_registry.rename(*index, new_name);
            },
            _ => {},
        }
        if renaming {
            self.push_toast("Vault renamed.".to_string(), ToastKind::Success, now);
            self.close_modal();
        }
        renaming
    }

    /// The record that the dialog is to delete, if its name was typed.
    pub fn confirmed_record(&self) -> (res: Option<usize>)
        ensures
            res == self@.record_to_delete(),
    {
        match &self.modal {
            Modal::DeleteVaultRecord { index, confirmation } => {
                let typed: String = trim(confirmation.as_str());
                let name: String = if *index < self.vault_registry.vaults.len() {
                    proof {
                        assert(self@.vault_registry.vaults[*index as int]
                            == self.vault_registry.vaults@[*index as int]@);
                    }
                    self.vault_registry.vaults[*index].name.clone()
                } else {
                    String::new()
                };
                proof {
                    assert(self@.vault_registry.vaults.len()
                        == self.vault_registry.vaults@.len());
                    assert(name@ =~= self@.record_name(*index as int));
                }
                if typed == name {
                    Some(*index)
                } else {
                    None
                }
            },
            _ => None,
        }
    }

    /// Deletes the record that the dialog is to delete, once its file is removed;
    /// says whether the register is to be saved.
    pub fn confirm_delete_record(&mut self, file_exists: bool, now: u64) -> (save: bool)
        requires
            old(self)@.record_deletable(),
        ensures
            final(self)@ == old(self)@.record_deleted(file_exists, now),
            save == (old(self)@.record_to_delete() is Some),
    {
        match self.confirmed_record() {
            Some(index) => {
                proof {
                    assert(self@.vault_registry.vaults.len()
                        == self.vault_registry.vaults@.len());
                    assert(self@.vault_registry.vaults[index as int]
                        == self.vault_registry.vaults@[index as int]@);
                }
                if self.vault_registry.vaults[index].path == self.vault_path {
                    self.lock_vault(file_exists, now);
                }
                self.vault_registry.remove_record(index);
                self.push_toast("Vault deleted.".to_string(), ToastKind::Info, now);
                self.close_modal();
                true
            },
            None => false,
        }
    }

    /// Switches to the known vault at `index`; says whether there is one, so that
    /// the register is to be saved.
    pub fn switch_vault(
        &mut self,
        index: usize,
        file_exists: bool,
        other_exists: bool,
        now: u64,
    ) -> (save: bool)
        ensures
            final(self)@ == old(self)@.switched(index as int, file_exists, other_exists, now),
            save == (index < old(self)@.vault_registry.vaults.len()),
    {
        proof {
            assert(self@.vault_registry.vaults.len() == self.vault_registry.vaults@.len());
        }
        if index < self.vault_registry.vaults.len() {
            proof {
                assert(self@.vault_registry.vaults[index as int]
                    == self.vault_registry.vaults@[index as int]@);
            }
            let path: String = self.vault_registry.vaults[index].path.clone();
            self.lock_vault(file_exists, now);
            self.vault_path = path;
            self.vault_registry.last_used_index = Some(index);
            self.state = if other_exists {
                AppState::Locked
            } else {
                AppState::NoVault
            };
            self.view_opened = Some(now);
            true
        } else {
            false
        }
    }

    /// Whether the record at `index` is that of the open vault.
    pub fn is_current_record(&self, index: usize) -> (res: bool)
        ensures
            res == (index < self@.vault_registry.vaults.len()
                && self@.vault_registry.vaults[index as int].path == self@.vault_path),
    {
        proof {
            assert(self@.vault_registry.vaults.len() == self.vault_registry.vaults@.len());
        }
        if index < self.vault_registry.vaults.len() {
            proof {
                assert(self@.vault_registry.vaults[index as int]
                    == self.vault_registry.vaults@[index as int]@);
            }
            self.vault_registry.vaults[index].path == self.vault_path
        } else {
            false
        }
    }
}

/// Switching leaves nothing of the old vault open, and the other vault is the one
/// opened at the next start.
pub proof fn law_switch_locks_and_remembers(
    s: GuiView,
    index: int,
    file_exists: bool,
    other_exists: bool,
    now: u64,
    default_path: Seq<char>,
)
    requires
        0 <= index < s.vault_registry.vaults.len(),
        s.vault_registry.vaults.len() <= usize::MAX,
    ensures
        ({
            let r = s.switched(index, file_exists, other_exists, now);
            &&& r.holds_no_vault()
            &&& r.vault_path == s.vault_registry.vaults[index].path
            &&& r.vault_registry.startup_path(default_path) == r.vault_path
            &&& r.vault_registry.vaults == s.vault_registry.vaults
        }),
{
}

/// Deleting the record of the open vault leaves nothing of it open; deleting
/// another leaves the open vault as it is.
pub proof fn law_record_delete_locks_current(s: GuiView, file_exists: bool, now: u64)
    requires
        s.record_to_delete() is Some,
        s.record_deletable(),
    ensures
        ({
            let index = s.record_to_delete().unwrap() as int;
            let r = s.record_deleted(file_exists, now);
            &&& r.vault_registry == s.vault_registry.without_record(index)
            &&& s.vault_registry.vaults[index].path == s.vault_path ==> r.holds_no_vault()
            &&& s.vault_registry.vaults[index].path != s.vault_path ==> r.vault == s.vault
                && r.state == s.state && r.master_password == s.master_password
        }),
{
}

// ---------------------------------------------------------------------------
// Importing and exporting
// ---------------------------------------------------------------------------

/// What came of an export.
pub enum ExportOutcome {
    EncryptedCopied,
    PlaintextCopied,
    /// The encrypted file could not be turned into JSON.
    SerializeFailed(String),
    EncryptFailed(VaultError),
    /// There is no clipboard to be had.
    NoClipboard,
}

impl GuiView {
    /// The state after an import whose text could not be read.
    pub open spec fn import_failed(self, e: ErrorView, now: u64) -> GuiView {
        self.toasted("Import failed: "@ + e.text(), ToastKind::Error, now)
    }

    /// The state after an export.
    pub open spec fn exported(self, outcome: ExportOutcome, now: u64) -> GuiView {
        match outcome {
            ExportOutcome::EncryptedCopied => self.toasted(
                "Encrypted export copied to clipboard."@,
                ToastKind::Success,
                now,
            ),
            ExportOutcome::PlaintextCopied => self.toasted(
                "Plaintext JSON copied to clipboard."@,
                ToastKind::Success,
                now,
            ),
            ExportOutcome::SerializeFailed(e) => self.toasted(
                "Serialization error: "@ + e@,
                ToastKind::Error,
                now,
            ),
            ExportOutcome::EncryptFailed(e) => self.toasted(
                "Encryption failed: "@ + e@.text(),
                ToastKind::Error,
                now,
            ),
            ExportOutcome::NoClipboard => self,
        }
    }
}

/// What is to be imported.
pub enum ImportRequest {
    /// An encrypted export, with its password.
    Encrypted(String, String),
    /// A plain export.
    Plain(String),
}

impl VaultGui {
    /// What the dialog asks to import, if it may be confirmed.
    pub fn import_request(&self) -> (res: Option<ImportRequest>)
        ensures
            match res {
                Some(ImportRequest::Encrypted(text, password)) => {
                    &&& self@.modal.confirmable()
                    &&& self@.modal matches ModalView::ImportExport {
                        active_tab,
                        import_text,
                        import_password,
                        ..
                    } && active_tab == ExchangeTab::Import && looks_encrypted(import_text)
                        && text@ == import_text && password@ == import_password
                },
                Some(ImportRequest::Plain(text)) => {
                    &&& self@.modal.confirmable()
                    &&& self@.modal matches ModalView::ImportExport { active_tab, import_text, .. }
                        && active_tab == ExchangeTab::Import && !looks_encrypted(import_text)
                        && text@ == import_text
                },
                None => !(self@.modal.confirmable() && self@.modal is ImportExport
                    && self@.modal->active_tab == ExchangeTab::Import),
            },
    {
        if !self.modal.can_confirm() {
            return None;
        }
        match &self.modal {
            Modal::ImportExport {
                active_tab: ExchangeTab::Import,
                import_text,
                import_password,
                ..
            } => if text_looks_encrypted(import_text) {
                Some(ImportRequest::Encrypted(import_text.clone(), import_password.clone()))
            } else {
                Some(ImportRequest::Plain(import_text.clone()))
            },
            _ => None,
        }
    }

    /// Adds the contents of an imported vault; returns how many items were added.
    /// The vault is then to be saved.
    pub fn import(&mut self, imported: Vault) -> (added: usize)
        requires
            imported.entries@.len() + imported.notes@.len() <= usize::MAX,
        ensures
            added == imported@.entries.len() + imported@.notes.len(),
            imports_to(old(self)@.vault, imported@, final(self)@.vault),
            final(self)@ == (GuiView { vault: final(self)@.vault, ..old(self)@ }),
    {
        import_vault(&mut self.vault, imported)
    }

    /// Takes in that a text could not be imported.
    pub fn fail_import(&mut self, e: &VaultError, now: u64)
        ensures
            final(self)@ == old(self)@.import_failed(e@, now),
    {
        self.push_toast(
            "Import failed: ".to_string().concat(e.message().as_str()),
            ToastKind::Error,
            now,
        );
    }

    /// Takes in what came of an export.
    pub fn finish_export(&mut self, outcome: &ExportOutcome, now: u64)
        ensures
            final(self)@ == old(self)@.exported(*outcome, now),
    {
        match outcome {
            ExportOutcome::EncryptedCopied => {
                self.push_toast(
                    "Encrypted export copied to clipboard.".to_string(),
                    ToastKind::Success,
                    now,
                );
            },
            ExportOutcome::PlaintextCopied => {
                self.push_toast(
                    "Plaintext JSON copied to clipboard.".to_string(),
                    ToastKind::Success,
                    now,
                );
            },
            ExportOutcome::SerializeFailed(e) => {
                self.push_toast(
                    "Serialization error: ".to_string().concat(e.as_str()),
                    ToastKind::Error,
                    now,
                );
            },
            ExportOutcome::EncryptFailed(e) => {
                self.push_toast(
                    "Encryption failed: ".to_string().concat(e.message().as_str()),
                    ToastKind::Error,
                    now,
                );
            },
            ExportOutcome::NoClipboard => {},
        }
    }
}

// ---------------------------------------------------------------------------
// Opening dialogs
// ---------------------------------------------------------------------------

impl VaultGui {
    /// Opens the dialog for a new entry.
    pub fn open_add_entry(&mut self)
        ensures
            final(self)@ == (GuiView {
                modal: add_entry_dialog(
                    Seq::empty(),
                    old(self)@.settings.default_password_length,
                ),
                ..old(self)@
            }),
    {
        self.modal.zeroize_sensitive();
        self.modal = Modal::add_entry(String::new(), self.settings.default_password_length);
        proof {
            assert(self@.modal =~= add_entry_dialog(
                Seq::empty(),
                old(self)@.settings.default_password_length,
            ));
        }
    }

    /// Opens the dialog for editing the entry at a place of the vault, if there is
    /// one.
    pub fn open_edit_entry(&mut self, place: usize)
        ensures
            final(self)@ == (if place < old(self)@.vault.entries.len() {
                GuiView {
                    modal: edit_entry_dialog(old(self)@.vault.entries[place as int]),
                    ..old(self)@
                }
            } else {
                old(self)@
            }),
    {
        proof {
            assert(self@.vault.entries.len() == self.vault.entries@.len());
        }
        if place < self.vault.entries.len() {
            proof {
                assert(self@.vault.entries[place as int] == self.vault.entries@[place as int]@);
            }
            self.modal.zeroize_sensitive();
            self.modal = Modal::edit_entry(&self.vault.entries[place]);
        }
    }

    /// Opens the history of the entry at a place of the vault, if it has any.
    pub fn open_history(&mut self, place: usize)
        ensures
            final(self)@ == (if place < old(self)@.vault.entries.len()
                && old(self)@.vault.entries[place as int].password_history.len() > 0 {
                GuiView {
                    modal: ModalView::PasswordHistory {
                        entry_id: old(self)@.vault.entries[place as int].id,
                    },
                    ..old(self)@
                }
            } else {
                old(self)@
            }),
    {
        proof {
            assert(self@.vault.entries.len() == self.vault.entries@.len());
        }
        if place < self.vault.entries.len() {
            proof {
                assert(self@.vault.entries[place as int] == self.vault.entries@[place as int]@);
                assert(history_views(self.vault.entries@[place as int].password_history@).len()
                    == self.vault.entries@[place as int].password_history@.len());
            }
            if self.vault.entries[place].password_history.len() > 0 {
                self.modal.zeroize_sensitive();
                self.modal = Modal::PasswordHistory {
                    entry_id: self.vault.entries[place].id.clone(),
                };
            }
        }
    }

    /// Opens the dialog for a new note.
    pub fn open_add_note(&mut self)
        ensures
            final(self)@ == (GuiView { modal: add_note_dialog(), ..old(self)@ }),
    {
        self.modal.zeroize_sensitive();
        self.modal = Modal::add_note();
    }

    /// Opens the dialog for editing the note at a place of the vault, if there is one.
    pub fn open_edit_note(&mut self, place: usize)
        ensures
            final(self)@ == (if place < old(self)@.vault.notes.len() {
                GuiView {
                    modal: edit_note_dialog(old(self)@.vault.notes[place as int]),
                    ..old(self)@
                }
            } else {
                old(self)@
            }),
    {
        proof {
            assert(self@.vault.notes.len() == self.vault.notes@.len());
        }
        if place < self.vault.notes.len() {
            proof {
                assert(self@.vault.notes[place as int] == self.vault.notes@[place as int]@);
            }
            self.modal.zeroize_sensitive();
            self.modal = Modal::edit_note(&self.vault.notes[place]);
        }
    }

    /// Opens the dialog for another vault.
    pub fn open_create_vault(&mut self)
        ensures
            final(self)@ == (GuiView { modal: create_vault_dialog(), ..old(self)@ }),
    {
        self.modal.zeroize_sensitive();
        self.modal = Modal::create_vault();
    }

    /// Opens the dialog for renaming the record at `index`.
    pub fn open_rename(&mut self, index: usize)
        ensures
            final(self)@ == (GuiView {
                modal: ModalView::RenameVault {
                    index,
                    new_name: old(self)@.record_name(index as int),
                },
                ..old(self)@
            }),
    {
        proof {
            assert(self@.vault_registry.vaults.len() == self.vault_registry.vaults@.len());
        }
        let new_name: String = if index < self.vault_registry.vaults.len() {
            proof {
                assert(self@.vault_registry.vaults[index as int]
                    == self.vault_registry.vaults@[index as int]@);
            }
            self.vault_registry.vaults[index].name.clone()
        } else {
            String::new()
        };
        proof {
            assert(new_name@ =~= self@.record_name(index as int));
        }
        self.modal.zeroize_sensitive();
        self.modal = Modal::RenameVault { index, new_name };
    }

    /// Opens the dialog for deleting the record at `index`.
    pub fn open_delete_record(&mut self, index: usize)
        ensures
            final(self)@ == (GuiView {
                modal: ModalView::DeleteVaultRecord { index, confirmation: Seq::empty() },
                ..old(self)@
            }),
    {
        self.modal.zeroize_sensitive();
        self.modal = Modal::DeleteVaultRecord { index, confirmation: String::new() };
        proof {
            assert(self@.modal =~= ModalView::DeleteVaultRecord {
                index,
                confirmation: Seq::empty(),
            });
        }
    }

    /// Opens the dialog for a new master password.
    pub fn open_change_password(&mut self)
        ensures
            final(self)@ == (GuiView {
                modal: ModalView::ChangePassword {
                    current: Seq::empty(),
                    replacement: Seq::empty(),
                    confirm: Seq::empty(),
                },
                ..old(self)@
            }),
    {
        self.modal.zeroize_sensitive();
        self.modal = Modal::ChangePassword {
            current: String::new(),
            replacement: String::new(),
            confirm: String::new(),
        };
        proof {
            assert(self@.modal =~= ModalView::ChangePassword {
                current: Seq::empty(),
                replacement: Seq::empty(),
                confirm: Seq::empty(),
            });
        }
    }

    /// Opens the dialog for deleting the open vault.
    pub fn open_delete_vault(&mut self)
        ensures
            final(self)@ == (GuiView {
                modal: ModalView::DeleteVault { confirmation: Seq::empty() },
                ..old(self)@
            }),
    {
        self.modal.zeroize_sensitive();
        self.modal = Modal::DeleteVault { confirmation: String::new() };
        proof {
            assert(self@.modal =~= ModalView::DeleteVault { confirmation: Seq::empty() });
        }
    }

    /// Opens the dialog for import and export, with the plain export in it.
    pub fn open_exchange(&mut self, preview: String)
        ensures
            final(self)@ == (GuiView { modal: exchange_dialog(preview@), ..old(self)@ }),
    {
        self.modal.zeroize_sensitive();
        self.modal = Modal::exchange(preview);
    }

    /// Puts the warning of the first start away for good.
    pub fn dismiss_beta_warning(&mut self)
        ensures
            final(self)@ == (GuiView {
                settings: (Settings { has_seen_beta_warning: true, ..old(self)@.settings }),
                modal: ModalView::Closed,
                ..old(self)@
            }),
    {
        self.settings = Settings { has_seen_beta_warning: true, ..self.settings };
        self.close_modal();
    }
}

// ---------------------------------------------------------------------------
// Generated passwords
// ---------------------------------------------------------------------------

impl ModalView {
    /// The dialog for a new entry with another password in it.
    pub open spec fn with_password(self, password: Seq<char>) -> ModalView {
        match self {
            ModalView::AddEntry {
                service,
                username,
                password_length,
                totp_secret,
                totp_open,
                category,
                tags,
                ..
            } => ModalView::AddEntry {
                service,
                username,
                password,
                password_length,
                totp_secret,
                totp_open,
                category,
                tags,
            },
            other => other,
        }
    }
}

impl VaultGui {
    /// Puts a generated password into the dialog for a new entry.
    pub fn generate_into_dialog(&mut self)
        ensures
            final(self)@ == (GuiView { modal: final(self)@.modal, ..old(self)@ }),
            !(old(self)@.modal is AddEntry) ==> final(self)@ == old(self)@,
            old(self)@.modal is AddEntry ==> exists|password: Seq<char>|
                {
                    &&& #[trigger] drawn_from(
                        password,
                        old(self)@.modal->password_length as nat,
                        charset(
                            old(self)@.settings.gen_use_uppercase,
                            old(self)@.settings.gen_use_numbers,
                            old(self)@.settings.gen_use_symbols,
                        ),
                    )
                    &&& final(self)@.modal == old(self)@.modal.with_password(password)
                },
    {
        let upper: bool = self.settings.gen_use_uppercase;
        let nums: bool = self.settings.gen_use_numbers;
        let syms: bool = self.settings.gen_use_symbols;
        let ghost was = self@.modal;
        let ghost mut made: Seq<char> = Seq::empty();
        match &mut self.modal {
            Modal::AddEntry { password, password_length, .. } => {
                let drawn: String = generate_password(
                    *password_length as usize,
                    upper,
                    nums,
                    syms,
                );
                proof {
                    made = drawn@;
                }
                *password = drawn;
            },
            _ => {},
        }
        proof {
            if was is AddEntry {
                assert(self@.modal == was.with_password(made));
                assert(drawn_from(
                    made,
                    was->password_length as nat,
                    charset(upper, nums, syms),
                ));
            }
        }
    }

    /// Goes from the dialog for a new entry to the generator page.
    pub fn open_generator(&mut self, now: u64)
        ensures
            final(self)@ == (GuiView {
                state: AppState::GeneratorView,
                generator_page_opened: Some(now),
                ..old(self)@
            }),
    {
        self.state = AppState::GeneratorView;
        self.generator_page_opened = Some(now);
    }

    /// Opens the dialog for a new entry with a generated password in it.
    pub fn use_generated(&mut self, password: String, password_length: u32, now: u64)
        ensures
            final(self)@ == (GuiView {
                modal: add_entry_dialog(password@, password_length),
                state: AppState::Unlocked,
                view_opened: Some(now),
                ..old(self)@
            }),
    {
        self.modal.zeroize_sensitive();
        self.modal = Modal::add_entry(password, password_length);
        self.state = AppState::Unlocked;
        self.view_opened = Some(now);
    }
}

// ---------------------------------------------------------------------------
// Laws of managing
// ---------------------------------------------------------------------------

/// The master password is to change exactly if the present one was typed and the new
/// one has at least eight bytes and was repeated faithfully. A wrong present password
/// is told; nothing else changes before the vault is saved.
pub proof fn law_password_change_exact(s: GuiView, now: u64)
    ensures
        s.modal matches ModalView::ChangePassword { current, replacement, confirm } ==> {
            let fine = current.len() > 0 && encode_utf8(replacement).len() >= 8 && replacement
                == confirm;
            &&& fine && current == s.master_password ==> s.password_change_asked() == Some(
                replacement,
            ) && s.password_change_checked(now) == s
            &&& fine && current != s.master_password ==> s.password_change_asked() is None
                && s.password_change_checked(now) == s.toasted(
                "Incorrect current password."@,
                ToastKind::Error,
                now,
            )
            &&& !fine ==> s.password_change_asked() is None && s.password_change_checked(now) == s
        },
        !(s.modal is ChangePassword) ==> s.password_change_asked() is None
            && s.password_change_checked(now) == s,
{
}

/// Once the vault is saved the new master password counts and the dialog closes; a
/// save that failed is told and keeps the old one.
pub proof fn law_password_change_outcome_exact(s: GuiView, p: Seq<char>, e: ErrorView, now: u64)
    ensures
        s.password_change_asked() == Some(p) ==> s.password_change_ended(Ok(()), now) == (GuiView {
            master_password: p,
            modal: ModalView::Closed,
            ..s.succeeded("Master password changed."@, now)
        }),
        s.password_change_asked() == Some(p) ==> s.password_change_ended(Err(e), now) == s.failed(
            e,
            now,
        ),
        s.password_change_asked() is None ==> s.password_change_ended(Ok(()), now) == s
            && s.password_change_ended(Err(e), now) == s,
{
}

/// A vault that was deleted is gone from the program too; one that was not, for the
/// wrong password or for want of access, stays open, and the reason is told.
pub proof fn law_delete_outcome_exact(s: GuiView, e: String, file_exists: bool, now: u64)
    requires
        s.modal is DeleteVault,
    ensures
        s.delete_ended(DeleteOutcome::WrongPassword, file_exists, now) == s.toasted(
            "Incorrect password. Vault not deleted."@,
            ToastKind::Error,
            now,
        ),
        s.delete_ended(DeleteOutcome::RemoveFailed(e), file_exists, now) == s.failed(
            ErrorView::Io(e@),
            now,
        ),
        s.delete_ended(DeleteOutcome::Deleted, file_exists, now) == s.succeeded(
            "Vault deleted successfully."@,
            now,
        ).locked(file_exists, now),
{
}

/// A vault that was created is added at the end of the register, under its name without
/// the white space around it, and the dialog closes; the open vault stays open. A path
/// that is taken and a failure are told, and nothing else changes.
pub proof fn law_create_outcome_exact(s: GuiView, path: String, at: u64, e: VaultError, now: u64)
    ensures
        s.modal matches ModalView::CreateVault { name, .. } ==> {
            let r = s.create_ended(CreateOutcome::Created(path, at), now);
            &&& r.vault_registry.vaults.drop_last() == s.vault_registry.vaults
            &&& r.vault_registry.vaults.len() == s.vault_registry.vaults.len() + 1
            &&& r.vault_registry.vaults.last().name == trimmed(name)
            &&& r.vault_registry.vaults.last().path == path@
            &&& r.vault_registry.vaults.last().last_opened == at
            &&& r.vault_registry.last_used_index == s.vault_registry.last_used_index
            &&& r.modal is Closed
            &&& r == (GuiView {
                vault_registry: r.vault_registry,
                modal: r.modal,
                ..s.toasted("Vault '"@ + trimmed(name) + "' created!"@, ToastKind::Success, now)
            })
            &&& s.create_ended(CreateOutcome::PathTaken, now) == s.toasted(
                "A file already exists at that path."@,
                ToastKind::Error,
                now,
            )
            &&& s.create_ended(CreateOutcome::Failed(e), now) == s.toasted(
                "Failed: "@ + e@.text(),
                ToastKind::Error,
                now,
            )
        },
{
    if s.modal is CreateVault {
        let r = s.create_ended(CreateOutcome::Created(path, at), now);
        assert(r.vault_registry.vaults.drop_last() =~= s.vault_registry.vaults);
    }
}

/// A rename sets the name of that record and closes the dialog; an empty name does
/// nothing.
pub proof fn law_rename_confirmed_exact(s: GuiView, now: u64)
    ensures
        s.modal matches ModalView::RenameVault { index, new_name } ==> {
            let r = s.rename_confirmed(now);
            &&& new_name.len() == 0 ==> r == s
            &&& new_name.len() > 0 ==> r == (GuiView {
                vault_registry: s.vault_registry.renamed(index as int, new_name),
                modal: ModalView::Closed,
                ..s.toasted("Vault renamed."@, ToastKind::Success, now)
            })
        },
        !(s.modal is RenameVault) ==> s.rename_confirmed(now) == s,
{
}

/// A known vault is deleted exactly if its name was typed, white space around it aside.
pub proof fn law_record_confirmed_exact(s: GuiView)
    ensures
        s.modal matches ModalView::DeleteVaultRecord { index, confirmation } ==> {
            &&& index < s.vault_registry.vaults.len() ==> (s.record_to_delete() == Some(index)
                <==> trimmed(confirmation) == s.vault_registry.vaults[index as int].name)
            &&& s.record_to_delete() is Some ==> s.record_to_delete() == Some(index)
        },
        !(s.modal is DeleteVaultRecord) ==> s.record_to_delete() is None,
{
}

/// Deleting a known vault takes out its record and closes the dialog; if it is the open
/// one it is locked first, and otherwise the open vault stays as it is.
pub proof fn law_record_deleted_exact(s: GuiView, file_exists: bool, now: u64, index: usize)
    requires
        s.record_to_delete() == Some(index),
        index < s.vault_registry.vaults.len(),
    ensures
        ({
            let r = s.record_deleted(file_exists, now);
            let open = s.vault_registry.vaults[index as int].path == s.vault_path;
            &&& r.vault_registry == s.vault_registry.without_record(index as int)
            &&& r.modal is Closed
            &&& r.toasts.last().message == "Vault deleted."@
            &&& open ==> r.vault.entries.len() == 0 && r.vault.notes.len() == 0
                && r.master_password.len() == 0 && r.state == (if file_exists {
                AppState::Locked
            } else {
                AppState::NoVault
            })
            &&& !open ==> r == (GuiView {
                vault_registry: r.vault_registry,
                modal: r.modal,
                ..s.toasted("Vault deleted."@, ToastKind::Info, now)
            })
        }),
{
}

/// Switching locks the open vault, takes the path of the other one, remembers it as the
/// last used, and waits for its password, or for it to be created; there is nothing to
/// switch to where there is no record.
pub proof fn law_switch_exact(
    s: GuiView,
    index: int,
    file_exists: bool,
    other_exists: bool,
    now: u64,
)
    ensures
        ({
            let r = s.switched(index, file_exists, other_exists, now);
            &&& !(0 <= index < s.vault_registry.vaults.len()) ==> r == s
            &&& 0 <= index < s.vault_registry.vaults.len() ==> {
                &&& r.vault_path == s.vault_registry.vaults[index].path
                &&& r.vault_registry.vaults == s.vault_registry.vaults
                &&& r.vault_registry.last_used_index == Some(index as usize)
                &&& r.state == (if other_exists {
                    AppState::Locked
                } else {
                    AppState::NoVault
                })
                &&& r.vault.entries.len() == 0 && r.vault.notes.len() == 0
                &&& r.master_password.len() == 0 && r.master_password_confirm.len() == 0
                &&& r.modal is Closed && !r.unlock_pending && r.settings == s.settings
                &&& r.clipboard_clear_time == s.clipboard_clear_time
            }
        }),
{
}

/// What came of an export is told in its own words, and that there is no clipboard is
/// not told at all; an import that failed is told with its reason. Nothing else changes.
pub proof fn law_exchange_told_exact(s: GuiView, text: String, e: VaultError, v: ErrorView, now: u64)
    ensures
        s.exported(ExportOutcome::EncryptedCopied, now) == s.toasted(
            "Encrypted export copied to clipboard."@,
            ToastKind::Success,
            now,
        ),
        s.exported(ExportOutcome::PlaintextCopied, now) == s.toasted(
            "Plaintext JSON copied to clipboard."@,
            ToastKind::Success,
            now,
        ),
        s.exported(ExportOutcome::SerializeFailed(text), now) == s.toasted(
            "Serialization error: "@ + text@,
            ToastKind::Error,
            now,
        ),
        s.exported(ExportOutcome::EncryptFailed(e), now) == s.toasted(
            "Encryption failed: "@ + e@.text(),
            ToastKind::Error,
            now,
        ),
        s.exported(ExportOutcome::NoClipboard, now) == s,
        s.import_failed(v, now) == s.toasted(
            "Import failed: "@ + v.text(),
            ToastKind::Error,
            now,
        ),
{
}

/// A generated password goes into the password of the dialog for a new entry and into
/// nothing else.
pub proof fn law_generated_password_lands(m: ModalView, p: Seq<char>)
    ensures
        m matches ModalView::AddEntry {
            service,
            username,
            password_length,
            totp_secret,
            totp_open,
            category,
            tags,
            ..
        } ==> m.with_password(p) == (ModalView::AddEntry {
            service,
            username,
            password: p,
            password_length,
            totp_secret,
            totp_open,
            category,
            tags,
        }),
        !(m is AddEntry) ==> m.with_password(p) == m,
{
}

/// The name that a dialog starts from is that of the record, if there is one.
pub proof fn law_record_name_exact(s: GuiView, i: int)
    ensures
        0 <= i < s.vault_registry.vaults.len() ==> s.record_name(i)
            == s.vault_registry.vaults[i].name,
        !(0 <= i < s.vault_registry.vaults.len()) ==> s.record_name(i).len() == 0,
{
}

} // verus!

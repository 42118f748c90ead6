//! The dialogs: what each holds, when it may be confirmed, and how its secrets
//! are wiped when it closes.
use crate::crypto::wipe_text;
use crate::listing::text_or_empty;
use crate::model::{Entry, EntryView, NoteView, SecureNote, opt_view};
use crate::text::{
    blank, contains, contains_text, is_blank, join, joined, law_blank_exact, white_space,
};
use vstd::prelude::*;
use vstd::utf8::encode_utf8;

verus! {

/// The two sides of the import and export dialog.
#[derive(Clone, Copy, Debug, PartialEq, Eq, Structural)]
pub enum ExchangeTab {
    Export,
    Import,
}

/// The dialog that is open, with what was typed into it.
pub enum Modal {
    /// No dialog is open.
    Closed,
    /// The warning shown on the first start.
    BetaWarning,
    AddEntry {
        service: String,
        username: String,
        password: String,
        password_length: u32,
        totp_secret: String,
        totp_open: bool,
        category: String,
        tags: String,
    },
    EditEntry {
        original_id: String,
        service: String,
        username: String,
        password: String,
        totp_secret: String,
        totp_open: bool,
        category: String,
        tags: String,
    },
    ChangePassword { current: String, replacement: String, confirm: String },
    DeleteVault { confirmation: String },
    CreateVault { name: String, path_input: String, password: String, confirm: String },
    RenameVault { index: usize, new_name: String },
    DeleteVaultRecord { index: usize, confirmation: String },
    AddNote { title: String, content: String, category: String, tags: String },
    EditNote {
        original_id: String,
        title: String,
        content: String,
        category: String,
        tags: String,
    },
    ImportExport {
        active_tab: ExchangeTab,
        import_text: String,
        export_preview: String,
        export_password: String,
        import_password: String,
        /// Whether the export is encrypted.
        encrypted_export: bool,
    },
    /// The former passwords of an entry.
    PasswordHistory { entry_id: String },
}

#[verifier::ext_equal]
pub enum ModalView {
    Closed,
    BetaWarning,
    AddEntry {
        service: Seq<char>,
        username: Seq<char>,
        password: Seq<char>,
        password_length: u32,
        totp_secret: Seq<char>,
        totp_open: bool,
        category: Seq<char>,
        tags: Seq<char>,
    },
    EditEntry {
        original_id: Seq<char>,
        service: Seq<char>,
        username: Seq<char>,
        password: Seq<char>,
        totp_secret: Seq<char>,
        totp_open: bool,
        category: Seq<char>,
        tags: Seq<char>,
    },
    ChangePassword { current: Seq<char>, replacement: Seq<char>, confirm: Seq<char> },
    DeleteVault { confirmation: Seq<char> },
    CreateVault {
        name: Seq<char>,
        path_input: Seq<char>,
        password: Seq<char>,
        confirm: Seq<char>,
    },
    RenameVault { index: usize, new_name: Seq<char> },
    DeleteVaultRecord { index: usize, confirmation: Seq<char> },
    AddNote { title: Seq<char>, content: Seq<char>, category: Seq<char>, tags: Seq<char> },
    EditNote {
        original_id: Seq<char>,
        title: Seq<char>,
        content: Seq<char>,
        category: Seq<char>,
        tags: Seq<char>,
    },
    ImportExport {
        active_tab: ExchangeTab,
        import_text: Seq<char>,
        export_preview: Seq<char>,
        export_password: Seq<char>,
        import_password: Seq<char>,
        encrypted_export: bool,
    },
    PasswordHistory { entry_id: Seq<char> },
}

impl View for Modal {
    type V = ModalView;

    open spec fn view(&self) -> ModalView {
        match self {
            Modal::Closed => ModalView::Closed,
            Modal::BetaWarning => ModalView::BetaWarning,
            Modal::AddEntry {
                service,
                username,
                password,
                password_length,
                totp_secret,
                totp_open,
                category,
                tags,
            } => ModalView::AddEntry {
                service: service@,
                username: username@,
                password: password@,
                password_length: *password_length,
                totp_secret: totp_secret@,
                totp_open: *totp_open,
                category: category@,
                tags: tags@,
            },
            Modal::EditEntry {
                original_id,
                service,
                username,
                password,
                totp_secret,
                totp_open,
                category,
                tags,
            } => ModalView::EditEntry {
                original_id: original_id@,
                service: service@,
                username: username@,
                password: password@,
                totp_secret: totp_secret@,
                totp_open: *totp_open,
                category: category@,
                tags: tags@,
            },
            Modal::ChangePassword { current, replacement, confirm } => ModalView::ChangePassword {
                current: current@,
                replacement: replacement@,
                confirm: confirm@,
            },
            Modal::DeleteVault { confirmation } => ModalView::DeleteVault {
                confirmation: confirmation@,
            },
            Modal::CreateVault { name, path_input, password, confirm } => ModalView::CreateVault {
                name: name@,
                path_input: path_input@,
                password: password@,
                confirm: confirm@,
            },
            Modal::RenameVault { index, new_name } => ModalView::RenameVault {
                index: *index,
                new_name: new_name@,
            },
            Modal::DeleteVaultRecord { index, confirmation } => ModalView::DeleteVaultRecord {
                index: *index,
                confirmation: confirmation@,
            },
            Modal::AddNote { title, content, category, tags } => ModalView::AddNote {
                title: title@,
                content: content@,
                category: category@,
                tags: tags@,
            },
            Modal::EditNote { original_id, title, content, category, tags } => ModalView::EditNote {
                original_id: original_id@,
                title: title@,
                content: content@,
                category: category@,
                tags: tags@,
            },
            Modal::ImportExport {
                active_tab,
                import_text,
                export_preview,
                export_password,
                import_password,
                encrypted_export,
            } => ModalView::ImportExport {
                active_tab: *active_tab,
                import_text: import_text@,
                export_preview: export_preview@,
                export_password: export_password@,
                import_password: import_password@,
                encrypted_export: *encrypted_export,
            },
            Modal::PasswordHistory { entry_id } => ModalView::PasswordHistory {
                entry_id: entry_id@,
            },
        }
    }
}

// ---------------------------------------------------------------------------
// Wiping
// ---------------------------------------------------------------------------

impl ModalView {
    /// The dialog with the secrets in it wiped and everything else kept.
    pub open spec fn wiped(self) -> ModalView {
        let none = Seq::<char>::empty();
        match self {
            ModalView::AddEntry {
                service,
                username,
                password_length,
                totp_open,
                category,
                tags,
                ..
            } => ModalView::AddEntry {
                service,
                username,
                password: none,
                password_length,
                totp_secret: none,
                totp_open,
                category,
                tags,
            },
            ModalView::EditEntry {
                original_id,
                service,
                username,
                totp_open,
                category,
                tags,
                ..
            } => ModalView::EditEntry {
                original_id,
                service,
                username,
                password: none,
                totp_secret: none,
                totp_open,
                category,
                tags,
            },
            ModalView::ChangePassword { .. } => ModalView::ChangePassword {
                current: none,
                replacement: none,
                confirm: none,
            },
            ModalView::DeleteVault { .. } => ModalView::DeleteVault { confirmation: none },
            ModalView::CreateVault { name, path_input, .. } => ModalView::CreateVault {
                name,
                path_input,
                password: none,
                confirm: none,
            },
            ModalView::DeleteVaultRecord { index, .. } => ModalView::DeleteVaultRecord {
                index,
                confirmation: none,
            },
            ModalView::AddNote { title, category, tags, .. } => ModalView::AddNote {
                title,
                content: none,
                category,
                tags,
            },
            ModalView::EditNote { original_id, title, category, tags, .. } => ModalView::EditNote {
                original_id,
                title,
                content: none,
                category,
                tags,
            },
            ModalView::ImportExport { active_tab, encrypted_export, .. } => {
                ModalView::ImportExport {
                    active_tab,
                    import_text: none,
                    export_preview: none,
                    export_password: none,
                    import_password: none,
                    encrypted_export,
                }
            },
            other => other,
        }
    }

    /// No field of the dialog that can hold a secret holds anything: passwords and
    /// one-time-code secrets, the content of a note, and the texts of an import and
    /// an export, in which whole vaults stand.
    pub open spec fn holds_no_secret(self) -> bool {
        match self {
            ModalView::AddEntry { password, totp_secret, .. } => password.len() == 0
                && totp_secret.len() == 0,
            ModalView::EditEntry { password, totp_secret, .. } => password.len() == 0
                && totp_secret.len() == 0,
            ModalView::ChangePassword { current, replacement, confirm } => current.len() == 0
                && replacement.len() == 0 && confirm.len() == 0,
            ModalView::DeleteVault { confirmation } => confirmation.len() == 0,
            ModalView::CreateVault { password, confirm, .. } => password.len() == 0
                && confirm.len() == 0,
            ModalView::DeleteVaultRecord { confirmation, .. } => confirmation.len() == 0,
            ModalView::AddNote { content, .. } => content.len() == 0,
            ModalView::EditNote { content, .. } => content.len() == 0,
            ModalView::ImportExport {
                import_text,
                export_preview,
                export_password,
                import_password,
                ..
            } => import_text.len() == 0 && export_preview.len() == 0 && export_password.len() == 0
                && import_password.len() == 0,
            ModalView::Closed
            | ModalView::BetaWarning
            | ModalView::RenameVault { .. }
            | ModalView::PasswordHistory { .. } => true,
        }
    }
}

/// Wiping a dialog leaves no secret in it, and wiping it again changes nothing.
pub proof fn law_wiped_dialog_holds_no_secret(m: ModalView)
    ensures
        m.wiped().holds_no_secret(),
        m.wiped().wiped() == m.wiped(),
{
}

impl Modal {
    /// Wipes what the dialog holds of passwords, secrets, notes and exports, before it
    /// is dropped.
    pub fn zeroize_sensitive(&mut self)
        ensures
            final(self)@ == old(self)@.wiped(),
    {
        match self {
            Modal::AddEntry { password, totp_secret, .. } => {
                wipe_text(password);
                wipe_text(totp_secret);
            },
            Modal::EditEntry { password, totp_secret, .. } => {
                wipe_text(password);
                wipe_text(totp_secret);
            },
            Modal::ChangePassword { current, replacement, confirm } => {
                wipe_text(current);
                wipe_text(replacement);
                wipe_text(confirm);
            },
            Modal::DeleteVault { confirmation } => {
                wipe_text(confirmation);
            },
            Modal::CreateVault { password, confirm, .. } => {
                wipe_text(password);
                wipe_text(confirm);
            },
            Modal::DeleteVaultRecord { confirmation, .. } => {
                wipe_text(confirmation);
            },
            Modal::AddNote { content, .. } => {
                wipe_text(content);
            },
            Modal::EditNote { content, .. } => {
                wipe_text(content);
            },
            Modal::ImportExport {
                import_text,
                export_preview,
                export_password,
                import_password,
                ..
            } => {
                wipe_text(import_text);
                wipe_text(export_preview);
                wipe_text(export_password);
                wipe_text(import_password);
            },
            _ => {},
        }
    }
}

// ---------------------------------------------------------------------------
// Confirming
// ---------------------------------------------------------------------------

/// The fewest bytes a master password may have.
pub const MIN_PASSWORD_BYTES: usize = 8;

/// A new master password and its repetition may be used.
pub open spec fn acceptable_password(password: Seq<char>, confirm: Seq<char>) -> bool {
    encode_utf8(password).len() >= MIN_PASSWORD_BYTES && password == confirm
}

/// Whether a new master password and its repetition may be used.
pub fn password_acceptable(password: &String, confirm: &String) -> (res: bool)
    ensures
        res == acceptable_password(password@, confirm@),
{
    password.as_str().as_bytes().len() >= MIN_PASSWORD_BYTES && *password == *confirm
}

/// The text has the marks of an encrypted export.
pub open spec fn looks_encrypted(s: Seq<char>) -> bool {
    contains_text(s, "\"magic\""@) && contains_text(s, "\"cipher_b64\""@)
}

/// Whether the text has the marks of an encrypted export.
pub fn text_looks_encrypted(s: &String) -> (res: bool)
    ensures
        res == looks_encrypted(s@),
{
    contains(s.as_str(), "\"magic\"") && contains(s.as_str(), "\"cipher_b64\"")
}

impl ModalView {
    /// The dialog's main button may be pressed. The dialog that deletes a record
    /// asks for the name of the vault, which it does not hold itself.
    pub open spec fn confirmable(self) -> bool {
        match self {
            ModalView::Closed => false,
            ModalView::BetaWarning => true,
            ModalView::AddEntry { service, username, .. } => service.len() > 0 && username.len()
                > 0,
            ModalView::EditEntry { .. } => true,
            ModalView::ChangePassword { current, replacement, confirm } => current.len() > 0
                && acceptable_password(replacement, confirm),
            ModalView::DeleteVault { confirmation } => confirmation.len() > 0,
            ModalView::CreateVault { name, password, confirm, .. } => name.len() > 0
                && acceptable_password(password, confirm),
            ModalView::RenameVault { new_name, .. } => new_name.len() > 0,
            ModalView::DeleteVaultRecord { .. } => false,
            ModalView::AddNote { title, .. } => title.len() > 0,
            ModalView::EditNote { title, .. } => title.len() > 0,
            ModalView::ImportExport {
                active_tab,
                import_text,
                export_password,
                import_password,
                encrypted_export,
                ..
            } => match active_tab {
                ExchangeTab::Export => !encrypted_export || export_password.len() > 0,
                ExchangeTab::Import => !blank(import_text) && (!looks_encrypted(import_text)
                    || import_password.len() > 0),
            },
            ModalView::PasswordHistory { .. } => true,
        }
    }
}

impl Modal {
    /// Whether the dialog's main button may be pressed.
    pub fn can_confirm(&self) -> (res: bool)
        ensures
            res == self@.confirmable(),
    {
        match self {
            Modal::Closed => false,
            Modal::BetaWarning => true,
            Modal::AddEntry { service, username, .. } => !service.as_str().is_empty()
                && !username.as_str().is_empty(),
            Modal::EditEntry { .. } => true,
            Modal::ChangePassword { current, replacement, confirm } => !current.as_str().is_empty()
                && password_acceptable(replacement, confirm),
            Modal::DeleteVault { confirmation } => !confirmation.as_str().is_empty(),
            Modal::CreateVault { name, password, confirm, .. } => !name.as_str().is_empty()
                && password_acceptable(password, confirm),
            Modal::RenameVault { new_name, .. } => !new_name.as_str().is_empty(),
            Modal::DeleteVaultRecord { .. } => false,
            Modal::AddNote { title, .. } => !title.as_str().is_empty(),
            Modal::EditNote { title, .. } => !title.as_str().is_empty(),
            Modal::ImportExport {
                active_tab,
                import_text,
                export_password,
                import_password,
                encrypted_export,
                ..
            } => match active_tab {
                ExchangeTab::Export => !*encrypted_export || !export_password.as_str().is_empty(),
                ExchangeTab::Import => !is_blank(import_text.as_str()) && (!text_looks_encrypted(
                    import_text,
                ) || !import_password.as_str().is_empty()),
            },
            Modal::PasswordHistory { .. } => true,
        }
    }
}

/// What a dialog that asks for a new password remarks on it.
#[derive(Clone, Copy, Debug, PartialEq, Eq, Structural)]
pub enum FormWarning {
    Fine,
    TooShort,
    Mismatch,
}

/// The remark on a new password and its repetition.
pub open spec fn warning_for(password: Seq<char>, confirm: Seq<char>) -> FormWarning {
    if password.len() > 0 && encode_utf8(password).len() < MIN_PASSWORD_BYTES {
        FormWarning::TooShort
    } else if password.len() > 0 && confirm.len() > 0 && password != confirm {
        FormWarning::Mismatch
    } else {
        FormWarning::Fine
    }
}

/// The remark on a new password and its repetition.
pub fn form_warning(password: &String, confirm: &String) -> (res: FormWarning)
    ensures
        res == warning_for(password@, confirm@),
{
    let given: bool = !password.as_str().is_empty();
    if given && password.as_str().as_bytes().len() < MIN_PASSWORD_BYTES {
        FormWarning::TooShort
    } else if given && !confirm.as_str().is_empty() && *password != *confirm {
        FormWarning::Mismatch
    } else {
        FormWarning::Fine
    }
}

/// A password that may be used draws no remark.
pub proof fn law_acceptable_draws_no_warning(password: Seq<char>, confirm: Seq<char>)
    requires
        acceptable_password(password, confirm),
    ensures
        warning_for(password, confirm) == FormWarning::Fine,
{
}

// ---------------------------------------------------------------------------
// Opening
// ---------------------------------------------------------------------------

/// The dialog for a new entry, with a password already in it.
pub open spec fn add_entry_dialog(password: Seq<char>, password_length: u32) -> ModalView {
    let none = Seq::<char>::empty();
    ModalView::AddEntry {
        service: none,
        username: none,
        password,
        password_length,
        totp_secret: none,
        totp_open: false,
        category: none,
        tags: none,
    }
}

/// The dialog for editing an entry.
pub open spec fn edit_entry_dialog(e: EntryView) -> ModalView {
    ModalView::EditEntry {
        original_id: e.id,
        service: e.service,
        username: e.username,
        password: e.password,
        totp_secret: text_or_empty(e.totp_secret),
        totp_open: e.totp_secret is Some,
        category: text_or_empty(e.category),
        tags: joined(e.tags, ", "@),
    }
}

/// The dialog for a new note.
pub open spec fn add_note_dialog() -> ModalView {
    let none = Seq::<char>::empty();
    ModalView::AddNote { title: none, content: none, category: none, tags: none }
}

/// The dialog for editing a note.
pub open spec fn edit_note_dialog(n: NoteView) -> ModalView {
    ModalView::EditNote {
        original_id: n.id,
        title: n.title,
        content: n.content,
        category: text_or_empty(n.category),
        tags: joined(n.tags, ", "@),
    }
}

/// The dialog for a new vault.
pub open spec fn create_vault_dialog() -> ModalView {
    let none = Seq::<char>::empty();
    ModalView::CreateVault { name: none, path_input: none, password: none, confirm: none }
}

/// The dialog for import and export, with the plain export in it.
pub open spec fn exchange_dialog(preview: Seq<char>) -> ModalView {
    let none = Seq::<char>::empty();
    ModalView::ImportExport {
        active_tab: ExchangeTab::Export,
        import_text: none,
        export_preview: preview,
        export_password: none,
        import_password: none,
        encrypted_export: true,
    }
}

fn copy_or_empty(o: &Option<String>) -> (res: String)
    ensures
        res@ == text_or_empty(opt_view(*o)),
{
    match o {
        Some(s) => s.clone(),
        None => String::new(),
    }
}

impl Modal {
    /// The dialog for a new entry, with a password already in it.
    pub fn add_entry(password: String, password_length: u32) -> (res: Modal)
        ensures
            res@ == add_entry_dialog(password@, password_length),
    {
        Modal::AddEntry {
            service: String::new(),
            username: String::new(),
            password,
            password_length,
            totp_secret: String::new(),
            totp_open: false,
            category: String::new(),
            tags: String::new(),
        }
    }

    /// The dialog for editing an entry.
    pub fn edit_entry(entry: &Entry) -> (res: Modal)
        ensures
            res@ == edit_entry_dialog(entry@),
    {
        Modal::EditEntry {
            original_id: entry.id.clone(),
            service: entry.service.clone(),
            username: entry.username.clone(),
            password: entry.password.clone(),
            totp_secret: copy_or_empty(&entry.totp_secret),
            totp_open: entry.totp_secret.is_some(),
            category: copy_or_empty(&entry.category),
            tags: join(&entry.tags, ", "),
        }
    }

    /// The dialog for a new note.
    pub fn add_note() -> (res: Modal)
        ensures
            res@ == add_note_dialog(),
    {
        Modal::AddNote {
            title: String::new(),
            content: String::new(),
            category: String::new(),
            tags: String::new(),
        }
    }

    /// The dialog for editing a note.
    pub fn edit_note(note: &SecureNote) -> (res: Modal)
        ensures
            res@ == edit_note_dialog(note@),
    {
        Modal::EditNote {
            original_id: note.id.clone(),
            title: note.title.clone(),
            content: note.content.clone(),
            category: copy_or_empty(&note.category),
            tags: join(&note.tags, ", "),
        }
    }

    /// The dialog for a new vault.
    pub fn create_vault() -> (res: Modal)
        ensures
            res@ == create_vault_dialog(),
    {
        Modal::CreateVault {
            name: String::new(),
            path_input: String::new(),
            password: String::new(),
            confirm: String::new(),
        }
    }

    /// The dialog for import and export, with the plain export in it.
    pub fn exchange(preview: String) -> (res: Modal)
        ensures
            res@ == exchange_dialog(preview@),
    {
        Modal::ImportExport {
            active_tab: ExchangeTab::Export,
            import_text: String::new(),
            export_preview: preview,
            export_password: String::new(),
            import_password: String::new(),
            encrypted_export: true,
        }
    }
}

// ---------------------------------------------------------------------------
// Laws of the dialogs
// ---------------------------------------------------------------------------

/// A new master password may be used exactly if it has at least eight bytes and was
/// repeated faithfully.
pub proof fn law_acceptable_exact(password: Seq<char>, confirm: Seq<char>)
    ensures
        acceptable_password(password, confirm) <==> encode_utf8(password).len() >= 8 && password
            == confirm,
{
}

/// The remark on a new password: under eight bytes it is too short; otherwise a
/// repetition that was begun and differs is told; an empty password draws none.
pub proof fn law_warning_exact(password: Seq<char>, confirm: Seq<char>)
    ensures
        ({
            let n = encode_utf8(password).len();
            let w = warning_for(password, confirm);
            &&& w is TooShort <==> password.len() > 0 && n < 8
            &&& w is Mismatch <==> password.len() > 0 && n >= 8 && confirm.len() > 0 && password
                != confirm
        }),
{
}

/// A text is taken for an encrypted export exactly if both names of its parts stand in
/// it, in quotes.
pub proof fn law_encrypted_text_exact(s: Seq<char>)
    ensures
        looks_encrypted(s) <==> contains_text(s, "\"magic\""@) && contains_text(
            s,
            "\"cipher_b64\""@,
        ),
{
}

/// A form may be confirmed as soon as what it cannot do without is there.
pub proof fn law_confirmable_exact(m: ModalView)
    ensures
        m matches ModalView::AddEntry { service, username, .. } ==> (m.confirmable()
            <==> service.len() > 0 && username.len() > 0),
        m is EditEntry ==> m.confirmable(),
        m matches ModalView::ChangePassword { current, replacement, confirm } ==> (m.confirmable()
            <==> current.len() > 0 && encode_utf8(replacement).len() >= 8 && replacement
            == confirm),
        m matches ModalView::DeleteVault { confirmation } ==> (m.confirmable()
            <==> confirmation.len() > 0),
        m matches ModalView::CreateVault { name, password, confirm, .. } ==> (m.confirmable()
            <==> name.len() > 0 && encode_utf8(password).len() >= 8 && password == confirm),
        m matches ModalView::RenameVault { new_name, .. } ==> (m.confirmable() <==> new_name.len()
            > 0),
        m matches ModalView::AddNote { title, .. } ==> (m.confirmable() <==> title.len() > 0),
        m matches ModalView::EditNote { title, .. } ==> (m.confirmable() <==> title.len() > 0),
{
}

/// An encrypted export needs a password; an import needs a text that is not blank, and
/// a password if the text is an encrypted export.
pub proof fn law_exchange_confirmable_exact(m: ModalView)
    requires
        m is ImportExport,
    ensures
        m->active_tab == ExchangeTab::Export ==> (m.confirmable() <==> !m->encrypted_export
            || m->export_password.len() > 0),
        m->active_tab == ExchangeTab::Import ==> (m.confirmable() <==> (exists|i: int|
            0 <= i < m->import_text.len() && !white_space(#[trigger] m->import_text[i])) && (!(
        contains_text(m->import_text, "\"magic\""@) && contains_text(
            m->import_text,
            "\"cipher_b64\""@,
        )) || m->import_password.len() > 0)),
{
    law_blank_exact(m->import_text);
}

/// Wiping empties what is secret in a dialog and nothing else: it stays the same
/// dialog, with its other fields as they were.
pub proof fn law_wiping_a_dialog_exact(m: ModalView)
    ensures
        m matches ModalView::AddEntry {
            service,
            username,
            password_length,
            totp_open,
            category,
            tags,
            ..
        } ==> m.wiped() == (ModalView::AddEntry {
            service,
            username,
            password: Seq::empty(),
            password_length,
            totp_secret: Seq::empty(),
            totp_open,
            category,
            tags,
        }),
        m matches ModalView::EditEntry {
            original_id,
            service,
            username,
            totp_open,
            category,
            tags,
            ..
        } ==> m.wiped() == (ModalView::EditEntry {
            original_id,
            service,
            username,
            password: Seq::empty(),
            totp_secret: Seq::empty(),
            totp_open,
            category,
            tags,
        }),
        m is ChangePassword ==> m.wiped() == (ModalView::ChangePassword {
            current: Seq::empty(),
            replacement: Seq::empty(),
            confirm: Seq::empty(),
        }),
        m is DeleteVault ==> m.wiped() == (ModalView::DeleteVault { confirmation: Seq::empty() }),
        m matches ModalView::CreateVault { name, path_input, .. } ==> m.wiped() == (
        ModalView::CreateVault {
            name,
            path_input,
            password: Seq::empty(),
            confirm: Seq::empty(),
        }),
        m matches ModalView::DeleteVaultRecord { index, .. } ==> m.wiped() == (
        ModalView::DeleteVaultRecord { index, confirmation: Seq::empty() }),
        m matches ModalView::AddNote { title, category, tags, .. } ==> m.wiped() == (
        ModalView::AddNote { title, content: Seq::empty(), category, tags }),
        m matches ModalView::EditNote { original_id, title, category, tags, .. } ==> m.wiped() == (
        ModalView::EditNote { original_id, title, content: Seq::empty(), category, tags }),
        m matches ModalView::ImportExport { active_tab, encrypted_export, .. } ==> m.wiped() == (
        ModalView::ImportExport {
            active_tab,
            import_text: Seq::empty(),
            export_preview: Seq::empty(),
            export_password: Seq::empty(),
            import_password: Seq::empty(),
            encrypted_export,
        }),
        m is Closed || m is BetaWarning || m is RenameVault || m is PasswordHistory ==> m.wiped()
            == m,
{
}

/// The dialog for editing shows what the entry holds, and the one for a note what the
/// note holds.
pub proof fn law_edit_dialogs_show_what_is_there(e: EntryView, n: NoteView)
    ensures
        edit_entry_dialog(e) matches ModalView::EditEntry {
            original_id,
            service,
            username,
            password,
            totp_secret,
            totp_open,
            category,
            tags,
        } && {
            &&& original_id == e.id && service == e.service && username == e.username && password
                == e.password
            &&& totp_open == (e.totp_secret is Some)
            &&& e.totp_secret matches Some(t) ==> totp_secret == t
            &&& e.totp_secret is None ==> totp_secret.len() == 0
            &&& e.category matches Some(c) ==> category == c
            &&& e.category is None ==> category.len() == 0
            &&& tags == joined(e.tags, ", "@)
        },
        edit_note_dialog(n) matches ModalView::EditNote {
            original_id,
            title,
            content,
            category,
            tags,
        } && {
            &&& original_id == n.id && title == n.title && content == n.content
            &&& n.category matches Some(c) ==> category == c
            &&& n.category is None ==> category.len() == 0
            &&& tags == joined(n.tags, ", "@)
        },
{
}

/// The other dialogs open empty: the one for a new entry with the password it is given
/// and its length, the one for import and export on the encrypted export, with the
/// plain one to look at.
pub proof fn law_dialogs_open_empty(password: Seq<char>, length: u32, preview: Seq<char>)
    ensures
        add_entry_dialog(password, length) matches ModalView::AddEntry {
            service,
            username,
            password: p,
            password_length,
            totp_secret,
            totp_open,
            category,
            tags,
        } && p == password && password_length == length && !totp_open && service.len() == 0
            && username.len() == 0 && totp_secret.len() == 0 && category.len() == 0 && tags.len()
            == 0,
        add_note_dialog() matches ModalView::AddNote { title, content, category, tags }
            && title.len() == 0 && content.len() == 0 && category.len() == 0 && tags.len() == 0,
        create_vault_dialog() matches ModalView::CreateVault {
            name,
            path_input,
            password: p,
            confirm,
        } && name.len() == 0 && path_input.len() == 0 && p.len() == 0 && confirm.len() == 0,
        exchange_dialog(preview) matches ModalView::ImportExport {
            active_tab,
            import_text,
            export_preview,
            export_password,
            import_password,
            encrypted_export,
        } && active_tab == ExchangeTab::Export && export_preview == preview && encrypted_export
            && import_text.len() == 0 && export_password.len() == 0 && import_password.len() == 0,
{
}

/// The view of a dialog leaves nothing out.
pub proof fn law_dialog_view_exact(m: Modal)
    ensures
        m matches Modal::AddEntry {
            service,
            username,
            password,
            password_length,
            totp_secret,
            totp_open,
            category,
            tags,
        } ==> m@ == (ModalView::AddEntry {
            service: service@,
            username: username@,
            password: password@,
            password_length,
            totp_secret: totp_secret@,
            totp_open,
            category: category@,
            tags: tags@,
        }),
        m matches Modal::EditEntry {
            original_id,
            service,
            username,
            password,
            totp_secret,
            totp_open,
            category,
            tags,
        } ==> m@ == (ModalView::EditEntry {
            original_id: original_id@,
            service: service@,
            username: username@,
            password: password@,
            totp_secret: totp_secret@,
            totp_open,
            category: category@,
            tags: tags@,
        }),
        m matches Modal::ChangePassword { current, replacement, confirm } ==> m@ == (
        ModalView::ChangePassword {
            current: current@,
            replacement: replacement@,
            confirm: confirm@,
        }),
        m matches Modal::DeleteVault { confirmation } ==> m@ == (ModalView::DeleteVault {
            confirmation: confirmation@,
        }),
        m matches Modal::CreateVault { name, path_input, password, confirm } ==> m@ == (
        ModalView::CreateVault {
            name: name@,
            path_input: path_input@,
            password: password@,
            confirm: confirm@,
        }),
        m matches Modal::AddNote { title, content, category, tags } ==> m@ == (ModalView::AddNote {
            title: title@,
            content: content@,
            category: category@,
            tags: tags@,
        }),
        m matches Modal::EditNote { original_id, title, content, category, tags } ==> m@ == (
        ModalView::EditNote {
            original_id: original_id@,
            title: title@,
            content: content@,
            category: category@,
            tags: tags@,
        }),
        m matches Modal::ImportExport {
            active_tab,
            import_text,
            export_preview,
            export_password,
            import_password,
            encrypted_export,
        } ==> m@ == (ModalView::ImportExport {
            active_tab,
            import_text: import_text@,
            export_preview: export_preview@,
            export_password: export_password@,
            import_password: import_password@,
            encrypted_export,
        }),
{
}

/// What is not there cannot be confirmed; a warning that was read can be, and so can a
/// history that was looked at.
pub proof fn law_other_dialogs_confirmable(m: ModalView)
    ensures
        m is Closed || m is DeleteVaultRecord ==> !m.confirmable(),
        m is BetaWarning || m is PasswordHistory ==> m.confirmable(),
{
}

} // verus!

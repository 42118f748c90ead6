//! The state behind the window, and what changes it: unlocking and locking, the
//! clipboard, timeouts, navigation and the update check. Each operation is given
//! the time and what the outside world answered, and is specified as a function
//! from the state before to the state after.
use crate::crypto::wipe_text;
use crate::modal::{
    Modal, ModalView, acceptable_password, law_wiped_dialog_holds_no_secret, password_acceptable,
};
use crate::model::{ErrorView, Settings, Vault, VaultError, VaultView, empty_vault, opt_view};
use crate::registry::{RegistryView, VaultRegistry};
use crate::text::{append_decimal, decimal};
use crate::toast::{
    Toast, ToastKind, ToastView, add_toast, drop_expired, law_one_toast_per_kind, law_toast_expires,
    one_per_kind, toast_added, toast_views, toasts_alive,
};
use crate::update::{StatusView, UpdateStatus};
use crate::vault::{law_wiped_holds_no_secret, wipe_vault, wiped_vault};
use vstd::prelude::*;
use vstd::utf8::encode_utf8;

verus! {

// ---------------------------------------------------------------------------
// The state
// ---------------------------------------------------------------------------

/// Which screen is shown. Times are milliseconds on the program's clock.
#[derive(Clone, Copy, Debug, PartialEq, Eq, Structural)]
pub enum AppState {
    Locked,
    /// The vault is being decrypted since this time.
    Unlocking(u64),
    Unlocked,
    NoVault,
    /// A vault is being created since this time.
    CreatingVault(u64),
    KnownBugs,
    Notes,
    SettingsView,
    GeneratorView,
    VaultManager,
}

/// Where a dragged entry would be dropped.
#[derive(Clone, Copy, Debug, PartialEq, Eq, Structural)]
pub enum DropTarget {
    /// Directly before the entry at this place of the vault.
    Before(usize),
    /// Behind the last entry.
    End,
}

/// The state behind the window. Times are milliseconds on the program's clock.
pub struct VaultGui {
    pub state: AppState,
    pub message: String,
    pub vault_path: String,
    pub vault: Vault,
    pub master_password: String,
    pub master_password_confirm: String,
    /// A vault is being decrypted or created in the background.
    pub unlock_pending: bool,
    pub modal: Modal,
    pub clipboard_clear_time: Option<u128>,
    pub settings: Settings,
    pub search_query: String,
    pub last_activity: u64,
    pub toasts: Vec<Toast>,
    pub info_page_opened: Option<u64>,
    pub view_opened: Option<u64>,
    pub drag_source: Option<usize>,
    pub drag_target: Option<DropTarget>,
    pub active_category_filter: Option<String>,
    pub active_tag_filter: Option<String>,
    pub active_note_category_filter: Option<String>,
    pub active_note_tag_filter: Option<String>,
    pub notes_page_opened: Option<u64>,
    pub settings_page_opened: Option<u64>,
    pub generator_page_opened: Option<u64>,
    pub vault_manager_opened: Option<u64>,
    pub vault_registry: VaultRegistry,
    pub update_status: UpdateStatus,
    /// An update check is under way in the background.
    pub update_check_pending: bool,
}

#[verifier::ext_equal]
pub struct GuiView {
    pub state: AppState,
    pub message: Seq<char>,
    pub vault_path: Seq<char>,
    pub vault: VaultView,
    pub master_password: Seq<char>,
    pub master_password_confirm: Seq<char>,
    pub unlock_pending: bool,
    pub modal: ModalView,
    pub clipboard_clear_time: Option<u128>,
    pub settings: Settings,
    pub search_query: Seq<char>,
    pub last_activity: u64,
    pub toasts: Seq<ToastView>,
    pub info_page_opened: Option<u64>,
    pub view_opened: Option<u64>,
    pub drag_source: Option<usize>,
    pub drag_target: Option<DropTarget>,
    pub active_category_filter: Option<Seq<char>>,
    pub active_tag_filter: Option<Seq<char>>,
    pub active_note_category_filter: Option<Seq<char>>,
    pub active_note_tag_filter: Option<Seq<char>>,
    pub notes_page_opened: Option<u64>,
    pub settings_page_opened: Option<u64>,
    pub generator_page_opened: Option<u64>,
    pub vault_manager_opened: Option<u64>,
    pub vault_registry: RegistryView,
    pub update_status: StatusView,
    pub update_check_pending: bool,
}

impl View for VaultGui {
    type V = GuiView;

    open spec fn view(&self) -> GuiView {
        GuiView {
            state: self.state,
            message: self.message@,
            vault_path: self.vault_path@,
            vault: self.vault@,
            master_password: self.master_password@,
            master_password_confirm: self.master_password_confirm@,
            unlock_pending: self.unlock_pending,
            modal: self.modal@,
            clipboard_clear_time: self.clipboard_clear_time,
            settings: self.settings,
            search_query: self.search_query@,
            last_activity: self.last_activity,
            toasts: toast_views(self.toasts@),
            info_page_opened: self.info_page_opened,
            view_opened: self.view_opened,
            drag_source: self.drag_source,
            drag_target: self.drag_target,
            active_category_filter: opt_view(self.active_category_filter),
            active_tag_filter: opt_view(self.active_tag_filter),
            active_note_category_filter: opt_view(self.active_note_category_filter),
            active_note_tag_filter: opt_view(self.active_note_tag_filter),
            notes_page_opened: self.notes_page_opened,
            settings_page_opened: self.settings_page_opened,
            generator_page_opened: self.generator_page_opened,
            vault_manager_opened: self.vault_manager_opened,
            vault_registry: self.vault_registry@,
            update_status: self.update_status@,
            update_check_pending: self.update_check_pending,
        }
    }
}

/// The screen for a vault that is not open: whether there is a file to unlock.
pub open spec fn closed_state(file_exists: bool) -> AppState {
    if file_exists {
        AppState::Locked
    } else {
        AppState::NoVault
    }
}

/// The state at startup.
pub open spec fn initial(
    vault_path: Seq<char>,
    file_exists: bool,
    settings: Settings,
    registry: RegistryView,
    now: u64,
) -> GuiView {
    let none = Seq::<char>::empty();
    GuiView {
        state: closed_state(file_exists),
        message: none,
        vault_path,
        vault: empty_vault(),
        master_password: none,
        master_password_confirm: none,
        unlock_pending: false,
        modal: if settings.has_seen_beta_warning {
            ModalView::Closed
        } else {
            ModalView::BetaWarning
        },
        clipboard_clear_time: None,
        settings,
        search_query: none,
        last_activity: now,
        toasts: Seq::empty(),
        info_page_opened: None,
        view_opened: Some(now),
        drag_source: None,
        drag_target: None,
        active_category_filter: None,
        active_tag_filter: None,
        active_note_category_filter: None,
        active_note_tag_filter: None,
        notes_page_opened: None,
        settings_page_opened: None,
        generator_page_opened: None,
        vault_manager_opened: None,
        vault_registry: registry,
        update_status: StatusView::Unknown,
        update_check_pending: false,
    }
}

impl VaultGui {
    /// The state at startup, for the vault at a path whose file may exist or not.
    pub fn new(
        vault_path: String,
        file_exists: bool,
        settings: Settings,
        registry: VaultRegistry,
        now: u64,
    ) -> (res: Self)
        ensures
            res@ == initial(vault_path@, file_exists, settings, registry@, now),
    {
        let res = VaultGui {
            state: if file_exists {
                AppState::Locked
            } else {
                AppState::NoVault
            },
            message: String::new(),
            vault_path,
            vault: Vault::default(),
            master_password: String::new(),
            master_password_confirm: String::new(),
            unlock_pending: false,
            modal: if settings.has_seen_beta_warning {
                Modal::Closed
            } else {
                Modal::BetaWarning
            },
            clipboard_clear_time: None,
            settings,
            search_query: String::new(),
            last_activity: now,
            toasts: Vec::new(),
            info_page_opened: None,
            view_opened: Some(now),
            drag_source: None,
            drag_target: None,
            active_category_filter: None,
            active_tag_filter: None,
            active_note_category_filter: None,
            active_note_tag_filter: None,
            notes_page_opened: None,
            settings_page_opened: None,
            generator_page_opened: None,
            vault_manager_opened: None,
            vault_registry: registry,
            update_status: UpdateStatus::Unknown,
            update_check_pending: false,
        };
        proof {
            assert(toast_views(res.toasts@) =~= Seq::empty());
        }
        res
    }

    /// The preferences as they are to be kept.
    pub fn to_settings(&self) -> (res: Settings)
        ensures
            res == self@.settings,
    {
        self.settings
    }
}

/// Starting with kept preferences and keeping them again changes none.
pub proof fn law_settings_round_trip(
    vault_path: Seq<char>,
    file_exists: bool,
    settings: Settings,
    registry: RegistryView,
    now: u64,
)
    ensures
        initial(vault_path, file_exists, settings, registry, now).settings == settings,
        initial(vault_path, file_exists, settings, registry, now).modal is BetaWarning
            <==> !settings.has_seen_beta_warning,
{
}

// ---------------------------------------------------------------------------
// Notices
// ---------------------------------------------------------------------------

impl GuiView {
    /// The state after a toast was shown.
    pub open spec fn toasted(self, message: Seq<char>, kind: ToastKind, now: u64) -> GuiView {
        GuiView {
            toasts: toast_added(self.toasts, ToastView { message, kind, spawned: now }),
            ..self
        }
    }

    /// The state after an error was reported.
    pub open spec fn failed(self, e: ErrorView, now: u64) -> GuiView {
        let text = "Error: "@ + e.text();
        GuiView { message: text, ..self.toasted(text, ToastKind::Error, now) }
    }

    /// The state after a success was reported.
    pub open spec fn succeeded(self, message: Seq<char>, now: u64) -> GuiView {
        GuiView { message, ..self.toasted(message, ToastKind::Success, now) }
    }
}

impl VaultGui {
    /// Shows a toast.
    pub fn push_toast(&mut self, message: String, kind: ToastKind, now: u64)
        ensures
            final(self)@ == old(self)@.toasted(message@, kind, now),
    {
        add_toast(&mut self.toasts, message, kind, now);
    }

    /// Reports an error.
    pub fn handle_error(&mut self, e: &VaultError, now: u64)
        ensures
            final(self)@ == old(self)@.failed(e@, now),
    {
        let text: String = "Error: ".to_string().concat(e.message().as_str());
        self.push_toast(text.clone(), ToastKind::Error, now);
        self.message = text;
    }

    /// Reports a success.
    pub fn handle_success(&mut self, message: &str, now: u64)
        ensures
            final(self)@ == old(self)@.succeeded(message@, now),
    {
        self.push_toast(message.to_string(), ToastKind::Success, now);
        self.message = message.to_string();
    }

    /// Drops the toasts that have been shown long enough.
    pub fn expire_toasts(&mut self, now: u64)
        ensures
            final(self)@ == (GuiView {
                toasts: toasts_alive(old(self)@.toasts, now),
                ..old(self)@
            }),
    {
        drop_expired(&mut self.toasts, now);
    }
}

/// From the start on, no two toasts of the same kind are shown at a time.
pub proof fn law_toasts_stay_one_per_kind(
    s: GuiView,
    message: Seq<char>,
    kind: ToastKind,
    now: u64,
    vault_path: Seq<char>,
    file_exists: bool,
    settings: Settings,
    registry: RegistryView,
)
    ensures
        one_per_kind(initial(vault_path, file_exists, settings, registry, now).toasts),
        one_per_kind(s.toasts) ==> one_per_kind(s.toasted(message, kind, now).toasts),
        one_per_kind(s.toasts) ==> one_per_kind(toasts_alive(s.toasts, now)),
{
    let t = ToastView { message, kind, spawned: now };
    if one_per_kind(s.toasts) {
        law_one_toast_per_kind(s.toasts, t);
        law_toast_expires(s.toasts, now, t);
    }
}

// ---------------------------------------------------------------------------
// Creating and unlocking
// ---------------------------------------------------------------------------

/// What came of decrypting or creating a vault in the background.
pub enum UnlockResult {
    Success(Vault),
    Error(String),
}

#[verifier::ext_equal]
pub enum UnlockView {
    Success(VaultView),
    Error(Seq<char>),
}

impl View for UnlockResult {
    type V = UnlockView;

    open spec fn view(&self) -> UnlockView {
        match self {
            UnlockResult::Success(v) => UnlockView::Success(v@),
            UnlockResult::Error(e) => UnlockView::Error(e@),
        }
    }
}

/// The outcome of reading and decrypting a vault, for the window.
pub fn unlock_result(outcome: Result<Vault, VaultError>) -> (res: UnlockResult)
    ensures
        res@ == (match outcome {
            Ok(v) => UnlockView::Success(v@),
            Err(e) => UnlockView::Error(e@.text()),
        }),
{
    match outcome {
        Ok(v) => UnlockResult::Success(v),
        Err(e) => UnlockResult::Error(e.message()),
    }
}

/// The outcome of writing a new, empty vault, for the window.
pub fn creation_result(outcome: Result<(), VaultError>) -> (res: UnlockResult)
    ensures
        res@ == (match outcome {
            Ok(()) => UnlockView::Success(empty_vault()),
            Err(e) => UnlockView::Error("Failed to create vault: "@ + e@.text()),
        }),
{
    match outcome {
        Ok(()) => UnlockResult::Success(Vault::default()),
        Err(e) => UnlockResult::Error(
            "Failed to create vault: ".to_string().concat(e.message().as_str()),
        ),
    }
}

impl GuiView {
    /// Why a vault cannot be created with what was typed, if it cannot.
    pub open spec fn creation_problem(self) -> Option<Seq<char>> {
        if self.master_password.len() == 0 {
            Some("Master password cannot be empty"@)
        } else if encode_utf8(self.master_password).len() < 8 {
            Some("Master password must be at least 8 characters"@)
        } else if self.master_password != self.master_password_confirm {
            Some("Passwords don't match"@)
        } else {
            None
        }
    }

    /// The state after the user asked for a new vault: it is being created, and the
    /// repeated password is wiped; or the problem is shown.
    pub open spec fn creation_started(self, now: u64) -> GuiView {
        match self.creation_problem() {
            Some(problem) => self.toasted(problem, ToastKind::Error, now),
            None => GuiView {
                state: AppState::CreatingVault(now),
                master_password_confirm: Seq::empty(),
                unlock_pending: true,
                ..self
            },
        }
    }

    /// The state after the user asked to unlock the vault: it is being decrypted,
    /// unless no password was typed.
    pub open spec fn unlock_started(self, now: u64) -> GuiView {
        if self.master_password.len() == 0 {
            self.toasted("Enter master password"@, ToastKind::Error, now)
        } else {
            GuiView { state: AppState::Unlocking(now), unlock_pending: true, ..self }
        }
    }

    /// The state after the background work has ended: the vault is open and its
    /// record is up to date, or the error is shown over the screen to try again on.
    pub open spec fn unlock_ended(
        self,
        result: UnlockView,
        file_exists: bool,
        stem: Option<Seq<char>>,
        unix_now: u64,
        now: u64,
    ) -> GuiView {
        if !self.unlock_pending {
            self
        } else {
            match result {
                UnlockView::Success(vault) => GuiView {
                    vault,
                    state: AppState::Unlocked,
                    view_opened: Some(now),
                    vault_registry: self.vault_registry.opened(self.vault_path, stem, unix_now),
                    unlock_pending: false,
                    ..self.toasted("Vault unlocked."@, ToastKind::Success, now)
                },
                UnlockView::Error(e) => GuiView {
                    state: closed_state(file_exists),
                    view_opened: Some(now),
                    unlock_pending: false,
                    ..self.toasted(e, ToastKind::Error, now)
                },
            }
        }
    }
}

impl VaultGui {
    /// Starts to create a vault; the password to encrypt it with is returned if it
    /// is to be done.
    pub fn create_new_vault(&mut self, now: u64) -> (password: Option<String>)
        ensures
            final(self)@ == old(self)@.creation_started(now),
            opt_view(password) == (if old(self)@.creation_problem() is None {
                Some(old(self)@.master_password)
            } else {
                None
            }),
    {
        if self.master_password.as_str().is_empty() {
            self.push_toast("Master password cannot be empty".to_string(), ToastKind::Error, now);
            return None;
        }
        if self.master_password.as_str().as_bytes().len() < 8 {
            self.push_toast(
                "Master password must be at least 8 characters".to_string(),
                ToastKind::Error,
                now,
            );
            return None;
        }
        if self.master_password != self.master_password_confirm {
            self.push_toast("Passwords don't match".to_string(), ToastKind::Error, now);
            return None;
        }
        self.state = AppState::CreatingVault(now);
        wipe_text(&mut self.master_password_confirm);
        self.unlock_pending = true;
        Some(self.master_password.clone())
    }

    /// Starts to unlock the vault; the password to decrypt it with is returned if
    /// it is to be done.
    pub fn unlock_vault(&mut self, now: u64) -> (password: Option<String>)
        ensures
            final(self)@ == old(self)@.unlock_started(now),
            opt_view(password) == (if old(self)@.master_password.len() > 0 {
                Some(old(self)@.master_password)
            } else {
                None
            }),
    {
        if self.master_password.as_str().is_empty() {
            self.push_toast("Enter master password".to_string(), ToastKind::Error, now);
            return None;
        }
        self.state = AppState::Unlocking(now);
        self.unlock_pending = true;
        Some(self.master_password.clone())
    }

    /// Takes in the result of the background work; says whether the vault is now
    /// open, so that the register is to be saved and the sound played.
    pub fn finish_unlock(
        &mut self,
        result: UnlockResult,
        file_exists: bool,
        stem: &Option<String>,
        unix_now: u64,
        now: u64,
    ) -> (opened: bool)
        ensures
            final(self)@ == old(self)@.unlock_ended(
                result@,
                file_exists,
                opt_view(*stem),
                unix_now,
                now,
            ),
            opened == (old(self)@.unlock_pending && result@ is Success),
    {
        if !self.unlock_pending {
            return false;
        }
        self.unlock_pending = false;
        self.view_opened = Some(now);
        match result {
            UnlockResult::Success(vault) => {
                self.vault = vault;
                self.state = AppState::Unlocked;
                self.push_toast("Vault unlocked.".to_string(), ToastKind::Success, now);
                self.vault_registry.note_opened(&self.vault_path, stem, unix_now);
                true
            },
            UnlockResult::Error(e) => {
                self.push_toast(e, ToastKind::Error, now);
                self.state = if file_exists {
                    AppState::Locked
                } else {
                    AppState::NoVault
                };
                false
            },
        }
    }
}

impl VaultGui {
    /// Whether the button that unlocks the vault may be pressed.
    pub fn can_unlock(&self) -> (res: bool)
        ensures
            res == (self@.master_password.len() > 0),
    {
        !self.master_password.as_str().is_empty()
    }

    /// Whether the button that creates a vault may be pressed.
    pub fn can_create(&self) -> (res: bool)
        ensures
            res == acceptable_password(
                self@.master_password,
                self@.master_password_confirm,
            ),
    {
        password_acceptable(&self.master_password, &self.master_password_confirm)
    }
}

/// The button that creates a vault may be pressed exactly if nothing stands in the
/// way of creating it.
pub proof fn law_create_button_exact(s: GuiView)
    ensures
        acceptable_password(s.master_password, s.master_password_confirm)
            <==> s.creation_problem() is None,
{
}

// ---------------------------------------------------------------------------
// Locking
// ---------------------------------------------------------------------------

impl GuiView {
    /// The state after the vault was locked: the passwords, the vault, the dialog,
    /// the search and the filters are gone. What was copied is still to be cleared.
    pub open spec fn locked(self, file_exists: bool, now: u64) -> GuiView {
        GuiView {
            master_password: Seq::empty(),
            master_password_confirm: Seq::empty(),
            vault: empty_vault(),
            state: closed_state(file_exists),
            view_opened: Some(now),
            unlock_pending: false,
            modal: ModalView::Closed,
            search_query: Seq::empty(),
            active_category_filter: None,
            active_tag_filter: None,
            active_note_category_filter: None,
            active_note_tag_filter: None,
            notes_page_opened: None,
            vault_manager_opened: None,
            ..self.toasted("Vault locked."@, ToastKind::Info, now)
        }
    }

    /// Nothing of a vault is left in the state.
    pub open spec fn holds_no_vault(self) -> bool {
        &&& self.vault == empty_vault()
        &&& self.master_password.len() == 0
        &&& self.master_password_confirm.len() == 0
        &&& self.modal is Closed
        &&& self.search_query.len() == 0
        &&& self.active_category_filter is None
        &&& self.active_tag_filter is None
        &&& self.active_note_category_filter is None
        &&& self.active_note_tag_filter is None
        &&& !self.unlock_pending
    }
}

impl VaultGui {
    /// Locks the vault.
    pub fn lock_vault(&mut self, file_exists: bool, now: u64)
        ensures
            final(self)@ == old(self)@.locked(file_exists, now),
    {
        wipe_text(&mut self.master_password);
        wipe_text(&mut self.master_password_confirm);
        wipe_vault(&mut self.vault);
        self.vault = Vault::default();
        self.state = if file_exists {
            AppState::Locked
        } else {
            AppState::NoVault
        };
        self.view_opened = Some(now);
        self.push_toast("Vault locked.".to_string(), ToastKind::Info, now);
        self.unlock_pending = false;
        self.modal.zeroize_sensitive();
        self.modal = Modal::Closed;
        self.search_query = String::new();
        self.active_category_filter = None;
        self.active_tag_filter = None;
        self.active_note_category_filter = None;
        self.active_note_tag_filter = None;
        self.notes_page_opened = None;
        self.vault_manager_opened = None;
    }
}

/// A locked state holds nothing of the vault and shows the screen to unlock it,
/// or to create one; preferences, register and path are as before.
pub proof fn law_locked_holds_no_vault(s: GuiView, file_exists: bool, now: u64)
    ensures
        s.locked(file_exists, now).holds_no_vault(),
        s.locked(file_exists, now).state == closed_state(file_exists),
        s.locked(file_exists, now).settings == s.settings,
        s.locked(file_exists, now).vault_registry == s.vault_registry,
        s.locked(file_exists, now).vault_path == s.vault_path,
{
}

/// A result that arrives after the vault was locked changes nothing.
pub proof fn law_late_result_ignored(
    s: GuiView,
    file_exists: bool,
    now: u64,
    result: UnlockView,
    stem: Option<Seq<char>>,
    unix_now: u64,
    later: u64,
)
    ensures
        s.locked(file_exists, now).unlock_ended(result, file_exists, stem, unix_now, later)
            == s.locked(file_exists, now),
{
}

/// A refused or failed attempt to create or unlock a vault leaves the vault and
/// the typed password alone.
pub proof fn law_refused_attempt_keeps_vault(
    s: GuiView,
    e: Seq<char>,
    file_exists: bool,
    stem: Option<Seq<char>>,
    unix_now: u64,
    now: u64,
)
    ensures
        ({
            let r = s.unlock_ended(UnlockView::Error(e), file_exists, stem, unix_now, now);
            &&& r.vault == s.vault
            &&& r.master_password == s.master_password
            &&& r.vault_registry == s.vault_registry
        }),
        s.creation_problem() is Some ==> ({
            let r = s.creation_started(now);
            &&& r.vault == s.vault
            &&& r.master_password == s.master_password
            &&& r.state == s.state
            &&& !s.unlock_pending ==> !r.unlock_pending
        }),
{
}

// ---------------------------------------------------------------------------
// The clipboard
// ---------------------------------------------------------------------------

/// What came of copying a text to the clipboard.
#[derive(Clone, Copy, Debug, PartialEq, Eq, Structural)]
pub enum CopyOutcome {
    Copied,
    /// The clipboard did not take the text.
    SetFailed,
    /// There is no clipboard to be had.
    NoAccess,
}

impl GuiView {
    /// The state after a secret was copied, or could not be: if the clipboard is to
    /// be cleared after some seconds, from now on it will be.
    pub open spec fn copied(self, outcome: CopyOutcome, now: u64) -> GuiView {
        match outcome {
            CopyOutcome::Copied => match self.settings.clipboard_timeout_secs {
                Some(secs) => GuiView {
                    clipboard_clear_time: Some((now + secs * 1000) as u128),
                    ..self.toasted(
                        "Copied. Clearing clipboard in "@ + decimal(secs as nat) + "s."@,
                        ToastKind::Success,
                        now,
                    )
                },
                None => GuiView {
                    clipboard_clear_time: None,
                    ..self.toasted("Copied to clipboard."@, ToastKind::Success, now)
                },
            },
            CopyOutcome::SetFailed => self.toasted(
                "Failed to copy to clipboard."@,
                ToastKind::Error,
                now,
            ),
            CopyOutcome::NoAccess => self.toasted(
                "Failed to access clipboard."@,
                ToastKind::Error,
                now,
            ),
        }
    }

    /// The clipboard is to be cleared.
    pub open spec fn clipboard_due(self, now: u64) -> bool {
        self.clipboard_clear_time is Some && now >= self.clipboard_clear_time.unwrap()
    }

    /// The state after the clipboard was cleared because it was due, or could not
    /// be reached.
    pub open spec fn clipboard_cleared(self, accessible: bool, now: u64) -> GuiView {
        if !self.clipboard_due(now) {
            self
        } else if accessible {
            GuiView {
                clipboard_clear_time: None,
                ..self.toasted("Clipboard cleared."@, ToastKind::Info, now)
            }
        } else {
            GuiView { clipboard_clear_time: None, ..self }
        }
    }
}

impl VaultGui {
    /// Takes in what came of copying a secret.
    pub fn finish_copy(&mut self, outcome: CopyOutcome, now: u64)
        ensures
            final(self)@ == old(self)@.copied(outcome, now),
    {
        match outcome {
            CopyOutcome::Copied => match self.settings.clipboard_timeout_secs {
                Some(secs) => {
                    let mut text: String = "Copied. Clearing clipboard in ".to_string();
                    append_decimal(&mut text, secs);
                    self.push_toast(text.concat("s."), ToastKind::Success, now);
                    self.clipboard_clear_time = Some(now as u128 + secs as u128 * 1000);
                },
                None => {
                    self.push_toast(
                        "Copied to clipboard.".to_string(),
                        ToastKind::Success,
                        now,
                    );
                    self.clipboard_clear_time = None;
                },
            },
            CopyOutcome::SetFailed => {
                self.push_toast(
                    "Failed to copy to clipboard.".to_string(),
                    ToastKind::Error,
                    now,
                );
            },
            CopyOutcome::NoAccess => {
                self.push_toast("Failed to access clipboard.".to_string(), ToastKind::Error, now);
            },
        }
    }

    /// Whether the clipboard is to be cleared.
    pub fn is_clipboard_due(&self, now: u64) -> (res: bool)
        ensures
            res == self@.clipboard_due(now),
    {
        match self.clipboard_clear_time {
            Some(t) => now as u128 >= t,
            None => false,
        }
    }

    /// Takes in that the clipboard was cleared, if that was due.
    pub fn clear_clipboard_if_needed(&mut self, accessible: bool, now: u64)
        ensures
            final(self)@ == old(self)@.clipboard_cleared(accessible, now),
    {
        if self.is_clipboard_due(now) {
            if accessible {
                self.push_toast("Clipboard cleared.".to_string(), ToastKind::Info, now);
            }
            self.clipboard_clear_time = None;
        }
    }
}

/// A copied secret is cleared once its time is over, and not a millisecond before,
/// whether or not the vault was locked in between; and it is cleared once.
pub proof fn law_clipboard_cleared_in_time(
    s: GuiView,
    secs: u64,
    now: u64,
    later: u64,
    file_exists: bool,
    locked_at: u64,
)
    requires
        s.settings.clipboard_timeout_secs == Some(secs),
    ensures
        s.copied(CopyOutcome::Copied, now).locked(file_exists, locked_at).clipboard_due(later)
            <==> later >= now + secs * 1000,
        s.copied(CopyOutcome::Copied, now).clipboard_due(later) <==> later >= now + secs * 1000,
        s.copied(CopyOutcome::Copied, now).clipboard_due(later) ==> !s.copied(
            CopyOutcome::Copied,
            now,
        ).clipboard_cleared(true, later).clipboard_due(later),
{
}

// ---------------------------------------------------------------------------
// Locking by itself
// ---------------------------------------------------------------------------

impl GuiView {
    /// The milliseconds since the user was last active.
    pub open spec fn idle(self, now: u64) -> int {
        if now >= self.last_activity {
            now - self.last_activity
        } else {
            0
        }
    }

    /// The vault has been idle long enough to be locked.
    pub open spec fn idle_too_long(self, now: u64) -> bool {
        self.settings.auto_lock_enabled && self.idle(now) >= self.settings.auto_lock_timeout_mins
            * 60 * 1000
    }

    /// The idle time can be counted in seconds.
    pub open spec fn timeout_countable(self) -> bool {
        self.state == AppState::Unlocked && self.settings.auto_lock_enabled
            ==> self.settings.auto_lock_timeout_mins * 60 <= u64::MAX
    }

    /// The state after the idle time was checked.
    pub open spec fn idle_checked(self, file_exists: bool, now: u64) -> GuiView {
        if self.idle_too_long(now) {
            self.locked(file_exists, now).toasted(
                "Vault auto-locked due to inactivity."@,
                ToastKind::Info,
                now,
            )
        } else {
            self
        }
    }

    /// The state after the focus was checked.
    pub open spec fn focus_checked(self, file_exists: bool, focused: bool, now: u64) -> GuiView {
        if self.settings.lock_on_focus_loss && !focused {
            self.locked(file_exists, now).toasted(
                "Vault auto-locked due to focus loss."@,
                ToastKind::Info,
                now,
            )
        } else {
            self
        }
    }

    /// The state after a frame's checks: on the password page the vault locks when
    /// it was idle for too long, and when the window lost the focus.
    pub open spec fn locks_enforced(self, file_exists: bool, focused: bool, now: u64) -> GuiView {
        if self.state == AppState::Unlocked {
            self.idle_checked(file_exists, now).focus_checked(file_exists, focused, now)
        } else {
            self
        }
    }
}

impl VaultGui {
    /// Notes whether the user is doing something.
    pub fn note_activity(&mut self, active: bool, now: u64)
        ensures
            final(self)@ == (if active {
                GuiView { last_activity: now, ..old(self)@ }
            } else {
                old(self)@
            }),
    {
        if active {
            self.last_activity = now;
        }
    }

    /// Locks the vault if it was idle for too long or the window lost the focus.
    pub fn enforce_locks(&mut self, file_exists: bool, focused: bool, now: u64)
        requires
            old(self)@.timeout_countable(),
        ensures
            final(self)@ == old(self)@.locks_enforced(file_exists, focused, now),
    {
        if self.state == AppState::Unlocked {
            if self.settings.auto_lock_enabled {
                let timeout: u128 = self.settings.auto_lock_timeout_mins as u128 * 60 * 1000;
                let idle: u128 = if now >= self.last_activity {
                    (now - self.last_activity) as u128
                } else {
                    0
                };
                if idle >= timeout {
                    self.lock_vault(file_exists, now);
                    self.push_toast(
                        "Vault auto-locked due to inactivity.".to_string(),
                        ToastKind::Info,
                        now,
                    );
                }
            }
            if self.settings.lock_on_focus_loss && !focused {
                self.lock_vault(file_exists, now);
                self.push_toast(
                    "Vault auto-locked due to focus loss.".to_string(),
                    ToastKind::Info,
                    now,
                );
            }
        }
    }

    /// Whether the idle time can be counted in seconds.
    pub fn is_timeout_countable(&self) -> (res: bool)
        ensures
            res == self@.timeout_countable(),
    {
        !(self.state == AppState::Unlocked && self.settings.auto_lock_enabled)
            || self.settings.auto_lock_timeout_mins <= 307445734561825860
    }
}

/// On the password page an idle vault, or one out of focus, is locked where the
/// preferences say so, and otherwise nothing changes.
pub proof fn law_enforced_exactly(s: GuiView, file_exists: bool, focused: bool, now: u64)
    requires
        s.state == AppState::Unlocked,
    ensures
        s.idle_too_long(now) || (s.settings.lock_on_focus_loss && !focused) ==> s.locks_enforced(
            file_exists,
            focused,
            now,
        ).holds_no_vault() && s.locks_enforced(file_exists, focused, now).state == closed_state(
            file_exists,
        ),
        !s.idle_too_long(now) && !(s.settings.lock_on_focus_loss && !focused) ==> s.locks_enforced(
            file_exists,
            focused,
            now,
        ) == s,
{
}

// ---------------------------------------------------------------------------
// Navigation
// ---------------------------------------------------------------------------

/// An entry of the sidebar.
#[derive(Clone, Copy, Debug, PartialEq, Eq, Structural)]
pub enum NavTarget {
    Passwords,
    Notes,
    Generator,
    Settings,
    Info,
    Vaults,
}

/// The page that a sidebar entry leads to.
pub open spec fn nav_page(t: NavTarget) -> AppState {
    match t {
        NavTarget::Passwords => AppState::Unlocked,
        NavTarget::Notes => AppState::Notes,
        NavTarget::Generator => AppState::GeneratorView,
        NavTarget::Settings => AppState::SettingsView,
        NavTarget::Info => AppState::KnownBugs,
        NavTarget::Vaults => AppState::VaultManager,
    }
}

/// The sidebar is shown: the vault is open.
pub open spec fn sidebar_shown(s: AppState) -> bool {
    s == AppState::Unlocked || s == AppState::KnownBugs || s == AppState::Notes || s
        == AppState::SettingsView || s == AppState::GeneratorView || s == AppState::VaultManager
}

impl GuiView {
    /// The state with the time at which a page was opened noted, or forgotten.
    pub open spec fn with_page_opened(self, t: NavTarget, at: Option<u64>) -> GuiView {
        match t {
            NavTarget::Passwords => self,
            NavTarget::Notes => GuiView { notes_page_opened: at, ..self },
            NavTarget::Generator => GuiView { generator_page_opened: at, ..self },
            NavTarget::Settings => GuiView { settings_page_opened: at, ..self },
            NavTarget::Info => GuiView { info_page_opened: at, ..self },
            NavTarget::Vaults => GuiView { vault_manager_opened: at, ..self },
        }
    }

    /// The state after a sidebar entry was clicked: its page is shown, or, if it is
    /// shown already, the password page again.
    pub open spec fn navigated(self, t: NavTarget, now: u64) -> GuiView {
        if t == NavTarget::Passwords {
            if self.state == AppState::Unlocked {
                self
            } else {
                GuiView {
                    info_page_opened: None,
                    notes_page_opened: None,
                    view_opened: Some(now),
                    state: AppState::Unlocked,
                    ..self
                }
            }
        } else if self.state == nav_page(t) {
            GuiView {
                view_opened: Some(now),
                state: AppState::Unlocked,
                ..self.with_page_opened(t, None)
            }
        } else {
            GuiView { state: nav_page(t), ..self.with_page_opened(t, Some(now)) }
        }
    }
}

impl VaultGui {
    /// Whether the sidebar is shown.
    pub fn shows_sidebar(&self) -> (res: bool)
        ensures
            res == sidebar_shown(self@.state),
    {
        match self.state {
            AppState::Unlocked => true,
            AppState::KnownBugs => true,
            AppState::Notes => true,
            AppState::SettingsView => true,
            AppState::GeneratorView => true,
            AppState::VaultManager => true,
            _ => false,
        }
    }

    fn set_page_opened(&mut self, t: NavTarget, at: Option<u64>)
        ensures
            final(self)@ == old(self)@.with_page_opened(t, at),
    {
        match t {
            NavTarget::Passwords => {},
            NavTarget::Notes => {
                self.notes_page_opened = at;
            },
            NavTarget::Generator => {
                self.generator_page_opened = at;
            },
            NavTarget::Settings => {
                self.settings_page_opened = at;
            },
            NavTarget::Info => {
                self.info_page_opened = at;
            },
            NavTarget::Vaults => {
                self.vault_manager_opened = at;
            },
        }
    }

    /// Follows a click on a sidebar entry.
    pub fn navigate(&mut self, t: NavTarget, now: u64)
        ensures
            final(self)@ == old(self)@.navigated(t, now),
    {
        let page: AppState = match t {
            NavTarget::Passwords => AppState::Unlocked,
            NavTarget::Notes => AppState::Notes,
            NavTarget::Generator => AppState::GeneratorView,
            NavTarget::Settings => AppState::SettingsView,
            NavTarget::Info => AppState::KnownBugs,
            NavTarget::Vaults => AppState::VaultManager,
        };
        if t == NavTarget::Passwords {
            if self.state != AppState::Unlocked {
                self.info_page_opened = None;
                self.notes_page_opened = None;
                self.view_opened = Some(now);
                self.state = AppState::Unlocked;
            }
        } else if self.state == page {
            self.set_page_opened(t, None);
            self.view_opened = Some(now);
            self.state = AppState::Unlocked;
        } else {
            self.set_page_opened(t, Some(now));
            self.state = page;
        }
    }
}

/// Clicking a sidebar entry leads to its page, clicking it again back to the
/// password page; the sidebar stays, and neither the vault nor a dialog changes.
pub proof fn law_navigation_toggles(s: GuiView, t: NavTarget, now: u64, later: u64)
    ensures
        s.state != nav_page(t) ==> s.navigated(t, now).state == nav_page(t),
        s.state != nav_page(t) ==> s.navigated(t, now).navigated(t, later).state
            == AppState::Unlocked,
        sidebar_shown(s.state) ==> sidebar_shown(s.navigated(t, now).state),
        s.navigated(t, now).vault == s.vault,
        s.navigated(t, now).modal == s.modal,
        s.navigated(t, now).master_password == s.master_password,
{
}

// ---------------------------------------------------------------------------
// Filters
// ---------------------------------------------------------------------------

/// Which list a filter is for.
#[derive(Clone, Copy, Debug, PartialEq, Eq, Structural)]
pub enum Page {
    Entries,
    Notes,
}

/// What a filter goes by.
#[derive(Clone, Copy, Debug, PartialEq, Eq, Structural)]
pub enum FilterKind {
    Category,
    Tag,
}

impl GuiView {
    /// The category filter of a page.
    pub open spec fn category_filter(self, page: Page) -> Option<Seq<char>> {
        match page {
            Page::Entries => self.active_category_filter,
            Page::Notes => self.active_note_category_filter,
        }
    }

    /// The tag filter of a page.
    pub open spec fn tag_filter(self, page: Page) -> Option<Seq<char>> {
        match page {
            Page::Entries => self.active_tag_filter,
            Page::Notes => self.active_note_tag_filter,
        }
    }

    /// The state with the two filters of a page set.
    pub open spec fn with_filters(
        self,
        page: Page,
        category: Option<Seq<char>>,
        tag: Option<Seq<char>>,
    ) -> GuiView {
        match page {
            Page::Entries => GuiView {
                active_category_filter: category,
                active_tag_filter: tag,
                ..self
            },
            Page::Notes => GuiView {
                active_note_category_filter: category,
                active_note_tag_filter: tag,
                ..self
            },
        }
    }

    /// A page is filtered by this text.
    pub open spec fn filters_by(self, page: Page, kind: FilterKind, text: Seq<char>) -> bool {
        match kind {
            FilterKind::Category => self.category_filter(page) == Some(text),
            FilterKind::Tag => self.tag_filter(page) == Some(text),
        }
    }

    /// The state after a filter was clicked: it is taken off if it is set, and else
    /// set in place of the filter of the other kind.
    pub open spec fn filter_clicked(self, page: Page, kind: FilterKind, text: Seq<char>) -> GuiView {
        match kind {
            FilterKind::Category => if self.filters_by(page, kind, text) {
                self.with_filters(page, None, self.tag_filter(page))
            } else {
                self.with_filters(page, Some(text), None)
            },
            FilterKind::Tag => if self.filters_by(page, kind, text) {
                self.with_filters(page, self.category_filter(page), None)
            } else {
                self.with_filters(page, None, Some(text))
            },
        }
    }
}

fn is_set_to(filter: &Option<String>, text: &String) -> (res: bool)
    ensures
        res == (opt_view(*filter) == Some(text@)),
{
    match filter {
        Some(f) => *f == *text,
        None => false,
    }
}

impl VaultGui {
    /// Whether a page is filtered by this text.
    pub fn is_filtered_by(&self, page: Page, kind: FilterKind, text: &String) -> (res: bool)
        ensures
            res == self@.filters_by(page, kind, text@),
    {
        match page {
            Page::Entries => match kind {
                FilterKind::Category => is_set_to(&self.active_category_filter, text),
                FilterKind::Tag => is_set_to(&self.active_tag_filter, text),
            },
            Page::Notes => match kind {
                FilterKind::Category => is_set_to(&self.active_note_category_filter, text),
                FilterKind::Tag => is_set_to(&self.active_note_tag_filter, text),
            },
        }
    }

    /// Whether a page is filtered at all.
    pub fn is_filtered(&self, page: Page) -> (res: bool)
        ensures
            res == (self@.category_filter(page) is Some || self@.tag_filter(page) is Some),
    {
        match page {
            Page::Entries => self.active_category_filter.is_some()
                || self.active_tag_filter.is_some(),
            Page::Notes => self.active_note_category_filter.is_some()
                || self.active_note_tag_filter.is_some(),
        }
    }

    /// Follows a click on a filter.
    pub fn click_filter(&mut self, page: Page, kind: FilterKind, text: &String)
        ensures
            final(self)@ == old(self)@.filter_clicked(page, kind, text@),
    {
        let set: bool = self.is_filtered_by(page, kind, text);
        match page {
            Page::Entries => match kind {
                FilterKind::Category => {
                    if set {
                        self.active_category_filter = None;
                    } else {
                        self.active_category_filter = Some(text.clone());
                        self.active_tag_filter = None;
                    }
                },
                FilterKind::Tag => {
                    if set {
                        self.active_tag_filter = None;
                    } else {
                        self.active_tag_filter = Some(text.clone());
                        self.active_category_filter = None;
                    }
                },
            },
            Page::Notes => match kind {
                FilterKind::Category => {
                    if set {
                        self.active_note_category_filter = None;
                    } else {
                        self.active_note_category_filter = Some(text.clone());
                        self.active_note_tag_filter = None;
                    }
                },
                FilterKind::Tag => {
                    if set {
                        self.active_note_tag_filter = None;
                    } else {
                        self.active_note_tag_filter = Some(text.clone());
                        self.active_note_category_filter = None;
                    }
                },
            },
        }
    }

    /// Takes off the filters of a page.
    pub fn clear_filters(&mut self, page: Page)
        ensures
            final(self)@ == old(self)@.with_filters(page, None, None),
    {
        match page {
            Page::Entries => {
                self.active_category_filter = None;
                self.active_tag_filter = None;
            },
            Page::Notes => {
                self.active_note_category_filter = None;
                self.active_note_tag_filter = None;
            },
        }
    }
}

/// A page that is filtered by a category or by a tag, but not by both, stays so
/// whatever filter is clicked; a filter clicked twice is off.
pub proof fn law_one_filter_at_a_time(
    s: GuiView,
    page: Page,
    kind: FilterKind,
    text: Seq<char>,
)
    requires
        s.category_filter(page) is None || s.tag_filter(page) is None,
    ensures
        ({
            let r = s.filter_clicked(page, kind, text);
            &&& r.category_filter(page) is None || r.tag_filter(page) is None
            &&& !s.filters_by(page, kind, text) ==> r.filters_by(page, kind, text)
            &&& s.filters_by(page, kind, text) ==> !r.filters_by(page, kind, text)
            &&& !s.filters_by(page, kind, text) ==> !r.filter_clicked(
                page,
                kind,
                text,
            ).filters_by(page, kind, text)
        }),
{
}

// ---------------------------------------------------------------------------
// Preferences
// ---------------------------------------------------------------------------

/// A change of the preferences.
#[derive(Clone, Copy, Debug, PartialEq, Eq, Structural)]
pub enum SettingsChange {
    ToggleDarkMode,
    ToggleShowPasswords,
    ToggleAutoLock,
    AutoLockMinutes(u64),
    ToggleFocusLock,
    ToggleClipboardClear,
    ClipboardSeconds(u64),
    DefaultLength(u32),
    ToggleUppercase,
    ToggleNumbers,
    ToggleSymbols,
    ToggleVsync,
}

/// The preferences after a change. Turning the clearing of the clipboard on sets
/// it to thirty seconds.
pub open spec fn settings_changed(s: Settings, c: SettingsChange) -> Settings {
    match c {
        SettingsChange::ToggleDarkMode => Settings { dark_mode: !s.dark_mode, ..s },
        SettingsChange::ToggleShowPasswords => Settings {
            show_passwords: !s.show_passwords,
            ..s
        },
        SettingsChange::ToggleAutoLock => Settings {
            auto_lock_enabled: !s.auto_lock_enabled,
            ..s
        },
        SettingsChange::AutoLockMinutes(m) => Settings { auto_lock_timeout_mins: m, ..s },
        SettingsChange::ToggleFocusLock => Settings {
            lock_on_focus_loss: !s.lock_on_focus_loss,
            ..s
        },
        SettingsChange::ToggleClipboardClear => Settings {
            clipboard_timeout_secs: if s.clipboard_timeout_secs is Some {
                None
            } else {
                Some(30)
            },
            ..s
        },
        SettingsChange::ClipboardSeconds(n) => Settings { clipboard_timeout_secs: Some(n), ..s },
        SettingsChange::DefaultLength(n) => Settings { default_password_length: n, ..s },
        SettingsChange::ToggleUppercase => Settings {
            gen_use_uppercase: !s.gen_use_uppercase,
            ..s
        },
        SettingsChange::ToggleNumbers => Settings { gen_use_numbers: !s.gen_use_numbers, ..s },
        SettingsChange::ToggleSymbols => Settings { gen_use_symbols: !s.gen_use_symbols, ..s },
        SettingsChange::ToggleVsync => Settings { vsync_enabled: !s.vsync_enabled, ..s },
    }
}

/// The preferences after a change.
pub fn changed_settings(s: Settings, c: SettingsChange) -> (res: Settings)
    ensures
        res == settings_changed(s, c),
{
    match c {
        SettingsChange::ToggleDarkMode => Settings { dark_mode: !s.dark_mode, ..s },
        SettingsChange::ToggleShowPasswords => Settings {
            show_passwords: !s.show_passwords,
            ..s
        },
        SettingsChange::ToggleAutoLock => Settings {
            auto_lock_enabled: !s.auto_lock_enabled,
            ..s
        },
        SettingsChange::AutoLockMinutes(m) => Settings { auto_lock_timeout_mins: m, ..s },
        SettingsChange::ToggleFocusLock => Settings {
            lock_on_focus_loss: !s.lock_on_focus_loss,
            ..s
        },
        SettingsChange::ToggleClipboardClear => Settings {
            clipboard_timeout_secs: if s.clipboard_timeout_secs.is_some() {
                None
            } else {
                Some(30)
            },
            ..s
        },
        SettingsChange::ClipboardSeconds(n) => Settings { clipboard_timeout_secs: Some(n), ..s },
        SettingsChange::DefaultLength(n) => Settings { default_password_length: n, ..s },
        SettingsChange::ToggleUppercase => Settings {
            gen_use_uppercase: !s.gen_use_uppercase,
            ..s
        },
        SettingsChange::ToggleNumbers => Settings { gen_use_numbers: !s.gen_use_numbers, ..s },
        SettingsChange::ToggleSymbols => Settings { gen_use_symbols: !s.gen_use_symbols, ..s },
        SettingsChange::ToggleVsync => Settings { vsync_enabled: !s.vsync_enabled, ..s },
    }
}

impl VaultGui {
    /// Changes the preferences.
    pub fn change_settings(&mut self, c: SettingsChange)
        ensures
            final(self)@ == (GuiView {
                settings: settings_changed(old(self)@.settings, c),
                ..old(self)@
            }),
    {
        self.settings = changed_settings(self.settings, c);
    }
}

// ---------------------------------------------------------------------------
// The update check
// ---------------------------------------------------------------------------

impl GuiView {
    /// An update check is to be started.
    pub open spec fn update_check_due(self) -> bool {
        self.update_status is Unknown && !self.update_check_pending
    }

    /// The state after the user asked for a new check; nothing happens while one is
    /// under way.
    pub open spec fn recheck_asked(self) -> GuiView {
        if self.update_check_pending {
            self
        } else {
            GuiView { update_status: StatusView::Unknown, update_check_pending: true, ..self }
        }
    }

    /// The state after a check has ended. Only a newer release is worth a toast.
    pub open spec fn update_received(self, status: StatusView, now: u64) -> GuiView {
        if !self.update_check_pending {
            self
        } else {
            let told = match status {
                StatusView::StableAvailable { version, .. } => self.toasted(
                    "Update available: v"@ + version,
                    ToastKind::Info,
                    now,
                ),
                StatusView::BetaAvailable { version, .. } => self.toasted(
                    "Beta update available: v"@ + version,
                    ToastKind::Info,
                    now,
                ),
                _ => self,
            };
            GuiView { update_status: status, update_check_pending: false, ..told }
        }
    }
}

impl VaultGui {
    /// Starts an update check if one is due; says whether it is.
    pub fn start_due_update_check(&mut self) -> (started: bool)
        ensures
            started == old(self)@.update_check_due(),
            final(self)@ == (if started {
                GuiView { update_check_pending: true, ..old(self)@ }
            } else {
                old(self)@
            }),
    {
        let unknown: bool = match self.update_status {
            UpdateStatus::Unknown => true,
            _ => false,
        };
        if unknown && !self.update_check_pending {
            self.update_check_pending = true;
            true
        } else {
            false
        }
    }

    /// Starts a new update check, unless one is under way; says whether it did.
    pub fn recheck_updates(&mut self) -> (started: bool)
        ensures
            started == !old(self)@.update_check_pending,
            final(self)@ == old(self)@.recheck_asked(),
    {
        if self.update_check_pending {
            false
        } else {
            self.update_status = UpdateStatus::Unknown;
            self.update_check_pending = true;
            true
        }
    }

    /// Takes in the result of an update check.
    pub fn receive_update(&mut self, status: UpdateStatus, now: u64)
        ensures
            final(self)@ == old(self)@.update_received(status@, now),
    {
        if self.update_check_pending {
            match &status {
                UpdateStatus::StableAvailable { version, .. } => {
                    self.push_toast(
                        "Update available: v".to_string().concat(version.as_str()),
                        ToastKind::Info,
                        now,
                    );
                },
                UpdateStatus::BetaAvailable { version, .. } => {
                    self.push_toast(
                        "Beta update available: v".to_string().concat(version.as_str()),
                        ToastKind::Info,
                        now,
                    );
                },
                _ => {},
            }
            self.update_status = status;
            self.update_check_pending = false;
        }
    }
}

/// A check that found nothing newer, or failed, is silent.
pub proof fn law_silent_unless_newer(s: GuiView, status: StatusView, now: u64)
    requires
        !(status is StableAvailable),
        !(status is BetaAvailable),
    ensures
        s.update_received(status, now).toasts == s.toasts,
{
}

// ---------------------------------------------------------------------------
// Leaving
// ---------------------------------------------------------------------------

impl GuiView {
    /// The state with every secret in it wiped, before the program ends.
    pub open spec fn left(self) -> GuiView {
        GuiView {
            master_password: Seq::empty(),
            master_password_confirm: Seq::empty(),
            modal: self.modal.wiped(),
            vault: wiped_vault(self.vault),
            ..self
        }
    }
}

impl VaultGui {
    /// Wipes every secret, before the program ends.
    pub fn on_exit(&mut self)
        ensures
            final(self)@ == old(self)@.left(),
    {
        wipe_text(&mut self.master_password);
        wipe_text(&mut self.master_password_confirm);
        self.modal.zeroize_sensitive();
        wipe_vault(&mut self.vault);
    }
}

/// After leaving, no password or secret is left in the state.
pub proof fn law_left_holds_no_secret(s: GuiView, i: int, k: int)
    ensures
        s.left().master_password.len() == 0,
        s.left().master_password_confirm.len() == 0,
        s.left().modal.holds_no_secret(),
        0 <= i < s.left().vault.entries.len() ==> {
            let e = s.left().vault.entries[i];
            &&& e.password.len() == 0
            &&& e.totp_secret is Some ==> e.totp_secret.unwrap().len() == 0
            &&& 0 <= k < e.password_history.len() ==> e.password_history[k].password.len() == 0
        },
        0 <= i < s.left().vault.notes.len() ==> s.left().vault.notes[i].content.len() == 0,
{
    law_wiped_dialog_holds_no_secret(s.modal);
    law_wiped_holds_no_secret(s.vault, i, k);
}

// ---------------------------------------------------------------------------
// Laws of the state
// ---------------------------------------------------------------------------

/// A notice changes the toasts alone; the new one stands last, with its text, its kind
/// and its time. An error and a success are also kept as the message.
pub proof fn law_notice_exact(
    s: GuiView,
    text: Seq<char>,
    kind: ToastKind,
    e: ErrorView,
    now: u64,
)
    ensures
        ({
            let r = s.toasted(text, kind, now);
            &&& r == (GuiView { toasts: r.toasts, ..s })
            &&& r.toasts.len() > 0
            &&& r.toasts.last().message == text
            &&& r.toasts.last().kind == kind
            &&& r.toasts.last().spawned == now
        }),
        s.failed(e, now) == (GuiView {
            message: "Error: "@ + e.text(),
            ..s.toasted("Error: "@ + e.text(), ToastKind::Error, now)
        }),
        s.succeeded(text, now) == (GuiView {
            message: text,
            ..s.toasted(text, ToastKind::Success, now)
        }),
{
}

/// The program starts locked, or without a vault, with nothing of a vault in it, with
/// the preferences and the register it was given, and counts idle time from then on.
pub proof fn law_start_exact(
    path: Seq<char>,
    file_exists: bool,
    settings: Settings,
    registry: RegistryView,
    now: u64,
)
    ensures
        ({
            let s = initial(path, file_exists, settings, registry, now);
            &&& file_exists ==> s.state == AppState::Locked
            &&& !file_exists ==> s.state == AppState::NoVault
            &&& s.vault_path == path && s.settings == settings && s.vault_registry == registry
            &&& s.vault.entries.len() == 0 && s.vault.notes.len() == 0
            &&& s.master_password.len() == 0 && s.master_password_confirm.len() == 0
            &&& !s.unlock_pending && !s.update_check_pending && s.update_status is Unknown
            &&& s.last_activity == now && s.view_opened == Some(now)
            &&& s.clipboard_clear_time is None && s.toasts.len() == 0 && s.message.len() == 0
            &&& s.search_query.len() == 0 && s.drag_source is None && s.drag_target is None
            &&& s.active_category_filter is None && s.active_tag_filter is None
            &&& s.active_note_category_filter is None && s.active_note_tag_filter is None
            &&& settings.has_seen_beta_warning ==> s.modal is Closed
            &&& !settings.has_seen_beta_warning ==> s.modal is BetaWarning
        }),
{
}

/// Creating a vault begins exactly if the master password has at least eight bytes and
/// was repeated faithfully; otherwise the first thing wrong is told and nothing else
/// changes.
pub proof fn law_creation_exact(s: GuiView, now: u64)
    ensures
        ({
            let r = s.creation_started(now);
            let n = encode_utf8(s.master_password).len();
            let told = |text: Seq<char>| r == s.toasted(text, ToastKind::Error, now);
            let empty = s.master_password.len() == 0;
            let same = s.master_password == s.master_password_confirm;
            &&& empty ==> told("Master password cannot be empty"@)
            &&& !empty && n < 8 ==> told("Master password must be at least 8 characters"@)
            &&& !empty && n >= 8 && !same ==> told("Passwords don't match"@)
            &&& !empty && n >= 8 && same ==> r == (GuiView {
                state: AppState::CreatingVault(now),
                master_password_confirm: Seq::empty(),
                unlock_pending: true,
                ..s
            })
            &&& s.creation_problem() is None <==> !empty && n >= 8 && same
        }),
{
}

/// Unlocking begins exactly if a password was typed.
pub proof fn law_unlocking_exact(s: GuiView, now: u64)
    ensures
        s.master_password.len() == 0 ==> s.unlock_started(now) == s.toasted(
            "Enter master password"@,
            ToastKind::Error,
            now,
        ),
        s.master_password.len() > 0 ==> s.unlock_started(now) == (GuiView {
            state: AppState::Unlocking(now),
            unlock_pending: true,
            ..s
        }),
{
}

/// A vault that was opened is shown, and the register notes it; one that was not
/// leaves the program locked, or without a vault, and the reason is told. A result
/// that nobody waits for changes nothing.
pub proof fn law_unlock_outcome_exact(
    s: GuiView,
    v: VaultView,
    e: Seq<char>,
    file_exists: bool,
    stem: Option<Seq<char>>,
    unix_now: u64,
    now: u64,
)
    ensures
        !s.unlock_pending ==> s.unlock_ended(
            UnlockView::Success(v),
            file_exists,
            stem,
            unix_now,
            now,
        ) == s,
        !s.unlock_pending ==> s.unlock_ended(
            UnlockView::Error(e),
            file_exists,
            stem,
            unix_now,
            now,
        ) == s,
        s.unlock_pending ==> s.unlock_ended(
            UnlockView::Success(v),
            file_exists,
            stem,
            unix_now,
            now,
        ) == (GuiView {
            vault: v,
            state: AppState::Unlocked,
            view_opened: Some(now),
            vault_registry: s.vault_registry.opened(s.vault_path, stem, unix_now),
            unlock_pending: false,
            ..s.toasted("Vault unlocked."@, ToastKind::Success, now)
        }),
        s.unlock_pending ==> s.unlock_ended(
            UnlockView::Error(e),
            file_exists,
            stem,
            unix_now,
            now,
        ) == (GuiView {
            state: if file_exists {
                AppState::Locked
            } else {
                AppState::NoVault
            },
            view_opened: Some(now),
            unlock_pending: false,
            ..s.toasted(e, ToastKind::Error, now)
        }),
{
}

/// Locking leaves no entry, no note, no password, no dialog, no search and no filter,
/// and nothing that is waited for; what was copied is still to be cleared, and
/// preferences, register and path stay.
pub proof fn law_locking_exact(s: GuiView, file_exists: bool, now: u64)
    ensures
        ({
            let r = s.locked(file_exists, now);
            &&& file_exists ==> r.state == AppState::Locked
            &&& !file_exists ==> r.state == AppState::NoVault
            &&& r.vault.entries.len() == 0 && r.vault.notes.len() == 0
            &&& r.master_password.len() == 0 && r.master_password_confirm.len() == 0
            &&& r.modal is Closed && r.search_query.len() == 0 && !r.unlock_pending
            &&& r.active_category_filter is None && r.active_tag_filter is None
            &&& r.active_note_category_filter is None && r.active_note_tag_filter is None
            &&& r.notes_page_opened is None && r.vault_manager_opened is None
            &&& r.view_opened == Some(now)
            &&& r.clipboard_clear_time == s.clipboard_clear_time
            &&& r.settings == s.settings && r.vault_registry == s.vault_registry
            &&& r.vault_path == s.vault_path && r.last_activity == s.last_activity
            &&& r.update_status == s.update_status && r.update_check_pending
                == s.update_check_pending
            &&& r.toasts == s.toasted("Vault locked."@, ToastKind::Info, now).toasts
        }),
{
}

/// A copy that succeeded is told and will be cleared after the chosen seconds, or not
/// at all if none are chosen; a copy that failed is told, and what was to be cleared
/// before still is.
pub proof fn law_copy_exact(s: GuiView, now: u64)
    ensures
        ({
            let r = s.copied(CopyOutcome::Copied, now);
            &&& s.settings.clipboard_timeout_secs matches Some(secs) ==> {
                &&& r.clipboard_clear_time == Some((now + secs * 1000) as u128)
                &&& r.toasts == s.toasted(
                    "Copied. Clearing clipboard in "@ + decimal(secs as nat) + "s."@,
                    ToastKind::Success,
                    now,
                ).toasts
            }
            &&& s.settings.clipboard_timeout_secs is None ==> {
                &&& r.clipboard_clear_time is None
                &&& r.toasts == s.toasted(
                    "Copied to clipboard."@,
                    ToastKind::Success,
                    now,
                ).toasts
            }
            &&& r == (GuiView {
                clipboard_clear_time: r.clipboard_clear_time,
                toasts: r.toasts,
                ..s
            })
        }),
        s.copied(CopyOutcome::SetFailed, now) == s.toasted(
            "Failed to copy to clipboard."@,
            ToastKind::Error,
            now,
        ),
        s.copied(CopyOutcome::NoAccess, now) == s.toasted(
            "Failed to access clipboard."@,
            ToastKind::Error,
            now,
        ),
{
}

/// The clipboard is due from the time set for it on; then it is cleared, which is told
/// if it could be done, and it is not due again. Before, nothing happens.
pub proof fn law_clearing_exact(s: GuiView, accessible: bool, now: u64)
    ensures
        s.clipboard_due(now) <==> (s.clipboard_clear_time matches Some(t) && now >= t),
        s.clipboard_clear_time is None ==> s.clipboard_cleared(accessible, now) == s,
        s.clipboard_clear_time matches Some(t) ==> s.clipboard_cleared(accessible, now) == (
        if now < t {
            s
        } else if accessible {
            GuiView {
                clipboard_clear_time: None,
                ..s.toasted("Clipboard cleared."@, ToastKind::Info, now)
            }
        } else {
            GuiView { clipboard_clear_time: None, ..s }
        }),
{
}

/// With the auto-lock on, an open vault on the password page is locked exactly if as
/// many minutes as are set have gone by since the last activity; before that, and with
/// the auto-lock off, nothing happens to a window that has the focus.
pub proof fn law_auto_lock_exact(s: GuiView, file_exists: bool, now: u64)
    requires
        s.state == AppState::Unlocked,
        s.last_activity <= now,
    ensures
        ({
            let r = s.locks_enforced(file_exists, true, now);
            let over = now - s.last_activity >= s.settings.auto_lock_timeout_mins * 60_000;
            &&& !s.settings.auto_lock_enabled || !over ==> r == s
            &&& s.settings.auto_lock_enabled && over ==> {
                &&& r.state == (if file_exists {
                    AppState::Locked
                } else {
                    AppState::NoVault
                })
                &&& r.vault.entries.len() == 0 && r.vault.notes.len() == 0
                &&& r.master_password.len() == 0 && r.modal is Closed
                &&& r.toasts.last().message == "Vault auto-locked due to inactivity."@
            }
        }),
{
}

/// A window that loses the focus locks the vault exactly if that is chosen, whatever
/// the time.
pub proof fn law_focus_lock_exact(s: GuiView, file_exists: bool, now: u64)
    requires
        s.state == AppState::Unlocked,
    ensures
        ({
            let r = s.locks_enforced(file_exists, false, now);
            &&& s.settings.lock_on_focus_loss ==> {
                &&& r.state == (if file_exists {
                    AppState::Locked
                } else {
                    AppState::NoVault
                })
                &&& r.vault.entries.len() == 0 && r.vault.notes.len() == 0
                &&& r.master_password.len() == 0 && r.modal is Closed
                &&& r.toasts.last().message == "Vault auto-locked due to focus loss."@
            }
            &&& !s.settings.lock_on_focus_loss ==> r == s.locks_enforced(file_exists, true, now)
        }),
{
}

/// On any other page, and while no vault is open, nothing is locked by itself.
pub proof fn law_other_pages_stay(s: GuiView, file_exists: bool, focused: bool, now: u64)
    requires
        s.state != AppState::Unlocked,
    ensures
        s.locks_enforced(file_exists, focused, now) == s,
{
}

/// Idle time is counted from the last activity; a clock that stands before it counts
/// nothing.
pub proof fn law_idle_counts_from_activity(s: GuiView, now: u64)
    ensures
        now >= s.last_activity ==> s.idle(now) == now - s.last_activity,
        now < s.last_activity ==> s.idle(now) == 0,
        s.settings.auto_lock_timeout_mins <= 300_000_000_000_000_000 ==> s.timeout_countable(),
{
}

/// Each target of the sidebar leads to its page, and a second click on it back to the
/// passwords; nothing but the page and the times of its opening changes.
pub proof fn law_navigation_exact(s: GuiView, now: u64)
    ensures
        s.navigated(NavTarget::Passwords, now).state == AppState::Unlocked,
        s.state == AppState::Unlocked ==> s.navigated(NavTarget::Passwords, now) == s,
        s.navigated(NavTarget::Notes, now).state == (if s.state == AppState::Notes {
            AppState::Unlocked
        } else {
            AppState::Notes
        }),
        s.navigated(NavTarget::Generator, now).state == (if s.state == AppState::GeneratorView {
            AppState::Unlocked
        } else {
            AppState::GeneratorView
        }),
        s.navigated(NavTarget::Settings, now).state == (if s.state == AppState::SettingsView {
            AppState::Unlocked
        } else {
            AppState::SettingsView
        }),
        s.navigated(NavTarget::Info, now).state == (if s.state == AppState::KnownBugs {
            AppState::Unlocked
        } else {
            AppState::KnownBugs
        }),
        s.navigated(NavTarget::Vaults, now).state == (if s.state == AppState::VaultManager {
            AppState::Unlocked
        } else {
            AppState::VaultManager
        }),
        forall|t: NavTarget|
            {
                let r = #[trigger] s.navigated(t, now);
                r == (GuiView {
                    state: r.state,
                    view_opened: r.view_opened,
                    info_page_opened: r.info_page_opened,
                    notes_page_opened: r.notes_page_opened,
                    generator_page_opened: r.generator_page_opened,
                    settings_page_opened: r.settings_page_opened,
                    vault_manager_opened: r.vault_manager_opened,
                    ..s
                })
            },
{
}

/// A page that is opened from the sidebar is opened now, and one that is left is not
/// open; coming back to the passwords opens those now.
pub proof fn law_page_times_exact(s: GuiView, now: u64)
    ensures
        s.navigated(NavTarget::Notes, now).notes_page_opened == (if s.state == AppState::Notes {
            None
        } else {
            Some(now)
        }),
        s.navigated(NavTarget::Generator, now).generator_page_opened == (if s.state
            == AppState::GeneratorView {
            None
        } else {
            Some(now)
        }),
        s.navigated(NavTarget::Settings, now).settings_page_opened == (if s.state
            == AppState::SettingsView {
            None
        } else {
            Some(now)
        }),
        s.navigated(NavTarget::Info, now).info_page_opened == (if s.state == AppState::KnownBugs {
            None
        } else {
            Some(now)
        }),
        s.navigated(NavTarget::Vaults, now).vault_manager_opened == (if s.state
            == AppState::VaultManager {
            None
        } else {
            Some(now)
        }),
        s.state != AppState::Unlocked ==> s.navigated(NavTarget::Passwords, now).view_opened
            == Some(now),
{
}

/// The sidebar is shown on every page of an open vault and on no other screen.
pub proof fn law_sidebar_exact(at: u64)
    ensures
        sidebar_shown(AppState::Unlocked),
        sidebar_shown(AppState::Notes),
        sidebar_shown(AppState::GeneratorView),
        sidebar_shown(AppState::SettingsView),
        sidebar_shown(AppState::KnownBugs),
        sidebar_shown(AppState::VaultManager),
        !sidebar_shown(AppState::Locked),
        !sidebar_shown(AppState::NoVault),
        !sidebar_shown(AppState::Unlocking(at)),
        !sidebar_shown(AppState::CreatingVault(at)),
{
}

/// Clicking a filter that is off sets it and takes off the other kind; clicking one
/// that is on takes it off. The filters of the entries and of the notes are apart, and
/// nothing else changes.
pub proof fn law_filter_click_exact(s: GuiView, text: Seq<char>)
    ensures
        s.filter_clicked(Page::Entries, FilterKind::Category, text) == (
        if s.active_category_filter == Some(text) {
            GuiView { active_category_filter: None, ..s }
        } else {
            GuiView { active_category_filter: Some(text), active_tag_filter: None, ..s }
        }),
        s.filter_clicked(Page::Entries, FilterKind::Tag, text) == (if s.active_tag_filter == Some(
            text,
        ) {
            GuiView { active_tag_filter: None, ..s }
        } else {
            GuiView { active_tag_filter: Some(text), active_category_filter: None, ..s }
        }),
        s.filter_clicked(Page::Notes, FilterKind::Category, text) == (
        if s.active_note_category_filter == Some(text) {
            GuiView { active_note_category_filter: None, ..s }
        } else {
            GuiView { active_note_category_filter: Some(text), active_note_tag_filter: None, ..s }
        }),
        s.filter_clicked(Page::Notes, FilterKind::Tag, text) == (if s.active_note_tag_filter
            == Some(text) {
            GuiView { active_note_tag_filter: None, ..s }
        } else {
            GuiView { active_note_tag_filter: Some(text), active_note_category_filter: None, ..s }
        }),
        s.filters_by(Page::Entries, FilterKind::Category, text) <==> s.active_category_filter
            == Some(text),
        s.filters_by(Page::Entries, FilterKind::Tag, text) <==> s.active_tag_filter == Some(text),
        s.filters_by(Page::Notes, FilterKind::Category, text) <==> s.active_note_category_filter
            == Some(text),
        s.filters_by(Page::Notes, FilterKind::Tag, text) <==> s.active_note_tag_filter == Some(
            text,
        ),
{
}

/// Clearing takes off both filters of a page, and no filter of the other.
pub proof fn law_filters_cleared_exact(s: GuiView)
    ensures
        s.with_filters(Page::Entries, None, None) == (GuiView {
            active_category_filter: None,
            active_tag_filter: None,
            ..s
        }),
        s.with_filters(Page::Notes, None, None) == (GuiView {
            active_note_category_filter: None,
            active_note_tag_filter: None,
            ..s
        }),
        s.category_filter(Page::Entries) == s.active_category_filter,
        s.tag_filter(Page::Entries) == s.active_tag_filter,
        s.category_filter(Page::Notes) == s.active_note_category_filter,
        s.tag_filter(Page::Notes) == s.active_note_tag_filter,
{
}

/// Each change of a preference sets that one and keeps all others; a switch clicked
/// twice is as before, but that the clipboard then clears after thirty seconds.
pub proof fn law_preference_change_exact(s: Settings, m: u64, n: u32)
    ensures
        settings_changed(s, SettingsChange::ToggleDarkMode) == (Settings {
            dark_mode: !s.dark_mode,
            ..s
        }),
        settings_changed(s, SettingsChange::ToggleShowPasswords) == (Settings {
            show_passwords: !s.show_passwords,
            ..s
        }),
        settings_changed(s, SettingsChange::ToggleAutoLock) == (Settings {
            auto_lock_enabled: !s.auto_lock_enabled,
            ..s
        }),
        settings_changed(s, SettingsChange::AutoLockMinutes(m)) == (Settings {
            auto_lock_timeout_mins: m,
            ..s
        }),
        settings_changed(s, SettingsChange::ToggleFocusLock) == (Settings {
            lock_on_focus_loss: !s.lock_on_focus_loss,
            ..s
        }),
        s.clipboard_timeout_secs is Some ==> settings_changed(
            s,
            SettingsChange::ToggleClipboardClear,
        ) == (Settings { clipboard_timeout_secs: None, ..s }),
        s.clipboard_timeout_secs is None ==> settings_changed(
            s,
            SettingsChange::ToggleClipboardClear,
        ) == (Settings { clipboard_timeout_secs: Some(30), ..s }),
        settings_changed(s, SettingsChange::ClipboardSeconds(m)) == (Settings {
            clipboard_timeout_secs: Some(m),
            ..s
        }),
        settings_changed(s, SettingsChange::DefaultLength(n)) == (Settings {
            default_password_length: n,
            ..s
        }),
        settings_changed(s, SettingsChange::ToggleUppercase) == (Settings {
            gen_use_uppercase: !s.gen_use_uppercase,
            ..s
        }),
        settings_changed(s, SettingsChange::ToggleNumbers) == (Settings {
            gen_use_numbers: !s.gen_use_numbers,
            ..s
        }),
        settings_changed(s, SettingsChange::ToggleSymbols) == (Settings {
            gen_use_symbols: !s.gen_use_symbols,
            ..s
        }),
        settings_changed(s, SettingsChange::ToggleVsync) == (Settings {
            vsync_enabled: !s.vsync_enabled,
            ..s
        }),
{
}

/// A check for updates is due as long as nothing is known and none is under way; its
/// result is kept, and told if there is something newer. Asking again forgets what was
/// known, unless a check is under way.
pub proof fn law_update_check_exact(
    s: GuiView,
    status: StatusView,
    version: Seq<char>,
    url: Seq<char>,
    now: u64,
)
    ensures
        s.update_check_due() <==> s.update_status is Unknown && !s.update_check_pending,
        s.update_check_pending ==> s.recheck_asked() == s,
        !s.update_check_pending ==> s.recheck_asked() == (GuiView {
            update_status: StatusView::Unknown,
            update_check_pending: true,
            ..s
        }),
        !s.update_check_pending ==> s.update_received(status, now) == s,
        s.update_check_pending ==> {
            let r = s.update_received(status, now);
            &&& r.update_status == status && !r.update_check_pending
            &&& r == (GuiView {
                update_status: status,
                update_check_pending: false,
                toasts: r.toasts,
                ..s
            })
        },
        s.update_check_pending ==> s.update_received(
            (StatusView::StableAvailable { version, url }),
            now,
        ).toasts == s.toasted("Update available: v"@ + version, ToastKind::Info, now).toasts,
        s.update_check_pending ==> s.update_received(
            (StatusView::BetaAvailable { version, url }),
            now,
        ).toasts == s.toasted("Beta update available: v"@ + version, ToastKind::Info, now).toasts,
{
}

/// Leaving wipes the passwords, the dialog and the secrets of the vault, and nothing
/// else.
pub proof fn law_leaving_exact(s: GuiView)
    ensures
        s.left().master_password.len() == 0,
        s.left().master_password_confirm.len() == 0,
        s.left().modal == s.modal.wiped(),
        s.left().vault == wiped_vault(s.vault),
        s.left() == (GuiView {
            master_password: s.left().master_password,
            master_password_confirm: s.left().master_password_confirm,
            modal: s.left().modal,
            vault: s.left().vault,
            ..s
        }),
{
}

/// The view of the state leaves nothing out.
pub proof fn law_state_view_exact(g: VaultGui, i: int)
    ensures
        g@.state == g.state && g@.message == g.message@ && g@.vault_path == g.vault_path@,
        g@.vault == g.vault@ && g@.modal == g.modal@ && g@.vault_registry == g.vault_registry@,
        g@.master_password == g.master_password@,
        g@.master_password_confirm == g.master_password_confirm@,
        g@.unlock_pending == g.unlock_pending && g@.settings == g.settings,
        g@.clipboard_clear_time == g.clipboard_clear_time && g@.last_activity == g.last_activity,
        g@.search_query == g.search_query@,
        g@.toasts.len() == g.toasts@.len(),
        0 <= i < g.toasts@.len() ==> g@.toasts[i] == g.toasts@[i]@,
        g@.drag_source == g.drag_source && g@.drag_target == g.drag_target,
        g@.active_category_filter == opt_view(g.active_category_filter),
        g@.active_tag_filter == opt_view(g.active_tag_filter),
        g@.active_note_category_filter == opt_view(g.active_note_category_filter),
        g@.active_note_tag_filter == opt_view(g.active_note_tag_filter),
        g@.update_status == g.update_status@ && g@.update_check_pending == g.update_check_pending,
{
}

} // verus!

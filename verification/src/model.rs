//! The data the program keeps: vault entries and notes, the encrypted file, the
//! settings and the register of known vaults. Each type has a mathematical view.
use crate::text::views;
use vstd::prelude::*;

verus! {

// ---------------------------------------------------------------------------
// Helpers
// ---------------------------------------------------------------------------

/// An optional text by its view.
pub open spec fn opt_view(o: Option<String>) -> Option<Seq<char>> {
    match o {
        Some(s) => Some(s@),
        None => None,
    }
}

/// A copy of an optional text.
pub fn copy_opt(o: &Option<String>) -> (res: Option<String>)
    ensures
        opt_view(res) == opt_view(*o),
{
    match o {
        Some(s) => Some(s.clone()),
        None => None,
    }
}

/// A copy of a list of texts.
pub fn copy_texts(v: &Vec<String>) -> (res: Vec<String>)
    ensures
        views(res@) == views(v@),
{
    let mut out: Vec<String> = Vec::new();
    let mut i: usize = 0;
    while i < v.len()
        invariant
            i <= v@.len(),
            out@ == v@.take(i as int),
        decreases v@.len() - i,
    {
        out.push(v[i].clone());
        i += 1;
        proof {
            assert(out@ =~= v@.take(i as int));
        }
    }
    proof {
        assert(v@.take(v@.len() as int) =~= v@);
    }
    out
}

/// One more element filtered.
pub proof fn lemma_filter_step<A>(s: Seq<A>, p: spec_fn(A) -> bool, i: int)
    requires
        0 <= i < s.len(),
    ensures
        s.take(i + 1).filter(p) == (if p(s[i]) {
            s.take(i).filter(p).push(s[i])
        } else {
            s.take(i).filter(p)
        }),
{
    reveal(Seq::filter);
    assert(s.take(i + 1).drop_last() =~= s.take(i));
}

// ---------------------------------------------------------------------------
// Vault contents
// ---------------------------------------------------------------------------

/// A password that an entry had before.
pub struct PasswordHistoryEntry {
    pub password: String,
    /// Unix time in seconds at which this password was replaced.
    pub changed_at: u64,
}

#[verifier::ext_equal]
pub struct HistoryView {
    pub password: Seq<char>,
    pub changed_at: u64,
}

impl View for PasswordHistoryEntry {
    type V = HistoryView;

    open spec fn view(&self) -> HistoryView {
        HistoryView { password: self.password@, changed_at: self.changed_at }
    }
}

impl Clone for PasswordHistoryEntry {
    fn clone(&self) -> (res: Self)
        ensures
            res@ == self@,
    {
        PasswordHistoryEntry { password: self.password.clone(), changed_at: self.changed_at }
    }
}

/// The former passwords by their views.
pub open spec fn history_views(h: Seq<PasswordHistoryEntry>) -> Seq<HistoryView> {
    h.map_values(|p: PasswordHistoryEntry| p@)
}

/// A copy of a list of former passwords.
pub fn copy_history(v: &Vec<PasswordHistoryEntry>) -> (res: Vec<PasswordHistoryEntry>)
    ensures
        history_views(res@) == history_views(v@),
{
    let mut out: Vec<PasswordHistoryEntry> = Vec::new();
    let mut i: usize = 0;
    while i < v.len()
        invariant
            i <= v@.len(),
            out@.len() == i,
            forall|k: int| 0 <= k < i ==> (#[trigger] out@[k])@ == v@[k]@,
        decreases v@.len() - i,
    {
        out.push(v[i].clone());
        i += 1;
    }
    proof {
        assert(history_views(out@) =~= history_views(v@));
    }
    out
}

/// A stored login.
pub struct Entry {
    pub id: String,
    pub service: String,
    pub username: String,
    pub password: String,
    pub totp_secret: Option<String>,
    pub category: Option<String>,
    pub tags: Vec<String>,
    pub pinned: bool,
    /// Previous passwords of this entry, most recent first.
    pub password_history: Vec<PasswordHistoryEntry>,
}

#[verifier::ext_equal]
pub struct EntryView {
    pub id: Seq<char>,
    pub service: Seq<char>,
    pub username: Seq<char>,
    pub password: Seq<char>,
    pub totp_secret: Option<Seq<char>>,
    pub category: Option<Seq<char>>,
    pub tags: Seq<Seq<char>>,
    pub pinned: bool,
    pub password_history: Seq<HistoryView>,
}

impl View for Entry {
    type V = EntryView;

    open spec fn view(&self) -> EntryView {
        EntryView {
            id: self.id@,
            service: self.service@,
            username: self.username@,
            password: self.password@,
            totp_secret: opt_view(self.totp_secret),
            category: opt_view(self.category),
            tags: views(self.tags@),
            pinned: self.pinned,
            password_history: history_views(self.password_history@),
        }
    }
}

impl Clone for Entry {
    fn clone(&self) -> (res: Self)
        ensures
            res@ == self@,
    {
        Entry {
            id: self.id.clone(),
            service: self.service.clone(),
            username: self.username.clone(),
            password: self.password.clone(),
            totp_secret: copy_opt(&self.totp_secret),
            category: copy_opt(&self.category),
            tags: copy_texts(&self.tags),
            pinned: self.pinned,
            password_history: copy_history(&self.password_history),
        }
    }
}

/// A note kept in the vault.
pub struct SecureNote {
    pub id: String,
    pub title: String,
    pub content: String,
    pub category: Option<String>,
    pub tags: Vec<String>,
}

#[verifier::ext_equal]
pub struct NoteView {
    pub id: Seq<char>,
    pub title: Seq<char>,
    pub content: Seq<char>,
    pub category: Option<Seq<char>>,
    pub tags: Seq<Seq<char>>,
}

impl View for SecureNote {
    type V = NoteView;

    open spec fn view(&self) -> NoteView {
        NoteView {
            id: self.id@,
            title: self.title@,
            content: self.content@,
            category: opt_view(self.category),
            tags: views(self.tags@),
        }
    }
}

impl Clone for SecureNote {
    fn clone(&self) -> (res: Self)
        ensures
            res@ == self@,
    {
        SecureNote {
            id: self.id.clone(),
            title: self.title.clone(),
            content: self.content.clone(),
            category: copy_opt(&self.category),
            tags: copy_texts(&self.tags),
        }
    }
}

/// Everything that one encrypted file holds.
pub struct Vault {
    pub entries: Vec<Entry>,
    pub notes: Vec<SecureNote>,
}

#[verifier::ext_equal]
pub struct VaultView {
    pub entries: Seq<EntryView>,
    pub notes: Seq<NoteView>,
}

/// The entries by their views.
pub open spec fn entry_views(v: Seq<Entry>) -> Seq<EntryView> {
    v.map_values(|e: Entry| e@)
}

/// The notes by their views.
pub open spec fn note_views(v: Seq<SecureNote>) -> Seq<NoteView> {
    v.map_values(|n: SecureNote| n@)
}

impl View for Vault {
    type V = VaultView;

    open spec fn view(&self) -> VaultView {
        VaultView { entries: entry_views(self.entries@), notes: note_views(self.notes@) }
    }
}

/// The vault that holds nothing.
pub open spec fn empty_vault() -> VaultView {
    VaultView { entries: Seq::empty(), notes: Seq::empty() }
}

impl Default for Vault {
    fn default() -> (res: Self)
        ensures
            res@ == empty_vault(),
    {
        let res = Vault { entries: Vec::new(), notes: Vec::new() };
        proof {
            assert(res@ =~= empty_vault());
        }
        res
    }
}

impl Clone for Vault {
    fn clone(&self) -> (res: Self)
        ensures
            res@ == self@,
    {
        let mut entries: Vec<Entry> = Vec::new();
        let mut i: usize = 0;
        while i < self.entries.len()
            invariant
                i <= self.entries@.len(),
                entries@.len() == i,
                forall|k: int| 0 <= k < i ==> (#[trigger] entries@[k])@ == self.entries@[k]@,
            decreases self.entries@.len() - i,
        {
            entries.push(self.entries[i].clone());
            i += 1;
        }
        let mut notes: Vec<SecureNote> = Vec::new();
        let mut j: usize = 0;
        while j < self.notes.len()
            invariant
                j <= self.notes@.len(),
                notes@.len() == j,
                forall|k: int| 0 <= k < j ==> (#[trigger] notes@[k])@ == self.notes@[k]@,
            decreases self.notes@.len() - j,
        {
            notes.push(self.notes[j].clone());
            j += 1;
        }
        let res = Vault { entries, notes };
        proof {
            assert(res@ =~= self@);
        }
        res
    }
}

// ---------------------------------------------------------------------------
// The encrypted file
// ---------------------------------------------------------------------------

/// The contents of an encrypted vault file.
pub struct EncFile {
    pub magic: String,
    pub salt_b64: String,
    pub nonce_b64: String,
    pub cipher_b64: String,
    pub m_cost: u32,
    pub t_cost: u32,
    pub p_cost: u32,
}

#[verifier::ext_equal]
pub struct EncFileView {
    pub magic: Seq<char>,
    pub salt_b64: Seq<char>,
    pub nonce_b64: Seq<char>,
    pub cipher_b64: Seq<char>,
    pub m_cost: u32,
    pub t_cost: u32,
    pub p_cost: u32,
}

impl View for EncFile {
    type V = EncFileView;

    open spec fn view(&self) -> EncFileView {
        EncFileView {
            magic: self.magic@,
            salt_b64: self.salt_b64@,
            nonce_b64: self.nonce_b64@,
            cipher_b64: self.cipher_b64@,
            m_cost: self.m_cost,
            t_cost: self.t_cost,
            p_cost: self.p_cost,
        }
    }
}

// ---------------------------------------------------------------------------
// Errors
// ---------------------------------------------------------------------------

/// What can go wrong when a vault is read, written or decrypted.
#[derive(Debug)]
pub enum VaultError {
    /// Reading or writing a file failed.
    Io(String),
    /// A value could not be turned into JSON or back.
    Serde(String),
    /// The key could not be derived, or encryption failed.
    Crypto(String),
    /// Anything else, in words.
    Msg(String),
}

#[verifier::ext_equal]
pub enum ErrorView {
    Io(Seq<char>),
    Serde(Seq<char>),
    Crypto(Seq<char>),
    Msg(Seq<char>),
}

impl View for VaultError {
    type V = ErrorView;

    open spec fn view(&self) -> ErrorView {
        match self {
            VaultError::Io(s) => ErrorView::Io(s@),
            VaultError::Serde(s) => ErrorView::Serde(s@),
            VaultError::Crypto(s) => ErrorView::Crypto(s@),
            VaultError::Msg(s) => ErrorView::Msg(s@),
        }
    }
}

impl ErrorView {
    /// The error in words, as shown to the user.
    pub open spec fn text(self) -> Seq<char> {
        match self {
            ErrorView::Io(s) => "IO error: "@ + s,
            ErrorView::Serde(s) => "Serialization error: "@ + s,
            ErrorView::Crypto(s) => "Crypto error: "@ + s,
            ErrorView::Msg(s) => s,
        }
    }
}

impl VaultError {
    /// The error in words, as shown to the user.
    pub fn message(&self) -> (res: String)
        ensures
            res@ == self@.text(),
    {
        match self {
            VaultError::Io(s) => "IO error: ".to_string().concat(s.as_str()),
            VaultError::Serde(s) => "Serialization error: ".to_string().concat(s.as_str()),
            VaultError::Crypto(s) => "Crypto error: ".to_string().concat(s.as_str()),
            VaultError::Msg(s) => s.clone(),
        }
    }
}

// ---------------------------------------------------------------------------
// Settings
// ---------------------------------------------------------------------------

/// The user's preferences, kept between runs.
#[derive(Clone, Copy, Debug, PartialEq, Eq, Structural)]
pub struct Settings {
    pub vsync_enabled: bool,
    pub dark_mode: bool,
    pub clipboard_timeout_secs: Option<u64>,
    pub auto_lock_enabled: bool,
    pub auto_lock_timeout_mins: u64,
    pub lock_on_focus_loss: bool,
    pub default_password_length: u32,
    pub gen_use_uppercase: bool,
    pub gen_use_numbers: bool,
    pub gen_use_symbols: bool,
    pub show_passwords: bool,
    pub has_seen_beta_warning: bool,
}

/// The preferences of a user who has set none.
pub open spec fn default_settings() -> Settings {
    Settings {
        vsync_enabled: true,
        dark_mode: true,
        clipboard_timeout_secs: Some(10),
        auto_lock_enabled: false,
        auto_lock_timeout_mins: 5,
        lock_on_focus_loss: false,
        default_password_length: 16,
        gen_use_uppercase: true,
        gen_use_numbers: true,
        gen_use_symbols: true,
        show_passwords: false,
        has_seen_beta_warning: false,
    }
}

impl Default for Settings {
    fn default() -> (res: Self)
        ensures
            res == default_settings(),
    {
        Settings {
            vsync_enabled: true,
            dark_mode: true,
            clipboard_timeout_secs: Some(10),
            auto_lock_enabled: false,
            auto_lock_timeout_mins: 5,
            lock_on_focus_loss: false,
            default_password_length: 16,
            gen_use_uppercase: true,
            gen_use_numbers: true,
            gen_use_symbols: true,
            show_passwords: false,
            has_seen_beta_warning: false,
        }
    }
}

/// The preferences that were read, or the defaults if none could be.
pub fn settings_or_default(read: Option<Settings>) -> (res: Settings)
    ensures
        res == (match read {
            Some(s) => s,
            None => default_settings(),
        }),
{
    match read {
        Some(s) => s,
        None => Settings::default(),
    }
}

// ---------------------------------------------------------------------------
// Laws
// ---------------------------------------------------------------------------

/// The preferences before any were chosen: dark, in step with the display, the
/// clipboard cleared after ten seconds, no locking by itself but five minutes should
/// it be turned on, and passwords of sixteen characters of every kind.
pub proof fn law_default_preferences()
    ensures
        ({
            let s = default_settings();
            &&& s.vsync_enabled && s.dark_mode
            &&& s.clipboard_timeout_secs == Some(10u64)
            &&& !s.auto_lock_enabled && s.auto_lock_timeout_mins == 5
            &&& !s.lock_on_focus_loss
            &&& s.default_password_length == 16
            &&& s.gen_use_uppercase && s.gen_use_numbers && s.gen_use_symbols
            &&& !s.show_passwords && !s.has_seen_beta_warning
        }),
{
}

/// An error tells what kind it is and then its reason; a message stands for itself.
pub proof fn law_errors_in_words(s: Seq<char>)
    ensures
        ErrorView::Io(s).text() == "IO error: "@ + s,
        ErrorView::Serde(s).text() == "Serialization error: "@ + s,
        ErrorView::Crypto(s).text() == "Crypto error: "@ + s,
        ErrorView::Msg(s).text() == s,
{
}

/// The models leave nothing out: every field of an entry, of a note, of a former
/// password and of an encrypted file stands in its view as it is.
pub proof fn law_views_show_every_field(
    e: Entry,
    n: SecureNote,
    h: PasswordHistoryEntry,
    f: EncFile,
    i: int,
)
    ensures
        e@.id == e.id@ && e@.service == e.service@ && e@.username == e.username@ && e@.password
            == e.password@,
        e.totp_secret matches Some(t) ==> e@.totp_secret == Some(t@),
        e.totp_secret is None ==> e@.totp_secret is None,
        e.category matches Some(c) ==> e@.category == Some(c@),
        e.category is None ==> e@.category is None,
        e@.tags.len() == e.tags@.len(),
        0 <= i < e.tags@.len() ==> e@.tags[i] == e.tags@[i]@,
        e@.pinned == e.pinned,
        e@.password_history.len() == e.password_history@.len(),
        0 <= i < e.password_history@.len() ==> e@.password_history[i] == e.password_history@[i]@,
        n@.id == n.id@ && n@.title == n.title@ && n@.content == n.content@,
        n.category matches Some(c) ==> n@.category == Some(c@),
        n.category is None ==> n@.category is None,
        n@.tags.len() == n.tags@.len(),
        0 <= i < n.tags@.len() ==> n@.tags[i] == n.tags@[i]@,
        h@.password == h.password@ && h@.changed_at == h.changed_at,
        f@.magic == f.magic@ && f@.salt_b64 == f.salt_b64@ && f@.nonce_b64 == f.nonce_b64@
            && f@.cipher_b64 == f.cipher_b64@,
        f@.m_cost == f.m_cost && f@.t_cost == f.t_cost && f@.p_cost == f.p_cost,
{
}

/// A vault is seen entry by entry and note by note.
pub proof fn law_vault_view_exact(v: Vault, i: int)
    ensures
        v@.entries.len() == v.entries@.len(),
        0 <= i < v.entries@.len() ==> v@.entries[i] == v.entries@[i]@,
        v@.notes.len() == v.notes@.len(),
        0 <= i < v.notes@.len() ==> v@.notes[i] == v.notes@[i]@,
        empty_vault().entries.len() == 0,
        empty_vault().notes.len() == 0,
{
}

} // verus!

//! What the pages and the dialogs do to the state: adding, editing and deleting,
//! dragging, importing, and managing vaults. Where a file has to be read or
//! written in between, an operation is in two halves.
use crate::crypto::{gen_id, is_id};
use crate::display::{count_badge, count_label};
use crate::fields::{
    kept_secret, lemma_optional_text_settled, optional_field, optional_text, parse_tags,
    secret_field, tag_list,
};
use crate::listing::{
    Query, all_categories, all_note_categories, all_note_tags, all_tags, category_in_use,
    lists_exactly, note_category_in_use, note_tag_in_use, tag_in_use, visible, visible_entries,
    visible_note_places, visible_notes,
};
use crate::modal::{Modal, ModalView};
use crate::model::{
    Entry, EntryView, ErrorView, HistoryView, NoteView, PasswordHistoryEntry, SecureNote,
    VaultError, VaultView, copy_history, entry_views, history_views, note_views, opt_view,
};
use crate::session::{AppState, DropTarget, GuiView, Page, VaultGui};
use crate::text::{append_decimal, decimal, to_lower, trimmed, unicode_lower, views};
use crate::toast::ToastKind;
use crate::vault::{
    clear_history, delete_entries, delete_notes, edit_entry, edit_note, edited, entries_without,
    entry_ids, entry_made, find_entry, first_at, law_edit_takes_the_form, law_history_exact,
    law_move_is_permutation, law_only_named_entry_changes, law_only_named_note_changes,
    law_place_exact, make_entry, make_note, move_entry, moved, note_edited, note_made,
    notes_without, pin_toggled, place_of, remove_former_password, toggle_entry_pin, with_entry,
    with_note, without_former, EntryForm, EntryFormView,
};
use vstd::prelude::*;

verus! {

// ---------------------------------------------------------------------------
// Saving
// ---------------------------------------------------------------------------

/// Why the vault is being saved.
#[derive(Clone, Copy, Debug, PartialEq, Eq, Structural)]
pub enum SaveReason {
    EntryAdded,
    Changed,
    NoteAdded,
    NoteEdited,
    NoteDeleted,
    /// So many items were imported.
    Imported(usize),
}

/// The outcome of writing a file, by its view.
pub open spec fn outcome_view(outcome: Result<(), VaultError>) -> Result<(), ErrorView> {
    match outcome {
        Ok(()) => Ok(()),
        Err(e) => Err(e@),
    }
}

impl GuiView {
    /// The state after the vault was saved.
    pub open spec fn saved(self, reason: SaveReason, now: u64) -> GuiView {
        match reason {
            SaveReason::EntryAdded => self.succeeded("Entry saved successfully."@, now),
            SaveReason::Changed => self.succeeded("Vault updated."@, now),
            SaveReason::NoteAdded => self.succeeded("Note saved."@, now),
            SaveReason::NoteEdited => self.toasted("Note updated."@, ToastKind::Success, now),
            SaveReason::NoteDeleted => self.toasted("Note deleted."@, ToastKind::Info, now),
            SaveReason::Imported(n) => GuiView {
                modal: ModalView::Closed,
                ..self.toasted(
                    "Imported "@ + decimal(n as nat) + " item(s) successfully."@,
                    ToastKind::Success,
                    now,
                )
            },
        }
    }

    /// The state after the attempt to save the vault.
    pub open spec fn save_ended(
        self,
        reason: SaveReason,
        outcome: Result<(), ErrorView>,
        now: u64,
    ) -> GuiView {
        match outcome {
            Ok(()) => self.saved(reason, now),
            Err(e) => self.failed(e, now),
        }
    }
}

impl VaultGui {
    /// Closes the dialog; the secrets in it are wiped.
    pub fn close_modal(&mut self)
        ensures
            final(self)@ == (GuiView { modal: ModalView::Closed, ..old(self)@ }),
    {
        self.modal.zeroize_sensitive();
        self.modal = Modal::Closed;
    }

    /// Takes in what came of saving the vault.
    pub fn finish_save(&mut self, reason: SaveReason, outcome: &Result<(), VaultError>, now: u64)
        ensures
            final(self)@ == old(self)@.save_ended(reason, outcome_view(*outcome), now),
    {
        match outcome {
            Ok(()) => match reason {
                SaveReason::EntryAdded => self.handle_success("Entry saved successfully.", now),
                SaveReason::Changed => self.handle_success("Vault updated.", now),
                SaveReason::NoteAdded => self.handle_success("Note saved.", now),
                SaveReason::NoteEdited => {
                    self.push_toast("Note updated.".to_string(), ToastKind::Success, now);
                },
                SaveReason::NoteDeleted => {
                    self.push_toast("Note deleted.".to_string(), ToastKind::Info, now);
                },
                SaveReason::Imported(n) => {
                    let mut text: String = "Imported ".to_string();
                    append_decimal(&mut text, n as u64);
                    self.push_toast(
                        text.concat(" item(s) successfully."),
                        ToastKind::Success,
                        now,
                    );
                    self.close_modal();
                },
            },
            Err(e) => self.handle_error(e, now),
        }
    }
}

/// A save that failed changes neither the vault nor the dialog, nor the password.
pub proof fn law_failed_save_keeps_state(s: GuiView, reason: SaveReason, e: ErrorView, now: u64)
    ensures
        ({
            let r = s.save_ended(reason, Err(e), now);
            &&& r.vault == s.vault
            &&& r.modal == s.modal
            &&& r.master_password == s.master_password
        }),
{
}

// ---------------------------------------------------------------------------
// Entries
// ---------------------------------------------------------------------------

impl GuiView {
    /// The state with other entries.
    pub open spec fn with_entries(self, entries: Seq<EntryView>) -> GuiView {
        GuiView { vault: VaultView { entries, ..self.vault }, ..self }
    }

    /// The state with other notes.
    pub open spec fn with_notes(self, notes: Seq<NoteView>) -> GuiView {
        GuiView { vault: VaultView { notes, ..self.vault }, ..self }
    }

    /// The state after an entry was to be added: it stands last, unless the service
    /// or the user name is missing.
    pub open spec fn entry_added(self, e: EntryFields, id: Seq<char>, now: u64) -> GuiView {
        if e.service.len() == 0 || e.username.len() == 0 {
            self.toasted("Service and username are required"@, ToastKind::Error, now)
        } else {
            self.with_entries(
                self.vault.entries.push(
                    entry_made(
                        id,
                        e.service,
                        e.username,
                        e.password,
                        e.totp_secret,
                        e.category,
                        e.tags,
                    ),
                ),
            )
        }
    }

    /// The state after the dialog for a new entry was confirmed.
    pub open spec fn add_entry_confirmed(self, id: Seq<char>) -> GuiView {
        match self.modal {
            ModalView::AddEntry {
                service,
                username,
                password,
                totp_secret,
                category,
                tags,
                ..
            } => if self.modal.confirmable() {
                GuiView {
                    modal: ModalView::Closed,
                    ..self.with_entries(
                        self.vault.entries.push(
                            entry_made(
                                id,
                                service,
                                username,
                                password,
                                kept_secret(totp_secret),
                                optional_text(category),
                                tag_list(tags, true),
                            ),
                        ),
                    )
                }
            } else {
                self
            },
            _ => self,
        }
    }

    /// The dialog for a new entry is open and may be confirmed.
    pub open spec fn can_add_entry(self) -> bool {
        self.modal is AddEntry && self.modal.confirmable()
    }

    /// The state after the dialog for editing an entry was confirmed.
    pub open spec fn edit_entry_confirmed(self, unix_now: u64) -> GuiView {
        match self.modal {
            ModalView::EditEntry {
                original_id,
                service,
                username,
                password,
                totp_secret,
                category,
                tags,
                ..
            } => GuiView {
                modal: ModalView::Closed,
                ..self.with_entries(
                    with_entry(
                        self.vault.entries,
                        original_id,
                        |e: EntryView|
                            edited(
                                e,
                                EntryFormView {
                                    service,
                                    username,
                                    password,
                                    totp_secret,
                                    category,
                                    tags,
                                },
                                unix_now,
                            ),
                    ),
                )
            },
            _ => self,
        }
    }

    /// The entry that the dialog edits is in the vault.
    pub open spec fn edits_known_entry(self) -> bool {
        match self.modal {
            ModalView::EditEntry { original_id, .. } => place_of(
                entry_ids(self.vault.entries),
                original_id,
            ) is Some,
            _ => false,
        }
    }
}

/// What an entry is made of.
#[verifier::ext_equal]
pub struct EntryFields {
    pub service: Seq<char>,
    pub username: Seq<char>,
    pub password: Seq<char>,
    pub totp_secret: Option<Seq<char>>,
    pub category: Option<Seq<char>>,
    pub tags: Seq<Seq<char>>,
}

impl VaultGui {
    /// Adds an entry under a given identifier; says whether the vault is to be saved.
    pub fn add_entry_as(
        &mut self,
        id: String,
        service: &String,
        username: &String,
        password: String,
        totp_secret: Option<String>,
        category: &Option<String>,
        tags: Vec<String>,
        now: u64,
    ) -> (save: bool)
        ensures
            final(self)@ == old(self)@.entry_added(
                (EntryFields {
                    service: service@,
                    username: username@,
                    password: password@,
                    totp_secret: opt_view(totp_secret),
                    category: opt_view(*category),
                    tags: views(tags@),
                }),
                id@,
                now,
            ),
            save == (service@.len() > 0 && username@.len() > 0),
    {
        if service.as_str().is_empty() || username.as_str().is_empty() {
            self.push_toast(
                "Service and username are required".to_string(),
                ToastKind::Error,
                now,
            );
            return false;
        }
        let ghost was = self@.vault.entries;
        let entry: Entry = make_entry(
            id,
            service.as_str(),
            username.as_str(),
            password,
            totp_secret,
            category,
            tags,
        );
        let ghost made = entry@;
        self.vault.entries.push(entry);
        proof {
            assert(entry_views(self.vault.entries@) =~= was.push(made));
        }
        true
    }

    /// Confirms the dialog for a new entry, under a given identifier; says whether
    /// the vault is to be saved.
    pub fn confirm_add_entry_as(&mut self, id: String, now: u64) -> (save: bool)
        ensures
            final(self)@ == old(self)@.add_entry_confirmed(id@),
            save == old(self)@.can_add_entry(),
    {
        if !self.modal.can_confirm() {
            return false;
        }
        let filled: Option<
            (String, String, String, Option<String>, Option<String>, Vec<String>),
        > = match &self.modal {
            Modal::AddEntry {
                service,
                username,
                password,
                totp_secret,
                category,
                tags,
                ..
            } => Some(
                (
                    service.clone(),
                    username.clone(),
                    password.clone(),
                    secret_field(totp_secret.as_str()),
                    optional_field(category.as_str()),
                    parse_tags(tags.as_str(), true),
                ),
            ),
            _ => None,
        };
        match filled {
            Some((service, username, password, secret, category, tags)) => {
                let ghost c = opt_view(category);
                self.close_modal();
                let _added: bool = self.add_entry_as(
                    id,
                    &service,
                    &username,
                    password,
                    secret,
                    &category,
                    tags,
                    now,
                );
                proof {
                    if c is Some {
                        lemma_optional_text_settled(old(self)@.modal->AddEntry_category);
                    }
                }
                true
            },
            None => false,
        }
    }

    /// Confirms the dialog for a new entry; says whether the vault is to be saved.
    pub fn confirm_add_entry(&mut self, now: u64) -> (save: bool)
        ensures
            save == old(self)@.can_add_entry(),
            exists|id: Seq<char>|
                is_id(id) && final(self)@ == #[trigger] old(self)@.add_entry_confirmed(id),
    {
        let id: String = gen_id();
        self.confirm_add_entry_as(id, now)
    }

    /// Confirms the dialog for editing an entry; says whether the vault is to be
    /// saved.
    pub fn confirm_edit_entry(&mut self, unix_now: u64) -> (save: bool)
        ensures
            final(self)@ == old(self)@.edit_entry_confirmed(unix_now),
            save == old(self)@.edits_known_entry(),
    {
        let ghost was = self@.vault.entries;
        let mut editing: bool = false;
        let mut found: bool = false;
        match &self.modal {
            Modal::EditEntry {
                original_id,
                service,
                username,
                password,
                totp_secret,
                category,
                tags,
                ..
            } => {
                editing = true;
                let form = EntryForm { service, username, password, totp_secret, category, tags };
                found = edit_entry(&mut self.vault.entries, original_id, &form, unix_now);
                proof {
                    let v = form@;
                    assert(with_entry(was, original_id@, |e: EntryView| edited(e, v, unix_now))
                        == entry_views(self.vault.entries@));
                }
            },
            _ => {},
        }
        if editing {
            self.close_modal();
        }
        found
    }

    /// Pins an entry, or unpins it.
    pub fn toggle_pin(&mut self, id: &String)
        ensures
            final(self)@ == old(self)@.with_entries(
                with_entry(old(self)@.vault.entries, id@, |e: EntryView| pin_toggled(e)),
            ),
    {
        toggle_entry_pin(&mut self.vault.entries, id);
    }

    /// Deletes an entry.
    pub fn delete_entry(&mut self, id: &String)
        ensures
            final(self)@ == old(self)@.with_entries(
                entries_without(old(self)@.vault.entries, id@),
            ),
    {
        delete_entries(&mut self.vault.entries, id);
    }

    /// The places of the entries that the password page shows.
    pub fn shown_entries(&self) -> (res: Vec<usize>)
        ensures
            res@ == visible(
                self@.vault.entries,
                (Query {
                    search: self@.search_query,
                    category: self@.active_category_filter,
                    tag: self@.active_tag_filter,
                }),
                self@.drag_source is Some,
            ),
    {
        visible_entries(
            &self.vault.entries,
            self.search_query.as_str(),
            &self.active_category_filter,
            &self.active_tag_filter,
            self.drag_source.is_some(),
        )
    }
}

/// Confirming the dialog for a new entry adds exactly one entry behind the others.
pub proof fn law_add_entry_adds_one(s: GuiView, id: Seq<char>)
    requires
        s.can_add_entry(),
    ensures
        s.add_entry_confirmed(id).vault.entries.drop_last() == s.vault.entries,
        s.add_entry_confirmed(id).vault.entries.last().id == id,
        s.add_entry_confirmed(id).vault.notes == s.vault.notes,
        s.add_entry_confirmed(id).modal is Closed,
{
    assert(s.add_entry_confirmed(id).vault.entries.drop_last() =~= s.vault.entries);
}

// ---------------------------------------------------------------------------
// Dragging
// ---------------------------------------------------------------------------

/// The place that a drop target stands for: none for the end of the list.
pub open spec fn target_place(t: Option<DropTarget>) -> Option<int> {
    match t {
        Some(DropTarget::Before(i)) => Some(i as int),
        Some(DropTarget::End) => None,
        None => None,
    }
}

impl GuiView {
    /// The state at the start of a frame: while an entry is dragged, its target is
    /// picked anew.
    pub open spec fn drag_frame_started(self) -> GuiView {
        if self.drag_source is Some {
            GuiView { drag_target: None, ..self }
        } else {
            self
        }
    }

    /// The state after a card was passed from top to bottom: the first card whose
    /// middle lies below the pointer, other than the dragged one, is the target.
    pub open spec fn card_passed(self, place: usize, pointer_above_middle: bool) -> GuiView {
        if self.drag_source is Some && self.drag_source != Some(place) && pointer_above_middle
            && self.drag_target is None {
            GuiView { drag_target: Some(DropTarget::Before(place)), ..self }
        } else {
            self
        }
    }

    /// The state after all cards were passed: below all of them lies the end.
    pub open spec fn cards_passed(self, any_shown: bool) -> GuiView {
        if self.drag_source is Some && self.drag_target is None && any_shown {
            GuiView { drag_target: Some(DropTarget::End), ..self }
        } else {
            self
        }
    }

    /// The dragged entry is in the vault, so that dropping it is a change.
    pub open spec fn drop_counts(self) -> bool {
        self.drag_source is Some && self.drag_source.unwrap() < self.vault.entries.len()
    }

    /// The state after the dragged entry was dropped.
    pub open spec fn dropped(self) -> GuiView {
        let entries = match self.drag_source {
            Some(src) => moved(
                self.vault.entries,
                src as int,
                target_place(self.drag_target),
            ),
            None => self.vault.entries,
        };
        GuiView { drag_source: None, drag_target: None, ..self.with_entries(entries) }
    }
}

impl VaultGui {
    /// Starts to drag the entry at a place of the vault.
    pub fn begin_drag(&mut self, place: usize)
        ensures
            final(self)@ == (GuiView { drag_source: Some(place), ..old(self)@ }),
    {
        self.drag_source = Some(place);
    }

    /// Starts a frame: the target is picked anew.
    pub fn start_drag_frame(&mut self)
        ensures
            final(self)@ == old(self)@.drag_frame_started(),
    {
        if self.drag_source.is_some() {
            self.drag_target = None;
        }
    }

    /// Passes a card, from top to bottom.
    pub fn pass_card(&mut self, place: usize, pointer_above_middle: bool)
        ensures
            final(self)@ == old(self)@.card_passed(place, pointer_above_middle),
    {
        match self.drag_source {
            Some(src) => {
                if src != place && pointer_above_middle && self.drag_target.is_none() {
                    self.drag_target = Some(DropTarget::Before(place));
                }
            },
            None => {},
        }
    }

    /// Notes that all cards were passed.
    pub fn end_drag_frame(&mut self, any_shown: bool)
        ensures
            final(self)@ == old(self)@.cards_passed(any_shown),
    {
        if self.drag_source.is_some() && self.drag_target.is_none() && any_shown {
            self.drag_target = Some(DropTarget::End);
        }
    }

    /// Drops the dragged entry; says whether the vault is to be saved.
    pub fn drop_dragged(&mut self) -> (save: bool)
        ensures
            final(self)@ == old(self)@.dropped(),
            save == old(self)@.drop_counts(),
    {
        let target: Option<usize> = match self.drag_target {
            Some(DropTarget::Before(i)) => Some(i),
            Some(DropTarget::End) => None,
            None => None,
        };
        let mut save: bool = false;
        match self.drag_source {
            Some(src) => {
                proof {
                    assert(self@.vault.entries.len() == self.vault.entries@.len());
                }
                save = src < self.vault.entries.len();
                move_entry(&mut self.vault.entries, src, target);
            },
            None => {},
        }
        self.drag_source = None;
        self.drag_target = None;
        save
    }
}

/// A drop reorders the entries: none is lost, none added, and nothing is dragged
/// any more.
pub proof fn law_drop_reorders(s: GuiView)
    ensures
        s.dropped().vault.entries.to_multiset() == s.vault.entries.to_multiset(),
        s.dropped().vault.notes == s.vault.notes,
        s.dropped().drag_source is None,
        s.dropped().drag_target is None,
{
    if s.drag_source is Some {
        law_move_is_permutation(
            s.vault.entries,
            s.drag_source.unwrap() as int,
            target_place(s.drag_target),
        );
    }
}

// ---------------------------------------------------------------------------
// Password history
// ---------------------------------------------------------------------------

impl GuiView {
    /// The entry whose history is shown.
    pub open spec fn history_id(self) -> Option<Seq<char>> {
        match self.modal {
            ModalView::PasswordHistory { entry_id } => Some(entry_id),
            _ => None,
        }
    }

    /// The history that is shown: empty if the entry is gone.
    pub open spec fn shown_history(self) -> Seq<HistoryView> {
        match self.history_id() {
            Some(id) => match place_of(entry_ids(self.vault.entries), id) {
                Some(i) => self.vault.entries[i].password_history,
                None => Seq::empty(),
            },
            None => Seq::empty(),
        }
    }

    /// The title of the history dialog.
    pub open spec fn history_title(self) -> Seq<char> {
        "Password History — "@ + (match self.history_id() {
            Some(id) => match place_of(entry_ids(self.vault.entries), id) {
                Some(i) => self.vault.entries[i].service,
                None => "Entry"@,
            },
            None => "Entry"@,
        })
    }

    /// The state after the history that is shown was cleared.
    pub open spec fn history_cleared(self) -> GuiView {
        match self.history_id() {
            Some(id) => GuiView {
                modal: ModalView::Closed,
                ..self.with_entries(
                    with_entry(
                        self.vault.entries,
                        id,
                        |e: EntryView| (EntryView { password_history: Seq::empty(), ..e }),
                    ),
                )
            },
            None => self,
        }
    }

    /// The state after one former password was removed from the history that is
    /// shown.
    pub open spec fn former_removed(self, k: int) -> GuiView {
        match self.history_id() {
            Some(id) => self.with_entries(
                with_entry(self.vault.entries, id, |e: EntryView| without_former(e, k)),
            ),
            None => self,
        }
    }
}

impl VaultGui {
    fn shown_history_id(&self) -> (res: Option<String>)
        ensures
            opt_view(res) == self@.history_id(),
    {
        match &self.modal {
            Modal::PasswordHistory { entry_id } => Some(entry_id.clone()),
            _ => None,
        }
    }

    /// The title and the former passwords that the history dialog shows.
    pub fn history_content(&self) -> (res: (String, Vec<PasswordHistoryEntry>))
        ensures
            res.0@ == self@.history_title(),
            history_views(res.1@) == self@.shown_history(),
    {
        let prefix: String = "Password History — ".to_string();
        match self.shown_history_id() {
            Some(id) => match find_entry(&self.vault.entries, &id) {
                Some(i) => {
                    proof {
                        assert(self@.vault.entries[i as int] == self.vault.entries@[i as int]@);
                    }
                    (
                        prefix.concat(self.vault.entries[i].service.as_str()),
                        copy_history(&self.vault.entries[i].password_history),
                    )
                },
                None => {
                    let none: Vec<PasswordHistoryEntry> = Vec::new();
                    proof {
                        assert(history_views(none@) =~= Seq::empty());
                    }
                    (prefix.concat("Entry"), none)
                },
            },
            None => {
                let none: Vec<PasswordHistoryEntry> = Vec::new();
                proof {
                    assert(history_views(none@) =~= Seq::empty());
                }
                (prefix.concat("Entry"), none)
            },
        }
    }

    /// Clears the history that is shown; says whether the vault is to be saved.
    pub fn clear_shown_history(&mut self) -> (save: bool)
        ensures
            final(self)@ == old(self)@.history_cleared(),
            save == (old(self)@.history_id() is Some),
    {
        match self.shown_history_id() {
            Some(id) => {
                clear_history(&mut self.vault.entries, &id);
                self.close_modal();
                true
            },
            None => false,
        }
    }

    /// Removes one former password from the history that is shown; says whether
    /// the vault is to be saved.
    pub fn remove_shown_former(&mut self, k: usize) -> (save: bool)
        ensures
            final(self)@ == old(self)@.former_removed(k as int),
            save == (old(self)@.history_id() is Some),
    {
        match self.shown_history_id() {
            Some(id) => {
                remove_former_password(&mut self.vault.entries, &id, k);
                true
            },
            None => false,
        }
    }
}

// ---------------------------------------------------------------------------
// Notes
// ---------------------------------------------------------------------------

impl GuiView {
    /// The state after a note was to be added: it stands last, unless the title is
    /// missing.
    pub open spec fn note_added(
        self,
        id: Seq<char>,
        title: Seq<char>,
        content: Seq<char>,
        category: Option<Seq<char>>,
        tags: Seq<Seq<char>>,
        now: u64,
    ) -> GuiView {
        if title.len() == 0 {
            self.toasted("Title is required"@, ToastKind::Error, now)
        } else {
            self.with_notes(
                self.vault.notes.push(note_made(id, title, content, category, tags)),
            )
        }
    }

    /// The state after the dialog for a new note was confirmed.
    pub open spec fn add_note_confirmed(self, id: Seq<char>) -> GuiView {
        match self.modal {
            ModalView::AddNote { title, content, category, tags } => if self.modal.confirmable() {
                GuiView {
                    modal: ModalView::Closed,
                    ..self.with_notes(
                        self.vault.notes.push(
                            note_made(
                                id,
                                title,
                                content,
                                optional_text(category),
                                tag_list(tags, false),
                            ),
                        ),
                    )
                }
            } else {
                self
            },
            _ => self,
        }
    }

    /// The state after the dialog for editing a note was confirmed.
    pub open spec fn edit_note_confirmed(self) -> GuiView {
        match self.modal {
            ModalView::EditNote {
                original_id,
                title,
                content,
                category,
                tags,
            } => if self.modal.confirmable() {
                GuiView {
                    modal: ModalView::Closed,
                    ..self.with_notes(
                        with_note(
                            self.vault.notes,
                            original_id,
                            |n: NoteView| note_edited(n, title, content, category, tags),
                        ),
                    )
                }
            } else {
                self
            },
            _ => self,
        }
    }
}

impl VaultGui {
    /// Adds a note under a given identifier; says whether the vault is to be saved.
    pub fn add_note_as(
        &mut self,
        id: String,
        title: &String,
        content: String,
        category: &Option<String>,
        tags: Vec<String>,
        now: u64,
    ) -> (save: bool)
        ensures
            final(self)@ == old(self)@.note_added(
                id@,
                title@,
                content@,
                opt_view(*category),
                views(tags@),
                now,
            ),
            save == (title@.len() > 0),
    {
        if title.as_str().is_empty() {
            self.push_toast("Title is required".to_string(), ToastKind::Error, now);
            return false;
        }
        let ghost was = self@.vault.notes;
        let note: SecureNote = make_note(id, title.as_str(), content, category, tags);
        let ghost made = note@;
        self.vault.notes.push(note);
        proof {
            assert(note_views(self.vault.notes@) =~= was.push(made));
        }
        true
    }

    /// Confirms the dialog for a new note, under a given identifier; says whether
    /// the vault is to be saved.
    pub fn confirm_add_note_as(&mut self, id: String, now: u64) -> (save: bool)
        ensures
            final(self)@ == old(self)@.add_note_confirmed(id@),
            save == (old(self)@.modal is AddNote && old(self)@.modal.confirmable()),
    {
        if !self.modal.can_confirm() {
            return false;
        }
        let filled: Option<(String, String, Option<String>, Vec<String>)> = match &self.modal {
            Modal::AddNote { title, content, category, tags } => Some(
                (
                    title.clone(),
                    content.clone(),
                    optional_field(category.as_str()),
                    parse_tags(tags.as_str(), false),
                ),
            ),
            _ => None,
        };
        match filled {
            Some((title, content, category, tags)) => {
                self.close_modal();
                let _added: bool = self.add_note_as(id, &title, content, &category, tags, now);
                proof {
                    lemma_optional_text_settled(old(self)@.modal->AddNote_category);
                }
                true
            },
            None => false,
        }
    }

    /// Confirms the dialog for a new note; says whether the vault is to be saved.
    pub fn confirm_add_note(&mut self, now: u64) -> (save: bool)
        ensures
            save == (old(self)@.modal is AddNote && old(self)@.modal.confirmable()),
            exists|id: Seq<char>|
                is_id(id) && final(self)@ == #[trigger] old(self)@.add_note_confirmed(id),
    {
        let id: String = gen_id();
        self.confirm_add_note_as(id, now)
    }

    /// Confirms the dialog for editing a note; says whether the vault is to be saved.
    pub fn confirm_edit_note(&mut self) -> (save: bool)
        ensures
            final(self)@ == old(self)@.edit_note_confirmed(),
            save == (old(self)@.modal is EditNote && old(self)@.modal.confirmable()),
    {
        if !self.modal.can_confirm() {
            return false;
        }
        let mut editing: bool = false;
        match &self.modal {
            Modal::EditNote { original_id, title, content, category, tags } => {
                editing = true;
                edit_note(&mut self.vault.notes, original_id, title, content, category, tags);
            },
            _ => {},
        }
        if editing {
            self.close_modal();
        }
        editing
    }

    /// Deletes a note.
    pub fn delete_note(&mut self, id: &String)
        ensures
            final(self)@ == old(self)@.with_notes(notes_without(old(self)@.vault.notes, id@)),
    {
        delete_notes(&mut self.vault.notes, id);
    }

    /// The places of the notes that the notes page shows.
    pub fn shown_notes(&self) -> (res: Vec<usize>)
        ensures
            res@ == visible_note_places(
                self@.vault.notes,
                self@.active_note_category_filter,
                self@.active_note_tag_filter,
            ),
    {
        visible_notes(
            &self.vault.notes,
            &self.active_note_category_filter,
            &self.active_note_tag_filter,
        )
    }

    /// The badge of the notes page: how many notes there are, and how many of them
    /// are shown if a filter is set.
    pub fn notes_badge(&self) -> (res: String)
        ensures
            res@ == count_badge(
                self@.category_filter(Page::Notes) is Some || self@.tag_filter(Page::Notes) is Some,
                visible_note_places(
                    self@.vault.notes,
                    self@.active_note_category_filter,
                    self@.active_note_tag_filter,
                ).len(),
                self@.vault.notes.len(),
            ),
    {
        let shown: Vec<usize> = self.shown_notes();
        proof {
            assert(self@.vault.notes.len() == self.vault.notes@.len());
        }
        count_label(self.is_filtered(Page::Notes), shown.len(), self.vault.notes.len())
    }
}

// ---------------------------------------------------------------------------
// The sidebar
// ---------------------------------------------------------------------------

/// The filters that the sidebar offers.
pub struct SidebarFilters {
    pub page: Page,
    pub categories: Vec<String>,
    pub tags: Vec<String>,
}

impl GuiView {
    /// Some entry has a category that is not empty.
    pub open spec fn has_categories(self) -> bool {
        exists|t: Seq<char>| #[trigger] category_in_use(self.vault.entries, t)
    }

    /// Some note has a category or a tag that is not empty.
    pub open spec fn has_note_labels(self) -> bool {
        ||| exists|t: Seq<char>| #[trigger] note_category_in_use(self.vault.notes, t)
        ||| exists|t: Seq<char>| #[trigger] note_tag_in_use(self.vault.notes, t)
    }
}

impl VaultGui {
    /// Whether a search text was typed.
    pub fn is_searching(&self) -> (res: bool)
        ensures
            res == (unicode_lower(self@.search_query).len() > 0),
    {
        let lower: String = to_lower(self.search_query.as_str());
        !lower.as_str().is_empty()
    }

    /// The filters that the sidebar offers: on the password page once a category is
    /// in use, on the notes page once a category or a tag is.
    pub fn sidebar_filters(&self) -> (res: Option<SidebarFilters>)
        ensures
            match res {
                Some(f) => match f.page {
                    Page::Entries => {
                        &&& self@.state == AppState::Unlocked
                        &&& self@.has_categories()
                        &&& lists_exactly(
                            views(f.categories@),
                            |t: Seq<char>| category_in_use(self@.vault.entries, t),
                        )
                        &&& lists_exactly(
                            views(f.tags@),
                            |t: Seq<char>| tag_in_use(self@.vault.entries, t),
                        )
                    },
                    Page::Notes => {
                        &&& self@.state == AppState::Notes
                        &&& self@.has_note_labels()
                        &&& lists_exactly(
                            views(f.categories@),
                            |t: Seq<char>| note_category_in_use(self@.vault.notes, t),
                        )
                        &&& lists_exactly(
                            views(f.tags@),
                            |t: Seq<char>| note_tag_in_use(self@.vault.notes, t),
                        )
                    },
                },
                None => !(self@.state == AppState::Unlocked && self@.has_categories()) && !(
                self@.state == AppState::Notes && self@.has_note_labels()),
            },
    {
        match self.state {
            AppState::Unlocked => {
                let categories: Vec<String> = all_categories(&self.vault.entries);
                let tags: Vec<String> = all_tags(&self.vault.entries);
                proof {
                    let p = |t: Seq<char>| category_in_use(self@.vault.entries, t);
                    lemma_listing_empty(views(categories@), p);
                    assert(forall|t: Seq<char>|
                        #[trigger] category_in_use(self@.vault.entries, t) == p(t));
                    if self@.has_categories() {
                        let t = choose|t: Seq<char>| category_in_use(self@.vault.entries, t);
                        assert(p(t));
                    }
                }
                if categories.len() > 0 {
                    Some(SidebarFilters { page: Page::Entries, categories, tags })
                } else {
                    None
                }
            },
            AppState::Notes => {
                let categories: Vec<String> = all_note_categories(&self.vault.notes);
                let tags: Vec<String> = all_note_tags(&self.vault.notes);
                proof {
                    let p = |t: Seq<char>| note_category_in_use(self@.vault.notes, t);
                    let q = |t: Seq<char>| note_tag_in_use(self@.vault.notes, t);
                    lemma_listing_empty(views(categories@), p);
                    lemma_listing_empty(views(tags@), q);
                    assert(forall|t: Seq<char>|
                        #[trigger] note_category_in_use(self@.vault.notes, t) == p(t));
                    assert(forall|t: Seq<char>|
                        #[trigger] note_tag_in_use(self@.vault.notes, t) == q(t));
                    if exists|t: Seq<char>| #[trigger] p(t) {
                        let t = choose|t: Seq<char>| #[trigger] p(t);
                        assert(note_category_in_use(self@.vault.notes, t));
                    }
                    if exists|t: Seq<char>| #[trigger] q(t) {
                        let t = choose|t: Seq<char>| #[trigger] q(t);
                        assert(note_tag_in_use(self@.vault.notes, t));
                    }
                }
                if categories.len() > 0 || tags.len() > 0 {
                    Some(SidebarFilters { page: Page::Notes, categories, tags })
                } else {
                    None
                }
            },
            _ => None,
        }
    }
}

proof fn lemma_listing_empty(list: Seq<Seq<char>>, wanted: spec_fn(Seq<char>) -> bool)
    requires
        lists_exactly(list, wanted),
    ensures
        list.len() > 0 <==> exists|t: Seq<char>| #[trigger] wanted(t),
{
    if list.len() > 0 {
        assert(list.contains(list[0]));
        assert(wanted(list[0]));
    }
}

// ---------------------------------------------------------------------------
// Laws of the pages
// ---------------------------------------------------------------------------

/// A save that succeeded is told in the words for what was done; one that failed is
/// told as the error it is. An import that was saved closes its dialog.
pub proof fn law_save_told_exact(s: GuiView, n: usize, e: ErrorView, reason: SaveReason, now: u64)
    ensures
        s.save_ended(reason, Err(e), now) == s.failed(e, now),
        s.save_ended(SaveReason::EntryAdded, Ok(()), now) == s.succeeded(
            "Entry saved successfully."@,
            now,
        ),
        s.save_ended(SaveReason::Changed, Ok(()), now) == s.succeeded("Vault updated."@, now),
        s.save_ended(SaveReason::NoteAdded, Ok(()), now) == s.succeeded("Note saved."@, now),
        s.save_ended(SaveReason::NoteEdited, Ok(()), now) == s.toasted(
            "Note updated."@,
            ToastKind::Success,
            now,
        ),
        s.save_ended(SaveReason::NoteDeleted, Ok(()), now) == s.toasted(
            "Note deleted."@,
            ToastKind::Info,
            now,
        ),
        s.save_ended(SaveReason::Imported(n), Ok(()), now) == (GuiView {
            modal: ModalView::Closed,
            ..s.toasted(
                "Imported "@ + decimal(n as nat) + " item(s) successfully."@,
                ToastKind::Success,
                now,
            )
        }),
{
}

/// Confirming the dialog for a new entry adds one at the end, with what was typed in
/// it, and closes the dialog; nothing else changes.
pub proof fn law_added_entry_exact(s: GuiView, id: Seq<char>)
    ensures
        s.modal matches ModalView::AddEntry {
            service,
            username,
            password,
            totp_secret,
            category,
            tags,
            ..
        } ==> {
            let r = s.add_entry_confirmed(id);
            let e = r.vault.entries.last();
            &&& service.len() > 0 && username.len() > 0 ==> {
                &&& r.vault.entries.drop_last() == s.vault.entries
                &&& r.vault.entries.len() == s.vault.entries.len() + 1
                &&& e.id == id && e.service == trimmed(service) && e.username == trimmed(username)
                &&& e.password == password && e.totp_secret == kept_secret(totp_secret)
                &&& e.category == optional_text(category) && e.tags == tag_list(tags, true)
                &&& !e.pinned && e.password_history.len() == 0
                &&& r.modal is Closed && r.vault.notes == s.vault.notes
                &&& r == (GuiView { vault: r.vault, modal: r.modal, ..s })
            }
            &&& service.len() == 0 || username.len() == 0 ==> r == s
            &&& s.can_add_entry() <==> service.len() > 0 && username.len() > 0
        },
        !(s.modal is AddEntry) ==> s.add_entry_confirmed(id) == s && !s.can_add_entry(),
{
    if let ModalView::AddEntry { category, .. } = s.modal {
        lemma_optional_text_settled(category);
        if s.can_add_entry() {
            assert(s.add_entry_confirmed(id).vault.entries.drop_last() =~= s.vault.entries);
        }
    }
}

/// An entry given outright is added at the end if it has a service and a user name;
/// otherwise that is told and nothing is added.
pub proof fn law_given_entry_exact(s: GuiView, e: EntryFields, id: Seq<char>, now: u64)
    ensures
        ({
            let r = s.entry_added(e, id, now);
            let made = r.vault.entries.last();
            &&& e.service.len() == 0 || e.username.len() == 0 ==> r == s.toasted(
                "Service and username are required"@,
                ToastKind::Error,
                now,
            )
            &&& e.service.len() > 0 && e.username.len() > 0 ==> {
                &&& r.vault.entries.drop_last() == s.vault.entries
                &&& made.id == id && made.service == trimmed(e.service)
                &&& made.username == trimmed(e.username) && made.password == e.password
                &&& made.totp_secret == e.totp_secret && made.tags == e.tags
                &&& r == (GuiView {
                    vault: (VaultView { entries: r.vault.entries, ..s.vault }),
                    ..s
                })
            }
        }),
{
    if e.service.len() > 0 && e.username.len() > 0 {
        assert(s.entry_added(e, id, now).vault.entries.drop_last() =~= s.vault.entries);
    }
}

/// Confirming the dialog for an edit puts its fields into the entry it was opened for
/// and into no other, and closes the dialog; nothing else changes.
pub proof fn law_edited_entry_exact(s: GuiView, unix_now: u64, i: int)
    requires
        0 <= i < s.vault.entries.len(),
    ensures
        s.modal matches ModalView::EditEntry {
            original_id,
            service,
            username,
            password,
            totp_secret,
            category,
            tags,
            ..
        } ==> {
            let r = s.edit_entry_confirmed(unix_now);
            let was = s.vault.entries[i];
            let e = r.vault.entries[i];
            &&& was.id != original_id ==> e == was
            &&& was.id == original_id && (forall|j: int|
                0 <= j < i ==> (#[trigger] s.vault.entries[j]).id != original_id) ==> {
                &&& e.id == was.id && e.pinned == was.pinned
                &&& e.service == service && e.username == username && e.password == password
                &&& e.totp_secret == kept_secret(totp_secret)
                &&& e.category == optional_text(category) && e.tags == tag_list(tags, true)
                &&& was.password.len() > 0 && was.password != password
                    ==> e.password_history.len() > 0 && e.password_history[0].password
                    == was.password && e.password_history[0].changed_at == unix_now
                &&& was.password == password ==> e.password_history == was.password_history
            }
            &&& r.vault.entries.len() == s.vault.entries.len()
            &&& r.modal is Closed && r.vault.notes == s.vault.notes
            &&& r == (GuiView { vault: r.vault, modal: r.modal, ..s })
        },
        !(s.modal is EditEntry) ==> s.edit_entry_confirmed(unix_now) == s,
{
    if let ModalView::EditEntry {
        original_id,
        service,
        username,
        password,
        totp_secret,
        category,
        tags,
        ..
    } = s.modal {
        let form = EntryFormView { service, username, password, totp_secret, category, tags };
        let f = |e: EntryView| edited(e, form, unix_now);
        law_only_named_entry_changes(s.vault.entries, original_id, f, i);
        law_edit_takes_the_form(s.vault.entries[i], form, unix_now);
        law_history_exact(s.vault.entries[i], form, unix_now, 0);
        assert(s.edit_entry_confirmed(unix_now).vault.entries == with_entry(
            s.vault.entries,
            original_id,
            f,
        ));
    }
}

/// An edit is worth saving exactly if the entry it was opened for is still there.
pub proof fn law_edit_saved_exactly(s: GuiView, i: int)
    ensures
        s.modal matches ModalView::EditEntry { original_id, .. } ==> {
            &&& 0 <= i < s.vault.entries.len() && s.vault.entries[i].id == original_id
                ==> s.edits_known_entry()
            &&& (forall|j: int|
                0 <= j < s.vault.entries.len() ==> (#[trigger] s.vault.entries[j]).id
                    != original_id) ==> !s.edits_known_entry()
        },
        !(s.modal is EditEntry) ==> !s.edits_known_entry(),
{
    if let ModalView::EditEntry { original_id, .. } = s.modal {
        let ids = entry_ids(s.vault.entries);
        if 0 <= i < s.vault.entries.len() && s.vault.entries[i].id == original_id {
            assert(ids[i] == original_id);
            law_place_exact(ids, original_id, i);
        }
        if s.edits_known_entry() {
            let p = choose|p: int| first_at(ids, original_id, p);
            assert(first_at(ids, original_id, p));
            assert(s.vault.entries[p].id == original_id);
        }
    }
}

/// A change to the entries keeps the notes and everything else, and the other way
/// round.
pub proof fn law_parts_of_the_vault_exact(s: GuiView, entries: Seq<EntryView>, notes: Seq<NoteView>)
    ensures
        s.with_entries(entries).vault.entries == entries,
        s.with_entries(entries).vault.notes == s.vault.notes,
        s.with_entries(entries) == (GuiView { vault: s.with_entries(entries).vault, ..s }),
        s.with_notes(notes).vault.notes == notes,
        s.with_notes(notes).vault.entries == s.vault.entries,
        s.with_notes(notes) == (GuiView { vault: s.with_notes(notes).vault, ..s }),
{
}

/// While an entry is dragged, the target is the first other card whose middle lies
/// below the pointer, and the end of the list if there is none; it is sought anew in
/// every frame. Without a drag nothing is sought.
pub proof fn law_drag_target_exact(s: GuiView, place: usize, above: bool, any: bool)
    ensures
        s.drag_source is None ==> s.drag_frame_started() == s && s.card_passed(place, above) == s
            && s.cards_passed(any) == s,
        s.drag_source is Some ==> s.drag_frame_started() == (GuiView { drag_target: None, ..s }),
        s.drag_source matches Some(src) ==> s.card_passed(place, above) == (if src != place && above
            && s.drag_target is None {
            GuiView { drag_target: Some(DropTarget::Before(place)), ..s }
        } else {
            s
        }),
        s.drag_source is Some ==> s.cards_passed(any) == (if any && s.drag_target is None {
            GuiView { drag_target: Some(DropTarget::End), ..s }
        } else {
            s
        }),
{
}

/// Letting go moves the dragged entry right before the target, or to the end, and the
/// drag is over; it is worth saving exactly if there was such an entry.
pub proof fn law_drop_exact(s: GuiView, src: usize, tgt: usize)
    ensures
        ({
            let r = s.dropped();
            &&& r.drag_source is None && r.drag_target is None
            &&& r == (GuiView {
                vault: (VaultView { entries: r.vault.entries, ..s.vault }),
                drag_source: None,
                drag_target: None,
                ..s
            })
            &&& s.drag_source is None ==> r.vault.entries == s.vault.entries
            &&& s.drag_source == Some(src) && s.drag_target == Some(DropTarget::Before(tgt))
                ==> r.vault.entries == moved(s.vault.entries, src as int, Some(tgt as int))
            &&& s.drag_source == Some(src) && (s.drag_target == Some(DropTarget::End)
                || s.drag_target is None) ==> r.vault.entries == moved(
                s.vault.entries,
                src as int,
                None,
            )
            &&& s.drop_counts() <==> (s.drag_source matches Some(d) && d < s.vault.entries.len())
        }),
{
}

/// The history dialog shows the former passwords of the entry it was opened for, under
/// the name of its service; clearing empties them and closes the dialog, removing one
/// takes out that one and leaves the dialog open. No other entry changes.
pub proof fn law_history_dialog_exact(s: GuiView, i: int, m: int, k: int)
    requires
        0 <= i < s.vault.entries.len(),
        s.modal == (ModalView::PasswordHistory { entry_id: s.vault.entries[i].id }),
        forall|j: int|
            0 <= j < i ==> (#[trigger] s.vault.entries[j]).id != s.vault.entries[i].id,
        0 <= m < s.vault.entries.len(),
    ensures
        s.shown_history() == s.vault.entries[i].password_history,
        s.history_title() == "Password History — "@ + s.vault.entries[i].service,
        s.history_cleared().modal is Closed,
        s.history_cleared().vault.entries.len() == s.vault.entries.len(),
        s.history_cleared().vault.entries[i] == (EntryView {
            password_history: Seq::empty(),
            ..s.vault.entries[i]
        }),
        s.vault.entries[m].id != s.vault.entries[i].id ==> s.history_cleared().vault.entries[m]
            == s.vault.entries[m],
        s.former_removed(k).modal == s.modal,
        s.former_removed(k).vault.entries.len() == s.vault.entries.len(),
        s.former_removed(k).vault.entries[i] == without_former(s.vault.entries[i], k),
        s.vault.entries[m].id != s.vault.entries[i].id ==> s.former_removed(k).vault.entries[m]
            == s.vault.entries[m],
{
    let id = s.vault.entries[i].id;
    let ids = entry_ids(s.vault.entries);
    assert(ids[i] == id);
    assert forall|j: int| 0 <= j < i implies ids[j] != id by {
        assert(ids[j] == s.vault.entries[j].id);
    }
    law_place_exact(ids, id, i);
    let p = place_of(ids, id).unwrap();
    assert(ids[p] == id);
    assert(p == i);
    let clear = |e: EntryView| (EntryView { password_history: Seq::empty(), ..e });
    let remove = |e: EntryView| without_former(e, k);
    law_only_named_entry_changes(s.vault.entries, id, clear, i);
    law_only_named_entry_changes(s.vault.entries, id, clear, m);
    law_only_named_entry_changes(s.vault.entries, id, remove, i);
    law_only_named_entry_changes(s.vault.entries, id, remove, m);
    assert(s.history_cleared().vault.entries == with_entry(s.vault.entries, id, clear));
    assert(s.former_removed(k).vault.entries == with_entry(s.vault.entries, id, remove));
}

/// Confirming the dialog for a new note adds one at the end, with what was typed in it,
/// and closes the dialog; without a title nothing happens.
pub proof fn law_added_note_exact(s: GuiView, id: Seq<char>)
    ensures
        s.modal matches ModalView::AddNote { title, content, category, tags } ==> {
            let r = s.add_note_confirmed(id);
            let n = r.vault.notes.last();
            &&& title.len() > 0 ==> {
                &&& r.vault.notes.drop_last() == s.vault.notes
                &&& r.vault.notes.len() == s.vault.notes.len() + 1
                &&& n.id == id && n.title == trimmed(title) && n.content == content
                &&& n.category == optional_text(category) && n.tags == tag_list(tags, false)
                &&& r.modal is Closed && r.vault.entries == s.vault.entries
                &&& r == (GuiView { vault: r.vault, modal: r.modal, ..s })
            }
            &&& title.len() == 0 ==> r == s
        },
        !(s.modal is AddNote) ==> s.add_note_confirmed(id) == s,
{
    if let ModalView::AddNote { title, category, .. } = s.modal {
        lemma_optional_text_settled(category);
        if title.len() > 0 {
            assert(s.add_note_confirmed(id).vault.notes.drop_last() =~= s.vault.notes);
        }
    }
}

/// A note given outright is added at the end if it has a title; otherwise that is told.
pub proof fn law_given_note_exact(
    s: GuiView,
    id: Seq<char>,
    title: Seq<char>,
    content: Seq<char>,
    category: Option<Seq<char>>,
    tags: Seq<Seq<char>>,
    now: u64,
)
    ensures
        ({
            let r = s.note_added(id, title, content, category, tags, now);
            let n = r.vault.notes.last();
            &&& title.len() == 0 ==> r == s.toasted("Title is required"@, ToastKind::Error, now)
            &&& title.len() > 0 ==> {
                &&& r.vault.notes.drop_last() == s.vault.notes
                &&& n.id == id && n.title == trimmed(title) && n.content == content && n.tags
                    == tags
                &&& r == (GuiView { vault: (VaultView { notes: r.vault.notes, ..s.vault }), ..s })
            }
        }),
{
    if title.len() > 0 {
        assert(s.note_added(
            id,
            title,
            content,
            category,
            tags,
            now,
        ).vault.notes.drop_last() =~= s.vault.notes);
    }
}

/// Confirming the dialog for editing a note puts its fields into the note it was opened
/// for and into no other, and closes the dialog; without a title nothing happens.
pub proof fn law_edited_note_exact(s: GuiView, i: int)
    requires
        0 <= i < s.vault.notes.len(),
    ensures
        s.modal matches ModalView::EditNote { original_id, title, content, category, tags } ==> {
            let r = s.edit_note_confirmed();
            let was = s.vault.notes[i];
            let n = r.vault.notes[i];
            &&& title.len() == 0 ==> r == s
            &&& title.len() > 0 ==> {
                &&& was.id != original_id ==> n == was
                &&& was.id == original_id && (forall|j: int|
                    0 <= j < i ==> (#[trigger] s.vault.notes[j]).id != original_id) ==> {
                    &&& n.id == was.id && n.title == trimmed(title) && n.content == content
                    &&& n.category == optional_text(category) && n.tags == tag_list(tags, false)
                }
                &&& r.vault.notes.len() == s.vault.notes.len()
                &&& r.modal is Closed && r.vault.entries == s.vault.entries
                &&& r == (GuiView { vault: r.vault, modal: r.modal, ..s })
            }
        },
        !(s.modal is EditNote) ==> s.edit_note_confirmed() == s,
{
    if let ModalView::EditNote { original_id, title, content, category, tags } = s.modal {
        let f = |n: NoteView| note_edited(n, title, content, category, tags);
        law_only_named_note_changes(s.vault.notes, original_id, f, i);
        if title.len() > 0 {
            assert(s.edit_note_confirmed().vault.notes == with_note(
                s.vault.notes,
                original_id,
                f,
            ));
        }
    }
}

/// The sidebar offers filters as soon as some entry has a category, or some note a
/// category or a tag.
pub proof fn law_sidebar_labels_exact(s: GuiView, i: int, k: int)
    ensures
        0 <= i < s.vault.entries.len() && s.vault.entries[i].category is Some
            && s.vault.entries[i].category.unwrap().len() > 0 ==> s.has_categories(),
        (forall|j: int|
            0 <= j < s.vault.entries.len() ==> (#[trigger] s.vault.entries[j]).category is None)
            ==> !s.has_categories(),
        0 <= i < s.vault.notes.len() && s.vault.notes[i].category is Some
            && s.vault.notes[i].category.unwrap().len() > 0 ==> s.has_note_labels(),
        0 <= i < s.vault.notes.len() && 0 <= k < s.vault.notes[i].tags.len()
            && s.vault.notes[i].tags[k].len() > 0 ==> s.has_note_labels(),
        (forall|j: int|
            0 <= j < s.vault.notes.len() ==> (#[trigger] s.vault.notes[j]).category is None
                && s.vault.notes[j].tags.len() == 0) ==> !s.has_note_labels(),
{
    if 0 <= i < s.vault.entries.len() && s.vault.entries[i].category is Some
        && s.vault.entries[i].category.unwrap().len() > 0 {
        assert(category_in_use(s.vault.entries, s.vault.entries[i].category.unwrap()));
    }
    if 0 <= i < s.vault.notes.len() && s.vault.notes[i].category is Some
        && s.vault.notes[i].category.unwrap().len() > 0 {
        assert(note_category_in_use(s.vault.notes, s.vault.notes[i].category.unwrap()));
    }
    if 0 <= i < s.vault.notes.len() && 0 <= k < s.vault.notes[i].tags.len()
        && s.vault.notes[i].tags[k].len() > 0 {
        assert(s.vault.notes[i].tags.contains(s.vault.notes[i].tags[k]));
        assert(note_tag_in_use(s.vault.notes, s.vault.notes[i].tags[k]));
    }
}

/// What came of a save is success or that very error.
pub proof fn law_outcome_view_exact(e: VaultError)
    ensures
        outcome_view(Ok(())) == Ok::<(), ErrorView>(()),
        outcome_view(Err(e)) == Err::<(), ErrorView>(e@),
{
}

/// Without a dialog of its own there is no history to show, to clear or to thin; where
/// the entry is gone there is none to show either.
pub proof fn law_no_history_to_show(s: GuiView, k: int)
    ensures
        !(s.modal is PasswordHistory) ==> s.shown_history().len() == 0 && s.history_cleared() == s
            && s.former_removed(k) == s && s.history_id() is None,
        s.modal matches ModalView::PasswordHistory { entry_id } ==> s.history_id() == Some(
            entry_id,
        ) && ((forall|j: int|
            0 <= j < s.vault.entries.len() ==> (#[trigger] s.vault.entries[j]).id != entry_id)
            ==> s.shown_history().len() == 0 && s.history_title() == "Password History — "@
            + "Entry"@),
{
    if let ModalView::PasswordHistory { entry_id } = s.modal {
        let ids = entry_ids(s.vault.entries);
        if place_of(ids, entry_id) is Some {
            let p = choose|p: int| first_at(ids, entry_id, p);
            assert(first_at(ids, entry_id, p));
            assert(ids[p] == s.vault.entries[p].id);
        }
    }
}

} // verus!

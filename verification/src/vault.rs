//! Changes to a vault: reordering, pinning, deleting, editing with a password
//! history, adding, and wiping.
use crate::crypto::wipe_text;
use crate::fields::{
    kept_secret, law_tags_round_trip, optional_field, optional_text, parse_tags, secret_field,
    steady_category, steady_secret, steady_tag, tag_list, tidy_category, tidy_category_field,
};
use crate::listing::text_or_empty;
use crate::model::{
    Entry, EntryView, HistoryView, NoteView, PasswordHistoryEntry, SecureNote, Vault, VaultView,
    entry_views, history_views, lemma_filter_step, note_views, opt_view,
};
use crate::text::{joined, lemma_case_of_nothing, trim, trimmed, views};
use vstd::prelude::*;

verus! {

// ---------------------------------------------------------------------------
// Finding by identifier
// ---------------------------------------------------------------------------

/// `i` is the first place at which `id` stands.
pub open spec fn first_at(ids: Seq<Seq<char>>, id: Seq<char>, i: int) -> bool {
    &&& 0 <= i < ids.len()
    &&& ids[i] == id
    &&& forall|j: int| 0 <= j < i ==> ids[j] != id
}

/// The first place at which `id` stands, if it does.
pub open spec fn place_of(ids: Seq<Seq<char>>, id: Seq<char>) -> Option<int> {
    if exists|i: int| first_at(ids, id, i) {
        Some(choose|i: int| first_at(ids, id, i))
    } else {
        None
    }
}

/// The identifiers of the entries.
pub open spec fn entry_ids(entries: Seq<EntryView>) -> Seq<Seq<char>> {
    entries.map_values(|e: EntryView| e.id)
}

/// The identifiers of the notes.
pub open spec fn note_ids(notes: Seq<NoteView>) -> Seq<Seq<char>> {
    notes.map_values(|n: NoteView| n.id)
}

proof fn lemma_place_of(ids: Seq<Seq<char>>, id: Seq<char>, i: int)
    requires
        first_at(ids, id, i),
    ensures
        place_of(ids, id) == Some(i),
{
    let k = choose|k: int| first_at(ids, id, k);
    assert(first_at(ids, id, k));
    if k < i {
        assert(ids[k] != id);
    } else if i < k {
        assert(ids[i] != id);
    }
}

/// The place of the first entry with an identifier.
pub fn find_entry(entries: &Vec<Entry>, id: &String) -> (res: Option<usize>)
    ensures
        match res {
            Some(i) => i < entries@.len() && place_of(entry_ids(entry_views(entries@)), id@)
                == Some(i as int),
            None => place_of(entry_ids(entry_views(entries@)), id@) is None,
        },
{
    let ghost ids = entry_ids(entry_views(entries@));
    let mut i: usize = 0;
    while i < entries.len()
        invariant
            i <= entries@.len(),
            ids == entry_ids(entry_views(entries@)),
            forall|j: int| 0 <= j < i ==> #[trigger] ids[j] != id@,
        decreases entries@.len() - i,
    {
        proof {
            assert(ids[i as int] == entries@[i as int].id@);
        }
        if entries[i].id == *id {
            proof {
                assert(first_at(ids, id@, i as int));
                lemma_place_of(ids, id@, i as int);
            }
            return Some(i);
        }
        i += 1;
    }
    None
}

/// The place of the first note with an identifier.
pub fn find_note(notes: &Vec<SecureNote>, id: &String) -> (res: Option<usize>)
    ensures
        match res {
            Some(i) => i < notes@.len() && place_of(note_ids(note_views(notes@)), id@) == Some(
                i as int,
            ),
            None => place_of(note_ids(note_views(notes@)), id@) is None,
        },
{
    let ghost ids = note_ids(note_views(notes@));
    let mut i: usize = 0;
    while i < notes.len()
        invariant
            i <= notes@.len(),
            ids == note_ids(note_views(notes@)),
            forall|j: int| 0 <= j < i ==> #[trigger] ids[j] != id@,
        decreases notes@.len() - i,
    {
        proof {
            assert(ids[i as int] == notes@[i as int].id@);
        }
        if notes[i].id == *id {
            proof {
                assert(first_at(ids, id@, i as int));
                lemma_place_of(ids, id@, i as int);
            }
            return Some(i);
        }
        i += 1;
    }
    None
}

/// The entries after the first one with an identifier was changed by `f`.
pub open spec fn with_entry(
    entries: Seq<EntryView>,
    id: Seq<char>,
    f: spec_fn(EntryView) -> EntryView,
) -> Seq<EntryView> {
    match place_of(entry_ids(entries), id) {
        Some(i) => entries.update(i, f(entries[i])),
        None => entries,
    }
}

/// The notes after the first one with an identifier was changed by `f`.
pub open spec fn with_note(
    notes: Seq<NoteView>,
    id: Seq<char>,
    f: spec_fn(NoteView) -> NoteView,
) -> Seq<NoteView> {
    match place_of(note_ids(notes), id) {
        Some(i) => notes.update(i, f(notes[i])),
        None => notes,
    }
}

// ---------------------------------------------------------------------------
// Reordering
// ---------------------------------------------------------------------------

/// The entry at `src` taken out and put back directly before the one that stood
/// at `tgt`, or at the end if there is no target. A target that is the entry
/// itself, or lies outside the list, changes nothing.
pub open spec fn moved(entries: Seq<EntryView>, src: int, tgt: Option<int>) -> Seq<EntryView> {
    if !(0 <= src < entries.len()) {
        entries
    } else {
        let rest = entries.remove(src);
        match tgt {
            None => rest.push(entries[src]),
            Some(t) => if 0 <= t < entries.len() && t != src {
                rest.insert(if t > src {
                    t - 1
                } else {
                    t
                }, entries[src])
            } else {
                entries
            },
        }
    }
}

/// Moves the entry at `src` directly before the one at `tgt`, or to the end.
pub fn move_entry(entries: &mut Vec<Entry>, src: usize, tgt: Option<usize>)
    ensures
        entry_views(final(entries)@) == moved(
            entry_views(old(entries)@),
            src as int,
            match tgt {
                Some(t) => Some(t as int),
                None => None,
            },
        ),
{
    let ghost before = entry_views(entries@);
    let n: usize = entries.len();
    if src < n {
        match tgt {
            None => {
                let entry: Entry = entries.remove(src);
                entries.push(entry);
                proof {
                    assert(entry_views(entries@) =~= before.remove(src as int).push(
                        before[src as int],
                    ));
                }
            },
            Some(t) => {
                if t < n && t != src {
                    let entry: Entry = entries.remove(src);
                    let at: usize = if t > src {
                        t - 1
                    } else {
                        t
                    };
                    entries.insert(at, entry);
                    proof {
                        assert(entry_views(entries@) =~= before.remove(src as int).insert(
                            at as int,
                            before[src as int],
                        ));
                    }
                }
            },
        }
    }
}

/// Moving entries about loses none and adds none.
pub proof fn law_move_is_permutation(entries: Seq<EntryView>, src: int, tgt: Option<int>)
    ensures
        moved(entries, src, tgt).to_multiset() == entries.to_multiset(),
        moved(entries, src, tgt).len() == entries.len(),
{
    broadcast use vstd::seq_lib::group_to_multiset_ensures;

    if 0 <= src < entries.len() {
        let rest = entries.remove(src);
        let e = entries[src];
        assert(entries =~= rest.insert(src, e));
        assert(rest.insert(src, e).to_multiset() == rest.to_multiset().insert(e));
        match tgt {
            None => {
                assert(rest.push(e).to_multiset() == rest.to_multiset().insert(e));
            },
            Some(t) => {
                if 0 <= t < entries.len() && t != src {
                    let at = if t > src {
                        t - 1
                    } else {
                        t
                    };
                    assert(rest.insert(at, e).to_multiset() == rest.to_multiset().insert(e));
                }
            },
        }
    }
}

/// A moved entry stands directly before its target, or at the end if it has none.
pub proof fn law_move_lands_before_target(entries: Seq<EntryView>, src: int, tgt: int)
    requires
        0 <= src < entries.len(),
        0 <= tgt < entries.len(),
        src != tgt,
    ensures
        ({
            let at = if tgt > src {
                tgt - 1
            } else {
                tgt
            };
            let m = moved(entries, src, Some(tgt));
            m[at] == entries[src] && m[at + 1] == entries[tgt]
        }),
        moved(entries, src, None).last() == entries[src],
{
}

// ---------------------------------------------------------------------------
// Pinning
// ---------------------------------------------------------------------------

/// An entry with its pin turned over.
pub open spec fn pin_toggled(e: EntryView) -> EntryView {
    EntryView { pinned: !e.pinned, ..e }
}

/// Pins the first entry with an identifier, or unpins it.
pub fn toggle_entry_pin(entries: &mut Vec<Entry>, id: &String)
    ensures
        entry_views(final(entries)@) == with_entry(
            entry_views(old(entries)@),
            id@,
            |e: EntryView| pin_toggled(e),
        ),
{
    let ghost before = entry_views(entries@);
    match find_entry(entries, id) {
        Some(i) => {
            entries[i].pinned = !entries[i].pinned;
            proof {
                assert(entry_views(entries@) =~= before.update(
                    i as int,
                    pin_toggled(before[i as int]),
                ));
            }
        },
        None => {},
    }
}

/// Pinning and unpinning an entry leaves everything as it was.
pub proof fn law_toggle_pin_twice(entries: Seq<EntryView>, id: Seq<char>)
    ensures
        with_entry(
            with_entry(entries, id, |e: EntryView| pin_toggled(e)),
            id,
            |e: EntryView| pin_toggled(e),
        ) == entries,
{
    let f = |e: EntryView| pin_toggled(e);
    let once = with_entry(entries, id, f);
    match place_of(entry_ids(entries), id) {
        Some(i) => {
            assert(entry_ids(once) =~= entry_ids(entries)) by {
                let k = choose|k: int| first_at(entry_ids(entries), id, k);
                assert(first_at(entry_ids(entries), id, k));
            }
            assert(with_entry(once, id, f) =~= entries);
        },
        None => {},
    }
}

// ---------------------------------------------------------------------------
// Deleting
// ---------------------------------------------------------------------------

/// The entries without those that have an identifier.
pub open spec fn entries_without(entries: Seq<EntryView>, id: Seq<char>) -> Seq<EntryView> {
    entries.filter(|e: EntryView| e.id != id)
}

/// The notes without those that have an identifier.
pub open spec fn notes_without(notes: Seq<NoteView>, id: Seq<char>) -> Seq<NoteView> {
    notes.filter(|n: NoteView| n.id != id)
}

/// Deletes the entries with an identifier.
pub fn delete_entries(entries: &mut Vec<Entry>, id: &String)
    ensures
        entry_views(final(entries)@) == entries_without(entry_views(old(entries)@), id@),
{
    let ghost all = entry_views(entries@);
    let ghost p = |e: EntryView| e.id != id@;
    let ghost mut done: int = 0;
    let mut i: usize = 0;
    proof {
        reveal(Seq::filter);
        assert(all.take(0).filter(p) =~= Seq::<EntryView>::empty());
        assert(all.subrange(0, all.len() as int) =~= all);
        assert(Seq::<EntryView>::empty() + all =~= all);
    }
    while i < entries.len()
        invariant
            0 <= done <= all.len(),
            p == (|e: EntryView| e.id != id@),
            i == all.take(done).filter(p).len(),
            entry_views(entries@) == all.take(done).filter(p) + all.subrange(
                done,
                all.len() as int,
            ),
        decreases all.len() - done,
    {
        let ghost kept = all.take(done).filter(p);
        let ghost rest = all.subrange(done, all.len() as int);
        proof {
            assert(entry_views(entries@).len() == entries@.len());
            assert(done < all.len());
            assert(entry_views(entries@)[i as int] == rest[0]);
            assert(entries@[i as int]@ == all[done]);
            lemma_filter_step(all, p, done);
        }
        let ghost before = entry_views(entries@);
        if entries[i].id == *id {
            let _removed: Entry = entries.remove(i);
            proof {
                assert(entry_views(entries@) =~= before.remove(i as int));
                assert(before.remove(i as int) =~= kept + all.subrange(
                    done + 1,
                    all.len() as int,
                ));
            }
        } else {
            i += 1;
            proof {
                assert(before =~= kept.push(all[done]) + all.subrange(done + 1, all.len() as int));
            }
        }
        proof {
            done = done + 1;
        }
    }
    proof {
        assert(entry_views(entries@).len() == entries@.len());
        assert(done == all.len());
        assert(all.take(done) =~= all);
        assert(entry_views(entries@) =~= all.filter(p));
    }
}

/// Deletes the notes with an identifier.
pub fn delete_notes(notes: &mut Vec<SecureNote>, id: &String)
    ensures
        note_views(final(notes)@) == notes_without(note_views(old(notes)@), id@),
{
    let ghost all = note_views(notes@);
    let ghost p = |n: NoteView| n.id != id@;
    let ghost mut done: int = 0;
    let mut i: usize = 0;
    proof {
        reveal(Seq::filter);
        assert(all.take(0).filter(p) =~= Seq::<NoteView>::empty());
        assert(all.subrange(0, all.len() as int) =~= all);
        assert(Seq::<NoteView>::empty() + all =~= all);
    }
    while i < notes.len()
        invariant
            0 <= done <= all.len(),
            p == (|n: NoteView| n.id != id@),
            i == all.take(done).filter(p).len(),
            note_views(notes@) == all.take(done).filter(p) + all.subrange(done, all.len() as int),
        decreases all.len() - done,
    {
        let ghost kept = all.take(done).filter(p);
        let ghost rest = all.subrange(done, all.len() as int);
        proof {
            assert(note_views(notes@).len() == notes@.len());
            assert(done < all.len());
            assert(note_views(notes@)[i as int] == rest[0]);
            assert(notes@[i as int]@ == all[done]);
            lemma_filter_step(all, p, done);
        }
        let ghost before = note_views(notes@);
        if notes[i].id == *id {
            let _removed: SecureNote = notes.remove(i);
            proof {
                assert(note_views(notes@) =~= before.remove(i as int));
                assert(before.remove(i as int) =~= kept + all.subrange(
                    done + 1,
                    all.len() as int,
                ));
            }
        } else {
            i += 1;
            proof {
                assert(before =~= kept.push(all[done]) + all.subrange(done + 1, all.len() as int));
            }
        }
        proof {
            done = done + 1;
        }
    }
    proof {
        assert(note_views(notes@).len() == notes@.len());
        assert(done == all.len());
        assert(all.take(done) =~= all);
        assert(note_views(notes@) =~= all.filter(p));
    }
}

/// After a deletion no entry has the identifier, every other entry is still
/// there, and nothing was added.
pub proof fn law_delete_exact(entries: Seq<EntryView>, id: Seq<char>, e: EntryView)
    ensures
        entries_without(entries, id).contains(e) <==> entries.contains(e) && e.id != id,
        entries_without(entries, id).len() <= entries.len(),
    decreases entries.len(),
{
    let p = |e: EntryView| e.id != id;
    reveal(Seq::filter);
    if entries.len() > 0 {
        let init = entries.drop_last();
        law_delete_exact(init, id, e);
        let kept = init.filter(p);
        let all = entries.filter(p);
        if p(entries.last()) {
            assert(all == kept.push(entries.last()));
            if kept.contains(e) {
                let k = choose|k: int| 0 <= k < kept.len() && kept[k] == e;
                assert(all[k] == e);
            }
            if e == entries.last() {
                assert(all[all.len() - 1] == e);
            }
            if all.contains(e) && e != entries.last() {
                let k = choose|k: int| 0 <= k < all.len() && all[k] == e;
                assert(kept[k] == e);
            }
        }
        if entries.contains(e) && e != entries.last() {
            let k = choose|k: int| 0 <= k < entries.len() && entries[k] == e;
            assert(init[k] == e);
        }
        if init.contains(e) {
            let k = choose|k: int| 0 <= k < init.len() && init[k] == e;
            assert(entries[k] == e);
        }
        assert(entries[entries.len() - 1] == entries.last());
    }
}

// ---------------------------------------------------------------------------
// Password history
// ---------------------------------------------------------------------------

/// How many former passwords an entry keeps.
pub const HISTORY_CAP: usize = 20;

/// A history after a password was replaced: that password first, and no more
/// than the cap.
pub open spec fn remembered(h: Seq<HistoryView>, password: Seq<char>, at: u64) -> Seq<HistoryView> {
    let longer = seq![HistoryView { password, changed_at: at }] + h;
    if longer.len() > HISTORY_CAP {
        longer.take(HISTORY_CAP as int)
    } else {
        longer
    }
}

/// Puts a replaced password at the head of a history.
pub fn remember_password(history: &mut Vec<PasswordHistoryEntry>, password: String, at: u64)
    ensures
        history_views(final(history)@) == remembered(history_views(old(history)@), password@, at),
{
    let ghost before = history_views(history@);
    let ghost first = HistoryView { password: password@, changed_at: at };
    history.insert(0, PasswordHistoryEntry { password, changed_at: at });
    proof {
        assert(history_views(history@) =~= seq![first] + before);
    }
    let ghost longer = history_views(history@);
    if history.len() > HISTORY_CAP {
        history.truncate(HISTORY_CAP);
        proof {
            assert(history_views(history@) =~= longer.take(HISTORY_CAP as int));
        }
    }
}

/// A history never outgrows its cap, starts with the password just replaced, and
/// keeps the older ones behind it in their order.
pub proof fn law_history_capped_recent_first(h: Seq<HistoryView>, password: Seq<char>, at: u64, i: int)
    requires
        0 <= i < h.len(),
    ensures
        remembered(h, password, at).len() <= HISTORY_CAP,
        remembered(h, password, at)[0] == (HistoryView { password, changed_at: at }),
        i + 1 < HISTORY_CAP ==> remembered(h, password, at)[i + 1] == h[i],
{
}

/// Forgets the former passwords of the first entry with an identifier.
pub fn clear_history(entries: &mut Vec<Entry>, id: &String)
    ensures
        entry_views(final(entries)@) == with_entry(
            entry_views(old(entries)@),
            id@,
            |e: EntryView| (EntryView { password_history: Seq::empty(), ..e }),
        ),
{
    let ghost before = entry_views(entries@);
    match find_entry(entries, id) {
        Some(i) => {
            entries[i].password_history.clear();
            proof {
                let e = before[i as int];
                assert(history_views(entries@[i as int].password_history@) =~= Seq::empty());
                assert(entry_views(entries@) =~= before.update(
                    i as int,
                    EntryView { password_history: Seq::empty(), ..e },
                ));
            }
        },
        None => {},
    }
}

/// An entry without its former password at place `k`, if it has so many.
pub open spec fn without_former(e: EntryView, k: int) -> EntryView {
    if 0 <= k < e.password_history.len() {
        EntryView { password_history: e.password_history.remove(k), ..e }
    } else {
        e
    }
}

/// Forgets one former password of the first entry with an identifier.
pub fn remove_former_password(entries: &mut Vec<Entry>, id: &String, k: usize)
    ensures
        entry_views(final(entries)@) == with_entry(
            entry_views(old(entries)@),
            id@,
            |e: EntryView| without_former(e, k as int),
        ),
{
    let ghost before = entry_views(entries@);
    match find_entry(entries, id) {
        Some(i) => {
            let ghost e = before[i as int];
            proof {
                assert(entries@[i as int]@ == e);
                assert(history_views(entries@[i as int].password_history@).len()
                    == entries@[i as int].password_history@.len());
            }
            if k < entries[i].password_history.len() {
                let _removed: PasswordHistoryEntry = entries[i].password_history.remove(k);
                proof {
                    assert(history_views(entries@[i as int].password_history@)
                        =~= e.password_history.remove(k as int));
                    assert(entry_views(entries@) =~= before.update(
                        i as int,
                        without_former(e, k as int),
                    ));
                }
            } else {
                proof {
                    assert(before.update(i as int, without_former(e, k as int)) =~= before);
                }
            }
        },
        None => {},
    }
}

// ---------------------------------------------------------------------------
// Adding and editing
// ---------------------------------------------------------------------------

/// The entry that a filled-in form makes.
pub open spec fn entry_made(
    id: Seq<char>,
    service: Seq<char>,
    username: Seq<char>,
    password: Seq<char>,
    totp_secret: Option<Seq<char>>,
    category: Option<Seq<char>>,
    tags: Seq<Seq<char>>,
) -> EntryView {
    EntryView {
        id,
        service: trimmed(service),
        username: trimmed(username),
        password,
        totp_secret,
        category: tidy_category(category),
        tags,
        pinned: false,
        password_history: Seq::empty(),
    }
}

/// The entry that a filled-in form makes.
pub fn make_entry(
    id: String,
    service: &str,
    username: &str,
    password: String,
    totp_secret: Option<String>,
    category: &Option<String>,
    tags: Vec<String>,
) -> (res: Entry)
    ensures
        res@ == entry_made(
            id@,
            service@,
            username@,
            password@,
            opt_view(totp_secret),
            opt_view(*category),
            views(tags@),
        ),
{
    let res = Entry {
        id,
        service: trim(service),
        username: trim(username),
        password,
        totp_secret,
        category: tidy_category_field(category),
        tags,
        pinned: false,
        password_history: Vec::new(),
    };
    proof {
        assert(history_views(res.password_history@) =~= Seq::empty());
    }
    res
}

/// The note that a filled-in form makes.
pub open spec fn note_made(
    id: Seq<char>,
    title: Seq<char>,
    content: Seq<char>,
    category: Option<Seq<char>>,
    tags: Seq<Seq<char>>,
) -> NoteView {
    NoteView { id, title: trimmed(title), content, category: tidy_category(category), tags }
}

/// The note that a filled-in form makes.
pub fn make_note(
    id: String,
    title: &str,
    content: String,
    category: &Option<String>,
    tags: Vec<String>,
) -> (res: SecureNote)
    ensures
        res@ == note_made(id@, title@, content@, opt_view(*category), views(tags@)),
{
    SecureNote {
        id,
        title: trim(title),
        content,
        category: tidy_category_field(category),
        tags,
    }
}

/// The fields of the form in which an entry is edited.
pub struct EntryForm<'a> {
    pub service: &'a String,
    pub username: &'a String,
    pub password: &'a String,
    pub totp_secret: &'a String,
    pub category: &'a String,
    pub tags: &'a String,
}

#[verifier::ext_equal]
pub struct EntryFormView {
    pub service: Seq<char>,
    pub username: Seq<char>,
    pub password: Seq<char>,
    pub totp_secret: Seq<char>,
    pub category: Seq<char>,
    pub tags: Seq<char>,
}

impl<'a> View for EntryForm<'a> {
    type V = EntryFormView;

    open spec fn view(&self) -> EntryFormView {
        EntryFormView {
            service: self.service@,
            username: self.username@,
            password: self.password@,
            totp_secret: self.totp_secret@,
            category: self.category@,
            tags: self.tags@,
        }
    }
}

/// An entry after it was edited at a Unix time: the form's fields, and the
/// password it had, if it had one and it is another, in the history.
pub open spec fn edited(e: EntryView, f: EntryFormView, at: u64) -> EntryView {
    EntryView {
        service: f.service,
        username: f.username,
        password: f.password,
        totp_secret: kept_secret(f.totp_secret),
        category: optional_text(f.category),
        tags: tag_list(f.tags, true),
        password_history: if e.password != f.password && e.password.len() > 0 {
            remembered(e.password_history, e.password, at)
        } else {
            e.password_history
        },
        ..e
    }
}

/// Edits the first entry with an identifier; says whether there is one.
pub fn edit_entry(entries: &mut Vec<Entry>, id: &String, form: &EntryForm, at: u64) -> (found: bool)
    ensures
        found == (place_of(entry_ids(entry_views(old(entries)@)), id@) is Some),
        entry_views(final(entries)@) == with_entry(
            entry_views(old(entries)@),
            id@,
            |e: EntryView| edited(e, form@, at),
        ),
{
    let ghost before = entry_views(entries@);
    match find_entry(entries, id) {
        Some(i) => {
            let ghost e = before[i as int];
            let mut entry: Entry = entries.remove(i);
            proof {
                assert(entry@ == e);
            }
            if entry.password != *form.password && !entry.password.as_str().is_empty() {
                let former: String = entry.password.clone();
                remember_password(&mut entry.password_history, former, at);
            }
            entry.service = form.service.clone();
            entry.username = form.username.clone();
            entry.password = form.password.clone();
            entry.totp_secret = secret_field(form.totp_secret.as_str());
            entry.category = optional_field(form.category.as_str());
            entry.tags = parse_tags(form.tags.as_str(), true);
            proof {
                assert(entry@ == edited(e, form@, at));
            }
            entries.insert(i, entry);
            proof {
                assert(entry_views(entries@) =~= before.update(i as int, edited(e, form@, at)));
            }
            true
        },
        None => false,
    }
}

/// A note after it was edited.
pub open spec fn note_edited(
    n: NoteView,
    title: Seq<char>,
    content: Seq<char>,
    category: Seq<char>,
    tags: Seq<char>,
) -> NoteView {
    NoteView {
        title: trimmed(title),
        content,
        category: optional_text(category),
        tags: tag_list(tags, false),
        ..n
    }
}

/// Edits the first note with an identifier, if there is one.
pub fn edit_note(
    notes: &mut Vec<SecureNote>,
    id: &String,
    title: &String,
    content: &String,
    category: &String,
    tags: &String,
)
    ensures
        note_views(final(notes)@) == with_note(
            note_views(old(notes)@),
            id@,
            |n: NoteView| note_edited(n, title@, content@, category@, tags@),
        ),
{
    let ghost before = note_views(notes@);
    match find_note(notes, id) {
        Some(i) => {
            let ghost n = before[i as int];
            let mut note: SecureNote = notes.remove(i);
            proof {
                assert(note@ == n);
            }
            note.title = trim(title.as_str());
            note.content = content.clone();
            note.category = optional_field(category.as_str());
            note.tags = parse_tags(tags.as_str(), false);
            notes.insert(i, note);
            proof {
                assert(note_views(notes@) =~= before.update(
                    i as int,
                    note_edited(n, title@, content@, category@, tags@),
                ));
            }
        },
        None => {},
    }
}

/// Editing keeps the identifier and the pin, and an edit that leaves the password
/// alone leaves the history alone.
pub proof fn law_edit_keeps_identity(e: EntryView, f: EntryFormView, at: u64)
    ensures
        edited(e, f, at).id == e.id,
        edited(e, f, at).pinned == e.pinned,
        f.password == e.password ==> edited(e, f, at).password_history == e.password_history,
{
}

/// An edit that replaces a password keeps the old one at the head of the history.
pub proof fn law_edit_remembers_password(e: EntryView, f: EntryFormView, at: u64)
    requires
        e.password.len() > 0,
        f.password != e.password,
    ensures
        edited(e, f, at).password_history.len() > 0,
        edited(e, f, at).password_history[0] == (HistoryView {
            password: e.password,
            changed_at: at,
        }),
{
}

/// The form that an entry fills in when it is opened for editing.
pub open spec fn form_of(e: EntryView) -> EntryFormView {
    EntryFormView {
        service: e.service,
        username: e.username,
        password: e.password,
        totp_secret: text_or_empty(e.totp_secret),
        category: text_or_empty(e.category),
        tags: joined(e.tags, ", "@),
    }
}

/// Saving an edit in which nothing was touched changes nothing, for every entry
/// whose fields are as a form leaves them.
pub proof fn law_untouched_edit_changes_nothing(e: EntryView, at: u64)
    requires
        steady_secret(e.totp_secret),
        steady_category(e.category),
        forall|i: int| 0 <= i < e.tags.len() ==> steady_tag(#[trigger] e.tags[i], true),
    ensures
        edited(e, form_of(e), at) == e,
{
    law_tags_round_trip(e.tags, true);
    lemma_case_of_nothing();
    assert(trimmed(Seq::empty()) =~= Seq::<char>::empty());
    assert(edited(e, form_of(e), at) =~= e);
}

/// The same holds for notes: saving one in which nothing was touched changes
/// nothing, if its title and its fields are as a form leaves them.
pub proof fn law_untouched_note_edit_changes_nothing(n: NoteView)
    requires
        trimmed(n.title) == n.title,
        steady_category(n.category),
        forall|i: int| 0 <= i < n.tags.len() ==> steady_tag(#[trigger] n.tags[i], false),
    ensures
        note_edited(
            n,
            n.title,
            n.content,
            text_or_empty(n.category),
            joined(n.tags, ", "@),
        ) == n,
{
    law_tags_round_trip(n.tags, false);
    assert(trimmed(Seq::empty()) =~= Seq::<char>::empty());
}

// ---------------------------------------------------------------------------
// Wiping
// ---------------------------------------------------------------------------

/// A former password with its text wiped.
pub open spec fn wiped_history(h: HistoryView) -> HistoryView {
    HistoryView { password: Seq::empty(), ..h }
}

/// An entry with its secrets wiped: the password, the one-time-password secret
/// and the former passwords.
pub open spec fn wiped_entry(e: EntryView) -> EntryView {
    EntryView {
        password: Seq::empty(),
        totp_secret: match e.totp_secret {
            Some(_) => Some(Seq::empty()),
            None => None,
        },
        password_history: e.password_history.map_values(|h: HistoryView| wiped_history(h)),
        ..e
    }
}

/// A note with its content wiped.
pub open spec fn wiped_note(n: NoteView) -> NoteView {
    NoteView { content: Seq::empty(), ..n }
}

/// A vault with its secrets wiped.
pub open spec fn wiped_vault(v: VaultView) -> VaultView {
    VaultView {
        entries: v.entries.map_values(|e: EntryView| wiped_entry(e)),
        notes: v.notes.map_values(|n: NoteView| wiped_note(n)),
    }
}

fn wipe_history(history: &mut Vec<PasswordHistoryEntry>)
    ensures
        history_views(final(history)@) == history_views(old(history)@).map_values(
            |h: HistoryView| wiped_history(h),
        ),
{
    let ghost was = history_views(history@);
    let mut i: usize = 0;
    while i < history.len()
        invariant
            i <= history@.len(),
            history@.len() == was.len(),
            forall|k: int| 0 <= k < i ==> (#[trigger] history@[k])@ == wiped_history(was[k]),
            forall|k: int| i <= k < was.len() ==> (#[trigger] history@[k])@ == was[k],
        decreases history@.len() - i,
    {
        wipe_text(&mut history[i].password);
        i += 1;
    }
    proof {
        assert(history_views(history@) =~= was.map_values(|h: HistoryView| wiped_history(h)));
    }
}

fn wipe_entry(entry: &mut Entry)
    ensures
        final(entry)@ == wiped_entry(old(entry)@),
{
    wipe_text(&mut entry.password);
    if entry.totp_secret.is_some() {
        entry.totp_secret = match entry.totp_secret.take() {
            Some(secret) => {
                let mut s: String = secret;
                wipe_text(&mut s);
                Some(s)
            },
            None => None,
        };
    }
    wipe_history(&mut entry.password_history);
}

/// Wipes the secrets in a vault.
pub fn wipe_vault(vault: &mut Vault)
    ensures
        final(vault)@ == wiped_vault(old(vault)@),
{
    let ghost was = vault@;
    let mut i: usize = 0;
    while i < vault.entries.len()
        invariant
            i <= vault.entries@.len(),
            vault.entries@.len() == was.entries.len(),
            note_views(vault.notes@) == was.notes,
            forall|k: int|
                0 <= k < i ==> (#[trigger] vault.entries@[k])@ == wiped_entry(was.entries[k]),
            forall|k: int|
                i <= k < was.entries.len() ==> (#[trigger] vault.entries@[k])@ == was.entries[k],
        decreases vault.entries@.len() - i,
    {
        wipe_entry(&mut vault.entries[i]);
        i += 1;
    }
    let ghost e = was.entries.map_values(|e: EntryView| wiped_entry(e));
    proof {
        assert(entry_views(vault.entries@) =~= e);
        assert(was.notes.len() == vault.notes@.len());
        assert forall|k: int| 0 <= k < was.notes.len() implies (#[trigger] vault.notes@[k])@
            == was.notes[k] by {
            assert(note_views(vault.notes@)[k] == vault.notes@[k]@);
        }
    }
    let mut j: usize = 0;
    while j < vault.notes.len()
        invariant
            j <= vault.notes@.len(),
            vault.notes@.len() == was.notes.len(),
            entry_views(vault.entries@) == e,
            forall|k: int| 0 <= k < j ==> (#[trigger] vault.notes@[k])@ == wiped_note(was.notes[k]),
            forall|k: int|
                j <= k < was.notes.len() ==> (#[trigger] vault.notes@[k])@ == was.notes[k],
        decreases vault.notes@.len() - j,
    {
        wipe_text(&mut vault.notes[j].content);
        j += 1;
    }
    proof {
        assert(note_views(vault.notes@) =~= was.notes.map_values(|n: NoteView| wiped_note(n)));
        assert(vault@ =~= wiped_vault(was));
    }
}

/// After wiping, no entry holds a password, a one-time-password secret or a
/// former password, and no note holds any content.
pub proof fn law_wiped_holds_no_secret(v: VaultView, i: int, k: int)
    ensures
        0 <= i < v.entries.len() ==> {
            let e = wiped_vault(v).entries[i];
            &&& e.password.len() == 0
            &&& e.totp_secret is Some ==> e.totp_secret.unwrap().len() == 0
            &&& 0 <= k < e.password_history.len() ==> e.password_history[k].password.len() == 0
        },
        0 <= i < v.notes.len() ==> wiped_vault(v).notes[i].content.len() == 0,
        wiped_vault(v).entries.len() == v.entries.len(),
        wiped_vault(v).notes.len() == v.notes.len(),
{
}

// ---------------------------------------------------------------------------
// Laws of changes
// ---------------------------------------------------------------------------

/// A change to the entry with an identifier reaches the first entry that has it and
/// no other; without such an entry nothing changes.
pub proof fn law_only_named_entry_changes(
    entries: Seq<EntryView>,
    id: Seq<char>,
    f: spec_fn(EntryView) -> EntryView,
    i: int,
)
    requires
        0 <= i < entries.len(),
    ensures
        with_entry(entries, id, f).len() == entries.len(),
        entries[i].id != id ==> with_entry(entries, id, f)[i] == entries[i],
        entries[i].id == id && (forall|j: int| 0 <= j < i ==> (#[trigger] entries[j]).id != id)
            ==> with_entry(entries, id, f)[i] == f(entries[i]),
        entries[i].id == id && (exists|j: int| 0 <= j < i && (#[trigger] entries[j]).id == id)
            ==> with_entry(entries, id, f)[i] == entries[i],
{
    let ids = entry_ids(entries);
    assert(ids[i] == entries[i].id);
    if forall|j: int| 0 <= j < i ==> (#[trigger] entries[j]).id != id {
        if entries[i].id == id {
            assert forall|j: int| 0 <= j < i implies ids[j] != id by {
                assert(ids[j] == entries[j].id);
            }
            assert(first_at(ids, id, i));
            lemma_place_of(ids, id, i);
        }
    } else {
        let j = choose|j: int| 0 <= j < i && (#[trigger] entries[j]).id == id;
        assert(ids[j] == id);
        if place_of(ids, id) is Some {
            let p = choose|p: int| first_at(ids, id, p);
            assert(first_at(ids, id, p));
            assert(place_of(ids, id) == Some(p));
        }
    }
    if place_of(ids, id) is Some {
        let p = choose|p: int| first_at(ids, id, p);
        assert(first_at(ids, id, p));
        assert(ids[p] == entries[p].id);
    }
}

/// A change to the note with an identifier reaches the first note that has it and no
/// other; without such a note nothing changes.
pub proof fn law_only_named_note_changes(
    notes: Seq<NoteView>,
    id: Seq<char>,
    f: spec_fn(NoteView) -> NoteView,
    i: int,
)
    requires
        0 <= i < notes.len(),
    ensures
        with_note(notes, id, f).len() == notes.len(),
        notes[i].id != id ==> with_note(notes, id, f)[i] == notes[i],
        notes[i].id == id && (forall|j: int| 0 <= j < i ==> (#[trigger] notes[j]).id != id)
            ==> with_note(notes, id, f)[i] == f(notes[i]),
        notes[i].id == id && (exists|j: int| 0 <= j < i && (#[trigger] notes[j]).id == id)
            ==> with_note(notes, id, f)[i] == notes[i],
{
    let ids = note_ids(notes);
    assert(ids[i] == notes[i].id);
    if forall|j: int| 0 <= j < i ==> (#[trigger] notes[j]).id != id {
        if notes[i].id == id {
            assert forall|j: int| 0 <= j < i implies ids[j] != id by {
                assert(ids[j] == notes[j].id);
            }
            assert(first_at(ids, id, i));
            lemma_place_of(ids, id, i);
        }
    } else {
        let j = choose|j: int| 0 <= j < i && (#[trigger] notes[j]).id == id;
        assert(ids[j] == id);
        if place_of(ids, id) is Some {
            let p = choose|p: int| first_at(ids, id, p);
            assert(first_at(ids, id, p));
            assert(place_of(ids, id) == Some(p));
        }
    }
    if place_of(ids, id) is Some {
        let p = choose|p: int| first_at(ids, id, p);
        assert(first_at(ids, id, p));
        assert(ids[p] == notes[p].id);
    }
}

/// An identifier is found exactly if something has it, and then at the first place.
pub proof fn law_place_exact(ids: Seq<Seq<char>>, id: Seq<char>, i: int)
    requires
        0 <= i < ids.len(),
        ids[i] == id,
    ensures
        place_of(ids, id) matches Some(p) && 0 <= p <= i && ids[p] == id && forall|j: int|
            0 <= j < p ==> #[trigger] ids[j] != id,
    decreases i,
{
    if exists|j: int| 0 <= j < i && #[trigger] ids[j] == id {
        let j = choose|j: int| 0 <= j < i && #[trigger] ids[j] == id;
        law_place_exact(ids, id, j);
    } else {
        assert(first_at(ids, id, i));
        lemma_place_of(ids, id, i);
    }
}

/// After an edit every field of the entry is what the form says: service, user name
/// and password as typed, the secret and the category tidied, the tags split at the
/// commas and in small letters.
pub proof fn law_edit_takes_the_form(e: EntryView, f: EntryFormView, at: u64)
    ensures
        edited(e, f, at).service == f.service,
        edited(e, f, at).username == f.username,
        edited(e, f, at).password == f.password,
        edited(e, f, at).totp_secret == kept_secret(f.totp_secret),
        edited(e, f, at).category == optional_text(f.category),
        edited(e, f, at).tags == tag_list(f.tags, true),
        edited(e, f, at).id == e.id,
        edited(e, f, at).pinned == e.pinned,
{
}

/// The history grows exactly when a password that was not empty gives way to another
/// one: the former password goes in front with the time, at most twenty are kept, and
/// those kept stand as they stood.
pub proof fn law_history_exact(e: EntryView, f: EntryFormView, at: u64, i: int)
    ensures
        ({
            let h = edited(e, f, at).password_history;
            let grows = e.password.len() > 0 && e.password != f.password;
            &&& !grows ==> h == e.password_history
            &&& grows ==> h.len() == (if e.password_history.len() < 20 {
                e.password_history.len() + 1
            } else {
                20
            })
            &&& grows ==> h[0].password == e.password && h[0].changed_at == at
            &&& grows && 0 < i < h.len() ==> h[i] == e.password_history[i - 1]
        }),
{
}

/// Remembering a password puts it in front of those remembered before, of which the
/// oldest go where there would be more than twenty.
pub proof fn law_remembered_exact(h: Seq<HistoryView>, password: Seq<char>, at: u64, i: int)
    ensures
        ({
            let r = remembered(h, password, at);
            &&& r.len() == (if h.len() < 20 {
                h.len() + 1
            } else {
                20
            })
            &&& r[0].password == password && r[0].changed_at == at
            &&& 0 < i < r.len() ==> r[i] == h[i - 1]
        }),
{
}

/// After an edit a note has the title without the white space around it, the content
/// as typed, and the category and the tags of the form.
pub proof fn law_note_edit_takes_the_form(
    n: NoteView,
    title: Seq<char>,
    content: Seq<char>,
    category: Seq<char>,
    tags: Seq<char>,
)
    ensures
        ({
            let r = note_edited(n, title, content, category, tags);
            &&& r.id == n.id
            &&& r.title == trimmed(title)
            &&& r.content == content
            &&& r.category == optional_text(category)
            &&& r.tags == tag_list(tags, false)
        }),
{
}

/// A new entry has what was typed, without white space around service, user name and
/// category; it is not pinned and has no former passwords.
pub proof fn law_new_entry_takes_the_form(
    id: Seq<char>,
    service: Seq<char>,
    username: Seq<char>,
    password: Seq<char>,
    totp_secret: Option<Seq<char>>,
    category: Option<Seq<char>>,
    tags: Seq<Seq<char>>,
)
    ensures
        ({
            let e = entry_made(id, service, username, password, totp_secret, category, tags);
            &&& e.id == id
            &&& e.service == trimmed(service)
            &&& e.username == trimmed(username)
            &&& e.password == password
            &&& e.totp_secret == totp_secret
            &&& e.category == (if category is None || trimmed(category.unwrap()).len() == 0 {
                None
            } else {
                Some(trimmed(category.unwrap()))
            })
            &&& e.tags == tags
            &&& !e.pinned
            &&& e.password_history.len() == 0
        }),
{
}

/// A new note has what was typed, without white space around title and category.
pub proof fn law_new_note_takes_the_form(
    id: Seq<char>,
    title: Seq<char>,
    content: Seq<char>,
    category: Option<Seq<char>>,
    tags: Seq<Seq<char>>,
)
    ensures
        ({
            let n = note_made(id, title, content, category, tags);
            &&& n.id == id
            &&& n.title == trimmed(title)
            &&& n.content == content
            &&& n.category == (if category is None || trimmed(category.unwrap()).len() == 0 {
                None
            } else {
                Some(trimmed(category.unwrap()))
            })
            &&& n.tags == tags
        }),
{
}

/// Pinning changes the pin and nothing else.
pub proof fn law_pin_exact(e: EntryView)
    ensures
        pin_toggled(e).pinned == !e.pinned,
        pin_toggled(e).id == e.id,
        pin_toggled(e).service == e.service,
        pin_toggled(e).username == e.username,
        pin_toggled(e).password == e.password,
        pin_toggled(e).totp_secret == e.totp_secret,
        pin_toggled(e).category == e.category,
        pin_toggled(e).tags == e.tags,
        pin_toggled(e).password_history == e.password_history,
{
}

/// A move takes one entry out and puts it in elsewhere: right before the target, or
/// at the end; all others stay in their order. A move onto itself, of no entry or to
/// no entry changes nothing.
pub proof fn law_move_exact(entries: Seq<EntryView>, src: int, tgt: int)
    ensures
        0 <= src < entries.len() ==> moved(entries, src, None) == entries.remove(src).push(
            entries[src],
        ),
        0 <= src < tgt < entries.len() ==> moved(entries, src, Some(tgt)) == entries.subrange(
            0,
            src,
        ) + entries.subrange(src + 1, tgt) + seq![entries[src]] + entries.subrange(
            tgt,
            entries.len() as int,
        ),
        0 <= tgt < src < entries.len() ==> moved(entries, src, Some(tgt)) == entries.subrange(
            0,
            tgt,
        ) + seq![entries[src]] + entries.subrange(tgt, src) + entries.subrange(
            src + 1,
            entries.len() as int,
        ),
        src == tgt || !(0 <= tgt < entries.len()) || !(0 <= src < entries.len()) ==> moved(
            entries,
            src,
            Some(tgt),
        ) == entries,
        !(0 <= src < entries.len()) ==> moved(entries, src, None) == entries,
{
    if 0 <= src < tgt < entries.len() {
        assert(moved(entries, src, Some(tgt)) =~= entries.subrange(0, src) + entries.subrange(
            src + 1,
            tgt,
        ) + seq![entries[src]] + entries.subrange(tgt, entries.len() as int));
    }
    if 0 <= tgt < src < entries.len() {
        assert(moved(entries, src, Some(tgt)) =~= entries.subrange(0, tgt) + seq![entries[src]]
            + entries.subrange(tgt, src) + entries.subrange(src + 1, entries.len() as int));
    }
}

/// Deleting takes out every entry with the identifier and keeps the others in order.
pub proof fn law_delete_keeps_order(a: Seq<EntryView>, e: EntryView, id: Seq<char>)
    ensures
        entries_without(Seq::<EntryView>::empty(), id).len() == 0,
        e.id == id ==> entries_without(a.push(e), id) == entries_without(a, id),
        e.id != id ==> entries_without(a.push(e), id) == entries_without(a, id).push(e),
{
    reveal(Seq::filter);
    assert(a.push(e).drop_last() =~= a);
}

/// Deleting takes out every note with the identifier and keeps the others in order.
pub proof fn law_note_delete_keeps_order(a: Seq<NoteView>, n: NoteView, id: Seq<char>)
    ensures
        notes_without(Seq::<NoteView>::empty(), id).len() == 0,
        n.id == id ==> notes_without(a.push(n), id) == notes_without(a, id),
        n.id != id ==> notes_without(a.push(n), id) == notes_without(a, id).push(n),
{
    reveal(Seq::filter);
    assert(a.push(n).drop_last() =~= a);
}

/// Removing a former password takes out that one and keeps the others in order, and
/// everything else in the entry.
pub proof fn law_former_removed_exact(e: EntryView, k: int)
    ensures
        0 <= k < e.password_history.len() ==> without_former(e, k).password_history
            == e.password_history.subrange(0, k) + e.password_history.subrange(
            k + 1,
            e.password_history.len() as int,
        ),
        !(0 <= k < e.password_history.len()) ==> without_former(e, k) == e,
        without_former(e, k) == (EntryView {
            password_history: without_former(e, k).password_history,
            ..e
        }),
{
    if 0 <= k < e.password_history.len() {
        assert(without_former(e, k).password_history =~= e.password_history.subrange(0, k)
            + e.password_history.subrange(k + 1, e.password_history.len() as int));
    }
}

/// Wiping a vault takes the secrets out and leaves the rest as it was.
pub proof fn law_wiping_keeps_the_rest(v: VaultView, i: int)
    ensures
        0 <= i < v.entries.len() ==> {
            let e = wiped_vault(v).entries[i];
            &&& e.id == v.entries[i].id
            &&& e.service == v.entries[i].service
            &&& e.username == v.entries[i].username
            &&& e.category == v.entries[i].category
            &&& e.tags == v.entries[i].tags
            &&& e.pinned == v.entries[i].pinned
            &&& e.password_history.len() == v.entries[i].password_history.len()
        },
        0 <= i < v.notes.len() ==> {
            let n = wiped_vault(v).notes[i];
            &&& n.id == v.notes[i].id
            &&& n.title == v.notes[i].title
            &&& n.category == v.notes[i].category
            &&& n.tags == v.notes[i].tags
        },
{
}

} // verus!

//! Adding the contents of another vault.
use crate::codec::url_safe_text;
use crate::crypto::{gen_id, is_id};
use crate::model::{
    empty_vault, entry_views, note_views, Entry, EntryView, NoteView, SecureNote, Vault, VaultView,
};
use crate::text::views;
use crate::vault::{entry_ids, find_entry, find_note, first_at, note_ids, place_of};
use vstd::prelude::*;

verus! {

// ---------------------------------------------------------------------------
// Importing
// ---------------------------------------------------------------------------

/// An imported entry as it is added: with a fresh identifier if its own is taken.
pub open spec fn admitted_entry(
    existing: Seq<EntryView>,
    e: EntryView,
    fresh: Seq<char>,
) -> EntryView {
    if entry_ids(existing).contains(e.id) {
        EntryView { id: fresh, ..e }
    } else {
        e
    }
}

/// An imported note as it is added: with a fresh identifier if its own is taken.
pub open spec fn admitted_note(existing: Seq<NoteView>, n: NoteView, fresh: Seq<char>) -> NoteView {
    if note_ids(existing).contains(n.id) {
        NoteView { id: fresh, ..n }
    } else {
        n
    }
}

/// A vault after an import, given the identifiers to use where one is taken.
pub open spec fn imported_into(
    vault: VaultView,
    imported: VaultView,
    fresh_entries: Seq<Seq<char>>,
    fresh_notes: Seq<Seq<char>>,
) -> VaultView {
    VaultView {
        entries: vault.entries + Seq::new(
            imported.entries.len(),
            |i: int| admitted_entry(vault.entries, imported.entries[i], fresh_entries[i]),
        ),
        notes: vault.notes + Seq::new(
            imported.notes.len(),
            |i: int| admitted_note(vault.notes, imported.notes[i], fresh_notes[i]),
        ),
    }
}

proof fn lemma_contains_id(ids: Seq<Seq<char>>, id: Seq<char>)
    ensures
        ids.contains(id) <==> place_of(ids, id) is Some,
    decreases ids.len(),
{
    if place_of(ids, id) is Some {
        let i = choose|i: int| first_at(ids, id, i);
        assert(first_at(ids, id, i));
        assert(ids[i] == id);
    }
    if ids.contains(id) {
        let k = choose|k: int| 0 <= k < ids.len() && ids[k] == id;
        lemma_first_exists(ids, id, k);
    }
}

proof fn lemma_first_exists(ids: Seq<Seq<char>>, id: Seq<char>, k: int)
    requires
        0 <= k < ids.len(),
        ids[k] == id,
    ensures
        place_of(ids, id) is Some,
    decreases k,
{
    if exists|j: int| 0 <= j < k && ids[j] == id {
        let j = choose|j: int| 0 <= j < k && ids[j] == id;
        lemma_first_exists(ids, id, j);
    } else {
        assert(first_at(ids, id, k));
    }
}

/// Adds everything in an imported vault, giving the items whose identifier is
/// taken the given identifiers; returns how many were added.
pub fn import_with_ids(
    vault: &mut Vault,
    imported: Vault,
    fresh_entries: &Vec<String>,
    fresh_notes: &Vec<String>,
) -> (added: usize)
    requires
        fresh_entries@.len() == imported.entries@.len(),
        fresh_notes@.len() == imported.notes@.len(),
        imported.entries@.len() + imported.notes@.len() <= usize::MAX,
    ensures
        final(vault)@ == imported_into(
            old(vault)@,
            imported@,
            views(fresh_entries@),
            views(fresh_notes@),
        ),
        added == imported@.entries.len() + imported@.notes.len(),
{
    let ghost was = vault@;
    let ghost from = imported@;
    let ghost fe = views(fresh_entries@);
    let ghost fnn = views(fresh_notes@);
    let old_entries: usize = vault.entries.len();
    let old_notes: usize = vault.notes.len();
    let mut new_entries: Vec<Entry> = Vec::new();
    let mut i: usize = 0;
    while i < imported.entries.len()
        invariant
            i <= imported.entries@.len(),
            imported@ == from,
            vault@ == was,
            fe == views(fresh_entries@),
            fresh_entries@.len() == imported.entries@.len(),
            entry_views(new_entries@) == Seq::new(
                i as nat,
                |k: int| admitted_entry(was.entries, from.entries[k], fe[k]),
            ),
        decreases imported.entries@.len() - i,
    {
        let mut entry: Entry = imported.entries[i].clone();
        let ghost before = entry_views(new_entries@);
        proof {
            assert(from.entries[i as int] == imported.entries@[i as int]@);
            assert(fe[i as int] == fresh_entries@[i as int]@);
            lemma_contains_id(entry_ids(was.entries), entry@.id);
        }
        if find_entry(&vault.entries, &entry.id).is_some() {
            entry.id = fresh_entries[i].clone();
        }
        let ghost made = entry@;
        new_entries.push(entry);
        proof {
            assert(entry_views(new_entries@) =~= before.push(made));
            assert(entry_views(new_entries@) =~= Seq::new(
                (i + 1) as nat,
                |k: int| admitted_entry(was.entries, from.entries[k], fe[k]),
            ));
        }
        i += 1;
    }
    let mut new_notes: Vec<SecureNote> = Vec::new();
    let mut j: usize = 0;
    while j < imported.notes.len()
        invariant
            j <= imported.notes@.len(),
            imported@ == from,
            vault@ == was,
            fnn == views(fresh_notes@),
            fresh_notes@.len() == imported.notes@.len(),
            note_views(new_notes@) == Seq::new(
                j as nat,
                |k: int| admitted_note(was.notes, from.notes[k], fnn[k]),
            ),
        decreases imported.notes@.len() - j,
    {
        let mut note: SecureNote = imported.notes[j].clone();
        let ghost before = note_views(new_notes@);
        proof {
            assert(from.notes[j as int] == imported.notes@[j as int]@);
            assert(fnn[j as int] == fresh_notes@[j as int]@);
            lemma_contains_id(note_ids(was.notes), note@.id);
        }
        if find_note(&vault.notes, &note.id).is_some() {
            note.id = fresh_notes[j].clone();
        }
        let ghost made = note@;
        new_notes.push(note);
        proof {
            assert(note_views(new_notes@) =~= before.push(made));
            assert(note_views(new_notes@) =~= Seq::new(
                (j + 1) as nat,
                |k: int| admitted_note(was.notes, from.notes[k], fnn[k]),
            ));
        }
        j += 1;
    }
    let ghost ne = entry_views(new_entries@);
    let ghost nn = note_views(new_notes@);
    vault.entries.append(&mut new_entries);
    vault.notes.append(&mut new_notes);
    proof {
        assert(entry_views(vault.entries@) =~= was.entries + ne);
        assert(note_views(vault.notes@) =~= was.notes + nn);
        assert(from.entries.len() == imported.entries@.len());
        assert(from.notes.len() == imported.notes@.len());
        assert(vault@ =~= imported_into(was, from, fe, fnn));
    }
    imported.entries.len() + imported.notes.len()
}

fn fresh_ids(n: usize) -> (res: Vec<String>)
    ensures
        res@.len() == n,
        forall|i: int| 0 <= i < n ==> is_id(#[trigger] views(res@)[i]),
{
    let mut out: Vec<String> = Vec::new();
    let mut i: usize = 0;
    while i < n
        invariant
            i <= n,
            out@.len() == i,
            forall|k: int| 0 <= k < i ==> is_id(#[trigger] out@[k]@),
        decreases n - i,
    {
        out.push(gen_id());
        i += 1;
    }
    out
}

/// `now` is what an import of `imported` makes of `was`, for some fresh identifiers.
pub open spec fn imports_to(was: VaultView, imported: VaultView, now: VaultView) -> bool {
    exists|fe: Seq<Seq<char>>, fnn: Seq<Seq<char>>|
        {
            &&& fe.len() == imported.entries.len()
            &&& fnn.len() == imported.notes.len()
            &&& forall|i: int| 0 <= i < fe.len() ==> is_id(#[trigger] fe[i])
            &&& forall|i: int| 0 <= i < fnn.len() ==> is_id(#[trigger] fnn[i])
            &&& now == #[trigger] imported_into(was, imported, fe, fnn)
        }
}

/// Adds everything in an imported vault, giving fresh identifiers to the items
/// whose own is taken; returns how many were added.
pub fn import_vault(vault: &mut Vault, imported: Vault) -> (added: usize)
    requires
        imported.entries@.len() + imported.notes@.len() <= usize::MAX,
    ensures
        added == imported@.entries.len() + imported@.notes.len(),
        imports_to(old(vault)@, imported@, final(vault)@),
{
    let fe: Vec<String> = fresh_ids(imported.entries.len());
    let fnn: Vec<String> = fresh_ids(imported.notes.len());
    let ghost was = vault@;
    let ghost from = imported@;
    let added: usize = import_with_ids(vault, imported, &fe, &fnn);
    proof {
        assert(views(fe@).len() == from.entries.len());
        assert(views(fnn@).len() == from.notes.len());
        assert(vault@ == imported_into(was, from, views(fe@), views(fnn@)));
    }
    added
}

/// An import keeps everything the vault held, in front and unchanged, and adds
/// every imported item behind it, complete but for the identifier.
pub proof fn law_import_is_lossless(
    vault: VaultView,
    imported: VaultView,
    fe: Seq<Seq<char>>,
    fnn: Seq<Seq<char>>,
    i: int,
)
    requires
        0 <= i,
    ensures
        ({
            let r = imported_into(vault, imported, fe, fnn);
            &&& r.entries.len() == vault.entries.len() + imported.entries.len()
            &&& r.notes.len() == vault.notes.len() + imported.notes.len()
            &&& i < vault.entries.len() ==> r.entries[i] == vault.entries[i]
            &&& i < vault.notes.len() ==> r.notes[i] == vault.notes[i]
            &&& i < imported.entries.len() ==> {
                let e = r.entries[vault.entries.len() + i];
                e == (EntryView { id: e.id, ..imported.entries[i] })
            }
            &&& i < imported.notes.len() ==> {
                let n = r.notes[vault.notes.len() + i];
                n == (NoteView { id: n.id, ..imported.notes[i] })
            }
        }),
{
}

/// An import into an empty vault gives exactly the imported vault, in every field
/// and in the same order.
pub proof fn law_import_into_empty_vault(imported: VaultView, now: VaultView)
    requires
        imports_to(empty_vault(), imported, now),
    ensures
        now == imported,
{
    let (fe, fnn) = choose|fe: Seq<Seq<char>>, fnn: Seq<Seq<char>>|
        now == #[trigger] imported_into(empty_vault(), imported, fe, fnn);
    assert(entry_ids(empty_vault().entries).len() == 0);
    assert(note_ids(empty_vault().notes).len() == 0);
    assert(now.entries =~= imported.entries);
    assert(now.notes =~= imported.notes);
}

/// No imported item keeps an identifier that the vault already used, as long as
/// the fresh identifiers are new to it.
pub proof fn law_import_takes_no_used_id(
    vault: VaultView,
    imported: VaultView,
    fe: Seq<Seq<char>>,
    fnn: Seq<Seq<char>>,
    i: int,
)
    requires
        0 <= i < imported.entries.len(),
        !entry_ids(vault.entries).contains(fe[i]),
    ensures
        !entry_ids(vault.entries).contains(
            imported_into(vault, imported, fe, fnn).entries[vault.entries.len() + i].id,
        ),
{
}

/// An imported item keeps its identifier exactly if nothing of its kind in the vault
/// has it, and otherwise gets the fresh one.
pub proof fn law_import_identifiers_exact(
    vault: VaultView,
    imported: VaultView,
    fe: Seq<Seq<char>>,
    fnn: Seq<Seq<char>>,
    i: int,
)
    ensures
        ({
            let r = imported_into(vault, imported, fe, fnn);
            &&& 0 <= i < imported.entries.len() ==> {
                let id = imported.entries[i].id;
                let taken = exists|j: int|
                    0 <= j < vault.entries.len() && (#[trigger] vault.entries[j]).id == id;
                r.entries[vault.entries.len() + i].id == (if taken {
                    fe[i]
                } else {
                    id
                })
            }
            &&& 0 <= i < imported.notes.len() ==> {
                let id = imported.notes[i].id;
                let taken = exists|j: int|
                    0 <= j < vault.notes.len() && (#[trigger] vault.notes[j]).id == id;
                r.notes[vault.notes.len() + i].id == (if taken {
                    fnn[i]
                } else {
                    id
                })
            }
        }),
{
    let ids = entry_ids(vault.entries);
    if 0 <= i < imported.entries.len() {
        let id = imported.entries[i].id;
        if exists|j: int| 0 <= j < vault.entries.len() && (#[trigger] vault.entries[j]).id == id {
            let j = choose|j: int|
                0 <= j < vault.entries.len() && (#[trigger] vault.entries[j]).id == id;
            assert(ids[j] == id);
        }
        if ids.contains(id) {
            let j = choose|j: int| 0 <= j < ids.len() && ids[j] == id;
            assert(vault.entries[j].id == id);
        }
    }
    let nids = note_ids(vault.notes);
    if 0 <= i < imported.notes.len() {
        let id = imported.notes[i].id;
        if exists|j: int| 0 <= j < vault.notes.len() && (#[trigger] vault.notes[j]).id == id {
            let j = choose|j: int|
                0 <= j < vault.notes.len() && (#[trigger] vault.notes[j]).id == id;
            assert(nids[j] == id);
        }
        if nids.contains(id) {
            let j = choose|j: int| 0 <= j < nids.len() && nids[j] == id;
            assert(vault.notes[j].id == id);
        }
    }
}

/// What an import leaves is fixed but for the fresh identifiers, each of which is made
/// of sixteen bytes.
pub proof fn law_import_outcome(was: VaultView, imported: VaultView, now: VaultView, i: int)
    requires
        imports_to(was, imported, now),
    ensures
        now.entries.len() == was.entries.len() + imported.entries.len(),
        now.notes.len() == was.notes.len() + imported.notes.len(),
        0 <= i < was.entries.len() ==> now.entries[i] == was.entries[i],
        0 <= i < was.notes.len() ==> now.notes[i] == was.notes[i],
        0 <= i < imported.entries.len() ==> {
            let e = now.entries[was.entries.len() + i];
            let o = imported.entries[i];
            &&& e.service == o.service && e.username == o.username && e.password == o.password
            &&& e.totp_secret == o.totp_secret && e.category == o.category && e.tags == o.tags
            &&& e.pinned == o.pinned && e.password_history == o.password_history
            &&& e.id == o.id || exists|b: Seq<u8>| b.len() == 16 && #[trigger] url_safe_text(b)
                == e.id
        },
        0 <= i < imported.notes.len() ==> {
            let n = now.notes[was.notes.len() + i];
            let o = imported.notes[i];
            &&& n.title == o.title && n.content == o.content && n.category == o.category && n.tags
                == o.tags
            &&& n.id == o.id || exists|b: Seq<u8>| b.len() == 16 && #[trigger] url_safe_text(b)
                == n.id
        },
{
    let (fe, fnn) = choose|fe: Seq<Seq<char>>, fnn: Seq<Seq<char>>|
        {
            &&& fe.len() == imported.entries.len()
            &&& fnn.len() == imported.notes.len()
            &&& forall|i: int| 0 <= i < fe.len() ==> is_id(#[trigger] fe[i])
            &&& forall|i: int| 0 <= i < fnn.len() ==> is_id(#[trigger] fnn[i])
            &&& now == #[trigger] imported_into(was, imported, fe, fnn)
        };
    if 0 <= i < imported.entries.len() {
        assert(is_id(fe[i]));
    }
    if 0 <= i < imported.notes.len() {
        assert(is_id(fnn[i]));
    }
}

} // verus!

//! What the lists show: searching, filtering, and the categories and tags in use.
use crate::model::{Entry, EntryView, NoteView, SecureNote, entry_views, note_views, opt_view};
use crate::text::{
    all_ascii, ascii_lower, comes_before, contains, contains_text, lemma_case_of_nothing,
    lemma_text_before_irreflexive, lemma_text_before_total, lemma_text_before_transitive,
    text_before, to_lower, unicode_lower, unicode_upper, views,
};
use vstd::prelude::*;

verus! {

// ---------------------------------------------------------------------------
// Searching and filtering
// ---------------------------------------------------------------------------

/// The text of an optional field, empty if it is not set.
pub open spec fn text_or_empty(o: Option<Seq<char>>) -> Seq<char> {
    match o {
        Some(s) => s,
        None => Seq::empty(),
    }
}

/// `q` stands in `s`, if `s` is written in small letters.
pub open spec fn found_in(s: Seq<char>, q: Seq<char>) -> bool {
    contains_text(unicode_lower(s), q)
}

/// One of the tags holds `q`, if it is written in small letters.
pub open spec fn found_in_tags(tags: Seq<Seq<char>>, q: Seq<char>) -> bool {
    exists|i: int| 0 <= i < tags.len() && found_in(#[trigger] tags[i], q)
}

/// An entry passes the search for `q`, a text in small letters: it is empty, or
/// stands in the service, the user name, the category or a tag.
pub open spec fn passes_search(e: EntryView, q: Seq<char>) -> bool {
    ||| q.len() == 0
    ||| found_in(e.service, q)
    ||| found_in(e.username, q)
    ||| found_in(text_or_empty(e.category), q)
    ||| found_in_tags(e.tags, q)
}

/// A category passes a category filter.
pub open spec fn passes_category(category: Option<Seq<char>>, filter: Option<Seq<char>>) -> bool {
    filter is Some ==> category == filter
}

/// The tags pass a tag filter.
pub open spec fn passes_tag(tags: Seq<Seq<char>>, filter: Option<Seq<char>>) -> bool {
    filter is Some ==> tags.contains(filter.unwrap())
}

/// What the password page shows: a search text, and a category and a tag filter.
#[verifier::ext_equal]
pub struct Query {
    pub search: Seq<char>,
    pub category: Option<Seq<char>>,
    pub tag: Option<Seq<char>>,
}

/// An entry is shown under a query.
pub open spec fn matches_query(e: EntryView, q: Query) -> bool {
    &&& passes_search(e, unicode_lower(q.search))
    &&& passes_category(e.category, q.category)
    &&& passes_tag(e.tags, q.tag)
}

/// A note is shown under a category and a tag filter.
pub open spec fn note_matches(
    n: NoteView,
    category: Option<Seq<char>>,
    tag: Option<Seq<char>>,
) -> bool {
    passes_category(n.category, category) && passes_tag(n.tags, tag)
}

fn lower_contains(s: &str, q: &str) -> (res: bool)
    ensures
        res == found_in(s@, q@),
{
    let lower: String = to_lower(s);
    contains(lower.as_str(), q)
}

fn tag_contains(tags: &Vec<String>, q: &str) -> (res: bool)
    ensures
        res == found_in_tags(views(tags@), q@),
{
    let ghost all = views(tags@);
    let mut i: usize = 0;
    while i < tags.len()
        invariant
            i <= tags@.len(),
            all == views(tags@),
            forall|k: int| 0 <= k < i ==> !found_in(#[trigger] all[k], q@),
        decreases tags@.len() - i,
    {
        proof {
            assert(all[i as int] == tags@[i as int]@);
        }
        if lower_contains(tags[i].as_str(), q) {
            return true;
        }
        i += 1;
    }
    false
}

fn category_passes(category: &Option<String>, filter: &Option<String>) -> (res: bool)
    ensures
        res == passes_category(opt_view(*category), opt_view(*filter)),
{
    match filter {
        Some(f) => match category {
            Some(c) => *c == *f,
            None => false,
        },
        None => true,
    }
}

fn tag_passes(tags: &Vec<String>, filter: &Option<String>) -> (res: bool)
    ensures
        res == passes_tag(views(tags@), opt_view(*filter)),
{
    match filter {
        Some(f) => {
            let ghost all = views(tags@);
            let mut i: usize = 0;
            while i < tags.len()
                invariant
                    i <= tags@.len(),
                    all == views(tags@),
                    opt_view(*filter) == Some(f@),
                    forall|k: int| 0 <= k < i ==> #[trigger] all[k] != f@,
                decreases tags@.len() - i,
            {
                proof {
                    assert(all[i as int] == tags@[i as int]@);
                }
                if tags[i] == *f {
                    return true;
                }
                i += 1;
            }
            false
        },
        None => true,
    }
}

/// Whether an entry is shown under a search text in small letters and two filters.
fn entry_passes(
    e: &Entry,
    search_lower: &str,
    category: &Option<String>,
    tag: &Option<String>,
) -> (res: bool)
    ensures
        res == (passes_search(e@, search_lower@) && passes_category(
            e@.category,
            opt_view(*category),
        ) && passes_tag(e@.tags, opt_view(*tag))),
{
    let empty: String = String::new();
    let text_match: bool = search_lower.is_empty() || lower_contains(
        e.service.as_str(),
        search_lower,
    ) || lower_contains(e.username.as_str(), search_lower) || lower_contains(
        match &e.category {
            Some(c) => c.as_str(),
            None => empty.as_str(),
        },
        search_lower,
    ) || tag_contains(&e.tags, search_lower);
    text_match && category_passes(&e.category, category) && tag_passes(&e.tags, tag)
}

/// The numbers below `n` that satisfy `p`, in ascending order.
pub open spec fn select(n: nat, p: spec_fn(int) -> bool) -> Seq<usize>
    decreases n,
{
    if n == 0 {
        Seq::empty()
    } else if p(n - 1) {
        select((n - 1) as nat, p).push((n - 1) as usize)
    } else {
        select((n - 1) as nat, p)
    }
}

/// The places of the entries shown under a query, in the order of the vault;
/// unless an entry is being dragged, the pinned ones come first.
pub open spec fn visible(entries: Seq<EntryView>, q: Query, dragging: bool) -> Seq<usize> {
    if dragging {
        select(entries.len(), |i: int| matches_query(entries[i], q))
    } else {
        select(entries.len(), |i: int| matches_query(entries[i], q) && entries[i].pinned) + select(
            entries.len(),
            |i: int| matches_query(entries[i], q) && !entries[i].pinned,
        )
    }
}

/// The places of the entries shown under a search text and two filters.
pub fn visible_entries(
    entries: &Vec<Entry>,
    search_query: &str,
    category: &Option<String>,
    tag: &Option<String>,
    dragging: bool,
) -> (res: Vec<usize>)
    ensures
        res@ == visible(
            entry_views(entries@),
            (Query { search: search_query@, category: opt_view(*category), tag: opt_view(*tag) }),
            dragging,
        ),
{
    let lower: String = to_lower(search_query);
    let ghost all = entry_views(entries@);
    let ghost q = Query {
        search: search_query@,
        category: opt_view(*category),
        tag: opt_view(*tag),
    };
    let mut first: Vec<usize> = Vec::new();
    let mut second: Vec<usize> = Vec::new();
    let mut i: usize = 0;
    let ghost p_all = |k: int| matches_query(all[k], q);
    let ghost p_pin = |k: int| matches_query(all[k], q) && all[k].pinned;
    let ghost p_rest = |k: int| matches_query(all[k], q) && !all[k].pinned;
    while i < entries.len()
        invariant
            i <= entries@.len(),
            all == entry_views(entries@),
            lower@ == unicode_lower(q.search),
            q.category == opt_view(*category),
            q.tag == opt_view(*tag),
            p_all == (|k: int| matches_query(all[k], q)),
            p_pin == (|k: int| matches_query(all[k], q) && all[k].pinned),
            p_rest == (|k: int| matches_query(all[k], q) && !all[k].pinned),
            dragging ==> first@ == select(i as nat, p_all) && second@.len() == 0,
            !dragging ==> first@ == select(i as nat, p_pin) && second@ == select(
                i as nat,
                p_rest,
            ),
        decreases entries@.len() - i,
    {
        let e: &Entry = &entries[i];
        proof {
            assert(all[i as int] == e@);
        }
        if entry_passes(e, lower.as_str(), category, tag) {
            if dragging || e.pinned {
                first.push(i);
            } else {
                second.push(i);
            }
        }
        i += 1;
    }
    let ghost f = first@;
    let ghost s = second@;
    first.append(&mut second);
    proof {
        assert(first@ == f + s);
        if dragging {
            assert(f + s =~= f);
        }
    }
    first
}

/// The places of the notes shown under a category and a tag filter.
pub open spec fn visible_note_places(
    notes: Seq<NoteView>,
    category: Option<Seq<char>>,
    tag: Option<Seq<char>>,
) -> Seq<usize> {
    select(notes.len(), |i: int| note_matches(notes[i], category, tag))
}

/// The places of the notes shown under a category and a tag filter.
pub fn visible_notes(notes: &Vec<SecureNote>, category: &Option<String>, tag: &Option<String>) -> (res:
    Vec<usize>)
    ensures
        res@ == visible_note_places(note_views(notes@), opt_view(*category), opt_view(*tag)),
{
    let ghost all = note_views(notes@);
    let ghost c = opt_view(*category);
    let ghost t = opt_view(*tag);
    let ghost p = |k: int| note_matches(all[k], c, t);
    let mut out: Vec<usize> = Vec::new();
    let mut i: usize = 0;
    while i < notes.len()
        invariant
            i <= notes@.len(),
            all == note_views(notes@),
            c == opt_view(*category),
            t == opt_view(*tag),
            p == (|k: int| note_matches(all[k], c, t)),
            out@ == select(i as nat, p),
        decreases notes@.len() - i,
    {
        proof {
            assert(all[i as int] == notes@[i as int]@);
        }
        if category_passes(&notes[i].category, category) && tag_passes(&notes[i].tags, tag) {
            out.push(i);
        }
        i += 1;
    }
    out
}

// ---------------------------------------------------------------------------
// Laws of the lists
// ---------------------------------------------------------------------------

/// A selection holds each selected number once, in ascending order, and no other.
pub proof fn law_select_exact(n: nat, p: spec_fn(int) -> bool)
    requires
        n <= usize::MAX,
    ensures
        forall|k: int|
            0 <= k < select(n, p).len() ==> (#[trigger] select(n, p)[k]) < n && p(
                select(n, p)[k] as int,
            ),
        forall|j: int, k: int|
            0 <= j < k < select(n, p).len() ==> select(n, p)[j] < select(n, p)[k],
        forall|i: int| 0 <= i < n && p(i) ==> select(n, p).contains(#[trigger] (i as usize)),
    decreases n,
{
    if n > 0 {
        let m = (n - 1) as nat;
        let prev = select(m, p);
        law_select_exact(m, p);
        let all = select(n, p);
        assert forall|i: int| 0 <= i < n && p(i) implies all.contains(
            #[trigger] (i as usize),
        ) by {
            if i < m {
                assert(prev.contains(i as usize));
                let k = choose|k: int| 0 <= k < prev.len() && prev[k] == i as usize;
                assert(all[k] == i as usize);
            } else {
                assert(all[all.len() - 1] == i as usize);
            }
        }
    }
}

/// The list shows exactly the entries that match the query, each once.
pub proof fn law_visible_exact(entries: Seq<EntryView>, q: Query, dragging: bool, i: int)
    requires
        entries.len() <= usize::MAX,
        0 <= i < entries.len(),
    ensures
        visible(entries, q, dragging).contains(i as usize) <==> matches_query(entries[i], q),
        visible(entries, q, dragging).no_duplicates(),
        forall|k: int|
            0 <= k < visible(entries, q, dragging).len() ==> (#[trigger] visible(
                entries,
                q,
                dragging,
            )[k]) < entries.len(),
{
    let n = entries.len();
    let v = visible(entries, q, dragging);
    if dragging {
        let p = |k: int| matches_query(entries[k], q);
        law_select_exact(n, p);
        if v.contains(i as usize) {
            let k = choose|k: int| 0 <= k < v.len() && v[k] == i as usize;
            assert(p(v[k] as int));
        }
        if p(i) {
            assert(v.contains(i as usize));
        }
    } else {
        let p = |k: int| matches_query(entries[k], q) && entries[k].pinned;
        let r = |k: int| matches_query(entries[k], q) && !entries[k].pinned;
        law_select_exact(n, p);
        law_select_exact(n, r);
        let a = select(n, p);
        let b = select(n, r);
        assert(v == a + b);
        if v.contains(i as usize) {
            let k = choose|k: int| 0 <= k < v.len() && v[k] == i as usize;
            if k < a.len() {
                assert(p(a[k] as int));
            } else {
                assert(r(b[k - a.len()] as int));
            }
        }
        if p(i) {
            assert(a.contains(i as usize));
            let k = choose|k: int| 0 <= k < a.len() && a[k] == i as usize;
            assert(v[k] == i as usize);
        }
        if r(i) {
            assert(b.contains(i as usize));
            let k = choose|k: int| 0 <= k < b.len() && b[k] == i as usize;
            assert(v[a.len() + k] == i as usize);
        }
        assert forall|j: int, k: int| 0 <= j < k < v.len() implies v[j] != v[k] by {
            if j < a.len() && k >= a.len() {
                assert(p(a[j] as int));
                assert(r(b[k - a.len()] as int));
            }
        }
    }
}

/// Unless an entry is being dragged, every pinned entry stands above every other,
/// and within the pinned and within the others the order of the vault is kept.
pub proof fn law_pinned_first_and_stable(entries: Seq<EntryView>, q: Query, j: int, k: int)
    requires
        entries.len() <= usize::MAX,
        0 <= j < k < visible(entries, q, false).len(),
    ensures
        ({
            let v = visible(entries, q, false);
            let a = entries[v[j] as int].pinned;
            let b = entries[v[k] as int].pinned;
            &&& b ==> a
            &&& a == b ==> v[j] < v[k]
        }),
{
    let n = entries.len();
    let p = |i: int| matches_query(entries[i], q) && entries[i].pinned;
    let r = |i: int| matches_query(entries[i], q) && !entries[i].pinned;
    law_select_exact(n, p);
    law_select_exact(n, r);
    let a = select(n, p);
    let b = select(n, r);
    assert(visible(entries, q, false) == a + b);
    if j < a.len() {
        assert(p(a[j] as int));
    } else {
        assert(r(b[j - a.len()] as int));
    }
    if k < a.len() {
        assert(p(a[k] as int));
    } else {
        assert(r(b[k - a.len()] as int));
    }
}

/// Without a search text and filters every entry is shown.
pub proof fn law_empty_query_shows_all(e: EntryView, q: Query)
    requires
        q.search.len() == 0,
        q.category is None,
        q.tag is None,
    ensures
        matches_query(e, q),
{
    lemma_case_of_nothing();
    assert(q.search =~= Seq::empty());
}

/// A search does not care about capitals: whatever is found for an ASCII text is
/// found for the same text in capitals.
pub proof fn law_search_ignores_case(e: EntryView, q: Query)
    requires
        all_ascii(q.search),
    ensures
        matches_query(e, q) == matches_query(e, Query { search: unicode_upper(q.search), ..q }),
{
    let up = unicode_upper(q.search);
    assert(all_ascii(up)) by {
        assert forall|i: int| 0 <= i < up.len() implies (#[trigger] up[i] as u32) < 128 by {
            assert((q.search[i] as u32) < 128);
        }
    }
    assert(unicode_lower(up) =~= unicode_lower(q.search)) by {
        assert forall|i: int| 0 <= i < up.len() implies ascii_lower(#[trigger] up[i])
            == ascii_lower(q.search[i]) by {
            assert((q.search[i] as u32) < 128);
        }
    }
}

// ---------------------------------------------------------------------------
// Categories and tags in use
// ---------------------------------------------------------------------------

/// The texts stand in strictly ascending order, so none stands twice.
pub open spec fn ascending(list: Seq<Seq<char>>) -> bool {
    forall|i: int, j: int| 0 <= i < j < list.len() ==> text_before(list[i], list[j])
}

/// `list` holds, in ascending order and each once, exactly the texts that are
/// `wanted`.
pub open spec fn lists_exactly(list: Seq<Seq<char>>, wanted: spec_fn(Seq<char>) -> bool) -> bool {
    &&& ascending(list)
    &&& forall|t: Seq<char>| list.contains(t) <==> #[trigger] wanted(t)
}

/// Some entry has the category `t`, and it is not empty.
pub open spec fn category_in_use(entries: Seq<EntryView>, t: Seq<char>) -> bool {
    t.len() > 0 && exists|i: int|
        0 <= i < entries.len() && (#[trigger] entries[i]).category == Some(t)
}

/// Some entry has the tag `t`, and it is not empty.
pub open spec fn tag_in_use(entries: Seq<EntryView>, t: Seq<char>) -> bool {
    t.len() > 0 && exists|i: int|
        0 <= i < entries.len() && (#[trigger] entries[i]).tags.contains(t)
}

/// Some note has the category `t`, and it is not empty.
pub open spec fn note_category_in_use(notes: Seq<NoteView>, t: Seq<char>) -> bool {
    t.len() > 0 && exists|i: int|
        0 <= i < notes.len() && (#[trigger] notes[i]).category == Some(t)
}

/// Some note has the tag `t`, and it is not empty.
pub open spec fn note_tag_in_use(notes: Seq<NoteView>, t: Seq<char>) -> bool {
    t.len() > 0 && exists|i: int| 0 <= i < notes.len() && (#[trigger] notes[i]).tags.contains(t)
}

/// Puts a text into an ascending list, unless it is empty or stands there already.
fn insert_text(list: &mut Vec<String>, t: &String)
    requires
        ascending(views(old(list)@)),
    ensures
        ascending(views(final(list)@)),
        forall|x: Seq<char>|
            #[trigger] views(final(list)@).contains(x) <==> views(old(list)@).contains(x) || (x
                == t@ && t@.len() > 0),
{
    let ghost was = views(list@);
    if t.as_str().is_empty() {
        return;
    }
    let mut i: usize = 0;
    while i < list.len() && comes_before(list[i].as_str(), t.as_str())
        invariant
            i <= list@.len(),
            views(list@) == was,
            forall|k: int| 0 <= k < i ==> text_before(#[trigger] was[k], t@),
        decreases list@.len() - i,
    {
        proof {
            assert(was[i as int] == list@[i as int]@);
        }
        i += 1;
    }
    proof {
        assert(was.len() == list@.len());
        if i < list@.len() {
            assert(was[i as int] == list@[i as int]@);
            lemma_text_before_total(was[i as int], t@);
        }
    }
    if i < list.len() && list[i] == *t {
        proof {
            assert(was.contains(t@));
        }
        return;
    }
    list.insert(i, t.clone());
    proof {
        let now = views(list@);
        assert(now =~= was.insert(i as int, t@));
        assert forall|a: int, b: int| 0 <= a < b < now.len() implies text_before(now[a], now[b]) by {
            if a < i && b == i {
                assert(now[a] == was[a]);
            } else if a == i && b > i {
                assert(now[b] == was[b - 1]);
                if b - 1 > i {
                    lemma_text_before_transitive(t@, was[i as int], was[b - 1]);
                }
            } else {
                let x = if a < i {
                    a
                } else {
                    a - 1
                };
                let y = if b < i {
                    b
                } else {
                    b - 1
                };
                assert(now[a] == was[x]);
                assert(now[b] == was[y]);
            }
        }
        assert forall|x: Seq<char>| #[trigger] now.contains(x) <==> was.contains(x) || (x == t@
            && t@.len() > 0) by {
            if now.contains(x) {
                let k = choose|k: int| 0 <= k < now.len() && now[k] == x;
                if k < i {
                    assert(was[k] == x);
                } else if k > i {
                    assert(was[k - 1] == x);
                }
            }
            if was.contains(x) {
                let k = choose|k: int| 0 <= k < was.len() && was[k] == x;
                if k < i {
                    assert(now[k] == x);
                } else {
                    assert(now[k + 1] == x);
                }
            }
            assert(now[i as int] == t@);
        }
    }
}

/// Puts texts into an ascending list, the empty ones left out.
fn insert_texts(list: &mut Vec<String>, ts: &Vec<String>)
    requires
        ascending(views(old(list)@)),
    ensures
        ascending(views(final(list)@)),
        forall|x: Seq<char>|
            #[trigger] views(final(list)@).contains(x) <==> views(old(list)@).contains(x) || (
            x.len() > 0 && views(ts@).contains(x)),
{
    let ghost was = views(list@);
    let ghost all = views(ts@);
    let mut i: usize = 0;
    proof {
        assert forall|x: Seq<char>| !(#[trigger] all.take(0).contains(x)) by {}
    }
    while i < ts.len()
        invariant
            i <= ts@.len(),
            all == views(ts@),
            ascending(views(list@)),
            forall|x: Seq<char>|
                #[trigger] views(list@).contains(x) <==> was.contains(x) || (x.len() > 0
                    && all.take(i as int).contains(x)),
        decreases ts@.len() - i,
    {
        let ghost before = views(list@);
        insert_text(list, &ts[i]);
        proof {
            let seen = all.take(i as int);
            let next = all.take(i + 1);
            assert(next =~= seen.push(ts@[i as int]@));
            assert forall|x: Seq<char>| #[trigger] views(list@).contains(x) <==> was.contains(x)
                || (x.len() > 0 && next.contains(x)) by {
                assert(before.contains(x) <==> was.contains(x) || (x.len() > 0 && seen.contains(
                    x,
                )));
                lemma_push_contains(seen, ts@[i as int]@, x);
            }
        }
        i += 1;
    }
    proof {
        assert(all.take(i as int) =~= all);
    }
}

proof fn lemma_push_contains(s: Seq<Seq<char>>, t: Seq<char>, x: Seq<char>)
    ensures
        s.push(t).contains(x) <==> s.contains(x) || x == t,
{
    if s.push(t).contains(x) {
        let k = choose|k: int| 0 <= k < s.push(t).len() && s.push(t)[k] == x;
        if k < s.len() {
            assert(s[k] == x);
        }
    }
    if s.contains(x) {
        let k = choose|k: int| 0 <= k < s.len() && s[k] == x;
        assert(s.push(t)[k] == x);
    }
    if x == t {
        assert(s.push(t)[s.len() as int] == x);
    }
}

/// The categories of the entries, for the sidebar.
pub fn all_categories(entries: &Vec<Entry>) -> (res: Vec<String>)
    ensures
        lists_exactly(
            views(res@),
            |t: Seq<char>| category_in_use(entry_views(entries@), t),
        ),
{
    let ghost all = entry_views(entries@);
    let mut list: Vec<String> = Vec::new();
    let mut i: usize = 0;
    while i < entries.len()
        invariant
            i <= entries@.len(),
            all == entry_views(entries@),
            ascending(views(list@)),
            forall|t: Seq<char>|
                #[trigger] views(list@).contains(t) <==> category_in_use(all.take(i as int), t),
        decreases entries@.len() - i,
    {
        let ghost before = views(list@);
        let ghost seen = all.take(i as int);
        let ghost next = all.take(i + 1);
        proof {
            assert(all[i as int] == entries@[i as int]@);
            assert(forall|k: int| 0 <= k < i ==> seen[k] == next[k]);
        }
        match &entries[i].category {
            Some(c) => insert_text(&mut list, c),
            None => {},
        }
        proof {
            assert forall|t: Seq<char>| #[trigger] views(list@).contains(t) <==> category_in_use(
                next,
                t,
            ) by {
                assert(before.contains(t) <==> category_in_use(seen, t));
                if category_in_use(seen, t) {
                    let k = choose|k: int| 0 <= k < seen.len() && seen[k].category == Some(t);
                    assert(next[k].category == Some(t));
                }
                if category_in_use(next, t) {
                    let k = choose|k: int| 0 <= k < next.len() && next[k].category == Some(t);
                    if k < i {
                        assert(seen[k].category == Some(t));
                    }
                }
                assert(next[i as int] == entries@[i as int]@);
            }
        }
        i += 1;
    }
    proof {
        assert(all.take(i as int) =~= all);
    }
    list
}

/// The tags of the entries, for the sidebar.
pub fn all_tags(entries: &Vec<Entry>) -> (res: Vec<String>)
    ensures
        lists_exactly(views(res@), |t: Seq<char>| tag_in_use(entry_views(entries@), t)),
{
    let ghost all = entry_views(entries@);
    let mut list: Vec<String> = Vec::new();
    let mut i: usize = 0;
    while i < entries.len()
        invariant
            i <= entries@.len(),
            all == entry_views(entries@),
            ascending(views(list@)),
            forall|t: Seq<char>|
                #[trigger] views(list@).contains(t) <==> tag_in_use(all.take(i as int), t),
        decreases entries@.len() - i,
    {
        let ghost before = views(list@);
        let ghost seen = all.take(i as int);
        let ghost next = all.take(i + 1);
        proof {
            assert(all[i as int] == entries@[i as int]@);
            assert(forall|k: int| 0 <= k < i ==> seen[k] == next[k]);
        }
        insert_texts(&mut list, &entries[i].tags);
        proof {
            assert forall|t: Seq<char>| #[trigger] views(list@).contains(t) <==> tag_in_use(
                next,
                t,
            ) by {
                assert(before.contains(t) <==> tag_in_use(seen, t));
                if tag_in_use(seen, t) {
                    let k = choose|k: int| 0 <= k < seen.len() && seen[k].tags.contains(t);
                    assert(next[k].tags.contains(t));
                }
                if tag_in_use(next, t) {
                    let k = choose|k: int| 0 <= k < next.len() && next[k].tags.contains(t);
                    if k < i {
                        assert(seen[k].tags.contains(t));
                    }
                }
                assert(next[i as int] == entries@[i as int]@);
            }
        }
        i += 1;
    }
    proof {
        assert(all.take(i as int) =~= all);
    }
    list
}

/// The categories of the notes, for the sidebar.
pub fn all_note_categories(notes: &Vec<SecureNote>) -> (res: Vec<String>)
    ensures
        lists_exactly(views(res@), |t: Seq<char>| note_category_in_use(note_views(notes@), t)),
{
    let ghost all = note_views(notes@);
    let mut list: Vec<String> = Vec::new();
    let mut i: usize = 0;
    while i < notes.len()
        invariant
            i <= notes@.len(),
            all == note_views(notes@),
            ascending(views(list@)),
            forall|t: Seq<char>|
                #[trigger] views(list@).contains(t) <==> note_category_in_use(
                    all.take(i as int),
                    t,
                ),
        decreases notes@.len() - i,
    {
        let ghost before = views(list@);
        let ghost seen = all.take(i as int);
        let ghost next = all.take(i + 1);
        proof {
            assert(all[i as int] == notes@[i as int]@);
            assert(forall|k: int| 0 <= k < i ==> seen[k] == next[k]);
        }
        match &notes[i].category {
            Some(c) => insert_text(&mut list, c),
            None => {},
        }
        proof {
            assert forall|t: Seq<char>| #[trigger] views(list@).contains(t)
                <==> note_category_in_use(next, t) by {
                assert(before.contains(t) <==> note_category_in_use(seen, t));
                if note_category_in_use(seen, t) {
                    let k = choose|k: int| 0 <= k < seen.len() && seen[k].category == Some(t);
                    assert(next[k].category == Some(t));
                }
                if note_category_in_use(next, t) {
                    let k = choose|k: int| 0 <= k < next.len() && next[k].category == Some(t);
                    if k < i {
                        assert(seen[k].category == Some(t));
                    }
                }
                assert(next[i as int] == notes@[i as int]@);
            }
        }
        i += 1;
    }
    proof {
        assert(all.take(i as int) =~= all);
    }
    list
}

/// The tags of the notes, for the sidebar.
pub fn all_note_tags(notes: &Vec<SecureNote>) -> (res: Vec<String>)
    ensures
        lists_exactly(views(res@), |t: Seq<char>| note_tag_in_use(note_views(notes@), t)),
{
    let ghost all = note_views(notes@);
    let mut list: Vec<String> = Vec::new();
    let mut i: usize = 0;
    while i < notes.len()
        invariant
            i <= notes@.len(),
            all == note_views(notes@),
            ascending(views(list@)),
            forall|t: Seq<char>|
                #[trigger] views(list@).contains(t) <==> note_tag_in_use(all.take(i as int), t),
        decreases notes@.len() - i,
    {
        let ghost before = views(list@);
        let ghost seen = all.take(i as int);
        let ghost next = all.take(i + 1);
        proof {
            assert(all[i as int] == notes@[i as int]@);
            assert(forall|k: int| 0 <= k < i ==> seen[k] == next[k]);
        }
        insert_texts(&mut list, &notes[i].tags);
        proof {
            assert forall|t: Seq<char>| #[trigger] views(list@).contains(t) <==> note_tag_in_use(
                next,
                t,
            ) by {
                assert(before.contains(t) <==> note_tag_in_use(seen, t));
                if note_tag_in_use(seen, t) {
                    let k = choose|k: int| 0 <= k < seen.len() && seen[k].tags.contains(t);
                    assert(next[k].tags.contains(t));
                }
                if note_tag_in_use(next, t) {
                    let k = choose|k: int| 0 <= k < next.len() && next[k].tags.contains(t);
                    if k < i {
                        assert(seen[k].tags.contains(t));
                    }
                }
                assert(next[i as int] == notes@[i as int]@);
            }
        }
        i += 1;
    }
    proof {
        assert(all.take(i as int) =~= all);
    }
    list
}

/// The list for the sidebar is fixed by what is wanted: two lists of the same
/// texts are the same list.
pub proof fn law_listing_unique(a: Seq<Seq<char>>, b: Seq<Seq<char>>)
    requires
        ascending(a),
        ascending(b),
        forall|t: Seq<char>| #[trigger] a.contains(t) <==> b.contains(t),
    ensures
        a == b,
    decreases a.len(),
{
    if a.len() == 0 {
        if b.len() > 0 {
            assert(b.contains(b[0]));
            assert(a.contains(b[0]));
        }
        assert(a =~= b);
    } else {
        assert(a.contains(a.last()));
        assert(b.len() > 0);
        assert(b.contains(b.last()));
        assert(a.contains(b.last()));
        let x = a.last();
        let y = b.last();
        // The last of each list is the largest of both.
        if x != y {
            let k = choose|k: int| 0 <= k < b.len() && b[k] == x;
            let m = choose|m: int| 0 <= m < a.len() && a[m] == y;
            assert(text_before(b[k], b[b.len() - 1]));
            assert(text_before(a[m], a[a.len() - 1]));
            lemma_text_before_total(x, y);
        }
        let a0 = a.drop_last();
        let b0 = b.drop_last();
        assert forall|t: Seq<char>| #[trigger] a0.contains(t) <==> b0.contains(t) by {
            lemma_drop_last_contains(a, t);
            lemma_drop_last_contains(b, t);
            assert(a.contains(t) <==> b.contains(t));
        }
        law_listing_unique(a0, b0);
        assert(a =~= a0.push(x));
        assert(b =~= b0.push(y));
    }
}

proof fn lemma_drop_last_contains(s: Seq<Seq<char>>, t: Seq<char>)
    requires
        ascending(s),
        s.len() > 0,
    ensures
        s.drop_last().contains(t) <==> s.contains(t) && t != s.last(),
{
    let init = s.drop_last();
    if init.contains(t) {
        let k = choose|k: int| 0 <= k < init.len() && init[k] == t;
        assert(s[k] == t);
        assert(text_before(s[k], s[s.len() - 1]));
        lemma_text_before_irreflexive(t);
    }
    if s.contains(t) && t != s.last() {
        let k = choose|k: int| 0 <= k < s.len() && s[k] == t;
        assert(init[k] == t);
    }
}

// ---------------------------------------------------------------------------
// Laws of searching and filtering
// ---------------------------------------------------------------------------

/// Without filters an entry is shown exactly if the search text, regardless of case,
/// stands in its service, its user name, its category or one of its tags; an empty
/// search text shows everything.
pub proof fn law_search_exact(e: EntryView, q: Query)
    requires
        q.category is None,
        q.tag is None,
    ensures
        ({
            let wanted = unicode_lower(q.search);
            matches_query(e, q) <==> {
                ||| wanted.len() == 0
                ||| contains_text(unicode_lower(e.service), wanted)
                ||| contains_text(unicode_lower(e.username), wanted)
                ||| e.category is Some && contains_text(
                    unicode_lower(e.category.unwrap()),
                    wanted,
                )
                ||| exists|i: int|
                    0 <= i < e.tags.len() && contains_text(
                        unicode_lower(#[trigger] e.tags[i]),
                        wanted,
                    )
            }
        }),
{
    let wanted = unicode_lower(q.search);
    lemma_case_of_nothing();
    if e.category is None && contains_text(unicode_lower(text_or_empty(e.category)), wanted) {
        assert(wanted.len() == 0);
    }
    if exists|i: int|
        0 <= i < e.tags.len() && contains_text(unicode_lower(#[trigger] e.tags[i]), wanted) {
        let i = choose|i: int|
            0 <= i < e.tags.len() && contains_text(unicode_lower(#[trigger] e.tags[i]), wanted);
        assert(found_in(e.tags[i], wanted));
    }
    if found_in_tags(e.tags, wanted) {
        let i = choose|i: int| 0 <= i < e.tags.len() && found_in(#[trigger] e.tags[i], wanted);
        assert(contains_text(unicode_lower(e.tags[i]), wanted));
    }
}

/// A search text that stands anywhere in a field, in whatever case, finds the entry.
pub proof fn law_search_finds_each_field(e: EntryView, search: Seq<char>, i: int)
    ensures
        ({
            let q = Query { search, category: None, tag: None };
            let wanted = unicode_lower(search);
            &&& contains_text(unicode_lower(e.service), wanted) ==> matches_query(e, q)
            &&& contains_text(unicode_lower(e.username), wanted) ==> matches_query(e, q)
            &&& e.category is Some && contains_text(
                unicode_lower(e.category.unwrap()),
                wanted,
            ) ==> matches_query(e, q)
            &&& 0 <= i < e.tags.len() && contains_text(unicode_lower(e.tags[i]), wanted)
                ==> matches_query(e, q)
        }),
{
    law_search_exact(e, Query { search, category: None, tag: None });
}

/// A search that a password alone would answer finds nothing: what is not shown on
/// the card is not searched.
pub proof fn law_search_leaves_secrets_out(e: EntryView, other: EntryView, q: Query)
    requires
        e.service == other.service,
        e.username == other.username,
        e.category == other.category,
        e.tags == other.tags,
    ensures
        matches_query(e, q) == matches_query(other, q),
{
}

/// A filter narrows the list to the entries of exactly that category, or with exactly
/// that tag among theirs, and leaves the search alone.
pub proof fn law_filters_exact(e: EntryView, search: Seq<char>, c: Seq<char>, t: Seq<char>)
    ensures
        ({
            let plain = matches_query(e, Query { search, category: None, tag: None });
            &&& matches_query(e, Query { search, category: Some(c), tag: None }) <==> plain
                && e.category == Some(c)
            &&& matches_query(e, Query { search, category: None, tag: Some(t) }) <==> plain
                && exists|i: int| 0 <= i < e.tags.len() && #[trigger] e.tags[i] == t
            &&& matches_query(e, Query { search, category: Some(c), tag: Some(t) }) <==> plain
                && e.category == Some(c) && exists|i: int|
                0 <= i < e.tags.len() && #[trigger] e.tags[i] == t
        }),
{
    if exists|i: int| 0 <= i < e.tags.len() && #[trigger] e.tags[i] == t {
        assert(e.tags.contains(t));
    }
    if e.tags.contains(t) {
        let i = choose|i: int| 0 <= i < e.tags.len() && e.tags[i] == t;
        assert(e.tags[i] == t);
    }
}

/// While an entry is dragged the list stands in the order of the vault.
pub proof fn law_dragging_keeps_order(entries: Seq<EntryView>, q: Query, j: int, k: int)
    requires
        entries.len() <= usize::MAX,
        0 <= j < k < visible(entries, q, true).len(),
    ensures
        visible(entries, q, true)[j] < visible(entries, q, true)[k],
{
    law_select_exact(entries.len(), |i: int| matches_query(entries[i], q));
}

/// A note is shown exactly if it is of the chosen category and has the chosen tag, as
/// far as any is chosen; the notes stand in the order of the vault.
pub proof fn law_note_list_exact(
    notes: Seq<NoteView>,
    category: Option<Seq<char>>,
    tag: Option<Seq<char>>,
    i: int,
    j: int,
    k: int,
)
    requires
        notes.len() <= usize::MAX,
        0 <= i < notes.len(),
    ensures
        ({
            let v = visible_note_places(notes, category, tag);
            &&& v.contains(i as usize) <==> (category is Some ==> notes[i].category == category)
                && (tag is Some ==> exists|m: int|
                0 <= m < notes[i].tags.len() && #[trigger] notes[i].tags[m] == tag.unwrap())
            &&& 0 <= j < k < v.len() ==> v[j] < v[k]
            &&& 0 <= j < v.len() ==> v[j] < notes.len()
        }),
{
    let p = |i: int| note_matches(notes[i], category, tag);
    law_select_exact(notes.len(), p);
    let v = visible_note_places(notes, category, tag);
    assert(v == select(notes.len(), p));
    if tag is Some {
        let t = tag.unwrap();
        if exists|m: int| 0 <= m < notes[i].tags.len() && #[trigger] notes[i].tags[m] == t {
            assert(notes[i].tags.contains(t));
        }
        if notes[i].tags.contains(t) {
            let m = choose|m: int| 0 <= m < notes[i].tags.len() && notes[i].tags[m] == t;
            assert(notes[i].tags[m] == t);
        }
    }
    if v.contains(i as usize) {
        let x = choose|x: int| 0 <= x < v.len() && v[x] == i as usize;
        assert(p(v[x] as int));
    }
    if p(i) {
        assert(v.contains(i as usize));
    }
}

/// The list of categories holds each category that some entry has, once, in the order
/// of the alphabet, and nothing else.
pub proof fn law_category_list_exact(
    entries: Seq<EntryView>,
    list: Seq<Seq<char>>,
    i: int,
    j: int,
    k: int,
)
    requires
        lists_exactly(list, |t: Seq<char>| category_in_use(entries, t)),
    ensures
        0 <= i < entries.len() && entries[i].category is Some && entries[i].category.unwrap().len()
            > 0 ==> list.contains(entries[i].category.unwrap()),
        0 <= j < list.len() ==> list[j].len() > 0 && exists|m: int|
            0 <= m < entries.len() && (#[trigger] entries[m]).category == Some(list[j]),
        0 <= j < k < list.len() ==> text_before(list[j], list[k]),
{
    let wanted = |t: Seq<char>| category_in_use(entries, t);
    if 0 <= i < entries.len() && entries[i].category is Some {
        assert(entries[i].category.unwrap().len() > 0 ==> wanted(entries[i].category.unwrap()));
    }
    if 0 <= j < list.len() {
        assert(list.contains(list[j]));
        assert(wanted(list[j]));
    }
}

/// The list of tags holds each tag that some entry has, once, in the order of the
/// alphabet, and nothing else.
pub proof fn law_tag_list_exact(
    entries: Seq<EntryView>,
    list: Seq<Seq<char>>,
    i: int,
    n: int,
    j: int,
    k: int,
)
    requires
        lists_exactly(list, |t: Seq<char>| tag_in_use(entries, t)),
    ensures
        0 <= i < entries.len() && 0 <= n < entries[i].tags.len() && entries[i].tags[n].len() > 0
            ==> list.contains(entries[i].tags[n]),
        0 <= j < list.len() ==> list[j].len() > 0 && exists|m: int|
            0 <= m < entries.len() && (#[trigger] entries[m]).tags.contains(list[j]),
        0 <= j < k < list.len() ==> text_before(list[j], list[k]),
{
    let wanted = |t: Seq<char>| tag_in_use(entries, t);
    if 0 <= i < entries.len() && 0 <= n < entries[i].tags.len() {
        assert(entries[i].tags.contains(entries[i].tags[n]));
        assert(entries[i].tags[n].len() > 0 ==> wanted(entries[i].tags[n]));
    }
    if 0 <= j < list.len() {
        assert(list.contains(list[j]));
        assert(wanted(list[j]));
    }
}

/// The same holds of the categories and the tags of notes.
pub proof fn law_note_label_lists_exact(
    notes: Seq<NoteView>,
    categories: Seq<Seq<char>>,
    tags: Seq<Seq<char>>,
    i: int,
    n: int,
    j: int,
)
    requires
        lists_exactly(categories, |t: Seq<char>| note_category_in_use(notes, t)),
        lists_exactly(tags, |t: Seq<char>| note_tag_in_use(notes, t)),
    ensures
        0 <= i < notes.len() && notes[i].category is Some && notes[i].category.unwrap().len() > 0
            ==> categories.contains(notes[i].category.unwrap()),
        0 <= j < categories.len() ==> categories[j].len() > 0 && exists|m: int|
            0 <= m < notes.len() && (#[trigger] notes[m]).category == Some(categories[j]),
        0 <= i < notes.len() && 0 <= n < notes[i].tags.len() && notes[i].tags[n].len() > 0
            ==> tags.contains(notes[i].tags[n]),
        0 <= j < tags.len() ==> tags[j].len() > 0 && exists|m: int|
            0 <= m < notes.len() && (#[trigger] notes[m]).tags.contains(tags[j]),
{
    let category = |t: Seq<char>| note_category_in_use(notes, t);
    let tag = |t: Seq<char>| note_tag_in_use(notes, t);
    if 0 <= i < notes.len() && notes[i].category is Some {
        assert(notes[i].category.unwrap().len() > 0 ==> category(notes[i].category.unwrap()));
    }
    if 0 <= j < categories.len() {
        assert(categories.contains(categories[j]));
        assert(category(categories[j]));
    }
    if 0 <= i < notes.len() && 0 <= n < notes[i].tags.len() {
        assert(notes[i].tags.contains(notes[i].tags[n]));
        assert(notes[i].tags[n].len() > 0 ==> tag(notes[i].tags[n]));
    }
    if 0 <= j < tags.len() {
        assert(tags.contains(tags[j]));
        assert(tag(tags[j]));
    }
}

} // verus!

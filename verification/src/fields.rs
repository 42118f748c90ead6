//! What the fields of a form stand for: optional texts, tags, and secrets.
use crate::model::opt_view;
use crate::text::{
    all_ascii, ascii_upper, blank, chars_of, joined, law_blank_exact, law_trimmed_exact,
    law_without_exact, lemma_case_of_nothing, lemma_pieces_nonempty, lemma_trimmed_idempotent,
    lemma_trimmed_tight, pieces, split, to_lower, to_upper, trim, trimmed, trimmed_start,
    unicode_lower, unicode_upper, views, white_space, without,
};
use crate::totp::{base32_digit, secret_filler, secret_key, secret_letters};
use vstd::prelude::*;

verus! {

// ---------------------------------------------------------------------------
// Form fields
// ---------------------------------------------------------------------------

/// A field that may be left blank: its trimmed text, or nothing.
pub open spec fn optional_text(s: Seq<char>) -> Option<Seq<char>> {
    if blank(s) {
        None
    } else {
        Some(trimmed(s))
    }
}

/// A field that may be left blank: its trimmed text, or nothing.
pub fn optional_field(s: &str) -> (res: Option<String>)
    ensures
        opt_view(res) == optional_text(s@),
{
    let t: String = trim(s);
    if t.as_str().is_empty() {
        None
    } else {
        Some(t)
    }
}

/// An optional field tidied once more: nothing if it is blank, else trimmed.
pub open spec fn tidy_category(c: Option<Seq<char>>) -> Option<Seq<char>> {
    match c {
        Some(s) => optional_text(s),
        None => None,
    }
}

/// An optional field tidied once more.
pub fn tidy_category_field(c: &Option<String>) -> (res: Option<String>)
    ensures
        opt_view(res) == tidy_category(opt_view(*c)),
{
    match c {
        Some(s) => optional_field(s.as_str()),
        None => None,
    }
}

/// A field that was tidied stays as it is when it is tidied once more.
pub proof fn lemma_optional_text_settled(s: Seq<char>)
    ensures
        tidy_category(optional_text(s)) == optional_text(s),
{
    lemma_trimmed_idempotent(s);
}

/// One tag as it is kept: trimmed, and in small letters if asked for.
pub open spec fn tidy_tag(p: Seq<char>, lower: bool) -> Seq<char> {
    if lower {
        unicode_lower(trimmed(p))
    } else {
        trimmed(p)
    }
}

/// The tags among the given pieces: tidied, the empty ones left out.
pub open spec fn tidy_tags(ps: Seq<Seq<char>>, lower: bool) -> Seq<Seq<char>>
    decreases ps.len(),
{
    if ps.len() == 0 {
        Seq::empty()
    } else {
        let init = tidy_tags(ps.drop_last(), lower);
        let t = tidy_tag(ps.last(), lower);
        if t.len() == 0 {
            init
        } else {
            init.push(t)
        }
    }
}

/// The tags in a text that separates them by commas.
pub open spec fn tag_list(s: Seq<char>, lower: bool) -> Seq<Seq<char>> {
    tidy_tags(pieces(s, ','), lower)
}

/// The tags in a text that separates them by commas.
pub fn parse_tags(s: &str, lower: bool) -> (res: Vec<String>)
    ensures
        views(res@) == tag_list(s@, lower),
{
    let ps: Vec<String> = split(s, ',');
    let ghost all = pieces(s@, ',');
    let mut out: Vec<String> = Vec::new();
    let mut i: usize = 0;
    proof {
        assert(views(out@) =~= tidy_tags(all.take(0), lower));
        assert(views(ps@).len() == ps@.len());
    }
    while i < ps.len()
        invariant
            i <= ps@.len(),
            all.len() == ps@.len(),
            all == views(ps@),
            views(out@) == tidy_tags(all.take(i as int), lower),
        decreases ps@.len() - i,
    {
        let t: String = trim(ps[i].as_str());
        let tag: String = if lower {
            to_lower(t.as_str())
        } else {
            t
        };
        let ghost before = views(out@);
        let ghost kept = tag@;
        proof {
            assert(all.take(i + 1).drop_last() =~= all.take(i as int));
            assert(all.take(i + 1).last() == ps@[i as int]@);
        }
        if !tag.as_str().is_empty() {
            out.push(tag);
            proof {
                assert(views(out@) =~= before.push(kept));
            }
        }
        i += 1;
    }
    proof {
        assert(all.take(i as int) =~= all);
    }
    out
}

/// No tag that is kept is empty.
pub proof fn law_tags_not_empty(s: Seq<char>, lower: bool, i: int)
    requires
        0 <= i < tag_list(s, lower).len(),
    ensures
        tag_list(s, lower)[i].len() > 0,
{
    lemma_tidy_tags_not_empty(pieces(s, ','), lower, i);
}

proof fn lemma_tidy_tags_not_empty(ps: Seq<Seq<char>>, lower: bool, i: int)
    requires
        0 <= i < tidy_tags(ps, lower).len(),
    ensures
        tidy_tags(ps, lower)[i].len() > 0,
    decreases ps.len(),
{
    let init = tidy_tags(ps.drop_last(), lower);
    if i < init.len() {
        lemma_tidy_tags_not_empty(ps.drop_last(), lower, i);
    }
}

/// A one-time-password secret as it is kept: nothing if the field is empty, else
/// trimmed, in capitals, without spaces and dashes.
pub open spec fn kept_secret(s: Seq<char>) -> Option<Seq<char>> {
    if s.len() == 0 {
        None
    } else {
        Some(without(unicode_upper(trimmed(s)), |c: char| c == ' ' || c == '-'))
    }
}

/// A one-time-password secret as it is kept.
pub fn secret_field(s: &str) -> (res: Option<String>)
    ensures
        opt_view(res) == kept_secret(s@),
{
    if s.is_empty() {
        return None;
    }
    let t: String = trim(s);
    let upper: String = to_upper(t.as_str());
    let v: Vec<char> = chars_of(upper.as_str());
    let ghost p = |c: char| c == ' ' || c == '-';
    let mut out: String = String::new();
    let mut i: usize = 0;
    proof {
        assert(out@ =~= without(v@.take(0), p));
    }
    while i < v.len()
        invariant
            i <= v@.len(),
            p == (|c: char| c == ' ' || c == '-'),
            out@ == without(v@.take(i as int), p),
        decreases v@.len() - i,
    {
        let c: char = v[i];
        proof {
            assert(v@.take(i + 1).drop_last() =~= v@.take(i as int));
        }
        if !(c == ' ' || c == '-') {
            out.push(c);
        }
        i += 1;
    }
    proof {
        assert(v@.take(v@.len() as int) =~= v@);
    }
    Some(out)
}

proof fn lemma_pieces_extend(s: Seq<char>, sep: char, t: Seq<char>)
    requires
        !t.contains(sep),
    ensures
        pieces(s + t, sep).len() == pieces(s, sep).len(),
        pieces(s, sep).len() >= 1,
        pieces(s + t, sep) == pieces(s, sep).update(
            pieces(s, sep).len() - 1,
            pieces(s, sep).last() + t,
        ),
    decreases t.len(),
{
    lemma_pieces_nonempty(s, sep);
    let ps = pieces(s, sep);
    if t.len() == 0 {
        assert(s + t =~= s);
        assert(ps.last() + t =~= ps.last());
        assert(ps.update(ps.len() - 1, ps.last() + t) =~= ps);
    } else {
        let u = t.drop_last();
        assert forall|k: int| 0 <= k < u.len() implies u[k] != sep by {
            assert(t[k] == u[k]);
            assert(t.contains(t[k]));
        }
        lemma_pieces_extend(s, sep, u);
        assert((s + t).drop_last() =~= s + u);
        assert((s + t).last() == t.last());
        assert(t.contains(t.last())) by {
            assert(t[t.len() - 1] == t.last());
        }
        assert((ps.last() + u).push(t.last()) =~= ps.last() + t);
        assert(pieces(s + t, sep) =~= ps.update(ps.len() - 1, ps.last() + t));
    }
}

/// A tag that stays as it is when it is read back: not empty, no comma in it, no
/// white space around it and, if tags are kept in small letters, none but those.
pub open spec fn steady_tag(t: Seq<char>, lower: bool) -> bool {
    &&& t.len() > 0
    &&& !t.contains(',')
    &&& trimmed(t) == t
    &&& lower ==> unicode_lower(t) == t
}

proof fn lemma_space_before(t: Seq<char>)
    requires
        t.len() > 0,
        trimmed(t) == t,
    ensures
        trimmed(seq![' '] + t) == t,
{
    let s = seq![' '] + t;
    assert(s[0] == ' ');
    assert(s.subrange(1, s.len() as int) =~= t);
    lemma_trimmed_idempotent(t);
    assert(trimmed_start(s) == trimmed_start(t));
}

proof fn lemma_joined_pieces(tags: Seq<Seq<char>>, lower: bool)
    requires
        tags.len() > 0,
        forall|i: int| 0 <= i < tags.len() ==> steady_tag(#[trigger] tags[i], lower),
    ensures
        pieces(joined(tags, ", "@), ',').len() == tags.len(),
        tidy_tags(pieces(joined(tags, ", "@), ','), lower) == tags,
    decreases tags.len(),
{
    reveal_strlit(", ");
    let n = tags.len() as int;
    let last = tags.last();
    assert(steady_tag(tags[n - 1], lower));
    if n == 1 {
        let none = Seq::<char>::empty();
        lemma_pieces_extend(none, ',', last);
        assert(none + last =~= last);
        assert(pieces(last, ',') =~= seq![last]);
        assert(tidy_tags(seq![last].drop_last(), lower) =~= Seq::empty());
        assert(tidy_tags(seq![last], lower) =~= tags);
    } else {
        let init = tags.drop_last();
        assert forall|i: int| 0 <= i < init.len() implies steady_tag(
            #[trigger] init[i],
            lower,
        ) by {
            assert(init[i] == tags[i]);
        }
        lemma_joined_pieces(init, lower);
        let j = joined(init, ", "@);
        let base = j.push(',');
        let tail = seq![' '] + last;
        assert(joined(tags, ", "@) =~= base + tail);
        assert(base.drop_last() =~= j);
        assert(pieces(base, ',') == pieces(j, ',').push(Seq::empty()));
        assert(!tail.contains(',')) by {
            if tail.contains(',') {
                let k = choose|k: int| 0 <= k < tail.len() && tail[k] == ',';
                assert(last[k - 1] == ',');
                assert(last.contains(','));
            }
        }
        lemma_pieces_extend(base, ',', tail);
        let ps = pieces(joined(tags, ", "@), ',');
        assert(Seq::<char>::empty() + tail =~= tail);
        assert(ps.last() == tail);
        assert(ps.drop_last() =~= pieces(j, ','));
        lemma_space_before(last);
        assert(tidy_tag(ps.last(), lower) == last);
        assert(tidy_tags(ps, lower) =~= init.push(last));
        assert(init.push(last) =~= tags);
    }
}

/// Tags written into a form and read back are the same tags: an edit that leaves
/// the field alone changes none of them.
pub proof fn law_tags_round_trip(tags: Seq<Seq<char>>, lower: bool)
    requires
        forall|i: int| 0 <= i < tags.len() ==> steady_tag(#[trigger] tags[i], lower),
    ensures
        tag_list(joined(tags, ", "@), lower) == tags,
{
    if tags.len() > 0 {
        lemma_joined_pieces(tags, lower);
    } else {
        let ps = pieces(Seq::empty(), ',');
        assert(ps.drop_last() =~= Seq::empty());
        assert(tidy_tags(ps.drop_last(), lower) =~= Seq::<Seq<char>>::empty());
        assert(trimmed(Seq::empty()) =~= Seq::<char>::empty());
        lemma_case_of_nothing();
        assert(tags =~= Seq::empty());
    }
}

// ---------------------------------------------------------------------------
// Kept secrets
// ---------------------------------------------------------------------------

proof fn lemma_without_keeps(s: Seq<char>, drop: spec_fn(char) -> bool, i: int)
    requires
        0 <= i < s.len(),
        !drop(s[i]),
    ensures
        without(s, drop).contains(s[i]),
    decreases s.len(),
{
    let kept = without(s, drop);
    if i == s.len() - 1 {
        assert(kept[kept.len() - 1] == s[i]);
    } else {
        let init = without(s.drop_last(), drop);
        lemma_without_keeps(s.drop_last(), drop, i);
        let k = choose|k: int| 0 <= k < init.len() && init[k] == s[i];
        assert(kept[k] == s[i]);
    }
}

proof fn lemma_without_drops(s: Seq<char>, drop: spec_fn(char) -> bool, k: int)
    requires
        0 <= k < without(s, drop).len(),
    ensures
        s.contains(without(s, drop)[k]),
        !drop(without(s, drop)[k]),
    decreases s.len(),
{
    let kept = without(s, drop);
    let init = without(s.drop_last(), drop);
    if k < init.len() {
        lemma_without_drops(s.drop_last(), drop, k);
        let j = choose|j: int| 0 <= j < s.drop_last().len() && s.drop_last()[j] == init[k];
        assert(s[j] == init[k]);
        assert(kept[k] == init[k]);
    } else {
        assert(kept[k] == s[s.len() - 1]);
    }
}

proof fn lemma_without_twice(
    s: Seq<char>,
    few: spec_fn(char) -> bool,
    many: spec_fn(char) -> bool,
)
    requires
        forall|c: char| #[trigger] few(c) ==> many(c),
    ensures
        without(without(s, few), many) == without(s, many),
    decreases s.len(),
{
    if s.len() > 0 {
        lemma_without_twice(s.drop_last(), few, many);
        let inner = without(s.drop_last(), few);
        if !few(s.last()) {
            assert(inner.push(s.last()).drop_last() =~= inner);
        }
    }
}

/// A secret that decodes as it was typed decodes to the same key as it is kept, so
/// that the codes do not change when an entry is saved.
pub proof fn law_kept_secret_decodes(typed: Seq<char>)
    requires
        typed.len() > 0,
        secret_key(typed) is Some,
    ensures
        kept_secret(typed) is Some,
        secret_key(kept_secret(typed).unwrap()) == secret_key(typed),
{
    let u = unicode_upper(trimmed(typed));
    let few = |c: char| c == ' ' || c == '-';
    let many = |c: char| secret_filler(c);
    let letters = without(u, many);
    let r = without(u, few);
    assert(letters == secret_letters(typed));
    assert(kept_secret(typed) == Some(r));
    // What is kept are base32 letters and padding signs.
    assert forall|k: int| 0 <= k < r.len() implies base32_digit(#[trigger] r[k]) is Some || r[k]
        == '=' by {
        lemma_without_drops(u, few, k);
        let i = choose|i: int| 0 <= i < u.len() && u[i] == r[k];
        if !many(u[i]) {
            lemma_without_keeps(u, many, i);
            let m = choose|m: int| 0 <= m < letters.len() && letters[m] == u[i];
            assert(base32_digit(letters[m]) is Some);
        }
    }
    assert(all_ascii(r));
    assert(trimmed(r) == r) by {
        if r.len() > 0 {
            assert(base32_digit(r[0]) is Some || r[0] == '=');
            assert(base32_digit(r[r.len() - 1]) is Some || r[r.len() - 1] == '=');
            lemma_trimmed_tight(r);
        }
    }
    assert(unicode_upper(r) =~= r) by {
        assert forall|k: int| 0 <= k < r.len() implies ascii_upper(#[trigger] r[k]) == r[k] by {
            assert(base32_digit(r[k]) is Some || r[k] == '=');
        }
    }
    lemma_without_twice(u, few, many);
    assert(secret_letters(r) == letters);
}

/// A secret that was kept stays as it is when it is kept once more.
pub open spec fn steady_secret(s: Option<Seq<char>>) -> bool {
    s matches Some(t) ==> t.len() > 0 && kept_secret(t) == Some(t)
}

/// A category that was kept stays as it is when it is kept once more.
pub open spec fn steady_category(c: Option<Seq<char>>) -> bool {
    c matches Some(t) ==> t.len() > 0 && trimmed(t) == t
}

// ---------------------------------------------------------------------------
// Laws of the fields
// ---------------------------------------------------------------------------

/// An optional field is absent exactly if nothing but white space was typed, and is
/// otherwise what was typed without the white space around it.
pub proof fn law_optional_field_exact(s: Seq<char>, before: Seq<char>, w: Seq<char>, after: Seq<char>)
    requires
        forall|i: int| 0 <= i < before.len() ==> white_space(#[trigger] before[i]),
        forall|i: int| 0 <= i < after.len() ==> white_space(#[trigger] after[i]),
        w.len() > 0,
        !white_space(w[0]),
        !white_space(w.last()),
    ensures
        optional_text(s) is None <==> forall|i: int|
            0 <= i < s.len() ==> white_space(#[trigger] s[i]),
        optional_text(before + w + after) == Some(w),
        tidy_category(Some(before + w + after)) == Some(w),
        tidy_category(Some(s)) is None <==> forall|i: int|
            0 <= i < s.len() ==> white_space(#[trigger] s[i]),
        tidy_category(None) is None,
{
    law_blank_exact(s);
    law_trimmed_exact(before, w, after);
}

/// Tags are read one by one between the commas: without white space around them, in
/// small letters where that is asked for, and left out where nothing is left.
pub proof fn law_tags_read_one_by_one(s: Seq<char>, t: Seq<char>, lower: bool)
    requires
        !t.contains(','),
    ensures
        ({
            let tag = if lower {
                unicode_lower(trimmed(t))
            } else {
                trimmed(t)
            };
            let read = if tag.len() == 0 {
                Seq::<Seq<char>>::empty()
            } else {
                seq![tag]
            };
            &&& tag_list(t, lower) == read
            &&& tag_list(s + seq![','] + t, lower) == tag_list(s, lower) + read
        }),
{
    let none = Seq::<char>::empty();
    lemma_pieces_extend(none, ',', t);
    assert(none + t =~= t);
    assert(pieces(t, ',') =~= seq![t]);
    assert(seq![t].drop_last() =~= Seq::<Seq<char>>::empty());
    assert(tidy_tags(Seq::<Seq<char>>::empty(), lower) =~= Seq::<Seq<char>>::empty());
    let with_comma = s + seq![','];
    assert(with_comma.drop_last() =~= s);
    let ps = pieces(s, ',').push(none);
    assert(pieces(with_comma, ',') == ps);
    lemma_pieces_extend(with_comma, ',', t);
    let all = pieces(s + seq![','] + t, ',');
    assert(all =~= pieces(s, ',').push(t));
    assert(all.drop_last() =~= pieces(s, ','));
    assert(tag_list(t, lower) =~= if tidy_tag(t, lower).len() == 0 {
        Seq::<Seq<char>>::empty()
    } else {
        seq![tidy_tag(t, lower)]
    });
    assert(tag_list(s + seq![','] + t, lower) =~= tag_list(s, lower) + tag_list(t, lower));
}

/// A secret is kept in capitals, without white space around it and without the spaces
/// and dashes in it, and everything else in its order; an empty field keeps none.
pub proof fn law_kept_secret_exact(s: Seq<char>)
    ensures
        s.len() == 0 ==> kept_secret(s) is None,
        s.len() > 0 ==> kept_secret(s) == Some(
            unicode_upper(trimmed(s)).filter(|c: char| c != ' ' && c != '-'),
        ),
{
    if s.len() > 0 {
        let drop = |c: char| c == ' ' || c == '-';
        law_without_exact(unicode_upper(trimmed(s)), drop);
        assert((|c: char| !drop(c)) =~= (|c: char| c != ' ' && c != '-'));
    }
}

} // verus!

//! What is shown: shortened texts, ages, counts, previews and banners.
use crate::model::{opt_view, Entry, SecureNote};
use crate::text::{
    append_decimal, blank, chars_of, decimal, is_blank, is_white_space, law_joined_splits,
    lemma_pieces_grow, lemma_pieces_nonempty, number_text, pieces, split, text_of, text_of_range,
    to_upper, unicode_upper, views, white_space,
};
use crate::totp::unix_seconds;
use crate::update::{StatusView, UpdateStatus, APP_VERSION};
use vstd::prelude::*;
use vstd::utf8::encode_utf8;

verus! {

// ---------------------------------------------------------------------------
// Shortening
// ---------------------------------------------------------------------------

/// `s` cut to `max` characters, the last of which is an ellipsis if anything was
/// cut off. At least the ellipsis is always shown.
pub open spec fn shortened(s: Seq<char>, max: nat) -> Seq<char> {
    if s.len() <= max {
        s
    } else {
        s.take(if max == 0 {
            0
        } else {
            max - 1
        }).push('…')
    }
}

/// The text cut to `max_chars` characters, counted in characters and not in
/// bytes, with an ellipsis at the end if it was cut short.
pub fn truncate_display(s: &str, max_chars: usize) -> (res: String)
    ensures
        res@ == shortened(s@, max_chars as nat),
{
    let v: Vec<char> = chars_of(s);
    if v.len() <= max_chars {
        text_of(&v)
    } else {
        let keep: usize = if max_chars == 0 {
            0
        } else {
            max_chars - 1
        };
        let mut out: String = text_of_range(&v, 0, keep);
        proof {
            assert(v@.subrange(0, keep as int) =~= v@.take(keep as int));
        }
        out.push('…');
        out
    }
}

/// A shortened text is no longer than asked for (but for the ellipsis itself).
pub proof fn law_shortened_fits(s: Seq<char>, max: nat)
    ensures
        shortened(s, max).len() <= max || shortened(s, max) == seq!['…'],
        shortened(s, max).len() <= max || max == 0,
{
    if s.len() > max && max == 0 {
        assert(s.take(0).push('…') =~= seq!['…']);
    }
}

/// Shortening a shortened text changes nothing.
pub proof fn law_shortened_idempotent(s: Seq<char>, max: nat)
    ensures
        shortened(shortened(s, max), max) == shortened(s, max),
{
    if s.len() > max && max == 0 {
        assert(s.take(0).push('…').take(0) =~= s.take(0));
    }
}

// ---------------------------------------------------------------------------
// Ages
// ---------------------------------------------------------------------------

/// `n` of a unit, in the plural unless `n` is one, and the word "ago".
pub open spec fn units_ago(n: nat, unit: Seq<char>) -> Seq<char> {
    decimal(n) + " "@ + unit + (if n == 1 {
        ""@
    } else {
        "s"@
    }) + " ago"@
}

/// An age in seconds in words.
pub open spec fn age_text(secs: nat) -> Seq<char> {
    if secs < 60 {
        "just now"@
    } else if secs < 3600 {
        units_ago(secs / 60, "minute"@)
    } else if secs < 86_400 {
        units_ago(secs / 3600, "hour"@)
    } else if secs < 86_400 * 30 {
        units_ago(secs / 86_400, "day"@)
    } else if secs < 86_400 * 365 {
        units_ago(secs / (86_400 * 30), "month"@)
    } else {
        units_ago(secs / (86_400 * 365), "year"@)
    }
}

/// The seconds from `then` to `now`, or zero if `then` lies ahead or the present
/// time is unknown.
pub open spec fn age(then: u64, now: Option<u64>) -> nat {
    match now {
        Some(n) => if n >= then {
            (n - then) as nat
        } else {
            0
        },
        None => 0,
    }
}

fn units_ago_text(n: u64, unit: &str) -> (res: String)
    ensures
        res@ == units_ago(n as nat, unit@),
{
    let plural: &str = if n == 1 {
        ""
    } else {
        "s"
    };
    number_text(n).concat(" ").concat(unit).concat(plural).concat(" ago")
}

/// How long ago a Unix time was, in words, at a given present time.
pub fn format_timestamp_ago_at(unix_secs: u64, now: Option<u64>) -> (res: String)
    ensures
        res@ == age_text(age(unix_secs, now)),
{
    let diff: u64 = match now {
        Some(n) => if n >= unix_secs {
            n - unix_secs
        } else {
            0
        },
        None => 0,
    };
    if diff < 60 {
        "just now".to_string()
    } else if diff < 3600 {
        units_ago_text(diff / 60, "minute")
    } else if diff < 86_400 {
        units_ago_text(diff / 3600, "hour")
    } else if diff < 86_400 * 30 {
        units_ago_text(diff / 86_400, "day")
    } else if diff < 86_400 * 365 {
        units_ago_text(diff / (86_400 * 30), "month")
    } else {
        units_ago_text(diff / (86_400 * 365), "year")
    }
}

/// How long ago a Unix time was, in words, such as "3 days ago" or "just now".
pub fn format_timestamp_ago(unix_secs: u64) -> (res: String)
    ensures
        exists|now: Option<u64>| res@ == age_text(#[trigger] age(unix_secs, now)),
{
    let now: Option<u64> = unix_seconds();
    let res: String = format_timestamp_ago_at(unix_secs, now);
    proof {
        assert(res@ == age_text(age(unix_secs, now)));
    }
    res
}

/// The short age shown in the vault list.
pub open spec fn short_age_text(secs: nat) -> Seq<char> {
    if secs < 60 {
        "just now"@
    } else if secs < 3600 {
        decimal(secs / 60) + " min ago"@
    } else if secs < 86_400 {
        decimal(secs / 3600) + " hr ago"@
    } else {
        decimal(secs / 86_400) + " days ago"@
    }
}

/// The line about when a vault was last opened: nothing if it never was. With no
/// present time to be had, the clock counts as standing at the epoch.
pub open spec fn last_opened_line(last_opened: u64, now: Option<u64>) -> Option<Seq<char>> {
    if last_opened == 0 {
        None
    } else {
        Some("Last opened "@ + short_age_text(age(last_opened, now)))
    }
}

/// The line about when a vault was last opened, if it ever was.
pub fn last_opened_text(last_opened: u64, now: Option<u64>) -> (res: Option<String>)
    ensures
        opt_view(res) == last_opened_line(last_opened, now),
{
    if last_opened == 0 {
        return None;
    }
    let secs: u64 = match now {
        Some(n) => if n >= last_opened {
            n - last_opened
        } else {
            0
        },
        None => 0,
    };
    let ago: String = if secs < 60 {
        "just now".to_string()
    } else if secs < 3600 {
        number_text(secs / 60).concat(" min ago")
    } else if secs < 86_400 {
        number_text(secs / 3600).concat(" hr ago")
    } else {
        number_text(secs / 86_400).concat(" days ago")
    };
    Some("Last opened ".to_string().concat(ago.as_str()))
}

// ---------------------------------------------------------------------------
// Cards
// ---------------------------------------------------------------------------

/// How many colours a card's avatar may have.
pub const HUES: usize = 6;

/// The sum of the bytes of a text.
pub open spec fn byte_sum(b: Seq<u8>) -> nat
    decreases b.len(),
{
    if b.len() == 0 {
        0
    } else {
        byte_sum(b.drop_last()) + b.last() as nat
    }
}

/// Which colour stands for a text: its bytes summed up in 32 bits, modulo the
/// number of colours.
pub open spec fn hue_of(s: Seq<char>) -> nat {
    (byte_sum(encode_utf8(s)) % 0x1_0000_0000) % (HUES as nat)
}

/// Which colour stands for a text.
pub fn hue_index(s: &str) -> (res: usize)
    ensures
        res == hue_of(s@),
        res < HUES,
{
    let bytes: &[u8] = s.as_bytes();
    let mut sum: u32 = 0;
    let mut i: usize = 0;
    proof {
        assert(bytes@.take(0) =~= Seq::<u8>::empty());
    }
    while i < bytes.len()
        invariant
            i <= bytes@.len(),
            sum == byte_sum(bytes@.take(i as int)) % 0x1_0000_0000,
        decreases bytes@.len() - i,
    {
        proof {
            assert(bytes@.take(i + 1).drop_last() =~= bytes@.take(i as int));
        }
        sum = sum.wrapping_add(bytes[i] as u32);
        i += 1;
    }
    proof {
        assert(bytes@.take(bytes@.len() as int) =~= bytes@);
    }
    (sum % 6) as usize
}

/// The letter on an avatar: the first character in capitals, or a question mark.
pub open spec fn avatar_text(s: Seq<char>) -> Seq<char> {
    unicode_upper(
        seq![
            if s.len() > 0 {
                s[0]
            } else {
                '?'
            },
        ],
    )
}

/// The letter on an avatar.
pub fn avatar_letter(s: &str) -> (res: String)
    ensures
        res@ == avatar_text(s@),
{
    let v: Vec<char> = chars_of(s);
    let mut first: String = String::new();
    if v.len() > 0 {
        first.push(v[0]);
    } else {
        first.push('?');
    }
    proof {
        assert(first@ =~= seq![
            if s@.len() > 0 {
                s@[0]
            } else {
                '?'
            },
        ]);
    }
    to_upper(first.as_str())
}

/// The label of a category on a card, if it is to be shown.
pub open spec fn category_label(category: Option<Seq<char>>) -> Option<Seq<char>> {
    match category {
        Some(c) => if c.len() > 0 {
            Some("📁 "@ + shortened(c, 20))
        } else {
            None
        },
        None => None,
    }
}

/// The labels of the tags on a card: empty tags are left out.
pub open spec fn tag_labels(tags: Seq<Seq<char>>) -> Seq<Seq<char>>
    decreases tags.len(),
{
    if tags.len() == 0 {
        Seq::empty()
    } else if tags.last().len() == 0 {
        tag_labels(tags.drop_last())
    } else {
        tag_labels(tags.drop_last()).push("🏷 "@ + shortened(tags.last(), 20))
    }
}

fn category_label_text(category: &Option<String>) -> (res: Option<String>)
    ensures
        opt_view(res) == category_label(opt_view(*category)),
{
    match category {
        Some(c) => if c.as_str().is_empty() {
            None
        } else {
            Some("📁 ".to_string().concat(truncate_display(c.as_str(), 20).as_str()))
        },
        None => None,
    }
}

fn tag_label_texts(tags: &Vec<String>) -> (res: Vec<String>)
    ensures
        views(res@) == tag_labels(views(tags@)),
{
    let mut out: Vec<String> = Vec::new();
    let mut i: usize = 0;
    let ghost all = views(tags@);
    proof {
        assert(views(out@) =~= tag_labels(all.take(0)));
    }
    while i < tags.len()
        invariant
            i <= tags@.len(),
            all == views(tags@),
            views(out@) == tag_labels(all.take(i as int)),
        decreases tags@.len() - i,
    {
        let ghost before = views(out@);
        proof {
            assert(all.take(i + 1).drop_last() =~= all.take(i as int));
            assert(all.take(i + 1).last() == tags@[i as int]@);
        }
        if !tags[i].as_str().is_empty() {
            out.push("🏷 ".to_string().concat(truncate_display(tags[i].as_str(), 20).as_str()));
            proof {
                assert(views(out@) =~= before.push("🏷 "@ + shortened(tags@[i as int]@, 20)));
            }
        }
        i += 1;
    }
    proof {
        assert(all.take(i as int) =~= all);
    }
    out
}

/// What the card of an entry shows.
pub struct EntryCard {
    pub title: String,
    pub subtitle: String,
    pub letter: String,
    pub hue: usize,
    pub category: Option<String>,
    pub tags: Vec<String>,
    pub password: Option<String>,
    pub pinned: bool,
    pub has_history: bool,
}

/// The card of an entry.
pub fn entry_card(entry: &Entry, show_passwords: bool) -> (res: EntryCard)
    ensures
        res.title@ == shortened(entry@.service, 40),
        res.subtitle@ == shortened(entry@.username, 48),
        res.letter@ == avatar_text(entry@.service),
        res.hue == hue_of(entry@.service),
        opt_view(res.category) == category_label(entry@.category),
        views(res.tags@) == tag_labels(entry@.tags),
        opt_view(res.password) == (if show_passwords {
            Some(entry@.password)
        } else {
            None
        }),
        res.pinned == entry@.pinned,
        res.has_history == (entry@.password_history.len() > 0),
{
    EntryCard {
        title: truncate_display(entry.service.as_str(), 40),
        subtitle: truncate_display(entry.username.as_str(), 48),
        letter: avatar_letter(entry.service.as_str()),
        hue: hue_index(entry.service.as_str()),
        category: category_label_text(&entry.category),
        tags: tag_label_texts(&entry.tags),
        password: if show_passwords {
            Some(entry.password.clone())
        } else {
            None
        },
        pinned: entry.pinned,
        has_history: entry.password_history.len() > 0,
    }
}

// ---------------------------------------------------------------------------
// Notes
// ---------------------------------------------------------------------------

/// The number of words in a text: of runs of characters that are no white space.
pub open spec fn word_count(s: Seq<char>) -> nat
    decreases s.len(),
{
    if s.len() == 0 {
        0
    } else {
        word_count(s.drop_last()) + (if !white_space(s.last()) && (s.len() == 1 || white_space(
            s[s.len() - 2],
        )) {
            1nat
        } else {
            0
        })
    }
}

/// The number of words in a text.
pub fn count_words(s: &str) -> (res: usize)
    ensures
        res == word_count(s@),
{
    let v: Vec<char> = chars_of(s);
    let mut n: usize = 0;
    let mut i: usize = 0;
    let mut in_word: bool = false;
    while i < v.len()
        invariant
            i <= v@.len(),
            n <= i,
            n == word_count(v@.take(i as int)),
            in_word == (i > 0 && !white_space(v@[i - 1])),
        decreases v@.len() - i,
    {
        let visible: bool = !is_white_space(v[i]);
        proof {
            let next = v@.take(i + 1);
            assert(next.drop_last() =~= v@.take(i as int));
            assert(next.last() == v@[i as int]);
            if i > 0 {
                assert(next[next.len() - 2] == v@[i - 1]);
            }
        }
        if visible && !in_word {
            n += 1;
        }
        in_word = visible;
        i += 1;
    }
    proof {
        assert(v@.take(v@.len() as int) =~= v@);
    }
    n
}

/// A line without the carriage return before its line feed.
pub open spec fn without_return(line: Seq<char>) -> Seq<char> {
    if line.len() > 0 && line.last() == '\r' {
        line.drop_last()
    } else {
        line
    }
}

/// The lines of a text: each ends in a line feed, or in a carriage return and a
/// line feed; the last one may do without.
pub open spec fn lines_of(s: Seq<char>) -> Seq<Seq<char>> {
    let ps = pieces(s, '\n');
    let ended = Seq::new((ps.len() - 1) as nat, |i: int| without_return(ps[i]));
    if ps.last().len() == 0 {
        ended
    } else {
        ended.push(ps.last())
    }
}

/// The lines of a text.
pub fn lines(s: &str) -> (res: Vec<String>)
    ensures
        views(res@) == lines_of(s@),
{
    let ps: Vec<String> = split(s, '\n');
    let ghost all = pieces(s@, '\n');
    proof {
        crate::text::lemma_pieces_nonempty(s@, '\n');
        assert(views(ps@).len() == ps@.len());
    }
    let last: usize = ps.len() - 1;
    let mut out: Vec<String> = Vec::new();
    let mut i: usize = 0;
    while i < last
        invariant
            i <= last,
            last + 1 == ps@.len(),
            views(ps@) == all,
            views(out@) == Seq::new(i as nat, |k: int| without_return(all[k])),
        decreases last - i,
    {
        let v: Vec<char> = chars_of(ps[i].as_str());
        let n: usize = v.len();
        let ghost before = views(out@);
        proof {
            assert(all[i as int] == v@);
        }
        let line: String = if n > 0 && v[n - 1] == '\r' {
            proof {
                assert(v@.subrange(0, n - 1) =~= v@.drop_last());
            }
            text_of_range(&v, 0, n - 1)
        } else {
            text_of(&v)
        };
        let ghost shown = line@;
        out.push(line);
        proof {
            assert(views(out@) =~= before.push(shown));
            assert(views(out@) =~= Seq::new((i + 1) as nat, |k: int| without_return(all[k])));
        }
        i += 1;
    }
    proof {
        assert(all.last() == ps@[last as int]@);
    }
    if !ps[last].as_str().is_empty() {
        let ghost before = views(out@);
        out.push(ps[last].clone());
        proof {
            assert(views(out@) =~= before.push(all.last()));
        }
    }
    proof {
        assert(views(out@) =~= lines_of(s@));
    }
    out
}

/// The first line that is not blank, or the empty text.
pub open spec fn first_visible_line(ls: Seq<Seq<char>>) -> Seq<char>
    decreases ls.len(),
{
    if ls.len() == 0 {
        Seq::empty()
    } else if !blank(ls[0]) {
        ls[0]
    } else {
        first_visible_line(ls.subrange(1, ls.len() as int))
    }
}

/// The preview of a note: its first line that is not blank, at most seventy-two
/// characters of it, with an ellipsis if the note has more than is shown.
pub open spec fn preview_of(content: Seq<char>) -> Seq<char> {
    let ls = lines_of(content);
    let first = first_visible_line(ls);
    let shown = if first.len() > 72 {
        first.take(72)
    } else {
        first
    };
    if first.len() > 72 || ls.len() > 1 {
        shown.push('…')
    } else {
        shown
    }
}

/// The preview of a note.
pub fn note_preview(content: &str) -> (res: String)
    ensures
        res@ == preview_of(content@),
{
    let ls: Vec<String> = lines(content);
    let ghost all = lines_of(content@);
    let mut i: usize = 0;
    proof {
        assert(views(ls@).len() == ls@.len());
        assert(all.subrange(0, all.len() as int) =~= all);
    }
    while i < ls.len() && is_blank(ls[i].as_str())
        invariant
            i <= ls@.len(),
            views(ls@) == all,
            all.len() == ls@.len(),
            first_visible_line(all) == first_visible_line(
                all.subrange(i as int, all.len() as int),
            ),
        decreases ls@.len() - i,
    {
        proof {
            let rest = all.subrange(i as int, all.len() as int);
            assert(all[i as int] == ls@[i as int]@);
            assert(rest.subrange(1, rest.len() as int) =~= all.subrange(i + 1, all.len() as int));
        }
        i += 1;
    }
    let first: Vec<char> = if i < ls.len() {
        proof {
            assert(all[i as int] == ls@[i as int]@);
        }
        chars_of(ls[i].as_str())
    } else {
        let none: Vec<char> = Vec::new();
        none
    };
    proof {
        assert(first@ =~= first_visible_line(all));
    }
    let long: bool = first.len() > 72;
    let mut out: String = if long {
        proof {
            assert(first@.subrange(0, 72) =~= first@.take(72));
        }
        text_of_range(&first, 0, 72)
    } else {
        text_of(&first)
    };
    if long || ls.len() > 1 {
        out.push('…');
    }
    out
}

/// What the card of a note shows.
pub struct NoteCard {
    pub title: String,
    pub hue: usize,
    pub words: Option<String>,
    pub preview: Option<String>,
    pub category: Option<String>,
    pub tags: Vec<String>,
}

/// The card of a note: an empty note shows neither a word count nor a preview.
pub fn note_card(note: &SecureNote) -> (res: NoteCard)
    ensures
        res.title@ == shortened(note@.title, 40),
        res.hue == hue_of(note@.title),
        opt_view(res.words) == (if note@.content.len() > 0 {
            Some(decimal(word_count(note@.content)) + " w"@)
        } else {
            None
        }),
        opt_view(res.preview) == (if note@.content.len() > 0 {
            Some(preview_of(note@.content))
        } else {
            None
        }),
        opt_view(res.category) == category_label(note@.category),
        views(res.tags@) == tag_labels(note@.tags),
{
    let empty: bool = note.content.as_str().is_empty();
    NoteCard {
        title: truncate_display(note.title.as_str(), 40),
        hue: hue_index(note.title.as_str()),
        words: if empty {
            None
        } else {
            Some(number_text(count_words(note.content.as_str()) as u64).concat(" w"))
        },
        preview: if empty {
            None
        } else {
            Some(note_preview(note.content.as_str()))
        },
        category: category_label_text(&note.category),
        tags: tag_label_texts(&note.tags),
    }
}

/// The badge with the number of notes: how many are shown of how many, if a
/// filter is set.
pub open spec fn count_badge(filtered: bool, shown: nat, total: nat) -> Seq<char> {
    if filtered {
        decimal(shown) + "/"@ + decimal(total)
    } else {
        decimal(total)
    }
}

/// The badge with the number of notes.
pub fn count_label(filtered: bool, shown: usize, total: usize) -> (res: String)
    ensures
        res@ == count_badge(filtered, shown as nat, total as nat),
{
    if filtered {
        let mut out: String = number_text(shown as u64).concat("/");
        append_decimal(&mut out, total as u64);
        out
    } else {
        number_text(total as u64)
    }
}

/// The label of a filter in the sidebar.
pub open spec fn filter_text(label: Seq<char>, active: bool) -> Seq<char> {
    (if active {
        "● "@
    } else {
        "  "@
    }) + shortened(label, 24)
}

/// The label of a filter in the sidebar.
pub fn filter_label(label: &str, active: bool) -> (res: String)
    ensures
        res@ == filter_text(label@, active),
{
    let mark: &str = if active {
        "● "
    } else {
        "  "
    };
    mark.to_string().concat(truncate_display(label, 24).as_str())
}

// ---------------------------------------------------------------------------
// Toasts
// ---------------------------------------------------------------------------

/// How many characters of a toast are shown.
pub const TOAST_CHARS: usize = 38;

/// What is shown of a toast: all of it, or its first characters and an ellipsis.
pub open spec fn toast_shown(message: Seq<char>) -> Seq<char> {
    if message.len() > TOAST_CHARS {
        message.take(TOAST_CHARS as int).push('…')
    } else {
        message
    }
}

/// What is shown of a toast. Characters are counted, so that none is cut in two.
pub fn toast_text(message: &str) -> (res: String)
    ensures
        res@ == toast_shown(message@),
{
    let v: Vec<char> = chars_of(message);
    if v.len() > TOAST_CHARS {
        let mut out: String = text_of_range(&v, 0, TOAST_CHARS);
        proof {
            assert(v@.subrange(0, TOAST_CHARS as int) =~= v@.take(TOAST_CHARS as int));
        }
        out.push('…');
        out
    } else {
        message.to_string()
    }
}

// ---------------------------------------------------------------------------
// Password hints
// ---------------------------------------------------------------------------

/// What the form for a new master password remarks on it.
#[derive(Clone, Copy, Debug, PartialEq, Eq, Structural)]
pub enum PasswordHint {
    Empty,
    Mismatch,
    TooShort,
    Fair,
    Strong,
}

/// The remark on a new master password and its repetition.
pub open spec fn hint_for(password: Seq<char>, confirm: Seq<char>) -> PasswordHint {
    if password.len() > 0 && confirm.len() > 0 && password != confirm {
        PasswordHint::Mismatch
    } else if password.len() == 0 {
        PasswordHint::Empty
    } else if encode_utf8(password).len() < 8 {
        PasswordHint::TooShort
    } else if encode_utf8(password).len() < 12 {
        PasswordHint::Fair
    } else {
        PasswordHint::Strong
    }
}

/// The remark on a new master password and its repetition.
pub fn new_password_hint(password: &String, confirm: &String) -> (res: PasswordHint)
    ensures
        res == hint_for(password@, confirm@),
{
    let n: usize = password.as_str().as_bytes().len();
    if !password.as_str().is_empty() && !confirm.as_str().is_empty() && *password != *confirm {
        PasswordHint::Mismatch
    } else if password.as_str().is_empty() {
        PasswordHint::Empty
    } else if n < 8 {
        PasswordHint::TooShort
    } else if n < 12 {
        PasswordHint::Fair
    } else {
        PasswordHint::Strong
    }
}

/// A remark in words.
pub open spec fn hint_text(h: PasswordHint) -> Seq<char> {
    match h {
        PasswordHint::Empty => ""@,
        PasswordHint::Mismatch => "Passwords don't match"@,
        PasswordHint::TooShort => "Too short — use at least 8 characters"@,
        PasswordHint::Fair => "Fair — consider a longer passphrase"@,
        PasswordHint::Strong => "Strong password"@,
    }
}

/// A remark in words.
pub fn hint_label(h: PasswordHint) -> (res: String)
    ensures
        res@ == hint_text(h),
        h is Empty ==> res@ == ""@,
        h is Mismatch ==> res@ == "Passwords don't match"@,
        h is TooShort ==> res@ == "Too short — use at least 8 characters"@,
        h is Fair ==> res@ == "Fair — consider a longer passphrase"@,
        h is Strong ==> res@ == "Strong password"@,
{
    match h {
        PasswordHint::Empty => "".to_string(),
        PasswordHint::Mismatch => "Passwords don't match".to_string(),
        PasswordHint::TooShort => "Too short — use at least 8 characters".to_string(),
        PasswordHint::Fair => "Fair — consider a longer passphrase".to_string(),
        PasswordHint::Strong => "Strong password".to_string(),
    }
}

// ---------------------------------------------------------------------------
// The update banner
// ---------------------------------------------------------------------------

/// What the information page says about updates.
pub struct UpdateBanner {
    pub icon: String,
    pub headline: String,
    pub detail: String,
    /// The label of the button and the address it opens, if there is one.
    pub action: Option<(String, String)>,
}

#[verifier::ext_equal]
pub struct BannerView {
    pub icon: Seq<char>,
    pub headline: Seq<char>,
    pub detail: Seq<char>,
    pub action: Option<(Seq<char>, Seq<char>)>,
}

impl View for UpdateBanner {
    type V = BannerView;

    open spec fn view(&self) -> BannerView {
        BannerView {
            icon: self.icon@,
            headline: self.headline@,
            detail: self.detail@,
            action: match self.action {
                Some((label, url)) => Some((label@, url@)),
                None => None,
            },
        }
    }
}

/// The banner for an update status.
pub open spec fn banner_for(status: StatusView) -> BannerView {
    match status {
        StatusView::Unknown => BannerView {
            icon: "⏳"@,
            headline: "Checking for updates…"@,
            detail: ""@,
            action: None,
        },
        StatusView::UpToDate => BannerView {
            icon: "✓"@,
            headline: "You're up to date"@,
            detail: "Running the latest version (v"@ + APP_VERSION@ + ")."@,
            action: None,
        },
        StatusView::StableAvailable { version, url } => BannerView {
            icon: "🚀"@,
            headline: "Update available — v"@ + version,
            detail: "A new stable release is ready to install."@,
            action: Some(("View release  ↗"@, url)),
        },
        StatusView::BetaAvailable { version, url } => BannerView {
            icon: "🧪"@,
            headline: "Beta update available — v"@ + version,
            detail: "A newer pre-release build is ready to try."@,
            action: Some(("View pre-release  ↗"@, url)),
        },
        StatusView::CheckFailed(_) => BannerView {
            icon: "⚠️"@,
            headline: "Couldn't check for updates"@,
            detail: "Check your connection and try again."@,
            action: None,
        },
    }
}

/// The banner for an update status.
pub fn update_banner(status: &UpdateStatus) -> (res: UpdateBanner)
    ensures
        res@ == banner_for(status@),
{
    match status {
        UpdateStatus::Unknown => UpdateBanner {
            icon: "⏳".to_string(),
            headline: "Checking for updates…".to_string(),
            detail: "".to_string(),
            action: None,
        },
        UpdateStatus::UpToDate => UpdateBanner {
            icon: "✓".to_string(),
            headline: "You're up to date".to_string(),
            detail: "Running the latest version (v".to_string().concat(APP_VERSION).concat(")."),
            action: None,
        },
        UpdateStatus::StableAvailable { version, url } => UpdateBanner {
            icon: "🚀".to_string(),
            headline: "Update available — v".to_string().concat(version.as_str()),
            detail: "A new stable release is ready to install.".to_string(),
            action: Some(("View release  ↗".to_string(), url.clone())),
        },
        UpdateStatus::BetaAvailable { version, url } => UpdateBanner {
            icon: "🧪".to_string(),
            headline: "Beta update available — v".to_string().concat(version.as_str()),
            detail: "A newer pre-release build is ready to try.".to_string(),
            action: Some(("View pre-release  ↗".to_string(), url.clone())),
        },
        UpdateStatus::CheckFailed(_) => UpdateBanner {
            icon: "⚠️".to_string(),
            headline: "Couldn't check for updates".to_string(),
            detail: "Check your connection and try again.".to_string(),
            action: None,
        },
    }
}

// ---------------------------------------------------------------------------
// Laws of what is shown
// ---------------------------------------------------------------------------

/// A text that fits is shown whole; a longer one is cut to the width, with an ellipsis
/// as its last character and its own beginning before that.
pub proof fn law_shortened_exact(s: Seq<char>, max: nat, i: int)
    ensures
        s.len() <= max ==> shortened(s, max) == s,
        s.len() > max && max > 0 ==> {
            &&& shortened(s, max).len() == max
            &&& shortened(s, max).last() == '…'
            &&& 0 <= i < max - 1 ==> shortened(s, max)[i] == s[i]
        },
{
}

/// A toast of up to 38 characters is shown whole; of a longer one the first 38 are,
/// and an ellipsis.
pub proof fn law_toast_shown_exact(m: Seq<char>, i: int)
    ensures
        m.len() <= 38 ==> toast_shown(m) == m,
        m.len() > 38 ==> {
            &&& toast_shown(m).len() == 39
            &&& toast_shown(m)[38] == '…'
            &&& 0 <= i < 38 ==> toast_shown(m)[i] == m[i]
        },
{
}

proof fn lemma_units(n: nat)
    ensures
        units_ago(1, "minute"@) == "1 minute ago"@,
        units_ago(1, "hour"@) == "1 hour ago"@,
        units_ago(1, "day"@) == "1 day ago"@,
        units_ago(1, "month"@) == "1 month ago"@,
        units_ago(1, "year"@) == "1 year ago"@,
        n != 1 ==> units_ago(n, "minute"@) == decimal(n) + " minutes ago"@,
        n != 1 ==> units_ago(n, "hour"@) == decimal(n) + " hours ago"@,
        n != 1 ==> units_ago(n, "day"@) == decimal(n) + " days ago"@,
        n != 1 ==> units_ago(n, "month"@) == decimal(n) + " months ago"@,
        n != 1 ==> units_ago(n, "year"@) == decimal(n) + " years ago"@,
{
    reveal_strlit("minute");
    reveal_strlit("hour");
    reveal_strlit("day");
    reveal_strlit("month");
    reveal_strlit("year");
    reveal_strlit("");
    reveal_strlit("s");
    reveal_strlit(" ");
    reveal_strlit(" ago");
    reveal_strlit("1 minute ago");
    reveal_strlit("1 hour ago");
    reveal_strlit("1 day ago");
    reveal_strlit("1 month ago");
    reveal_strlit("1 year ago");
    reveal_strlit(" minutes ago");
    reveal_strlit(" hours ago");
    reveal_strlit(" days ago");
    reveal_strlit(" months ago");
    reveal_strlit(" years ago");
    assert(decimal(1) =~= seq!['1']);
    assert(units_ago(1, "minute"@) =~= "1 minute ago"@);
    assert(units_ago(1, "hour"@) =~= "1 hour ago"@);
    assert(units_ago(1, "day"@) =~= "1 day ago"@);
    assert(units_ago(1, "month"@) =~= "1 month ago"@);
    assert(units_ago(1, "year"@) =~= "1 year ago"@);
    if n != 1 {
        assert(units_ago(n, "minute"@) =~= decimal(n) + " minutes ago"@);
        assert(units_ago(n, "hour"@) =~= decimal(n) + " hours ago"@);
        assert(units_ago(n, "day"@) =~= decimal(n) + " days ago"@);
        assert(units_ago(n, "month"@) =~= decimal(n) + " months ago"@);
        assert(units_ago(n, "year"@) =~= decimal(n) + " years ago"@);
    }
}

/// An age in words: under a minute it is just now; then it is told in the largest of
/// minutes, hours, days, months of thirty days and years of 365 days that fits, with
/// the number of them that are over, and in the plural but for one.
pub proof fn law_age_in_words(n: nat, rest: nat)
    ensures
        rest < 60 ==> age_text(rest) == "just now"@,
        1 <= n < 60 && rest < 60 ==> age_text(n * 60 + rest) == (if n == 1 {
            "1 minute ago"@
        } else {
            decimal(n) + " minutes ago"@
        }),
        1 <= n < 24 && rest < 3600 ==> age_text(n * 3600 + rest) == (if n == 1 {
            "1 hour ago"@
        } else {
            decimal(n) + " hours ago"@
        }),
        1 <= n < 30 && rest < 86_400 ==> age_text(n * 86_400 + rest) == (if n == 1 {
            "1 day ago"@
        } else {
            decimal(n) + " days ago"@
        }),
        1 <= n && rest < 2_592_000 && n * 2_592_000 + rest < 31_536_000 ==> age_text(
            n * 2_592_000 + rest,
        ) == (if n == 1 {
            "1 month ago"@
        } else {
            decimal(n) + " months ago"@
        }),
        1 <= n && rest < 31_536_000 ==> age_text(n * 31_536_000 + rest) == (if n == 1 {
            "1 year ago"@
        } else {
            decimal(n) + " years ago"@
        }),
{
    lemma_units(n);
    if rest < 60 {
        assert((n * 60 + rest) / 60 == n);
    }
    if rest < 3600 {
        assert((n * 3600 + rest) / 3600 == n);
    }
    if rest < 86_400 {
        assert((n * 86_400 + rest) / 86_400 == n);
    }
    if rest < 2_592_000 {
        assert((n * 2_592_000 + rest) / 2_592_000 == n);
    }
    if rest < 31_536_000 {
        assert((n * 31_536_000 + rest) / 31_536_000 == n);
    }
}

/// The age of a time is how far the present lies behind it; a time to come, or a clock
/// that gives no time, makes it zero.
pub proof fn law_age_exact(then: u64, d: u64, now: u64)
    ensures
        then + d <= u64::MAX ==> age(then, Some((then + d) as u64)) == d,
        now < then ==> age(then, Some(now)) == 0,
        age(then, None) == 0,
{
}

/// The line on a vault: nothing for one that was never opened, and otherwise its age
/// in minutes, hours or days that are over.
pub proof fn law_last_opened_exact(at: u64, n: nat, rest: nat)
    requires
        at > 0,
        at + n * 86_400 + rest <= u64::MAX,
        rest < 60,
    ensures
        last_opened_line(0, None) is None,
        last_opened_line(0, Some(at)) is None,
        last_opened_line(at, Some((at + rest) as u64)) == Some("Last opened "@ + "just now"@),
        1 <= n < 60 ==> last_opened_line(at, Some((at + n * 60 + rest) as u64)) == Some(
            "Last opened "@ + (decimal(n) + " min ago"@),
        ),
        1 <= n < 24 ==> last_opened_line(at, Some((at + n * 3600 + rest) as u64)) == Some(
            "Last opened "@ + (decimal(n) + " hr ago"@),
        ),
        1 <= n ==> last_opened_line(at, Some((at + n * 86_400 + rest) as u64)) == Some(
            "Last opened "@ + (decimal(n) + " days ago"@),
        ),
{
    assert((n * 60 + rest) / 60 == n);
    assert((n * 3600 + rest) / 3600 == n);
    assert((n * 86_400 + rest) / 86_400 == n);
}

/// The colour goes by the sum of the bytes, so that it stays with a name; there are
/// six.
pub proof fn law_hue_exact(s: Seq<char>, b: Seq<u8>, x: u8)
    ensures
        hue_of(s) < 6,
        hue_of(s) == (byte_sum(encode_utf8(s)) % 0x1_0000_0000) % 6,
        byte_sum(Seq::<u8>::empty()) == 0,
        byte_sum(b.push(x)) == byte_sum(b) + x,
{
    assert(b.push(x).drop_last() =~= b);
}

/// The letter on a card is the first of the name in capitals, or a question mark.
pub proof fn law_avatar_exact(s: Seq<char>)
    ensures
        s.len() == 0 ==> avatar_text(s) == seq!['?'],
        s.len() > 0 ==> avatar_text(s) == unicode_upper(s.take(1)),
{
    if s.len() == 0 {
        assert(avatar_text(s) =~= seq!['?']);
    } else {
        assert(s.take(1) =~= seq![s[0]]);
    }
}

/// A card shows the category and every tag that is not empty, in order, each behind
/// its sign and cut to twenty characters.
pub proof fn law_labels_exact(c: Seq<char>, tags: Seq<Seq<char>>, t: Seq<char>)
    ensures
        category_label(None) is None,
        c.len() == 0 ==> category_label(Some(c)) is None,
        c.len() > 0 ==> category_label(Some(c)) == Some("📁 "@ + shortened(c, 20)),
        tag_labels(Seq::<Seq<char>>::empty()).len() == 0,
        t.len() == 0 ==> tag_labels(tags.push(t)) == tag_labels(tags),
        t.len() > 0 ==> tag_labels(tags.push(t)) == tag_labels(tags).push(
            "🏷 "@ + shortened(t, 20),
        ),
{
    assert(tags.push(t).drop_last() =~= tags);
}

/// Words are what stands between white space: none in white space alone, one in a run
/// without any, and white space between two texts adds nothing and joins nothing.
pub proof fn law_words_exact(a: Seq<char>, w: char, b: Seq<char>)
    requires
        white_space(w),
    ensures
        word_count(a.push(w) + b) == word_count(a) + word_count(b),
        (forall|i: int| 0 <= i < a.len() ==> white_space(#[trigger] a[i])) ==> word_count(a) == 0,
        a.len() > 0 && (forall|i: int| 0 <= i < a.len() ==> !white_space(#[trigger] a[i]))
            ==> word_count(a) == 1,
    decreases a.len() + b.len(),
{
    let whole = a.push(w) + b;
    if b.len() > 0 {
        law_words_exact(a, w, b.drop_last());
        assert(whole.drop_last() =~= a.push(w) + b.drop_last());
        assert(whole.last() == b.last());
        if b.len() > 1 {
            assert(whole[whole.len() - 2] == b[b.len() - 2]);
        } else {
            assert(whole[whole.len() - 2] == w);
        }
    } else {
        assert(whole =~= a.push(w));
        assert(whole.drop_last() =~= a);
    }
    if a.len() > 0 {
        law_words_exact(a.drop_last(), w, Seq::empty());
    }
}

/// A text is read line by line: each line without its line end, which is a line feed
/// with or without a carriage return before it.
pub proof fn law_lines_exact(s: Seq<char>, line: Seq<char>)
    requires
        !line.contains('\n'),
        line.len() > 0,
        line.last() != '\r',
    ensures
        lines_of(Seq::<char>::empty()).len() == 0,
        lines_of(line) == seq![line],
        lines_of(line.push('\n')) == seq![line],
        lines_of(line.push('\r').push('\n')) == seq![line],
        s.len() > 0 && s.last() == '\n' ==> lines_of(s + line) == lines_of(s).push(line),
        s.len() > 0 && s.last() == '\n' ==> lines_of(s.push('\n')) == lines_of(s).push(
            Seq::empty(),
        ),
{
    let none = Seq::<char>::empty();
    assert(lines_of(none) =~= Seq::<Seq<char>>::empty());
    let parts = seq![line];
    law_joined_splits(parts, '\n');
    assert(pieces(line, '\n') =~= parts);
    assert(lines_of(line) =~= seq![line]);
    assert(line.push('\n').drop_last() =~= line);
    assert(lines_of(line.push('\n')) =~= seq![line]);
    let returned = line.push('\r');
    assert(!returned.contains('\n')) by {
        if returned.contains('\n') {
            let k = choose|k: int| 0 <= k < returned.len() && returned[k] == '\n';
            assert(line[k] == '\n');
        }
    }
    law_joined_splits(seq![returned], '\n');
    assert(pieces(returned, '\n') =~= seq![returned]);
    assert(returned.push('\n').drop_last() =~= returned);
    assert(returned.drop_last() =~= line);
    assert(lines_of(returned.push('\n')) =~= seq![line]);
    if s.len() > 0 && s.last() == '\n' {
        let ps = pieces(s.drop_last(), '\n');
        lemma_pieces_nonempty(s.drop_last(), '\n');
        assert(pieces(s, '\n') == ps.push(none));
        lemma_pieces_grow(s, '\n', line);
        assert(none + line =~= line);
        assert(pieces(s + line, '\n') =~= ps.push(line));
        assert(lines_of(s + line) =~= lines_of(s).push(line));
        assert(s.push('\n').drop_last() =~= s);
        assert(lines_of(s.push('\n')) =~= lines_of(s).push(none));
    }
}

/// The preview of a note is its first line that is not blank, cut to 72 characters; an
/// ellipsis tells that it was cut or that there is more than one line.
pub proof fn law_preview_exact(content: Seq<char>, k: int)
    requires
        0 <= k < lines_of(content).len(),
        !blank(lines_of(content)[k]),
        forall|j: int| 0 <= j < k ==> blank(#[trigger] lines_of(content)[j]),
    ensures
        ({
            let line = lines_of(content)[k];
            let more = line.len() > 72 || lines_of(content).len() > 1;
            let shown = if line.len() > 72 {
                line.subrange(0, 72)
            } else {
                line
            };
            preview_of(content) == (if more {
                shown.push('…')
            } else {
                shown
            })
        }),
{
    lemma_first_visible(lines_of(content), k);
}

proof fn lemma_first_visible(ls: Seq<Seq<char>>, k: int)
    requires
        0 <= k < ls.len(),
        !blank(ls[k]),
        forall|j: int| 0 <= j < k ==> blank(#[trigger] ls[j]),
    ensures
        first_visible_line(ls) == ls[k],
    decreases ls.len(),
{
    if k > 0 {
        let rest = ls.subrange(1, ls.len() as int);
        assert(blank(ls[0]));
        assert forall|j: int| 0 <= j < k - 1 implies blank(#[trigger] rest[j]) by {
            assert(rest[j] == ls[j + 1]);
        }
        assert(rest[k - 1] == ls[k]);
        lemma_first_visible(rest, k - 1);
    }
}

/// The badge shows how many there are, and under a filter how many of them are shown.
pub proof fn law_badge_exact(shown: nat, total: nat)
    ensures
        count_badge(false, shown, total) == decimal(total),
        count_badge(true, shown, total) == decimal(shown) + "/"@ + decimal(total),
{
}

/// A filter in the sidebar is cut to 24 characters and marked where it is active.
pub proof fn law_filter_label_exact(label: Seq<char>)
    ensures
        filter_text(label, true) == "● "@ + shortened(label, 24),
        filter_text(label, false) == "  "@ + shortened(label, 24),
{
}

/// The remark on a new password: a repetition that differs comes first; then too short
/// is under eight bytes, fair under twelve, and strong from there.
pub proof fn law_hint_exact(password: Seq<char>, confirm: Seq<char>)
    ensures
        ({
            let n = encode_utf8(password).len();
            let differs = password.len() > 0 && confirm.len() > 0 && password != confirm;
            let h = hint_for(password, confirm);
            &&& h is Mismatch <==> differs
            &&& h is Empty <==> password.len() == 0
            &&& h is TooShort <==> !differs && password.len() > 0 && n < 8
            &&& h is Fair <==> !differs && password.len() > 0 && 8 <= n < 12
            &&& h is Strong <==> !differs && password.len() > 0 && n >= 12
        }),
{
}

/// A banner offers a link exactly if there is something newer, and then that of the
/// release; it names the version.
pub proof fn law_banner_exact(version: Seq<char>, url: Seq<char>, reason: Seq<char>)
    ensures
        ({
            let stable = banner_for(StatusView::StableAvailable { version, url });
            let beta = banner_for(StatusView::BetaAvailable { version, url });
            &&& stable.headline == "Update available — v"@ + version
            &&& stable.action matches Some((_, to)) && to == url
            &&& beta.headline == "Beta update available — v"@ + version
            &&& beta.action matches Some((_, to)) && to == url
            &&& banner_for(StatusView::UpToDate).headline == "You're up to date"@
            &&& banner_for(StatusView::UpToDate).action is None
            &&& banner_for(StatusView::Unknown).headline == "Checking for updates…"@
            &&& banner_for(StatusView::Unknown).action is None
            &&& banner_for(StatusView::CheckFailed(reason)).headline
                == "Couldn't check for updates"@
            &&& banner_for(StatusView::CheckFailed(reason)).action is None
        }),
{
}

/// After a line end, or at the start, what follows up to the next line end is one line,
/// whatever it holds; a carriage return right before a line feed belongs to the line
/// end.
pub proof fn law_each_line_exact(s: Seq<char>, line: Seq<char>)
    requires
        s.len() == 0 || s.last() == '\n',
        !line.contains('\n'),
        line.len() > 0,
    ensures
        lines_of(s + line) == lines_of(s).push(line),
        lines_of((s + line).push('\n')) == lines_of(s).push(
            if line.last() == '\r' {
                line.drop_last()
            } else {
                line
            },
        ),
{
    let none = Seq::<char>::empty();
    let head = if s.len() == 0 {
        Seq::<Seq<char>>::empty()
    } else {
        lemma_pieces_nonempty(s.drop_last(), '\n');
        pieces(s.drop_last(), '\n')
    };
    assert(pieces(s, '\n') =~= head.push(none));
    lemma_pieces_grow(s, '\n', line);
    assert(none + line =~= line);
    assert(pieces(s + line, '\n') =~= head.push(line));
    assert(lines_of(s + line) =~= lines_of(s).push(line));
    assert((s + line).push('\n').drop_last() =~= s + line);
    assert(pieces((s + line).push('\n'), '\n') =~= head.push(line).push(none));
    assert(lines_of((s + line).push('\n')) =~= lines_of(s).push(without_return(line)));
}

/// A note with no visible line has no preview but the sign that there are more lines.
pub proof fn law_blank_preview(content: Seq<char>)
    requires
        forall|j: int| 0 <= j < lines_of(content).len() ==> blank(#[trigger] lines_of(content)[j]),
    ensures
        lines_of(content).len() > 1 ==> preview_of(content) == seq!['…'],
        lines_of(content).len() <= 1 ==> preview_of(content).len() == 0,
{
    lemma_none_visible(lines_of(content));
    if lines_of(content).len() > 1 {
        assert(preview_of(content) =~= seq!['…']);
    }
}

proof fn lemma_none_visible(ls: Seq<Seq<char>>)
    requires
        forall|j: int| 0 <= j < ls.len() ==> blank(#[trigger] ls[j]),
    ensures
        first_visible_line(ls).len() == 0,
    decreases ls.len(),
{
    if ls.len() > 0 {
        let rest = ls.subrange(1, ls.len() as int);
        assert forall|j: int| 0 <= j < rest.len() implies blank(#[trigger] rest[j]) by {
            assert(rest[j] == ls[j + 1]);
        }
        assert(blank(ls[0]));
        lemma_none_visible(rest);
    }
}

} // verus!

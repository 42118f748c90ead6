//! Text as a sequence of characters: the string operations the rest of the
//! library is built on, each against a model on `Seq<char>`.
use vstd::prelude::*;

verus! {

// ---------------------------------------------------------------------------
// Characters
// ---------------------------------------------------------------------------

/// `String::push` of std: appends one character at the end.
pub assume_specification[ String::push ](s: &mut String, c: char)
    ensures
        final(s)@ == old(s)@.push(c),
;

/// A character with the Unicode property `White_Space`.
pub open spec fn white_space(c: char) -> bool {
    let n = c as u32;
    ||| 0x09 <= n <= 0x0d
    ||| n == 0x20
    ||| n == 0x85
    ||| n == 0xa0
    ||| n == 0x1680
    ||| 0x2000 <= n <= 0x200a
    ||| n == 0x2028
    ||| n == 0x2029
    ||| n == 0x202f
    ||| n == 0x205f
    ||| n == 0x3000
}

/// Whether `c` has the Unicode property `White_Space`.
pub fn is_white_space(c: char) -> (res: bool)
    ensures
        res == white_space(c),
{
    let n: u32 = c as u32;
    (0x09 <= n && n <= 0x0d) || n == 0x20 || n == 0x85 || n == 0xa0 || n == 0x1680 || (0x2000 <= n
        && n <= 0x200a) || n == 0x2028 || n == 0x2029 || n == 0x202f || n == 0x205f || n == 0x3000
}

/// An ASCII letter `a`–`z` turned into its capital; any other character as it is.
pub open spec fn ascii_upper(c: char) -> char {
    if 'a' <= c <= 'z' {
        (c as u32 - 32) as char
    } else {
        c
    }
}

/// An ASCII letter `A`–`Z` turned into its small letter; any other character as it is.
pub open spec fn ascii_lower(c: char) -> char {
    if 'A' <= c <= 'Z' {
        (c as u32 + 32) as char
    } else {
        c
    }
}

/// Every character of `s` is ASCII.
pub open spec fn all_ascii(s: Seq<char>) -> bool {
    forall|i: int| 0 <= i < s.len() ==> (#[trigger] s[i] as u32) < 128
}

/// What `str::to_uppercase` of std makes of a text that is not all ASCII.
pub uninterp spec fn upper_beyond_ascii(s: Seq<char>) -> Seq<char>;

/// What `str::to_lowercase` of std makes of a text that is not all ASCII.
pub uninterp spec fn lower_beyond_ascii(s: Seq<char>) -> Seq<char>;

/// A text in capitals.
pub open spec fn unicode_upper(s: Seq<char>) -> Seq<char> {
    if all_ascii(s) {
        s.map_values(|c: char| ascii_upper(c))
    } else {
        upper_beyond_ascii(s)
    }
}

/// A text in small letters.
pub open spec fn unicode_lower(s: Seq<char>) -> Seq<char> {
    if all_ascii(s) {
        s.map_values(|c: char| ascii_lower(c))
    } else {
        lower_beyond_ascii(s)
    }
}

/// `str::to_uppercase` of std. On ASCII text it turns each letter `a`–`z` into its
/// capital and keeps the rest; on other text the result is a function of the text
/// alone.
#[verifier::external_body]
pub(crate) fn to_upper(s: &str) -> (res: String)
    ensures
        all_ascii(s@) ==> res@ == s@.map_values(|c: char| ascii_upper(c)),
        !all_ascii(s@) ==> res@ == upper_beyond_ascii(s@),
{
    s.to_uppercase()
}

/// `str::to_lowercase` of std. On ASCII text it turns each letter `A`–`Z` into its
/// small letter and keeps the rest; on other text the result is a function of the
/// text alone.
#[verifier::external_body]
pub(crate) fn to_lower(s: &str) -> (res: String)
    ensures
        all_ascii(s@) ==> res@ == s@.map_values(|c: char| ascii_lower(c)),
        !all_ascii(s@) ==> res@ == lower_beyond_ascii(s@),
{
    s.to_lowercase()
}

/// Nothing in capitals is nothing, and neither is nothing in small letters anything.
pub proof fn lemma_case_of_nothing()
    ensures
        unicode_upper(Seq::empty()) == Seq::<char>::empty(),
        unicode_lower(Seq::empty()) == Seq::<char>::empty(),
{
    assert(unicode_upper(Seq::empty()) =~= Seq::<char>::empty());
    assert(unicode_lower(Seq::empty()) =~= Seq::<char>::empty());
}

// ---------------------------------------------------------------------------
// Conversions
// ---------------------------------------------------------------------------

/// The characters of a text, one by one.
pub fn chars_of(s: &str) -> (res: Vec<char>)
    ensures
        res@ == s@,
{
    let mut out: Vec<char> = Vec::new();
    for c in it: s.chars()
        invariant
            out@ == s@.take(it.index()),
            it.seq() == s@,
    {
        proof {
            assert(s@.take(it.index() + 1) =~= s@.take(it.index()).push(c));
        }
        out.push(c);
    }
    proof {
        assert(s@.take(s@.len() as int) =~= s@);
    }
    out
}

/// The characters of `v` from `from` up to, not including, `to`, as a text.
pub fn text_of_range(v: &Vec<char>, from: usize, to: usize) -> (res: String)
    requires
        from <= to <= v@.len(),
    ensures
        res@ == v@.subrange(from as int, to as int),
{
    let mut out: String = String::new();
    let mut i: usize = from;
    proof {
        assert(v@.subrange(from as int, from as int) =~= Seq::<char>::empty());
    }
    while i < to
        invariant
            from <= i <= to <= v@.len(),
            out@ == v@.subrange(from as int, i as int),
        decreases to - i,
    {
        proof {
            assert(v@.subrange(from as int, i + 1) =~= v@.subrange(from as int, i as int).push(
                v@[i as int],
            ));
        }
        out.push(v[i]);
        i += 1;
    }
    out
}

/// All characters of `v` as a text.
pub fn text_of(v: &Vec<char>) -> (res: String)
    ensures
        res@ == v@,
{
    let res: String = text_of_range(v, 0, v.len());
    proof {
        assert(v@.subrange(0, v@.len() as int) =~= v@);
    }
    res
}

// ---------------------------------------------------------------------------
// Trimming
// ---------------------------------------------------------------------------

/// `s` without the white space at its start.
pub open spec fn trimmed_start(s: Seq<char>) -> Seq<char>
    decreases s.len(),
{
    if s.len() > 0 && white_space(s[0]) {
        trimmed_start(s.subrange(1, s.len() as int))
    } else {
        s
    }
}

/// `s` without the white space at its end.
pub open spec fn trimmed_end(s: Seq<char>) -> Seq<char>
    decreases s.len(),
{
    if s.len() > 0 && white_space(s.last()) {
        trimmed_end(s.drop_last())
    } else {
        s
    }
}

/// `s` without the white space at both of its ends.
pub open spec fn trimmed(s: Seq<char>) -> Seq<char> {
    trimmed_end(trimmed_start(s))
}

/// `s` holds nothing but white space.
pub open spec fn blank(s: Seq<char>) -> bool {
    trimmed(s).len() == 0
}

/// The text without the white space at both of its ends.
pub fn trim(s: &str) -> (res: String)
    ensures
        res@ == trimmed(s@),
{
    let v: Vec<char> = chars_of(s);
    let n: usize = v.len();
    let mut i: usize = 0;
    proof {
        assert(v@.subrange(0, n as int) =~= v@);
    }
    while i < n && is_white_space(v[i])
        invariant
            i <= n == v@.len(),
            trimmed_start(v@) == trimmed_start(v@.subrange(i as int, n as int)),
        decreases n - i,
    {
        proof {
            let rest = v@.subrange(i as int, n as int);
            assert(rest.subrange(1, rest.len() as int) =~= v@.subrange(i + 1, n as int));
        }
        i += 1;
    }
    let mut j: usize = n;
    let ghost mid = v@.subrange(i as int, n as int);
    while j > i && is_white_space(v[j - 1])
        invariant
            i <= j <= n == v@.len(),
            trimmed_end(mid) == trimmed_end(v@.subrange(i as int, j as int)),
        decreases j,
    {
        proof {
            let rest = v@.subrange(i as int, j as int);
            assert(rest.drop_last() =~= v@.subrange(i as int, j - 1));
        }
        j -= 1;
    }
    text_of_range(&v, i, j)
}

/// Whether the text is empty once trimmed.
pub fn is_blank(s: &str) -> (res: bool)
    ensures
        res == blank(s@),
{
    let t: String = trim(s);
    t.as_str().is_empty()
}

/// Trimming takes nothing away from a text that starts and ends with a visible
/// character.
pub proof fn lemma_trimmed_tight(s: Seq<char>)
    requires
        s.len() > 0,
        !white_space(s[0]),
        !white_space(s.last()),
    ensures
        trimmed(s) == s,
{
}

proof fn lemma_trimmed_start_shape(s: Seq<char>)
    ensures
        trimmed_start(s).len() <= s.len(),
        trimmed_start(s) == s.subrange(s.len() - trimmed_start(s).len(), s.len() as int),
        trimmed_start(s).len() > 0 ==> !white_space(trimmed_start(s)[0]),
    decreases s.len(),
{
    if s.len() > 0 && white_space(s[0]) {
        let t = s.subrange(1, s.len() as int);
        lemma_trimmed_start_shape(t);
        let r = trimmed_start(t);
        assert(t.subrange(t.len() - r.len(), t.len() as int) =~= s.subrange(
            s.len() - r.len(),
            s.len() as int,
        ));
    } else {
        assert(s.subrange(0, s.len() as int) =~= s);
    }
}

proof fn lemma_trimmed_end_shape(s: Seq<char>)
    ensures
        trimmed_end(s).len() <= s.len(),
        trimmed_end(s) == s.take(trimmed_end(s).len() as int),
        trimmed_end(s).len() > 0 ==> !white_space(trimmed_end(s).last()),
    decreases s.len(),
{
    if s.len() > 0 && white_space(s.last()) {
        let t = s.drop_last();
        lemma_trimmed_end_shape(t);
        let r = trimmed_end(t);
        assert(t.take(r.len() as int) =~= s.take(r.len() as int));
    } else {
        assert(s.take(s.len() as int) =~= s);
    }
}

/// Every character of `s` is white space.
pub open spec fn all_white(s: Seq<char>) -> bool {
    forall|i: int| 0 <= i < s.len() ==> white_space(#[trigger] s[i])
}

proof fn lemma_trimmed_start_skips(a: Seq<char>, s: Seq<char>)
    requires
        all_white(a),
    ensures
        trimmed_start(a + s) == trimmed_start(s),
    decreases a.len(),
{
    if a.len() == 0 {
        assert(a + s =~= s);
    } else {
        let rest = a.subrange(1, a.len() as int);
        assert((a + s)[0] == a[0]);
        assert((a + s).subrange(1, (a + s).len() as int) =~= rest + s);
        lemma_trimmed_start_skips(rest, s);
    }
}

proof fn lemma_trimmed_end_skips(s: Seq<char>, z: Seq<char>)
    requires
        all_white(z),
    ensures
        trimmed_end(s + z) == trimmed_end(s),
    decreases z.len(),
{
    if z.len() == 0 {
        assert(s + z =~= s);
    } else {
        assert((s + z).last() == z.last());
        assert((s + z).drop_last() =~= s + z.drop_last());
        lemma_trimmed_end_skips(s, z.drop_last());
    }
}

proof fn lemma_trimmed_start_before(w: Seq<char>, z: Seq<char>)
    requires
        !all_white(w),
    ensures
        trimmed_start(w + z) == trimmed_start(w) + z,
    decreases w.len(),
{
    assert((w + z)[0] == w[0]);
    if white_space(w[0]) {
        let rest = w.subrange(1, w.len() as int);
        if all_white(rest) {
            assert forall|i: int| 0 <= i < w.len() implies white_space(#[trigger] w[i]) by {
                if i > 0 {
                    assert(rest[i - 1] == w[i]);
                }
            }
        }
        assert((w + z).subrange(1, (w + z).len() as int) =~= rest + z);
        lemma_trimmed_start_before(rest, z);
    }
}

/// White space around a text makes no difference to what is left of it.
pub proof fn lemma_trimmed_surrounded(a: Seq<char>, w: Seq<char>, z: Seq<char>)
    requires
        all_white(a),
        all_white(z),
    ensures
        trimmed(a + w + z) == trimmed(w),
{
    assert(a + w + z =~= a + (w + z));
    lemma_trimmed_start_skips(a, w + z);
    if all_white(w) {
        let none = Seq::<char>::empty();
        assert(w + z =~= (w + z) + none);
        assert(w =~= w + none);
        lemma_trimmed_start_skips(w + z, none);
        lemma_trimmed_start_skips(w, none);
    } else {
        lemma_trimmed_start_before(w, z);
        lemma_trimmed_end_skips(trimmed_start(w), z);
    }
}

/// Trimming twice is trimming once, and what is left neither starts nor ends
/// with white space.
pub proof fn lemma_trimmed_idempotent(s: Seq<char>)
    ensures
        trimmed(trimmed(s)) == trimmed(s),
        trimmed(s).len() <= s.len(),
        trimmed(s).len() > 0 ==> !white_space(trimmed(s)[0]) && !white_space(trimmed(s).last()),
{
    let t = trimmed_start(s);
    lemma_trimmed_start_shape(s);
    lemma_trimmed_end_shape(t);
    let r = trimmed_end(t);
    if r.len() > 0 {
        assert(r[0] == t[0]);
        lemma_trimmed_tight(r);
    }
}

// ---------------------------------------------------------------------------
// Searching
// ---------------------------------------------------------------------------

/// `p` stands in `s` at position `i`.
pub open spec fn occurs_at(s: Seq<char>, p: Seq<char>, i: int) -> bool {
    0 <= i && i + p.len() <= s.len() && s.subrange(i, i + p.len()) == p
}

/// `p` stands somewhere in `s`.
pub open spec fn contains_text(s: Seq<char>, p: Seq<char>) -> bool {
    exists|i: int| occurs_at(s, p, i)
}

/// Whether `pattern` stands somewhere in `s`.
pub fn contains(s: &str, pattern: &str) -> (res: bool)
    ensures
        res == contains_text(s@, pattern@),
{
    let v: Vec<char> = chars_of(s);
    let p: Vec<char> = chars_of(pattern);
    if p.len() > v.len() {
        return false;
    }
    let last: usize = v.len() - p.len();
    let mut i: usize = 0;
    while i <= last
        invariant
            i <= last + 1,
            last + p@.len() == v@.len(),
            v@.len() <= usize::MAX,
            v@ == s@,
            p@ == pattern@,
            forall|k: int| 0 <= k < i ==> !occurs_at(s@, pattern@, k),
        decreases last + 1 - i,
    {
        let mut j: usize = 0;
        while j < p.len() && v[i + j] == p[j]
            invariant
                j <= p@.len(),
                i <= last,
                last + p@.len() == v@.len(),
                v@.len() <= usize::MAX,
                forall|k: int| 0 <= k < j ==> v@[i + k] == p@[k],
            decreases p@.len() - j,
        {
            j += 1;
        }
        if j == p.len() {
            proof {
                assert(v@.subrange(i as int, i + p@.len()) =~= p@);
                assert(occurs_at(s@, pattern@, i as int));
            }
            return true;
        }
        proof {
            assert(v@.subrange(i as int, i + p@.len())[j as int] != p@[j as int]);
            assert(!occurs_at(s@, pattern@, i as int));
        }
        if i == last {
            return false;
        }
        i += 1;
    }
    false
}

// ---------------------------------------------------------------------------
// Order
// ---------------------------------------------------------------------------

/// `a` stands before `b` in the order of strings: at the first place where they
/// differ the smaller code point comes first, and a proper prefix comes before
/// the longer text.
pub open spec fn text_before(a: Seq<char>, b: Seq<char>) -> bool
    decreases a.len(),
{
    if b.len() == 0 {
        false
    } else if a.len() == 0 {
        true
    } else if a[0] != b[0] {
        a[0] < b[0]
    } else {
        text_before(a.subrange(1, a.len() as int), b.subrange(1, b.len() as int))
    }
}

/// Whether `a` stands before `b` in the order of strings.
pub fn comes_before(a: &str, b: &str) -> (res: bool)
    ensures
        res == text_before(a@, b@),
{
    let x: Vec<char> = chars_of(a);
    let y: Vec<char> = chars_of(b);
    let mut i: usize = 0;
    proof {
        assert(x@.subrange(0, x@.len() as int) =~= x@);
        assert(y@.subrange(0, y@.len() as int) =~= y@);
    }
    while i < x.len() && i < y.len() && x[i] == y[i]
        invariant
            i <= x@.len(),
            i <= y@.len(),
            x@ == a@,
            y@ == b@,
            text_before(a@, b@) == text_before(
                x@.subrange(i as int, x@.len() as int),
                y@.subrange(i as int, y@.len() as int),
            ),
        decreases x@.len() - i,
    {
        proof {
            let p = x@.subrange(i as int, x@.len() as int);
            let q = y@.subrange(i as int, y@.len() as int);
            assert(p.subrange(1, p.len() as int) =~= x@.subrange(i + 1, x@.len() as int));
            assert(q.subrange(1, q.len() as int) =~= y@.subrange(i + 1, y@.len() as int));
        }
        i += 1;
    }
    if i >= y.len() {
        false
    } else if i >= x.len() {
        true
    } else {
        x[i] < y[i]
    }
}

/// No text stands before itself.
pub proof fn lemma_text_before_irreflexive(a: Seq<char>)
    ensures
        !text_before(a, a),
    decreases a.len(),
{
    if a.len() > 0 {
        lemma_text_before_irreflexive(a.subrange(1, a.len() as int));
    }
}

/// The order of texts is transitive.
pub proof fn lemma_text_before_transitive(a: Seq<char>, b: Seq<char>, c: Seq<char>)
    requires
        text_before(a, b),
        text_before(b, c),
    ensures
        text_before(a, c),
    decreases a.len(),
{
    if a.len() > 0 && a[0] == b[0] && b[0] == c[0] {
        lemma_text_before_transitive(
            a.subrange(1, a.len() as int),
            b.subrange(1, b.len() as int),
            c.subrange(1, c.len() as int),
        );
    }
}

/// Of two different texts one stands before the other, and never both.
pub proof fn lemma_text_before_total(a: Seq<char>, b: Seq<char>)
    ensures
        text_before(a, b) || a == b || text_before(b, a),
        !(text_before(a, b) && text_before(b, a)),
    decreases a.len(),
{
    if a.len() > 0 && b.len() > 0 {
        let p = a.subrange(1, a.len() as int);
        let q = b.subrange(1, b.len() as int);
        lemma_text_before_total(p, q);
        if p == q && a[0] == b[0] {
            assert forall|i: int| 0 <= i < a.len() implies a[i] == b[i] by {
                if i > 0 {
                    assert(a[i] == p[i - 1]);
                    assert(b[i] == q[i - 1]);
                }
            }
            assert(a.len() == p.len() + 1);
            assert(b.len() == q.len() + 1);
            assert(a =~= b);
        }
    } else if a.len() == 0 && b.len() == 0 {
        assert(a =~= b);
    }
}

// ---------------------------------------------------------------------------
// Splitting and joining
// ---------------------------------------------------------------------------

/// The pieces of `s` between the occurrences of `sep`: always one more than
/// there are occurrences.
pub open spec fn pieces(s: Seq<char>, sep: char) -> Seq<Seq<char>>
    decreases s.len(),
{
    if s.len() == 0 {
        seq![Seq::empty()]
    } else if s.last() == sep {
        pieces(s.drop_last(), sep).push(Seq::empty())
    } else {
        let init = pieces(s.drop_last(), sep);
        init.update(init.len() - 1, init.last().push(s.last()))
    }
}

/// There is always at least one piece.
pub proof fn lemma_pieces_nonempty(s: Seq<char>, sep: char)
    ensures
        pieces(s, sep).len() >= 1,
    decreases s.len(),
{
    if s.len() > 0 {
        lemma_pieces_nonempty(s.drop_last(), sep);
    }
}

/// The texts in `v`, each by its view.
pub open spec fn views(v: Seq<String>) -> Seq<Seq<char>> {
    v.map_values(|t: String| t@)
}

/// The pieces of the text between the occurrences of `sep`.
pub fn split(s: &str, sep: char) -> (res: Vec<String>)
    ensures
        views(res@) == pieces(s@, sep),
{
    let v: Vec<char> = chars_of(s);
    let mut done: Vec<String> = Vec::new();
    let mut cur: String = String::new();
    let mut i: usize = 0;
    proof {
        assert(views(done@).push(cur@) =~= pieces(v@.take(0), sep));
    }
    while i < v.len()
        invariant
            i <= v@.len(),
            v@ == s@,
            views(done@).push(cur@) == pieces(v@.take(i as int), sep),
        decreases v@.len() - i,
    {
        let c: char = v[i];
        let ghost before = views(done@).push(cur@);
        let ghost prefix = v@.take(i + 1);
        proof {
            assert(prefix.drop_last() =~= v@.take(i as int));
            assert(prefix.last() == c);
        }
        if c == sep {
            done.push(cur);
            cur = String::new();
            proof {
                assert(views(done@) =~= before);
                assert(views(done@).push(cur@) =~= pieces(prefix, sep));
            }
        } else {
            cur.push(c);
            proof {
                assert(views(done@).push(cur@) =~= before.update(
                    before.len() - 1,
                    before.last().push(c),
                ));
            }
        }
        i += 1;
    }
    let ghost before = views(done@).push(cur@);
    proof {
        assert(v@.take(v@.len() as int) =~= v@);
    }
    done.push(cur);
    proof {
        assert(views(done@) =~= before);
    }
    done
}

/// The texts of `parts` one after the other, with `sep` between each two.
pub open spec fn joined(parts: Seq<Seq<char>>, sep: Seq<char>) -> Seq<char>
    decreases parts.len(),
{
    if parts.len() == 0 {
        Seq::empty()
    } else if parts.len() == 1 {
        parts[0]
    } else {
        joined(parts.drop_last(), sep) + sep + parts.last()
    }
}

/// The texts one after the other, with `sep` between each two.
pub fn join(parts: &Vec<String>, sep: &str) -> (res: String)
    ensures
        res@ == joined(views(parts@), sep@),
{
    let mut out: String = String::new();
    let mut i: usize = 0;
    while i < parts.len()
        invariant
            i <= parts@.len(),
            out@ == joined(views(parts@).take(i as int), sep@),
        decreases parts@.len() - i,
    {
        let ghost all = views(parts@);
        proof {
            assert(all.take(i + 1).drop_last() =~= all.take(i as int));
            assert(all.take(i + 1).last() == parts@[i as int]@);
        }
        if i > 0 {
            out.append(sep);
        }
        out.append(parts[i].as_str());
        proof {
            if i == 0 {
                assert(out@ =~= parts@[0]@);
            }
        }
        i += 1;
    }
    proof {
        assert(views(parts@).take(parts@.len() as int) =~= views(parts@));
    }
    out
}

/// `s` without the characters for which `drop` holds.
pub open spec fn without(s: Seq<char>, drop: spec_fn(char) -> bool) -> Seq<char>
    decreases s.len(),
{
    if s.len() == 0 {
        s
    } else if drop(s.last()) {
        without(s.drop_last(), drop)
    } else {
        without(s.drop_last(), drop).push(s.last())
    }
}

// ---------------------------------------------------------------------------
// Numbers
// ---------------------------------------------------------------------------

/// The decimal digit for `d`.
pub open spec fn digit_char(d: nat) -> char {
    (0x30 + d) as char
}

/// `n` in decimal, without leading zeros.
pub open spec fn decimal(n: nat) -> Seq<char>
    decreases n,
{
    if n < 10 {
        seq![digit_char(n)]
    } else {
        decimal(n / 10).push(digit_char(n % 10))
    }
}

fn digit_of(d: u64) -> (res: char)
    requires
        d < 10,
    ensures
        res == digit_char(d as nat),
{
    let b: u8 = 48 + d as u8;
    b as char
}

/// Appends `n` in decimal.
pub fn append_decimal(out: &mut String, n: u64)
    ensures
        final(out)@ == old(out)@ + decimal(n as nat),
    decreases n,
{
    if n >= 10 {
        append_decimal(out, n / 10);
    }
    out.push(digit_of(n % 10));
    proof {
        assert(out@ =~= old(out)@ + decimal(n as nat));
    }
}

/// `n` in decimal.
pub fn number_text(n: u64) -> (res: String)
    ensures
        res@ == decimal(n as nat),
{
    let mut out: String = String::new();
    append_decimal(&mut out, n);
    proof {
        assert(out@ =~= decimal(n as nat));
    }
    out
}

/// A decimal digit.
pub open spec fn is_digit(c: char) -> bool {
    '0' <= c <= '9'
}

/// Every character of `s` is a decimal digit.
pub open spec fn all_digits(s: Seq<char>) -> bool {
    forall|i: int| 0 <= i < s.len() ==> is_digit(#[trigger] s[i])
}

/// The number that a row of decimal digits stands for.
pub open spec fn digits_value(s: Seq<char>) -> nat
    decreases s.len(),
{
    if s.len() == 0 {
        0
    } else {
        digits_value(s.drop_last()) * 10 + (s.last() as nat - '0' as nat) as nat
    }
}

/// The digits of a number as `str::parse::<u64>` takes them: `s` without one
/// leading plus sign.
pub open spec fn unsigned_digits(s: Seq<char>) -> Seq<char> {
    if s.len() > 0 && s[0] == '+' {
        s.subrange(1, s.len() as int)
    } else {
        s
    }
}

/// The unsigned 64-bit number that `s` spells: an optional plus sign and at
/// least one digit, with a value that fits; otherwise nothing.
pub open spec fn parsed_u64(s: Seq<char>) -> Option<u64> {
    let d = unsigned_digits(s);
    if d.len() > 0 && all_digits(d) && digits_value(d) <= u64::MAX {
        Some(digits_value(d) as u64)
    } else {
        None
    }
}

proof fn lemma_digits_value_grows(s: Seq<char>, i: int)
    requires
        all_digits(s),
        0 <= i <= s.len(),
    ensures
        digits_value(s.take(i)) <= digits_value(s),
    decreases s.len(),
{
    if i < s.len() {
        lemma_digits_value_grows(s.drop_last(), i);
        assert(s.drop_last().take(i) =~= s.take(i));
    } else {
        assert(s.take(i) =~= s);
    }
}

/// The unsigned 64-bit number that the text spells, if it spells one.
pub fn parse_u64(s: &str) -> (res: Option<u64>)
    ensures
        res == parsed_u64(s@),
{
    let v: Vec<char> = chars_of(s);
    let start: usize = if v.len() > 0 && v[0] == '+' {
        1
    } else {
        0
    };
    let ghost d = unsigned_digits(s@);
    proof {
        assert(d =~= v@.subrange(start as int, v@.len() as int));
    }
    if start == v.len() {
        return None;
    }
    let mut acc: u64 = 0;
    let mut i: usize = start;
    proof {
        assert(d.take(0) =~= Seq::<char>::empty());
    }
    while i < v.len()
        invariant
            start <= i <= v@.len(),
            d == v@.subrange(start as int, v@.len() as int),
            d == unsigned_digits(s@),
            all_digits(d.take(i - start)),
            acc == digits_value(d.take(i - start)),
        decreases v@.len() - i,
    {
        let c: char = v[i];
        let ghost k = i - start;
        proof {
            assert(d[k] == c);
            assert(d.take(k + 1).drop_last() =~= d.take(k));
            assert(d.take(k + 1).last() == c);
        }
        if !('0' <= c && c <= '9') {
            return None;
        }
        proof {
            assert forall|j: int| 0 <= j < k + 1 implies is_digit(#[trigger] d.take(k + 1)[j]) by {
                if j < k {
                    assert(d.take(k)[j] == d.take(k + 1)[j]);
                }
            }
        }
        let x: u64 = (c as u32 - 48) as u64;
        let wide: u128 = acc as u128 * 10 + x as u128;
        if wide > u64::MAX as u128 {
            proof {
                if all_digits(d) {
                    lemma_digits_value_grows(d, k + 1);
                }
            }
            return None;
        }
        acc = wide as u64;
        i += 1;
    }
    proof {
        assert(d.take(d.len() as int) =~= d);
    }
    Some(acc)
}

// ---------------------------------------------------------------------------
// Laws
// ---------------------------------------------------------------------------

/// What counts as white space: the blanks and line ends of ASCII and the spaces of
/// other scripts do, and nothing that prints in ASCII does.
pub proof fn law_white_space_of_common_characters(c: char)
    ensures
        (c as u32) < 0x80 ==> (white_space(c) <==> c == ' ' || 0x09 <= c as u32 <= 0x0d),
        c as u32 == 0x85 || c as u32 == 0xa0 || c as u32 == 0x1680 || c as u32 == 0x3000
            ==> white_space(c),
        0x2000 <= c as u32 <= 0x200a ==> white_space(c),
        c as u32 == 0x2028 || c as u32 == 0x2029 || c as u32 == 0x202f || c as u32 == 0x205f
            ==> white_space(c),
        white_space(c) ==> c as u32 <= 0x20 || c as u32 == 0x85 || c as u32 == 0xa0 || c as u32
            == 0x1680 || 0x2000 <= c as u32 <= 0x200a || 0x2028 <= c as u32 <= 0x2029 || c as u32
            == 0x202f || c as u32 == 0x205f || c as u32 == 0x3000,
{
}

/// Of ASCII text, small letters are the letters thirty-two places on and capitals
/// those thirty-two places back; nothing else changes.
pub proof fn law_case_of_ascii(s: Seq<char>, i: int)
    requires
        all_ascii(s),
        0 <= i < s.len(),
    ensures
        unicode_lower(s).len() == s.len(),
        unicode_upper(s).len() == s.len(),
        'A' <= s[i] <= 'Z' ==> unicode_lower(s)[i] as u32 == s[i] as u32 + 32,
        !('A' <= s[i] <= 'Z') ==> unicode_lower(s)[i] == s[i],
        'a' <= s[i] <= 'z' ==> unicode_upper(s)[i] as u32 == s[i] as u32 - 32,
        !('a' <= s[i] <= 'z') ==> unicode_upper(s)[i] == s[i],
{
}

/// Beyond ASCII, changing the case is what std makes of the text as a whole.
pub proof fn law_case_beyond_ascii(s: Seq<char>)
    requires
        exists|i: int| 0 <= i < s.len() && (#[trigger] s[i] as u32) >= 0x80,
    ensures
        unicode_lower(s) == lower_beyond_ascii(s),
        unicode_upper(s) == upper_beyond_ascii(s),
{
}

/// Trimming takes away all white space around a text and nothing else.
pub proof fn law_trimmed_exact(before: Seq<char>, w: Seq<char>, after: Seq<char>)
    requires
        forall|i: int| 0 <= i < before.len() ==> white_space(#[trigger] before[i]),
        forall|i: int| 0 <= i < after.len() ==> white_space(#[trigger] after[i]),
        w.len() > 0 ==> !white_space(w[0]) && !white_space(w.last()),
    ensures
        trimmed(before + w + after) == w,
{
    lemma_trimmed_surrounded(before, w, after);
    if w.len() > 0 {
        lemma_trimmed_tight(w);
    } else {
        assert(trimmed(w) =~= w);
    }
}

/// A text is blank exactly if all of it is white space.
pub proof fn law_blank_exact(s: Seq<char>)
    ensures
        blank(s) <==> forall|i: int| 0 <= i < s.len() ==> white_space(#[trigger] s[i]),
{
    if all_white(s) {
        let none = Seq::<char>::empty();
        assert(s + none + none =~= s);
        lemma_trimmed_surrounded(s, none, none);
        assert(trimmed(none) =~= none);
    } else {
        let i = choose|i: int| 0 <= i < s.len() && !white_space(#[trigger] s[i]);
        lemma_trimmed_start_shape(s);
        lemma_trimmed_start_stops(s, i);
        let t = trimmed_start(s);
        assert(t[i - (s.len() - t.len())] == s[i]);
        lemma_trimmed_end_stops(t, i - (s.len() - t.len()));
    }
}

proof fn lemma_trimmed_start_stops(s: Seq<char>, i: int)
    requires
        0 <= i < s.len(),
        !white_space(s[i]),
    ensures
        trimmed_start(s).len() >= s.len() - i,
    decreases s.len(),
{
    if white_space(s[0]) {
        let t = s.subrange(1, s.len() as int);
        assert(t[i - 1] == s[i]);
        lemma_trimmed_start_stops(t, i - 1);
    }
}

proof fn lemma_trimmed_end_stops(s: Seq<char>, i: int)
    requires
        0 <= i < s.len(),
        !white_space(s[i]),
    ensures
        trimmed_end(s).len() > i,
    decreases s.len(),
{
    if white_space(s.last()) {
        assert(s.drop_last()[i] == s[i]);
        lemma_trimmed_end_stops(s.drop_last(), i);
    }
}

/// A text holds exactly what can be cut out of it in one piece.
pub proof fn law_contains_exact(before: Seq<char>, p: Seq<char>, after: Seq<char>, s: Seq<char>)
    ensures
        contains_text(before + p + after, p),
        contains_text(s, p) ==> exists|a: Seq<char>, b: Seq<char>| s == #[trigger] (a + p + b),
{
    let whole = before + p + after;
    assert(whole.subrange(before.len() as int, (before.len() + p.len()) as int) =~= p);
    assert(occurs_at(whole, p, before.len() as int));
    if contains_text(s, p) {
        let i = choose|i: int| occurs_at(s, p, i);
        let a = s.take(i);
        let b = s.subrange(i + p.len(), s.len() as int);
        assert(s =~= a + p + b);
    }
}

/// Texts are ordered by the first character in which they differ, and a text comes
/// before every longer one that starts with it.
pub proof fn law_text_order(
    common: Seq<char>,
    x: char,
    rest: Seq<char>,
    y: char,
    other: Seq<char>,
)
    ensures
        text_before(common, common.push(x) + rest),
        !text_before(common.push(x) + rest, common),
        x != y ==> (text_before(common.push(x) + rest, common.push(y) + other) <==> x < y),
    decreases common.len(),
{
    let a = common.push(x) + rest;
    let b = common.push(y) + other;
    if common.len() == 0 {
        assert(a[0] == x && b[0] == y);
    } else {
        let shorter = common.subrange(1, common.len() as int);
        law_text_order(shorter, x, rest, y, other);
        assert(a.subrange(1, a.len() as int) =~= shorter.push(x) + rest);
        assert(b.subrange(1, b.len() as int) =~= shorter.push(y) + other);
        assert(a[0] == common[0] && b[0] == common[0]);
    }
}

/// The pieces of a text hold no separator, and with the separator between them they
/// are the text again.
pub proof fn law_pieces_exact(s: Seq<char>, sep: char)
    ensures
        joined(pieces(s, sep), seq![sep]) == s,
        forall|i: int| 0 <= i < pieces(s, sep).len() ==> !(#[trigger] pieces(s, sep)[i]).contains(sep),
        pieces(s, sep).len() >= 1,
    decreases s.len(),
{
    let ps = pieces(s, sep);
    if s.len() == 0 {
        assert(ps[0] =~= Seq::<char>::empty());
        assert(joined(ps, seq![sep]) =~= s);
    } else {
        let init = pieces(s.drop_last(), sep);
        law_pieces_exact(s.drop_last(), sep);
        if s.last() == sep {
            assert(ps.drop_last() =~= init);
            assert(joined(ps, seq![sep]) =~= s.drop_last() + seq![sep]);
            assert(s =~= s.drop_last() + seq![sep]);
        } else {
            let last = init.last().push(s.last());
            assert(ps.last() == last);
            assert forall|i: int| 0 <= i < ps.len() implies !(#[trigger] ps[i]).contains(sep) by {
                assert(!init[i].contains(sep));
                if i == ps.len() - 1 {
                    assert forall|k: int| 0 <= k < last.len() implies last[k] != sep by {
                        if k < last.len() - 1 {
                            assert(init.last()[k] == last[k]);
                            assert(init.last().contains(last[k]));
                        }
                    }
                }
            }
            assert(ps.drop_last() =~= init.drop_last());
            if ps.len() == 1 {
                assert(joined(ps, seq![sep]) =~= s);
            } else {
                assert(joined(ps, seq![sep]) =~= (joined(init.drop_last(), seq![sep]) + seq![sep]
                    + init.last()).push(s.last()));
                assert(s =~= s.drop_last().push(s.last()));
            }
        }
    }
}

/// Texts that hold no separator are the pieces of what joining them with it gives.
pub proof fn law_joined_splits(parts: Seq<Seq<char>>, sep: char)
    requires
        parts.len() > 0,
        forall|i: int| 0 <= i < parts.len() ==> !(#[trigger] parts[i]).contains(sep),
    ensures
        pieces(joined(parts, seq![sep]), sep) == parts,
    decreases parts.len(),
{
    let whole = joined(parts, seq![sep]);
    let none = Seq::<char>::empty();
    if parts.len() == 1 {
        lemma_pieces_grow(none, sep, parts[0]);
        assert(none + parts[0] =~= whole);
        assert(pieces(whole, sep) =~= parts);
    } else {
        let init = joined(parts.drop_last(), seq![sep]);
        law_joined_splits(parts.drop_last(), sep);
        let with_sep = init + seq![sep];
        assert(with_sep.drop_last() =~= init);
        assert(pieces(with_sep, sep) == parts.drop_last().push(none));
        lemma_pieces_grow(with_sep, sep, parts.last());
        assert(none + parts.last() =~= parts.last());
        assert(pieces(whole, sep) =~= parts);
    }
}

/// Characters that hold no separator lengthen the last piece.
pub proof fn lemma_pieces_grow(s: Seq<char>, sep: char, t: Seq<char>)
    requires
        !t.contains(sep),
    ensures
        pieces(s, sep).len() >= 1,
        pieces(s + t, sep) == pieces(s, sep).update(
            pieces(s, sep).len() - 1,
            pieces(s, sep).last() + t,
        ),
    decreases t.len(),
{
    lemma_pieces_nonempty(s, sep);
    let ps = pieces(s, sep);
    if t.len() == 0 {
        assert(s + t =~= s);
        assert(ps.last() + t =~= ps.last());
        assert(ps.update(ps.len() - 1, ps.last()) =~= ps);
    } else {
        let shorter = t.drop_last();
        assert(t.contains(t[t.len() - 1]));
        assert forall|k: int| 0 <= k < shorter.len() implies shorter[k] != sep by {
            assert(t.contains(t[k]));
        }
        lemma_pieces_grow(s, sep, shorter);
        assert((s + t).drop_last() =~= s + shorter);
        assert((s + t).last() == t.last());
        assert((ps.last() + shorter).push(t.last()) =~= ps.last() + t);
        assert(pieces(s + t, sep) =~= ps.update(ps.len() - 1, ps.last() + t));
    }
}

/// Joining puts the separator between the parts and nothing at the ends.
pub proof fn law_joined_exact(parts: Seq<Seq<char>>, part: Seq<char>, sep: Seq<char>)
    ensures
        joined(Seq::<Seq<char>>::empty(), sep) == Seq::<char>::empty(),
        joined(seq![part], sep) == part,
        parts.len() > 0 ==> joined(parts.push(part), sep) == joined(parts, sep) + sep + part,
{
    assert(parts.push(part).drop_last() =~= parts);
}

/// Leaving characters out keeps all others, in their order.
pub proof fn law_without_exact(s: Seq<char>, drop: spec_fn(char) -> bool)
    ensures
        without(s, drop) == s.filter(|c: char| !drop(c)),
    decreases s.len(),
{
    reveal(Seq::filter);
    if s.len() > 0 {
        law_without_exact(s.drop_last(), drop);
    }
}

/// A digit stands for its place after zero, and each further digit weighs a tenth of
/// the one before it.
pub proof fn law_digits_weigh_tens(s: Seq<char>, d: nat)
    requires
        d < 10,
    ensures
        digits_value(Seq::<char>::empty()) == 0,
        digits_value(s.push((0x30 + d) as char)) == digits_value(s) * 10 + d,
{
    assert(s.push((0x30 + d) as char).drop_last() =~= s);
}

/// A number written out is made of digits, has no zero in front, and reads back as
/// the number.
pub proof fn law_decimal_exact(n: nat)
    ensures
        decimal(n).len() > 0,
        forall|i: int| 0 <= i < decimal(n).len() ==> '0' <= #[trigger] decimal(n)[i] <= '9',
        n > 0 ==> decimal(n)[0] != '0',
        n < 10 ==> decimal(n).len() == 1,
        digits_value(decimal(n)) == n,
    decreases n,
{
    let t = decimal(n);
    if n < 10 {
        assert(t.drop_last() =~= Seq::<char>::empty());
        law_digits_weigh_tens(Seq::empty(), n);
        assert(t =~= Seq::<char>::empty().push((0x30 + n) as char));
    } else {
        law_decimal_exact(n / 10);
        law_digits_weigh_tens(decimal(n / 10), n % 10);
        assert(t.drop_last() =~= decimal(n / 10));
        assert forall|i: int| 0 <= i < t.len() implies '0' <= #[trigger] t[i] <= '9' by {
            if i < t.len() - 1 {
                assert(t[i] == decimal(n / 10)[i]);
            }
        }
        assert(t[0] == decimal(n / 10)[0]);
    }
}

/// Parsing reads back every number that can be held, with or without a plus sign,
/// and refuses what is no row of digits or stands for too large a number.
pub proof fn law_parsed_exact(n: nat, s: Seq<char>)
    ensures
        n <= u64::MAX ==> parsed_u64(decimal(n)) == Some(n as u64),
        n <= u64::MAX ==> parsed_u64(seq!['+'] + decimal(n)) == Some(n as u64),
        n > u64::MAX ==> parsed_u64(decimal(n)) is None,
        parsed_u64(Seq::<char>::empty()) is None,
        parsed_u64(seq!['+']) is None,
        (exists|i: int| 0 < i < s.len() && !('0' <= #[trigger] s[i] <= '9')) ==> parsed_u64(
            s,
        ) is None,
        s.len() > 0 && s[0] != '+' && !('0' <= s[0] <= '9') ==> parsed_u64(s) is None,
        parsed_u64(s) matches Some(v) ==> digits_value(s) == v || (s[0] == '+' && digits_value(
            s.subrange(1, s.len() as int),
        ) == v),
{
    law_decimal_exact(n);
    let t = decimal(n);
    assert(t[0] != '+');
    let p = seq!['+'] + t;
    assert(p.subrange(1, p.len() as int) =~= t);
    assert(seq!['+'].subrange(1, 1).len() == 0);
    if exists|i: int| 0 < i < s.len() && !('0' <= #[trigger] s[i] <= '9') {
        let i = choose|i: int| 0 < i < s.len() && !('0' <= #[trigger] s[i] <= '9');
        let d = unsigned_digits(s);
        if s[0] == '+' {
            assert(d[i - 1] == s[i]);
        }
    }
}

/// Every printing character of a text is still there when it is trimmed.
pub proof fn lemma_trimmed_keeps(s: Seq<char>, i: int)
    requires
        0 <= i < s.len(),
        !white_space(s[i]),
    ensures
        exists|k: int| 0 <= k < trimmed(s).len() && #[trigger] trimmed(s)[k] == s[i],
{
    lemma_trimmed_start_shape(s);
    lemma_trimmed_start_stops(s, i);
    let t = trimmed_start(s);
    let k = i - (s.len() - t.len());
    assert(t[k] == s[i]);
    lemma_trimmed_end_shape(t);
    lemma_trimmed_end_stops(t, k);
    assert(trimmed(s)[k] == t[k]);
}

/// Trimming adds no character.
pub proof fn lemma_trimmed_holds(s: Seq<char>, k: int)
    requires
        0 <= k < trimmed(s).len(),
    ensures
        exists|i: int| 0 <= i < s.len() && #[trigger] s[i] == trimmed(s)[k],
{
    lemma_trimmed_start_shape(s);
    let t = trimmed_start(s);
    lemma_trimmed_end_shape(t);
    assert(t[k] == trimmed(s)[k]);
    assert(s[k + (s.len() - t.len())] == t[k]);
}

/// Every row of digits whose number can be held is read as that number, zeros in front
/// or not.
pub proof fn law_digits_parsed(s: Seq<char>)
    requires
        s.len() > 0,
        forall|i: int| 0 <= i < s.len() ==> '0' <= #[trigger] s[i] <= '9',
    ensures
        digits_value(s) <= u64::MAX ==> parsed_u64(s) == Some(digits_value(s) as u64),
        digits_value(s) > u64::MAX ==> parsed_u64(s) is None,
{
    assert('0' <= s[0] <= '9');
}

} // verus!

//! Random passwords and the strength meter.
use crate::text::chars_of;
use rand::Rng;
use vstd::prelude::*;
use vstd::utf8::encode_utf8;

verus! {

// ---------------------------------------------------------------------------
// Character sets
// ---------------------------------------------------------------------------

/// The small letters, which every password may hold.
pub const LOWER: &'static str = "abcdefghijklmnopqrstuvwxyz";

/// The capital letters.
pub const UPPER: &'static str = "ABCDEFGHIJKLMNOPQRSTUVWXYZ";

/// The digits.
pub const DIGITS: &'static str = "0123456789";

/// The symbols.
pub const SYMBOLS: &'static str = "!@#$%^&*()-_=+[]{}|;:,.<>?";

/// The characters a password is drawn from.
pub open spec fn charset(upper: bool, nums: bool, syms: bool) -> Seq<char> {
    LOWER@ + (if upper {
        UPPER@
    } else {
        Seq::empty()
    }) + (if nums {
        DIGITS@
    } else {
        Seq::empty()
    }) + (if syms {
        SYMBOLS@
    } else {
        Seq::empty()
    })
}

/// The characters a password is drawn from, as a list.
pub fn charset_chars(upper: bool, nums: bool, syms: bool) -> (res: Vec<char>)
    ensures
        res@ == charset(upper, nums, syms),
        res@.len() >= 26,
{
    let mut set: Vec<char> = chars_of(LOWER);
    proof {
        reveal_strlit("abcdefghijklmnopqrstuvwxyz");
    }
    if upper {
        let mut more: Vec<char> = chars_of(UPPER);
        set.append(&mut more);
    }
    if nums {
        let mut more: Vec<char> = chars_of(DIGITS);
        set.append(&mut more);
    }
    if syms {
        let mut more: Vec<char> = chars_of(SYMBOLS);
        set.append(&mut more);
    }
    proof {
        assert(set@ =~= charset(upper, nums, syms));
    }
    set
}

// ---------------------------------------------------------------------------
// Generation
// ---------------------------------------------------------------------------

/// `Rng::gen_range` of the crate `rand` on `thread_rng`, over the range from zero
/// up to `n`: some number below `n`. An empty range makes it panic, and so does an
/// operating system that has no randomness to give.
#[verifier::external_body]
pub(crate) fn random_index(n: usize) -> (res: usize)
    requires
        n > 0,
    ensures
        res < n,
{
    rand::thread_rng().gen_range(0..n)
}

/// The password whose characters stand at the given places of the character set.
pub open spec fn password_at(set: Seq<char>, places: Seq<usize>) -> Seq<char> {
    Seq::new(places.len(), |i: int| set[places[i] as int])
}

/// The password whose characters stand at the given places of the character set.
pub fn password_from_places(set: &Vec<char>, places: &Vec<usize>) -> (res: String)
    requires
        forall|i: int| 0 <= i < places@.len() ==> #[trigger] places@[i] < set@.len(),
    ensures
        res@ == password_at(set@, places@),
        res@.len() == places@.len(),
        forall|i: int| 0 <= i < places@.len() ==> #[trigger] res@[i] == set@[places@[i] as int],
{
    let mut out: String = String::new();
    let mut i: usize = 0;
    while i < places.len()
        invariant
            i <= places@.len(),
            forall|k: int| 0 <= k < places@.len() ==> #[trigger] places@[k] < set@.len(),
            out@ == password_at(set@, places@).take(i as int),
        decreases places@.len() - i,
    {
        out.push(set[places[i]]);
        i += 1;
        proof {
            assert(out@ =~= password_at(set@, places@).take(i as int));
        }
    }
    proof {
        assert(password_at(set@, places@).take(i as int) =~= password_at(set@, places@));
    }
    out
}

/// `t` is a password of `length` characters drawn from `set`.
pub open spec fn drawn_from(t: Seq<char>, length: nat, set: Seq<char>) -> bool {
    t.len() == length && forall|i: int| 0 <= i < t.len() ==> set.contains(#[trigger] t[i])
}

/// A random password of the given length over the chosen character sets.
pub fn generate_password(length: usize, upper: bool, nums: bool, syms: bool) -> (res: String)
    ensures
        drawn_from(res@, length as nat, charset(upper, nums, syms)),
{
    let set: Vec<char> = charset_chars(upper, nums, syms);
    let mut places: Vec<usize> = Vec::new();
    let mut i: usize = 0;
    while i < length
        invariant
            i <= length,
            places@.len() == i,
            set@.len() >= 26,
            forall|k: int| 0 <= k < places@.len() ==> #[trigger] places@[k] < set@.len(),
        decreases length - i,
    {
        places.push(random_index(set.len()));
        i += 1;
    }
    let res: String = password_from_places(&set, &places);
    proof {
        assert forall|k: int| 0 <= k < res@.len() implies set@.contains(#[trigger] res@[k]) by {
            assert(res@[k] == set@[places@[k] as int]);
        }
    }
    res
}

// ---------------------------------------------------------------------------
// Strength
// ---------------------------------------------------------------------------

/// Whether `char::is_uppercase` of std holds of a character beyond ASCII.
pub uninterp spec fn uppercase_beyond_ascii(c: char) -> bool;

/// Whether `char::is_alphanumeric` of std holds of a character beyond ASCII.
pub uninterp spec fn alphanumeric_beyond_ascii(c: char) -> bool;

/// A capital letter.
pub open spec fn unicode_uppercase(c: char) -> bool {
    if (c as u32) < 128 {
        'A' <= c <= 'Z'
    } else {
        uppercase_beyond_ascii(c)
    }
}

/// A letter or a digit.
pub open spec fn unicode_alphanumeric(c: char) -> bool {
    if (c as u32) < 128 {
        'A' <= c <= 'Z' || 'a' <= c <= 'z' || '0' <= c <= '9'
    } else {
        alphanumeric_beyond_ascii(c)
    }
}

/// `char::is_uppercase` of std: of the ASCII characters it holds of `A`–`Z`, and of
/// the others it is a function of the character.
#[verifier::external_body]
pub(crate) fn char_is_uppercase(c: char) -> (res: bool)
    ensures
        (c as u32) < 128 ==> res == ('A' <= c <= 'Z'),
        (c as u32) >= 128 ==> res == uppercase_beyond_ascii(c),
{
    c.is_uppercase()
}

/// `char::is_alphanumeric` of std: of the ASCII characters it holds of letters and
/// digits, and of the others it is a function of the character.
#[verifier::external_body]
pub(crate) fn char_is_alphanumeric(c: char) -> (res: bool)
    ensures
        (c as u32) < 128 ==> res == ('A' <= c <= 'Z' || 'a' <= c <= 'z' || '0' <= c <= '9'),
        (c as u32) >= 128 ==> res == alphanumeric_beyond_ascii(c),
{
    c.is_alphanumeric()
}

/// Some character of `t` is a capital letter.
pub open spec fn has_upper(t: Seq<char>) -> bool {
    exists|i: int| 0 <= i < t.len() && unicode_uppercase(#[trigger] t[i])
}

/// Some character of `t` is an ASCII digit.
pub open spec fn has_digit(t: Seq<char>) -> bool {
    exists|i: int| 0 <= i < t.len() && '0' <= #[trigger] t[i] <= '9'
}

/// Some character of `t` is neither a letter nor a digit.
pub open spec fn has_symbol(t: Seq<char>) -> bool {
    exists|i: int| 0 <= i < t.len() && !unicode_alphanumeric(#[trigger] t[i])
}

/// One point for each of: twelve, sixteen and twenty bytes, a capital letter, a
/// digit, a symbol.
pub open spec fn strength_points(bytes: nat, upper: bool, digit: bool, symbol: bool) -> nat {
    (if bytes >= 12 {
        1nat
    } else {
        0
    }) + (if bytes >= 16 {
        1nat
    } else {
        0
    }) + (if bytes >= 20 {
        1nat
    } else {
        0
    }) + (if upper {
        1nat
    } else {
        0
    }) + (if digit {
        1nat
    } else {
        0
    }) + (if symbol {
        1nat
    } else {
        0
    })
}

/// How a password is rated.
#[derive(Clone, Copy, Debug, PartialEq, Eq, Structural)]
pub enum Strength {
    Weak,
    Fair,
    Strong,
    VeryStrong,
}

/// The rating for a number of points.
pub open spec fn rating(points: nat) -> Strength {
    if points <= 2 {
        Strength::Weak
    } else if points <= 4 {
        Strength::Fair
    } else if points == 5 {
        Strength::Strong
    } else {
        Strength::VeryStrong
    }
}

/// The rating for a number of points.
pub fn rate_points(points: u8) -> (res: Strength)
    ensures
        res == rating(points as nat),
{
    if points <= 2 {
        Strength::Weak
    } else if points <= 4 {
        Strength::Fair
    } else if points == 5 {
        Strength::Strong
    } else {
        Strength::VeryStrong
    }
}

/// The points for a password of so many bytes with these kinds of characters.
pub fn count_points(bytes: usize, upper: bool, digit: bool, symbol: bool) -> (res: u8)
    ensures
        res == strength_points(bytes as nat, upper, digit, symbol),
        res <= 6,
{
    let mut points: u8 = 0;
    if bytes >= 12 {
        points += 1;
    }
    if bytes >= 16 {
        points += 1;
    }
    if bytes >= 20 {
        points += 1;
    }
    if upper {
        points += 1;
    }
    if digit {
        points += 1;
    }
    if symbol {
        points += 1;
    }
    points
}

/// Rates a password by its length and the kinds of characters it holds.
pub fn password_strength(password: &str) -> (res: Strength)
    ensures
        res == rating(
            strength_points(
                encode_utf8(password@).len(),
                has_upper(password@),
                has_digit(password@),
                has_symbol(password@),
            ),
        ),
{
    let v: Vec<char> = chars_of(password);
    let mut upper: bool = false;
    let mut digit: bool = false;
    let mut symbol: bool = false;
    let mut i: usize = 0;
    while i < v.len()
        invariant
            i <= v@.len(),
            upper <==> exists|k: int| 0 <= k < i && unicode_uppercase(#[trigger] v@[k]),
            digit <==> exists|k: int| 0 <= k < i && '0' <= #[trigger] v@[k] <= '9',
            symbol <==> exists|k: int| 0 <= k < i && !unicode_alphanumeric(#[trigger] v@[k]),
        decreases v@.len() - i,
    {
        let c: char = v[i];
        if char_is_uppercase(c) {
            upper = true;
        }
        if '0' <= c && c <= '9' {
            digit = true;
        }
        if !char_is_alphanumeric(c) {
            symbol = true;
        }
        i += 1;
    }
    rate_points(count_points(password.as_bytes().len(), upper, digit, symbol))
}

/// What is shown for a rating.
pub open spec fn strength_text(s: Strength) -> Seq<char> {
    match s {
        Strength::Weak => "Weak"@,
        Strength::Fair => "Fair"@,
        Strength::Strong => "Strong"@,
        Strength::VeryStrong => "Very Strong"@,
    }
}

/// What is shown for a rating.
pub fn strength_label(s: Strength) -> (res: String)
    ensures
        res@ == strength_text(s),
        s is Weak ==> res@ == "Weak"@,
        s is Fair ==> res@ == "Fair"@,
        s is Strong ==> res@ == "Strong"@,
        s is VeryStrong ==> res@ == "Very Strong"@,
{
    match s {
        Strength::Weak => "Weak".to_string(),
        Strength::Fair => "Fair".to_string(),
        Strength::Strong => "Strong".to_string(),
        Strength::VeryStrong => "Very Strong".to_string(),
    }
}

// ---------------------------------------------------------------------------
// The generator page
// ---------------------------------------------------------------------------

/// What the generator page shows and remembers.
pub struct GeneratorPage {
    pub length: u32,
    pub result: String,
    pub use_upper: bool,
    pub use_nums: bool,
    pub use_syms: bool,
}

impl GeneratorPage {
    /// A page that starts from the user's preferences and shows no password yet.
    pub fn new(length: u32, use_upper: bool, use_nums: bool, use_syms: bool) -> (res: Self)
        ensures
            res.length == length,
            res.result@ == Seq::<char>::empty(),
            res.use_upper == use_upper,
            res.use_nums == use_nums,
            res.use_syms == use_syms,
    {
        GeneratorPage { length, result: String::new(), use_upper, use_nums, use_syms }
    }

    /// A password is due: it was asked for, or an option changed while one was shown.
    pub open spec fn due(&self, clicked: bool, changed: bool) -> bool {
        clicked || (changed && self.result@.len() > 0)
    }

    /// Draws a new password if one is due.
    pub fn refresh(&mut self, clicked: bool, changed: bool)
        ensures
            final(self).length == old(self).length,
            final(self).use_upper == old(self).use_upper,
            final(self).use_nums == old(self).use_nums,
            final(self).use_syms == old(self).use_syms,
            !clicked && !(changed && old(self).result@.len() > 0) ==> final(self).result@
                == old(self).result@,
            clicked || (changed && old(self).result@.len() > 0) ==> drawn_from(
                final(self).result@,
                old(self).length as nat,
                charset(old(self).use_upper, old(self).use_nums, old(self).use_syms),
            ),
            if old(self).due(clicked, changed) {
                drawn_from(
                    final(self).result@,
                    old(self).length as nat,
                    charset(old(self).use_upper, old(self).use_nums, old(self).use_syms),
                )
            } else {
                final(self).result@ == old(self).result@
            },
    {
        if clicked || (changed && !self.result.as_str().is_empty()) {
            self.result = generate_password(
                self.length as usize,
                self.use_upper,
                self.use_nums,
                self.use_syms,
            );
        }
    }
}

// ---------------------------------------------------------------------------
// Laws
// ---------------------------------------------------------------------------

/// Whatever is chosen, there is something to draw from, and every further choice
/// only adds characters.
pub proof fn law_charset_grows(upper: bool, nums: bool, syms: bool, c: char)
    requires
        charset(false, false, false).contains(c) || (upper && UPPER@.contains(c)) || (nums
            && DIGITS@.contains(c)) || (syms && SYMBOLS@.contains(c)),
    ensures
        charset(upper, nums, syms).len() >= 26,
        charset(upper, nums, syms).contains(c),
{
    reveal_strlit("abcdefghijklmnopqrstuvwxyz");
    let set = charset(upper, nums, syms);
    let base = charset(false, false, false);
    assert(base =~= LOWER@);
    let u = if upper {
        UPPER@
    } else {
        Seq::empty()
    };
    let n = if nums {
        DIGITS@
    } else {
        Seq::empty()
    };
    if base.contains(c) {
        let i = choose|i: int| 0 <= i < base.len() && base[i] == c;
        assert(set[i] == c);
    } else if upper && UPPER@.contains(c) {
        let i = choose|i: int| 0 <= i < UPPER@.len() && UPPER@[i] == c;
        assert(set[LOWER@.len() + i] == c);
    } else if nums && DIGITS@.contains(c) {
        let i = choose|i: int| 0 <= i < DIGITS@.len() && DIGITS@[i] == c;
        assert(set[LOWER@.len() + u.len() + i] == c);
    } else {
        let i = choose|i: int| 0 <= i < SYMBOLS@.len() && SYMBOLS@[i] == c;
        assert(set[LOWER@.len() + u.len() + n.len() + i] == c);
    }
}

/// No character is drawn from the sets that were not chosen.
pub proof fn law_charset_only_chosen(upper: bool, nums: bool, syms: bool, c: char)
    requires
        charset(upper, nums, syms).contains(c),
    ensures
        LOWER@.contains(c) || (upper && UPPER@.contains(c)) || (nums && DIGITS@.contains(c)) || (
        syms && SYMBOLS@.contains(c)),
{
    let set = charset(upper, nums, syms);
    let u = if upper {
        UPPER@
    } else {
        Seq::empty()
    };
    let n = if nums {
        DIGITS@
    } else {
        Seq::empty()
    };
    let i = choose|i: int| 0 <= i < set.len() && set[i] == c;
    let a = LOWER@.len() as int;
    let b = a + u.len();
    let d = b + n.len();
    if i < a {
        assert(LOWER@[i] == c);
    } else if i < b {
        assert(UPPER@[i - a] == c);
    } else if i < d {
        assert(DIGITS@[i - b] == c);
    } else {
        assert(SYMBOLS@[i - d] == c);
    }
}

/// A longer password, or one with more kinds of characters, never scores less.
pub proof fn law_points_monotone(
    bytes: nat,
    more: nat,
    upper: bool,
    digit: bool,
    symbol: bool,
)
    requires
        bytes <= more,
    ensures
        strength_points(bytes, upper, digit, symbol) <= strength_points(more, upper, digit, symbol),
        strength_points(bytes, upper, digit, symbol) <= strength_points(bytes, true, digit, symbol),
        strength_points(bytes, upper, digit, symbol) <= strength_points(bytes, upper, true, symbol),
        strength_points(bytes, upper, digit, symbol) <= strength_points(bytes, upper, digit, true),
        strength_points(bytes, upper, digit, symbol) <= 6,
{
}

/// The characters to draw from are the small letters and, as far as chosen, the
/// capitals, the digits and the symbols; each of them once.
pub proof fn law_charset_exact(upper: bool, nums: bool, syms: bool, c: char)
    ensures
        charset(upper, nums, syms).contains(c) <==> {
            ||| 'a' <= c <= 'z'
            ||| upper && 'A' <= c <= 'Z'
            ||| nums && '0' <= c <= '9'
            ||| syms && "!@#$%^&*()-_=+[]{}|;:,.<>?"@.contains(c)
        },
        charset(upper, nums, syms).len() == 26 + (if upper {
            26int
        } else {
            0
        }) + (if nums {
            10int
        } else {
            0
        }) + (if syms {
            26int
        } else {
            0
        }),
{
    reveal_strlit("abcdefghijklmnopqrstuvwxyz");
    reveal_strlit("ABCDEFGHIJKLMNOPQRSTUVWXYZ");
    reveal_strlit("0123456789");
    reveal_strlit("!@#$%^&*()-_=+[]{}|;:,.<>?");
    if 'a' <= c <= 'z' {
        assert(LOWER@[c as int - 'a' as int] == c);
        law_charset_grows(upper, nums, syms, c);
    }
    if upper && 'A' <= c <= 'Z' {
        assert(UPPER@[c as int - 'A' as int] == c);
        law_charset_grows(upper, nums, syms, c);
    }
    if nums && '0' <= c <= '9' {
        assert(DIGITS@[c as int - '0' as int] == c);
        law_charset_grows(upper, nums, syms, c);
    }
    if syms && SYMBOLS@.contains(c) {
        law_charset_grows(upper, nums, syms, c);
    }
    if charset(upper, nums, syms).contains(c) {
        law_charset_only_chosen(upper, nums, syms, c);
    }
}

/// A password is as long as asked for, and every character of it is a small letter or
/// of a chosen kind.
pub proof fn law_drawn_password_exact(
    t: Seq<char>,
    length: nat,
    upper: bool,
    nums: bool,
    syms: bool,
    i: int,
)
    requires
        drawn_from(t, length, charset(upper, nums, syms)),
    ensures
        t.len() == length,
        0 <= i < t.len() ==> {
            ||| 'a' <= t[i] <= 'z'
            ||| upper && 'A' <= t[i] <= 'Z'
            ||| nums && '0' <= t[i] <= '9'
            ||| syms && "!@#$%^&*()-_=+[]{}|;:,.<>?"@.contains(t[i])
        },
{
    if 0 <= i < t.len() {
        law_charset_exact(upper, nums, syms, t[i]);
    }
}

/// A password has its points: one for twelve bytes, one for sixteen, one for twenty,
/// one each for a capital, a digit and a symbol. Up to two make it weak, up to four
/// fair, five strong, and six very strong.
pub proof fn law_strength_exact(bytes: nat, upper: bool, digit: bool, symbol: bool)
    ensures
        ({
            let length = if bytes >= 20 {
                3int
            } else if bytes >= 16 {
                2
            } else if bytes >= 12 {
                1
            } else {
                0
            };
            let kinds = if upper && digit && symbol {
                3int
            } else if (upper && digit) || (upper && symbol) || (digit && symbol) {
                2
            } else if upper || digit || symbol {
                1
            } else {
                0
            };
            let r = rating(strength_points(bytes, upper, digit, symbol));
            &&& r is Weak <==> length + kinds <= 2
            &&& r is Fair <==> 3 <= length + kinds <= 4
            &&& r is Strong <==> length + kinds == 5
            &&& r is VeryStrong <==> length + kinds == 6
        }),
{
}

/// Which kinds of characters a password holds. Of ASCII, `A` to `Z` are capitals and
/// what is neither letter nor digit is a symbol.
pub proof fn law_kinds_exact(t: Seq<char>, i: int)
    requires
        0 <= i < t.len(),
    ensures
        'A' <= t[i] <= 'Z' ==> has_upper(t),
        '0' <= t[i] <= '9' ==> has_digit(t),
        (t[i] as u32) < 128 && !('A' <= t[i] <= 'Z' || 'a' <= t[i] <= 'z' || '0' <= t[i] <= '9')
            ==> has_symbol(t),
        (t[i] as u32) >= 128 && uppercase_beyond_ascii(t[i]) ==> has_upper(t),
        (t[i] as u32) >= 128 && !alphanumeric_beyond_ascii(t[i]) ==> has_symbol(t),
        (forall|k: int|
            0 <= k < t.len() ==> !('A' <= #[trigger] t[k] <= 'Z') && (t[k] as u32) < 128)
            ==> !has_upper(t),
        (forall|k: int| 0 <= k < t.len() ==> !('0' <= #[trigger] t[k] <= '9')) ==> !has_digit(t),
        (forall|k: int|
            0 <= k < t.len() ==> 'A' <= #[trigger] t[k] <= 'Z' || 'a' <= t[k] <= 'z' || '0'
                <= t[k] <= '9') ==> !has_symbol(t),
{
    assert(unicode_uppercase(t[i]) ==> has_upper(t));
    assert(!unicode_alphanumeric(t[i]) ==> has_symbol(t));
}

} // verus!

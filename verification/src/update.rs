//! Version numbers and the update check: which release, if any, is offered.
use crate::text::{
    chars_of, comes_before, decimal, digits_value, joined, law_decimal_exact, law_digits_parsed,
    law_joined_splits,
    law_parsed_exact, law_trimmed_exact, lemma_text_before_irreflexive, lemma_text_before_total,
    lemma_text_before_transitive, parse_u64, parsed_u64, pieces, split, text_before, text_of_range,
    trim, trimmed, views, white_space,
};
use vstd::prelude::*;

verus! {

/// The version of this program.
pub const APP_VERSION: &'static str = "2.0.2-release";

/// Whether this build is itself a pre-release.
pub const APP_IS_PRERELEASE: bool = false;

/// Whose repository the releases come from.
pub const GITHUB_OWNER: &'static str = "makke08";

/// The repository the releases come from.
pub const GITHUB_REPO: &'static str = "ZeroPass";

// ---------------------------------------------------------------------------
// Versions
// ---------------------------------------------------------------------------

/// `s` without the letters `v` and `V` at its start.
pub open spec fn without_v(s: Seq<char>) -> Seq<char>
    decreases s.len(),
{
    if s.len() > 0 && (s[0] == 'v' || s[0] == 'V') {
        without_v(s.subrange(1, s.len() as int))
    } else {
        s
    }
}

/// The version that a release tag names.
pub open spec fn tag_version(tag: Seq<char>) -> Seq<char> {
    trimmed(without_v(trimmed(tag)))
}

/// The version that a release tag names: the tag without a leading `v` and without
/// the white space around it and behind the `v`, so that `v2.1.0` and `v 2.1.0` both
/// become `2.1.0`.
pub fn normalize_version_tag(tag: &str) -> (res: String)
    ensures
        res@ == tag_version(tag@),
{
    let t: String = trim(tag);
    let v: Vec<char> = chars_of(t.as_str());
    let mut i: usize = 0;
    proof {
        assert(v@.subrange(0, v@.len() as int) =~= v@);
    }
    while i < v.len() && (v[i] == 'v' || v[i] == 'V')
        invariant
            i <= v@.len(),
            without_v(v@) == without_v(v@.subrange(i as int, v@.len() as int)),
        decreases v@.len() - i,
    {
        proof {
            let rest = v@.subrange(i as int, v@.len() as int);
            assert(rest.subrange(1, rest.len() as int) =~= v@.subrange(i + 1, v@.len() as int));
        }
        i += 1;
    }
    let version: String = text_of_range(&v, i, v.len());
    trim(version.as_str())
}

/// The place of the first `c` in `s`, or the length of `s` if there is none.
pub open spec fn first_place(s: Seq<char>, c: char) -> int
    decreases s.len(),
{
    if s.len() == 0 || s[0] == c {
        0
    } else {
        1 + first_place(s.subrange(1, s.len() as int), c)
    }
}

/// What stands before the first dash of a version.
pub open spec fn numeric_part(v: Seq<char>) -> Seq<char> {
    v.take(first_place(v, '-'))
}

/// What stands behind the first dash of a version, or nothing.
pub open spec fn version_suffix(v: Seq<char>) -> Seq<char> {
    let d = first_place(v, '-');
    if d < v.len() {
        v.subrange(d + 1, v.len() as int)
    } else {
        Seq::empty()
    }
}

/// One component of a version as a number: zero if it is none.
pub open spec fn component(p: Seq<char>) -> u64 {
    match parsed_u64(p) {
        Some(n) => n,
        None => 0,
    }
}

/// The numeric components of a version.
pub open spec fn version_parts(v: Seq<char>) -> Seq<u64> {
    pieces(numeric_part(v), '.').map_values(|p: Seq<char>| component(p))
}

proof fn lemma_first_place(s: Seq<char>, c: char, i: int)
    requires
        0 <= i <= s.len(),
        forall|k: int| 0 <= k < i ==> s[k] != c,
        i == s.len() || s[i] == c,
    ensures
        first_place(s, c) == i,
    decreases s.len(),
{
    if i > 0 {
        lemma_first_place(s.subrange(1, s.len() as int), c, i - 1);
    }
}

/// Splits a version into its numeric components and what follows the first dash.
/// A component that is no number counts as zero.
pub fn parse_version_parts(v: &str) -> (res: (Vec<u64>, String))
    ensures
        res.0@ == version_parts(v@),
        res.1@ == version_suffix(v@),
{
    let chars: Vec<char> = chars_of(v);
    let mut d: usize = 0;
    while d < chars.len() && chars[d] != '-'
        invariant
            d <= chars@.len(),
            forall|k: int| 0 <= k < d ==> chars@[k] != '-',
        decreases chars@.len() - d,
    {
        d += 1;
    }
    proof {
        lemma_first_place(chars@, '-', d as int);
        assert(numeric_part(v@) =~= chars@.subrange(0, d as int));
    }
    let numeric: String = text_of_range(&chars, 0, d);
    let suffix: String = if d < chars.len() {
        text_of_range(&chars, d + 1, chars.len())
    } else {
        String::new()
    };
    let pieces_text: Vec<String> = split(numeric.as_str(), '.');
    let mut parts: Vec<u64> = Vec::new();
    let mut i: usize = 0;
    while i < pieces_text.len()
        invariant
            i <= pieces_text@.len(),
            views(pieces_text@) == pieces(numeric_part(v@), '.'),
            parts@ == version_parts(v@).take(i as int),
        decreases pieces_text@.len() - i,
    {
        let n: u64 = match parse_u64(pieces_text[i].as_str()) {
            Some(n) => n,
            None => 0,
        };
        proof {
            assert(views(pieces_text@)[i as int] == pieces_text@[i as int]@);
            assert(version_parts(v@)[i as int] == n);
        }
        parts.push(n);
        i += 1;
        proof {
            assert(parts@ =~= version_parts(v@).take(i as int));
        }
    }
    proof {
        assert(views(pieces_text@).len() == pieces_text@.len());
        assert(version_parts(v@).take(i as int) =~= version_parts(v@));
    }
    (parts, suffix)
}

/// The component at place `i`; a version has zeros behind its last component.
pub open spec fn part_at(parts: Seq<u64>, i: int) -> u64 {
    if 0 <= i < parts.len() {
        parts[i]
    } else {
        0
    }
}

/// `a` and `b` have the same component at every place.
pub open spec fn parts_equal(a: Seq<u64>, b: Seq<u64>) -> bool {
    forall|i: int| #![auto] part_at(a, i) == part_at(b, i)
}

/// `i` is the first place at which `a` and `b` differ, and `a` is larger there.
pub open spec fn larger_at(a: Seq<u64>, b: Seq<u64>, i: int) -> bool {
    &&& part_at(a, i) > part_at(b, i)
    &&& forall|j: int| #![trigger part_at(a, j)] #![trigger part_at(b, j)]
        j < i ==> part_at(a, j) == part_at(b, j)
}

/// `a` is larger than `b` at the first place where they differ.
pub open spec fn parts_larger(a: Seq<u64>, b: Seq<u64>) -> bool {
    exists|i: int| larger_at(a, b, i)
}

/// With equal numbers, suffix `a` outranks suffix `b`: no suffix outranks any,
/// and of two suffixes the one that comes later in the order of texts wins.
pub open spec fn suffix_outranks(a: Seq<char>, b: Seq<char>) -> bool {
    if a.len() == 0 {
        b.len() > 0
    } else {
        b.len() > 0 && text_before(b, a)
    }
}

/// Version `a` is strictly newer than version `b`.
pub open spec fn newer(a: Seq<char>, b: Seq<char>) -> bool {
    ||| parts_larger(version_parts(a), version_parts(b))
    ||| parts_equal(version_parts(a), version_parts(b)) && suffix_outranks(
        version_suffix(a),
        version_suffix(b),
    )
}

/// Whether `candidate` is a strictly newer version than `current`.
pub fn is_newer_version(candidate: &str, current: &str) -> (res: bool)
    ensures
        res == newer(candidate@, current@),
{
    let (c_parts, c_suffix) = parse_version_parts(candidate);
    let (u_parts, u_suffix) = parse_version_parts(current);
    let len: usize = if c_parts.len() > u_parts.len() {
        c_parts.len()
    } else {
        u_parts.len()
    };
    let mut i: usize = 0;
    while i < len
        invariant
            i <= len,
            len >= c_parts@.len(),
            len >= u_parts@.len(),
            c_parts@ == version_parts(candidate@),
            u_parts@ == version_parts(current@),
            forall|j: int| #![auto] j < i ==> part_at(c_parts@, j) == part_at(u_parts@, j),
        decreases len - i,
    {
        let c: u64 = if i < c_parts.len() {
            c_parts[i]
        } else {
            0
        };
        let u: u64 = if i < u_parts.len() {
            u_parts[i]
        } else {
            0
        };
        proof {
            assert(part_at(c_parts@, i as int) == c);
            assert(part_at(u_parts@, i as int) == u);
        }
        if c != u {
            proof {
                if c > u {
                    assert(larger_at(c_parts@, u_parts@, i as int));
                } else {
                    lemma_not_larger(c_parts@, u_parts@, i as int);
                }
            }
            return c > u;
        }
        i += 1;
    }
    proof {
        assert(parts_equal(c_parts@, u_parts@));
        assert(!parts_larger(c_parts@, u_parts@));
    }
    let c_empty: bool = c_suffix.as_str().is_empty();
    let u_empty: bool = u_suffix.as_str().is_empty();
    if c_empty {
        !u_empty
    } else if u_empty {
        false
    } else {
        comes_before(u_suffix.as_str(), c_suffix.as_str())
    }
}

proof fn lemma_not_larger(a: Seq<u64>, b: Seq<u64>, i: int)
    requires
        larger_at(b, a, i),
    ensures
        !parts_larger(a, b),
        !parts_equal(a, b),
{
    assert(part_at(a, i) != part_at(b, i));
    if parts_larger(a, b) {
        let k = choose|k: int| larger_at(a, b, k);
        if k < i {
            assert(part_at(b, k) == part_at(a, k));
        } else if i < k {
            assert(part_at(a, i) == part_at(b, i));
        }
    }
}

// ---------------------------------------------------------------------------
// Laws of the version order
// ---------------------------------------------------------------------------

proof fn lemma_parts_trichotomy_below(a: Seq<u64>, b: Seq<u64>, n: int)
    requires
        0 <= n,
    ensures
        parts_larger(a, b) || parts_larger(b, a) || forall|j: int|
            #![trigger part_at(a, j)]
            #![trigger part_at(b, j)]
            j < n ==> part_at(a, j) == part_at(b, j),
    decreases n,
{
    if n > 0 {
        lemma_parts_trichotomy_below(a, b, n - 1);
        if !parts_larger(a, b) && !parts_larger(b, a) {
            if part_at(a, n - 1) > part_at(b, n - 1) {
                assert(larger_at(a, b, n - 1));
            } else if part_at(b, n - 1) > part_at(a, n - 1) {
                assert(larger_at(b, a, n - 1));
            }
        }
    }
}

proof fn lemma_parts_trichotomy(a: Seq<u64>, b: Seq<u64>)
    ensures
        parts_larger(a, b) || parts_larger(b, a) || parts_equal(a, b),
        !(parts_larger(a, b) && parts_larger(b, a)),
        parts_larger(a, b) ==> !parts_equal(a, b),
{
    lemma_parts_trichotomy_below(a, b, (a.len() + b.len()) as int);
    if parts_larger(a, b) {
        let i = choose|i: int| larger_at(a, b, i);
        lemma_not_larger(b, a, i);
        assert(part_at(a, i) != part_at(b, i));
    }
}

proof fn lemma_parts_transitive(a: Seq<u64>, b: Seq<u64>, c: Seq<u64>)
    ensures
        parts_larger(a, b) && parts_larger(b, c) ==> parts_larger(a, c),
        parts_larger(a, b) && parts_equal(b, c) ==> parts_larger(a, c),
        parts_equal(a, b) && parts_larger(b, c) ==> parts_larger(a, c),
        parts_equal(a, b) && parts_equal(b, c) ==> parts_equal(a, c),
{
    if parts_larger(a, b) && parts_larger(b, c) {
        let i = choose|i: int| larger_at(a, b, i);
        let k = choose|k: int| larger_at(b, c, k);
        let m = if i < k {
            i
        } else {
            k
        };
        assert forall|j: int| j < m implies #[trigger] part_at(a, j) == part_at(c, j) by {
            assert(part_at(a, j) == part_at(b, j));
            assert(part_at(b, j) == part_at(c, j));
        }
        assert(part_at(a, m) >= part_at(b, m) && part_at(b, m) >= part_at(c, m));
        assert(larger_at(a, c, m));
    }
    if parts_larger(a, b) && parts_equal(b, c) {
        let i = choose|i: int| larger_at(a, b, i);
        assert forall|j: int| j < i implies #[trigger] part_at(a, j) == part_at(c, j) by {
            assert(part_at(a, j) == part_at(b, j));
            assert(part_at(b, j) == part_at(c, j));
        }
        assert(part_at(b, i) == part_at(c, i));
        assert(larger_at(a, c, i));
    }
    if parts_equal(a, b) && parts_larger(b, c) {
        let i = choose|i: int| larger_at(b, c, i);
        assert forall|j: int| j < i implies #[trigger] part_at(a, j) == part_at(c, j) by {
            assert(part_at(a, j) == part_at(b, j));
            assert(part_at(b, j) == part_at(c, j));
        }
        assert(part_at(a, i) == part_at(b, i));
        assert(larger_at(a, c, i));
    }
    if parts_equal(a, b) && parts_equal(b, c) {
        assert forall|i: int| #![auto] part_at(a, i) == part_at(c, i) by {
            assert(part_at(a, i) == part_at(b, i));
        }
    }
}

proof fn lemma_suffix_order(a: Seq<char>, b: Seq<char>, c: Seq<char>)
    ensures
        !suffix_outranks(a, a),
        !(suffix_outranks(a, b) && suffix_outranks(b, a)),
        suffix_outranks(a, b) && suffix_outranks(b, c) ==> suffix_outranks(a, c),
        suffix_outranks(a, c) ==> suffix_outranks(a, b) || suffix_outranks(b, c),
{
    lemma_text_before_irreflexive(a);
    lemma_text_before_total(a, b);
    lemma_text_before_total(b, c);
    lemma_text_before_total(a, c);
    if text_before(c, b) && text_before(b, a) {
        lemma_text_before_transitive(c, b, a);
    }
    if text_before(c, a) && text_before(a, b) {
        lemma_text_before_transitive(c, a, b);
    }
}

/// No version is newer than itself.
pub proof fn law_newer_irreflexive(a: Seq<char>)
    ensures
        !newer(a, a),
{
    lemma_parts_trichotomy(version_parts(a), version_parts(a));
    lemma_suffix_order(version_suffix(a), version_suffix(a), version_suffix(a));
}

/// Of two versions at most one is newer than the other.
pub proof fn law_newer_asymmetric(a: Seq<char>, b: Seq<char>)
    ensures
        !(newer(a, b) && newer(b, a)),
{
    lemma_parts_trichotomy(version_parts(a), version_parts(b));
    lemma_parts_trichotomy(version_parts(b), version_parts(a));
    lemma_suffix_order(version_suffix(a), version_suffix(b), version_suffix(b));
}

/// Newer than something newer is newer still.
pub proof fn law_newer_transitive(a: Seq<char>, b: Seq<char>, c: Seq<char>)
    requires
        newer(a, b),
        newer(b, c),
    ensures
        newer(a, c),
{
    lemma_parts_transitive(version_parts(a), version_parts(b), version_parts(c));
    lemma_suffix_order(version_suffix(a), version_suffix(b), version_suffix(c));
}

/// A version newer than another is newer than everything in between: whatever `b`
/// is, it is older than `a` or newer than `c`.
pub proof fn law_newer_splits(a: Seq<char>, b: Seq<char>, c: Seq<char>)
    requires
        newer(a, c),
    ensures
        newer(a, b) || newer(b, c),
{
    let (pa, pb, pc) = (version_parts(a), version_parts(b), version_parts(c));
    lemma_parts_trichotomy(pa, pb);
    lemma_parts_trichotomy(pb, pc);
    lemma_parts_trichotomy(pa, pc);
    lemma_parts_trichotomy(pb, pa);
    lemma_parts_trichotomy(pc, pb);
    lemma_parts_transitive(pb, pa, pc);
    lemma_parts_transitive(pb, pc, pa);
    lemma_parts_transitive(pa, pb, pc);
    lemma_parts_transitive(pc, pb, pa);
    lemma_parts_trichotomy(pc, pa);
    lemma_suffix_order(version_suffix(a), version_suffix(b), version_suffix(c));
    assert(parts_equal(pa, pb) == parts_equal(pb, pa));
    assert(parts_equal(pb, pc) == parts_equal(pc, pb));
}

/// With equal numbers, a release without a suffix is newer than one with a suffix.
pub proof fn law_no_suffix_outranks(a: Seq<char>, b: Seq<char>)
    requires
        parts_equal(version_parts(a), version_parts(b)),
        version_suffix(a).len() == 0,
        version_suffix(b).len() > 0,
    ensures
        newer(a, b),
        !newer(b, a),
{
    law_newer_asymmetric(a, b);
}

// ---------------------------------------------------------------------------
// Releases
// ---------------------------------------------------------------------------

/// A published release.
pub struct GithubRelease {
    pub tag_name: String,
    pub html_url: String,
    pub prerelease: bool,
    pub draft: bool,
}

#[verifier::ext_equal]
pub struct ReleaseView {
    pub tag_name: Seq<char>,
    pub html_url: Seq<char>,
    pub prerelease: bool,
    pub draft: bool,
}

impl View for GithubRelease {
    type V = ReleaseView;

    open spec fn view(&self) -> ReleaseView {
        ReleaseView {
            tag_name: self.tag_name@,
            html_url: self.html_url@,
            prerelease: self.prerelease,
            draft: self.draft,
        }
    }
}

/// The releases by their views.
pub open spec fn release_views(v: Seq<GithubRelease>) -> Seq<ReleaseView> {
    v.map_values(|r: GithubRelease| r@)
}

/// What is known about updates.
#[derive(Debug)]
pub enum UpdateStatus {
    /// Not checked yet, or the check is still under way.
    Unknown,
    /// This build is up to date.
    UpToDate,
    /// A newer stable release is available.
    StableAvailable { version: String, url: String },
    /// A newer pre-release is available; only pre-release builds are told.
    BetaAvailable { version: String, url: String },
    /// The check failed, for the given reason.
    CheckFailed(String),
}

#[verifier::ext_equal]
pub enum StatusView {
    Unknown,
    UpToDate,
    StableAvailable { version: Seq<char>, url: Seq<char> },
    BetaAvailable { version: Seq<char>, url: Seq<char> },
    CheckFailed(Seq<char>),
}

impl View for UpdateStatus {
    type V = StatusView;

    open spec fn view(&self) -> StatusView {
        match self {
            UpdateStatus::Unknown => StatusView::Unknown,
            UpdateStatus::UpToDate => StatusView::UpToDate,
            UpdateStatus::StableAvailable { version, url } => StatusView::StableAvailable {
                version: version@,
                url: url@,
            },
            UpdateStatus::BetaAvailable { version, url } => StatusView::BetaAvailable {
                version: version@,
                url: url@,
            },
            UpdateStatus::CheckFailed(reason) => StatusView::CheckFailed(reason@),
        }
    }
}

impl Clone for UpdateStatus {
    fn clone(&self) -> (res: Self)
        ensures
            res@ == self@,
    {
        match self {
            UpdateStatus::Unknown => UpdateStatus::Unknown,
            UpdateStatus::UpToDate => UpdateStatus::UpToDate,
            UpdateStatus::StableAvailable { version, url } => UpdateStatus::StableAvailable {
                version: version.clone(),
                url: url.clone(),
            },
            UpdateStatus::BetaAvailable { version, url } => UpdateStatus::BetaAvailable {
                version: version.clone(),
                url: url.clone(),
            },
            UpdateStatus::CheckFailed(reason) => UpdateStatus::CheckFailed(reason.clone()),
        }
    }
}

/// A release that counts in the given channel: published, and a pre-release
/// exactly if pre-releases are asked for.
pub open spec fn counts(r: ReleaseView, pre: bool) -> bool {
    !r.draft && r.prerelease == pre
}

/// The version that a release carries.
pub open spec fn release_version(r: ReleaseView) -> Seq<char> {
    tag_version(r.tag_name)
}

/// The release at `i` is the latest of its channel: no other is newer, and of
/// several equally new ones it is the last in the list.
pub open spec fn is_latest(rs: Seq<ReleaseView>, pre: bool, i: int) -> bool {
    &&& 0 <= i < rs.len()
    &&& counts(rs[i], pre)
    &&& forall|j: int|
        #![trigger rs[j]]
        0 <= j < rs.len() && counts(rs[j], pre) ==> !newer(
            release_version(rs[j]),
            release_version(rs[i]),
        )
    &&& forall|j: int|
        #![trigger rs[j]]
        i < j < rs.len() && counts(rs[j], pre) ==> newer(
            release_version(rs[i]),
            release_version(rs[j]),
        )
}

/// The place of the latest release of a channel, if the channel has any.
pub open spec fn latest(rs: Seq<ReleaseView>, pre: bool) -> Option<int> {
    if exists|i: int| is_latest(rs, pre, i) {
        Some(choose|i: int| is_latest(rs, pre, i))
    } else {
        None
    }
}

/// The status for a list of releases, for a build of the given version.
pub open spec fn status_for(rs: Seq<ReleaseView>, version: Seq<char>, pre_build: bool) -> StatusView {
    let stable = latest(rs, false);
    let beta = latest(rs, true);
    if stable is Some && newer(release_version(rs[stable.unwrap()]), version) {
        StatusView::StableAvailable {
            version: release_version(rs[stable.unwrap()]),
            url: rs[stable.unwrap()].html_url,
        }
    } else if pre_build && beta is Some && newer(release_version(rs[beta.unwrap()]), version) {
        StatusView::BetaAvailable {
            version: release_version(rs[beta.unwrap()]),
            url: rs[beta.unwrap()].html_url,
        }
    } else {
        StatusView::UpToDate
    }
}

/// A channel has one latest release at most.
pub proof fn law_latest_unique(rs: Seq<ReleaseView>, pre: bool, i: int, k: int)
    requires
        is_latest(rs, pre, i),
        is_latest(rs, pre, k),
    ensures
        i == k,
{
    if i < k {
        assert(newer(release_version(rs[i]), release_version(rs[k])));
    }
    if k < i {
        assert(newer(release_version(rs[k]), release_version(rs[i])));
    }
}

/// The place of the latest release of a channel.
fn find_latest(rs: &Vec<GithubRelease>, pre: bool) -> (res: Option<usize>)
    ensures
        match res {
            Some(i) => {
                &&& is_latest(release_views(rs@), pre, i as int)
                &&& latest(release_views(rs@), pre) == Some(i as int)
            },
            None => {
                &&& latest(release_views(rs@), pre) is None
                &&& forall|j: int|
                    0 <= j < rs@.len() ==> !counts(#[trigger] release_views(rs@)[j], pre)
            },
        },
{
    let mut best: Option<usize> = None;
    let mut best_version: String = String::new();
    let mut i: usize = 0;
    let ghost all = release_views(rs@);
    while i < rs.len()
        invariant
            i <= rs@.len(),
            all == release_views(rs@),
            match best {
                Some(b) => {
                    &&& is_latest(all.take(i as int), pre, b as int)
                    &&& best_version@ == release_version(all[b as int])
                    &&& b < i
                },
                None => forall|j: int| 0 <= j < i ==> !counts(#[trigger] all[j], pre),
            },
        decreases rs@.len() - i,
    {
        let r: &GithubRelease = &rs[i];
        let ghost seen = all.take(i as int);
        let ghost next = all.take(i + 1);
        proof {
            assert(all[i as int] == r@);
            assert(forall|j: int| 0 <= j < i ==> seen[j] == next[j]);
            assert(next[i as int] == r@);
        }
        if !r.draft && r.prerelease == pre {
            let version: String = normalize_version_tag(r.tag_name.as_str());
            let keep: bool = match best {
                Some(_) => is_newer_version(best_version.as_str(), version.as_str()),
                None => false,
            };
            proof {
                law_newer_irreflexive(version@);
                if best is Some {
                    let b = best.unwrap() as int;
                    let old_best = release_version(all[b]);
                    assert(seen[b] == all[b]);
                    if keep {
                        law_newer_asymmetric(old_best, version@);
                        assert(is_latest(next, pre, b));
                    } else {
                        assert forall|j: int|
                            #![trigger next[j]]
                            0 <= j < next.len() && counts(next[j], pre) implies !newer(
                            release_version(next[j]),
                            version@,
                        ) by {
                            if j < i {
                                assert(seen[j] == next[j]);
                                assert(!newer(release_version(seen[j]), old_best));
                                if newer(release_version(next[j]), version@) {
                                    law_newer_splits(
                                        release_version(next[j]),
                                        old_best,
                                        version@,
                                    );
                                }
                            }
                        }
                        assert(is_latest(next, pre, i as int));
                    }
                } else {
                    assert forall|j: int|
                        #![trigger next[j]]
                        0 <= j < next.len() && counts(next[j], pre) implies !newer(
                        release_version(next[j]),
                        version@,
                    ) by {
                        if j < i {
                            assert(!counts(all[j], pre));
                        }
                    }
                    assert(is_latest(next, pre, i as int));
                }
            }
            if !keep {
                best = Some(i);
                best_version = version;
            }
        } else {
            proof {
                if best is Some {
                    let b = best.unwrap() as int;
                    assert(seen[b] == next[b]);
                    assert forall|j: int|
                        #![trigger next[j]]
                        0 <= j < next.len() && counts(next[j], pre) implies !newer(
                        release_version(next[j]),
                        release_version(next[b]),
                    ) by {
                        assert(seen[j] == next[j]);
                    }
                    assert forall|j: int|
                        #![trigger next[j]]
                        b < j < next.len() && counts(next[j], pre) implies newer(
                        release_version(next[b]),
                        release_version(next[j]),
                    ) by {
                        assert(seen[j] == next[j]);
                    }
                    assert(is_latest(next, pre, b));
                }
            }
        }
        i += 1;
    }
    proof {
        assert(all.take(i as int) =~= all);
        match best {
            Some(b) => {
                let c = choose|c: int| is_latest(all, pre, c);
                law_latest_unique(all, pre, b as int, c);
            },
            None => {
                if exists|c: int| is_latest(all, pre, c) {
                    let c = choose|c: int| is_latest(all, pre, c);
                    assert(counts(all[c], pre));
                }
            },
        }
    }
    best
}

/// The status for a list of releases, for a build of the given version. A stable
/// release that is newer than the build is offered; a pre-release only to
/// pre-release builds, and only if no stable release is offered.
pub fn evaluate_releases(releases: &Vec<GithubRelease>, version: &str, pre_build: bool) -> (res:
    UpdateStatus)
    ensures
        res@ == status_for(release_views(releases@), version@, pre_build),
{
    let ghost all = release_views(releases@);
    let stable: Option<usize> = find_latest(releases, false);
    match stable {
        Some(i) => {
            let v: String = normalize_version_tag(releases[i].tag_name.as_str());
            proof {
                assert(all[i as int] == releases@[i as int]@);
            }
            if is_newer_version(v.as_str(), version) {
                return UpdateStatus::StableAvailable {
                    version: v,
                    url: releases[i].html_url.clone(),
                };
            }
        },
        None => {},
    }
    if pre_build {
        let beta: Option<usize> = find_latest(releases, true);
        match beta {
            Some(i) => {
                let v: String = normalize_version_tag(releases[i].tag_name.as_str());
                proof {
                    assert(all[i as int] == releases@[i as int]@);
                }
                if is_newer_version(v.as_str(), version) {
                    return UpdateStatus::BetaAvailable {
                        version: v,
                        url: releases[i].html_url.clone(),
                    };
                }
            },
            None => {},
        }
    }
    UpdateStatus::UpToDate
}

/// What came back from asking for the list of releases.
pub enum ReleaseFetch {
    /// The list could not be fetched.
    NetworkError(String),
    /// What was fetched is no list of releases.
    BadResponse(String),
    /// The list.
    Releases(Vec<GithubRelease>),
}

/// The status that follows from what was fetched.
pub open spec fn fetch_status(fetch: ReleaseFetch) -> StatusView {
    match fetch {
        ReleaseFetch::NetworkError(e) => StatusView::CheckFailed("Network error: "@ + e@),
        ReleaseFetch::BadResponse(e) => StatusView::CheckFailed("Bad response: "@ + e@),
        ReleaseFetch::Releases(rs) => status_for(
            release_views(rs@),
            APP_VERSION@,
            APP_IS_PRERELEASE,
        ),
    }
}

/// The status of this build, given what was fetched.
pub fn check_for_updates(fetch: &ReleaseFetch) -> (res: UpdateStatus)
    ensures
        res@ == fetch_status(*fetch),
{
    match fetch {
        ReleaseFetch::NetworkError(e) => UpdateStatus::CheckFailed(
            "Network error: ".to_string().concat(e.as_str()),
        ),
        ReleaseFetch::BadResponse(e) => UpdateStatus::CheckFailed(
            "Bad response: ".to_string().concat(e.as_str()),
        ),
        ReleaseFetch::Releases(rs) => evaluate_releases(rs, APP_VERSION, APP_IS_PRERELEASE),
    }
}

/// Where the list of releases is fetched from.
pub open spec fn releases_address() -> Seq<char> {
    "https://api.github.com/repos/"@ + GITHUB_OWNER@ + "/"@ + GITHUB_REPO@ + "/releases"@
}

/// Where the list of releases is fetched from.
pub fn releases_url() -> (res: String)
    ensures
        res@ == releases_address(),
{
    "https://api.github.com/repos/".to_string().concat(GITHUB_OWNER).concat("/").concat(
        GITHUB_REPO,
    ).concat("/releases")
}

// ---------------------------------------------------------------------------
// Laws of the update check
// ---------------------------------------------------------------------------

proof fn lemma_latest_exists(rs: Seq<ReleaseView>, pre: bool)
    ensures
        latest(rs, pre) is None ==> forall|j: int|
            0 <= j < rs.len() ==> !counts(#[trigger] rs[j], pre),
    decreases rs.len(),
{
    if rs.len() > 0 {
        let init = rs.drop_last();
        let last = rs.len() - 1;
        lemma_latest_exists(init, pre);
        assert(forall|j: int| 0 <= j < last ==> init[j] == rs[j]);
        law_newer_irreflexive(release_version(rs[last]));
        if latest(init, pre) is Some {
            let b = choose|i: int| is_latest(init, pre, i);
            assert(is_latest(init, pre, b));
            assert(init[b] == rs[b]);
            let vb = release_version(rs[b]);
            let vl = release_version(rs[last]);
            if !counts(rs[last], pre) || newer(vb, vl) {
                law_newer_asymmetric(vb, vl);
                assert(is_latest(rs, pre, b)) by {
                    assert forall|j: int|
                        #![trigger rs[j]]
                        0 <= j < rs.len() && counts(rs[j], pre) implies !newer(
                        release_version(rs[j]),
                        vb,
                    ) by {
                        if j < last {
                            assert(init[j] == rs[j]);
                        }
                    }
                    assert forall|j: int|
                        #![trigger rs[j]]
                        b < j < rs.len() && counts(rs[j], pre) implies newer(
                        vb,
                        release_version(rs[j]),
                    ) by {
                        if j < last {
                            assert(init[j] == rs[j]);
                        }
                    }
                }
            } else {
                assert(is_latest(rs, pre, last)) by {
                    assert forall|j: int|
                        #![trigger rs[j]]
                        0 <= j < rs.len() && counts(rs[j], pre) implies !newer(
                        release_version(rs[j]),
                        vl,
                    ) by {
                        if j < last {
                            assert(init[j] == rs[j]);
                            if newer(release_version(rs[j]), vl) {
                                law_newer_splits(release_version(rs[j]), vb, vl);
                            }
                        }
                    }
                }
            }
        } else if counts(rs[last], pre) {
            assert(is_latest(rs, pre, last)) by {
                assert forall|j: int|
                    #![trigger rs[j]]
                    0 <= j < rs.len() && counts(rs[j], pre) implies !newer(
                    release_version(rs[j]),
                    release_version(rs[last]),
                ) by {
                    if j < last {
                        assert(!counts(init[j], pre));
                    }
                }
            }
        }
    }
}

/// A stable build is never offered a pre-release.
pub proof fn law_stable_build_never_offered_beta(rs: Seq<ReleaseView>, version: Seq<char>)
    ensures
        !(status_for(rs, version, false) is BetaAvailable),
{
}

/// What is offered is a published release of its channel, newer than the build,
/// and no release of that channel is newer still.
pub proof fn law_offer_is_newest(
    rs: Seq<ReleaseView>,
    version: Seq<char>,
    pre_build: bool,
    j: int,
)
    requires
        0 <= j < rs.len(),
    ensures
        status_for(rs, version, pre_build) matches StatusView::StableAvailable {
            version: offered,
            url,
        } ==> {
            &&& newer(offered, version)
            &&& counts(rs[j], false) ==> !newer(release_version(rs[j]), offered)
            &&& exists|i: int|
                0 <= i < rs.len() && counts(#[trigger] rs[i], false) && release_version(rs[i])
                    == offered && rs[i].html_url == url
        },
        status_for(rs, version, pre_build) matches StatusView::BetaAvailable {
            version: offered,
            url,
        } ==> {
            &&& pre_build
            &&& newer(offered, version)
            &&& counts(rs[j], true) ==> !newer(release_version(rs[j]), offered)
            &&& counts(rs[j], false) ==> !newer(release_version(rs[j]), version)
            &&& exists|i: int|
                0 <= i < rs.len() && counts(#[trigger] rs[i], true) && release_version(rs[i])
                    == offered && rs[i].html_url == url
        },
{
    lemma_latest_exists(rs, false);
    lemma_latest_exists(rs, true);
    if latest(rs, false) is Some {
        let i = choose|i: int| is_latest(rs, false, i);
        assert(is_latest(rs, false, i));
        if counts(rs[j], false) && newer(release_version(rs[j]), version) {
            law_newer_splits(release_version(rs[j]), release_version(rs[i]), version);
        }
    }
    if latest(rs, true) is Some {
        let i = choose|i: int| is_latest(rs, true, i);
        assert(is_latest(rs, true, i));
    }
}

/// A build counts as up to date exactly if no published stable release is newer
/// and, for a pre-release build, no published pre-release either.
pub proof fn law_up_to_date_exactly(rs: Seq<ReleaseView>, version: Seq<char>, pre_build: bool)
    ensures
        status_for(rs, version, pre_build) is UpToDate <==> forall|j: int|
            0 <= j < rs.len() && (counts(#[trigger] rs[j], false) || (pre_build && counts(
                rs[j],
                true,
            ))) ==> !newer(release_version(rs[j]), version),
{
    lemma_latest_exists(rs, false);
    lemma_latest_exists(rs, true);
    assert forall|pre: bool, j: int|
        #![trigger counts(rs[j], pre)]
        0 <= j < rs.len() && counts(rs[j], pre) && newer(
            release_version(rs[j]),
            version,
        ) implies latest(rs, pre) is Some && newer(
        release_version(rs[latest(rs, pre).unwrap()]),
        version,
    ) by {
        let i = choose|i: int| is_latest(rs, pre, i);
        lemma_latest_exists(rs, pre);
        assert(is_latest(rs, pre, i));
        law_newer_splits(release_version(rs[j]), release_version(rs[i]), version);
    }
    if latest(rs, false) is Some {
        let i = choose|i: int| is_latest(rs, false, i);
        assert(is_latest(rs, false, i));
        assert(counts(rs[i], false));
    }
    if latest(rs, true) is Some {
        let i = choose|i: int| is_latest(rs, true, i);
        assert(is_latest(rs, true, i));
        assert(counts(rs[i], true));
    }
}

// ---------------------------------------------------------------------------
// Laws of version texts
// ---------------------------------------------------------------------------

/// A tag names the version that is left without the white space around it, without
/// the letters `v` in front, and without the white space behind those.
pub proof fn law_tag_names_its_version(
    before: Seq<char>,
    vs: Seq<char>,
    gap: Seq<char>,
    w: Seq<char>,
    after: Seq<char>,
)
    requires
        forall|i: int| 0 <= i < before.len() ==> white_space(#[trigger] before[i]),
        forall|i: int| 0 <= i < gap.len() ==> white_space(#[trigger] gap[i]),
        forall|i: int| 0 <= i < after.len() ==> white_space(#[trigger] after[i]),
        forall|i: int| 0 <= i < vs.len() ==> #[trigger] vs[i] == 'v' || vs[i] == 'V',
        vs.len() > 0 || gap.len() == 0,
        w.len() > 0,
        !white_space(w[0]),
        !white_space(w.last()),
        w[0] != 'v',
        w[0] != 'V',
    ensures
        tag_version(before + (vs + gap + w) + after) == w,
{
    let core = vs + gap + w;
    assert(core.last() == w.last());
    if vs.len() > 0 {
        assert(core[0] == vs[0]);
    } else {
        assert(core[0] == w[0]);
    }
    law_trimmed_exact(before, core, after);
    let rest = gap + w;
    assert(core =~= vs + rest);
    if gap.len() > 0 {
        assert(rest[0] == gap[0]);
    } else {
        assert(rest[0] == w[0]);
    }
    lemma_without_v_skips(vs, rest);
    let none = Seq::<char>::empty();
    assert(rest =~= gap + w + none);
    law_trimmed_exact(gap, w, none);
}

proof fn lemma_without_v_skips(vs: Seq<char>, s: Seq<char>)
    requires
        forall|i: int| 0 <= i < vs.len() ==> #[trigger] vs[i] == 'v' || vs[i] == 'V',
        s.len() > 0,
        s[0] != 'v',
        s[0] != 'V',
    ensures
        without_v(vs + s) == s,
    decreases vs.len(),
{
    if vs.len() == 0 {
        assert(vs + s =~= s);
    } else {
        let fewer = vs.subrange(1, vs.len() as int);
        assert((vs + s)[0] == vs[0]);
        assert((vs + s).subrange(1, (vs + s).len() as int) =~= fewer + s);
        lemma_without_v_skips(fewer, s);
    }
}

/// The text of a version: its numbers with dots between them.
pub open spec fn version_text(numbers: Seq<u64>) -> Seq<char> {
    joined(numbers.map_values(|n: u64| decimal(n as nat)), seq!['.'])
}

/// A version written out reads back: its numbers are what stands between the dots,
/// and what follows the first dash is its suffix, dashes and all.
pub proof fn law_version_reads_back(numbers: Seq<u64>, suffix: Seq<char>)
    requires
        numbers.len() > 0,
    ensures
        version_parts(version_text(numbers)) == numbers,
        version_suffix(version_text(numbers)).len() == 0,
        version_parts(version_text(numbers).push('-') + suffix) == numbers,
        version_suffix(version_text(numbers).push('-') + suffix) == suffix,
{
    let texts = numbers.map_values(|n: u64| decimal(n as nat));
    let t = version_text(numbers);
    assert forall|i: int| 0 <= i < texts.len() implies !(#[trigger] texts[i]).contains('.') by {
        law_decimal_exact(numbers[i] as nat);
    }
    law_joined_splits(texts, '.');
    assert forall|i: int, k: int| 0 <= i < texts.len() && 0 <= k < texts[i].len() implies
        #[trigger] texts[i][k] != '-' by {
        law_decimal_exact(numbers[i] as nat);
    }
    lemma_joined_without(texts, '.', '-');
    assert forall|i: int| 0 <= i < t.len() implies t[i] != '-' by {
        assert(t.contains(t[i]));
    }
    lemma_first_place(t, '-', t.len() as int);
    assert(t.take(t.len() as int) =~= t);
    assert forall|i: int| 0 <= i < texts.len() implies component(#[trigger] texts[i])
        == numbers[i] by {
        law_parsed_exact(numbers[i] as nat, texts[i]);
    }
    assert(texts.map_values(|p: Seq<char>| component(p)) =~= numbers);
    let whole = t.push('-') + suffix;
    assert forall|k: int| 0 <= k < t.len() implies whole[k] != '-' by {
        assert(whole[k] == t[k]);
    }
    lemma_first_place(whole, '-', t.len() as int);
    assert(whole.take(t.len() as int) =~= t);
    assert(whole.subrange((t.len() + 1) as int, whole.len() as int) =~= suffix);
}

proof fn lemma_joined_without(parts: Seq<Seq<char>>, sep: char, c: char)
    requires
        sep != c,
        forall|i: int, k: int|
            0 <= i < parts.len() && 0 <= k < parts[i].len() ==> #[trigger] parts[i][k] != c,
    ensures
        !joined(parts, seq![sep]).contains(c),
    decreases parts.len(),
{
    let whole = joined(parts, seq![sep]);
    if parts.len() > 1 {
        let init = parts.drop_last();
        assert forall|i: int, k: int| 0 <= i < init.len() && 0 <= k < init[i].len() implies
            #[trigger] init[i][k] != c by {
            assert(parts[i][k] == init[i][k]);
        }
        lemma_joined_without(init, sep, c);
        let a = joined(init, seq![sep]);
        if whole.contains(c) {
            let k = choose|k: int| 0 <= k < whole.len() && whole[k] == c;
            if k < a.len() {
                assert(a[k] == c);
                assert(a.contains(c));
            } else if k > a.len() {
                assert(parts[parts.len() - 1][k - a.len() - 1] == c);
            }
        }
    } else if parts.len() == 1 {
        if whole.contains(c) {
            let k = choose|k: int| 0 <= k < whole.len() && whole[k] == c;
            assert(parts[0][k] == c);
        }
    }
}

/// What is no number between the dots counts as zero.
pub proof fn law_odd_component_is_zero(p: Seq<char>)
    requires
        p.len() == 0 || exists|i: int| 0 < i < p.len() && !('0' <= #[trigger] p[i] <= '9'),
    ensures
        component(p) == 0,
{
    law_parsed_exact(0, p);
    if p.len() == 0 {
        assert(p =~= Seq::<char>::empty());
    }
}

/// Of two versions the one with the larger number at the first place where they
/// differ is newer, whatever their suffixes say; numbers that are missing count as
/// zero. Between equal numbers no suffix beats any suffix, and of two suffixes the
/// one that comes later in the order of texts wins.
pub proof fn law_newer_exact(a: Seq<char>, b: Seq<char>, i: int)
    requires
        0 <= i,
    ensures
        ({
            let at = |v: Seq<char>, k: int|
                if k < version_parts(v).len() {
                    version_parts(v)[k]
                } else {
                    0
                };
            let same_before = forall|j: int| 0 <= j < i ==> #[trigger] at(a, j) == at(b, j);
            let same = forall|j: int| 0 <= j ==> #[trigger] at(a, j) == at(b, j);
            let sa = version_suffix(a);
            let sb = version_suffix(b);
            &&& same_before && at(a, i) > at(b, i) ==> newer(a, b)
            &&& same_before && at(a, i) < at(b, i) ==> !newer(a, b)
            &&& same ==> (newer(a, b) <==> sb.len() > 0 && (sa.len() == 0 || text_before(sb, sa)))
        }),
{
    let pa = version_parts(a);
    let pb = version_parts(b);
    let at = |v: Seq<char>, k: int|
        if k < version_parts(v).len() {
            version_parts(v)[k]
        } else {
            0
        };
    if forall|j: int| 0 <= j < i ==> #[trigger] at(a, j) == at(b, j) {
        assert forall|j: int| j < i implies #[trigger] part_at(pa, j) == part_at(pb, j) by {
            if j >= 0 {
                assert(at(a, j) == at(b, j));
            }
        }
        if at(a, i) > at(b, i) {
            assert(larger_at(pa, pb, i));
        }
        if at(a, i) < at(b, i) {
            assert(larger_at(pb, pa, i));
            lemma_not_larger(pa, pb, i);
        }
    }
    if forall|j: int| 0 <= j ==> #[trigger] at(a, j) == at(b, j) {
        assert forall|j: int| #[trigger] part_at(pa, j) == part_at(pb, j) by {
            if j >= 0 {
                assert(at(a, j) == at(b, j));
            }
        }
        lemma_parts_trichotomy(pa, pb);
        assert(parts_equal(pa, pb));
    }
}

/// What is offered, in full: the newest stable release that is no draft, if it is
/// newer than the running version; else, to pre-release builds alone, the newest
/// pre-release, if that is newer. Of releases that are equally new the last in the
/// list is offered.
pub proof fn law_offer_exact(
    rs: Seq<ReleaseView>,
    version: Seq<char>,
    pre_build: bool,
    i: int,
)
    requires
        0 <= i < rs.len(),
        !rs[i].draft,
        newer(tag_version(rs[i].tag_name), version),
        forall|j: int|
            0 <= j < rs.len() && !(#[trigger] rs[j]).draft && rs[j].prerelease == rs[i].prerelease
                ==> !newer(tag_version(rs[j].tag_name), tag_version(rs[i].tag_name)),
        forall|j: int|
            i < j < rs.len() && !(#[trigger] rs[j]).draft && rs[j].prerelease == rs[i].prerelease
                ==> newer(tag_version(rs[i].tag_name), tag_version(rs[j].tag_name)),
    ensures
        !rs[i].prerelease ==> status_for(rs, version, pre_build) == (StatusView::StableAvailable {
            version: tag_version(rs[i].tag_name),
            url: rs[i].html_url,
        }),
        rs[i].prerelease && pre_build && (forall|j: int|
            0 <= j < rs.len() && !(#[trigger] rs[j]).draft && !rs[j].prerelease ==> !newer(
                tag_version(rs[j].tag_name),
                version,
            )) ==> status_for(rs, version, pre_build) == (StatusView::BetaAvailable {
            version: tag_version(rs[i].tag_name),
            url: rs[i].html_url,
        }),
{
    let pre = rs[i].prerelease;
    assert(is_latest(rs, pre, i));
    let k = choose|k: int| is_latest(rs, pre, k);
    law_latest_unique(rs, pre, i, k);
    assert(latest(rs, pre) == Some(i));
    if latest(rs, false) is Some {
        let s = choose|k: int| is_latest(rs, false, k);
        assert(is_latest(rs, false, s));
    }
}

/// Nothing is offered exactly if no stable release that is no draft is newer, and, on
/// a pre-release build, no pre-release is either.
pub proof fn law_nothing_offered_exactly(rs: Seq<ReleaseView>, version: Seq<char>, pre_build: bool)
    ensures
        status_for(rs, version, pre_build) is UpToDate <==> forall|j: int|
            0 <= j < rs.len() && !(#[trigger] rs[j]).draft && (!rs[j].prerelease || pre_build)
                ==> !newer(tag_version(rs[j].tag_name), version),
{
    law_up_to_date_exactly(rs, version, pre_build);
    if forall|j: int|
        0 <= j < rs.len() && !(#[trigger] rs[j]).draft && (!rs[j].prerelease || pre_build)
            ==> !newer(tag_version(rs[j].tag_name), version) {
        assert forall|j: int|
            0 <= j < rs.len() && (counts(#[trigger] rs[j], false) || (pre_build && counts(
                rs[j],
                true,
            ))) implies !newer(release_version(rs[j]), version) by {}
    } else {
        let j = choose|j: int|
            0 <= j < rs.len() && !(#[trigger] rs[j]).draft && (!rs[j].prerelease || pre_build)
                && newer(tag_version(rs[j].tag_name), version);
        assert(counts(rs[j], false) || (pre_build && counts(rs[j], true)));
    }
}

/// The running program compares itself as the stable build 2.0.2-release; a fetch that
/// failed is told as such, with its reason.
pub proof fn law_fetch_told(rs: Vec<GithubRelease>, e: String)
    ensures
        fetch_status(ReleaseFetch::Releases(rs)) == status_for(
            release_views(rs@),
            "2.0.2-release"@,
            false,
        ),
        fetch_status(ReleaseFetch::NetworkError(e)) == StatusView::CheckFailed(
            "Network error: "@ + e@,
        ),
        fetch_status(ReleaseFetch::BadResponse(e)) == StatusView::CheckFailed(
            "Bad response: "@ + e@,
        ),
{
}

/// The releases are asked for at the repository of the program.
pub proof fn law_releases_address()
    ensures
        releases_address() == "https://api.github.com/repos/makke08/ZeroPass/releases"@,
{
    reveal_strlit("https://api.github.com/repos/");
    reveal_strlit("makke08");
    reveal_strlit("/");
    reveal_strlit("ZeroPass");
    reveal_strlit("/releases");
    reveal_strlit("https://api.github.com/repos/makke08/ZeroPass/releases");
    assert(releases_address() =~= "https://api.github.com/repos/makke08/ZeroPass/releases"@);
}

/// Whatever stands between the dots before the first dash is one number of a version:
/// digits are their number, and anything else is zero.
pub proof fn law_version_parts_exact(parts: Seq<Seq<char>>, i: int)
    requires
        parts.len() > 0,
        forall|i: int| 0 <= i < parts.len() ==> !(#[trigger] parts[i]).contains('.'),
        forall|i: int, k: int|
            0 <= i < parts.len() && 0 <= k < parts[i].len() ==> #[trigger] parts[i][k] != '-',
        0 <= i < parts.len(),
    ensures
        ({
            let r = version_parts(joined(parts, seq!['.']));
            let p = parts[i];
            &&& r.len() == parts.len()
            &&& p.len() == 0 ==> r[i] == 0
            &&& (exists|k: int| 0 < k < p.len() && !('0' <= #[trigger] p[k] <= '9')) ==> r[i] == 0
            &&& p.len() > 0 && p[0] != '+' && !('0' <= p[0] <= '9') ==> r[i] == 0
            &&& p.len() > 0 && (forall|k: int| 0 <= k < p.len() ==> '0' <= #[trigger] p[k] <= '9')
                && digits_value(p) <= u64::MAX ==> r[i] == digits_value(p)
        }),
{
    let t = joined(parts, seq!['.']);
    law_joined_splits(parts, '.');
    lemma_joined_without(parts, '.', '-');
    assert forall|k: int| 0 <= k < t.len() implies t[k] != '-' by {
        assert(t.contains(t[k]));
    }
    lemma_first_place(t, '-', t.len() as int);
    assert(t.take(t.len() as int) =~= t);
    let p = parts[i];
    assert(version_parts(t)[i] == component(p));
    law_parsed_exact(0, p);
    if p.len() == 0 {
        assert(p =~= Seq::<char>::empty());
    } else if forall|k: int| 0 <= k < p.len() ==> '0' <= #[trigger] p[k] <= '9' {
        law_digits_parsed(p);
    }
}

/// A release is seen with every field, and a status as what it is.
pub proof fn law_release_view_exact(r: GithubRelease, version: String, url: String, reason: String)
    ensures
        r@.tag_name == r.tag_name@ && r@.html_url == r.html_url@ && r@.prerelease == r.prerelease
            && r@.draft == r.draft,
        (UpdateStatus::StableAvailable { version, url })@ == (StatusView::StableAvailable {
            version: version@,
            url: url@,
        }),
        (UpdateStatus::BetaAvailable { version, url })@ == (StatusView::BetaAvailable {
            version: version@,
            url: url@,
        }),
        UpdateStatus::CheckFailed(reason)@ == StatusView::CheckFailed(reason@),
        UpdateStatus::Unknown@ is Unknown,
        UpdateStatus::UpToDate@ is UpToDate,
{
}

} // verus!

//! The short-lived notices at the corner of the window.
use crate::model::lemma_filter_step;
use vstd::prelude::*;

verus! {

/// Milliseconds for which a toast flies in.
pub const TOAST_ENTER_MS: u64 = 250;

/// Milliseconds for which a toast stays.
pub const TOAST_HOLD_MS: u64 = 2800;

/// Milliseconds for which a toast flies out.
pub const TOAST_EXIT_MS: u64 = 300;

/// Milliseconds after which a toast is gone.
pub const TOAST_TOTAL_MS: u64 = 3350;

/// What a toast tells.
#[derive(Clone, Copy, Debug, PartialEq, Eq, Structural)]
pub enum ToastKind {
    Success,
    Error,
    Info,
}

/// A notice, and when it appeared.
pub struct Toast {
    pub message: String,
    pub kind: ToastKind,
    /// Milliseconds on the program's clock.
    pub spawned: u64,
}

#[verifier::ext_equal]
pub struct ToastView {
    pub message: Seq<char>,
    pub kind: ToastKind,
    pub spawned: u64,
}

impl View for Toast {
    type V = ToastView;

    open spec fn view(&self) -> ToastView {
        ToastView { message: self.message@, kind: self.kind, spawned: self.spawned }
    }
}

/// The toasts by their views.
pub open spec fn toast_views(v: Seq<Toast>) -> Seq<ToastView> {
    v.map_values(|t: Toast| t@)
}

/// The milliseconds since a toast appeared.
pub open spec fn toast_age(t: ToastView, now: u64) -> int {
    if now >= t.spawned {
        now - t.spawned
    } else {
        0
    }
}

/// The toasts after one more was shown: it comes last, and replaces those of its
/// kind.
pub open spec fn toast_added(ts: Seq<ToastView>, t: ToastView) -> Seq<ToastView> {
    ts.filter(|x: ToastView| x.kind != t.kind).push(t)
}

/// The toasts that are still shown at a time.
pub open spec fn toasts_alive(ts: Seq<ToastView>, now: u64) -> Seq<ToastView> {
    ts.filter(|t: ToastView| toast_age(t, now) < TOAST_TOTAL_MS)
}

fn drop_kind(toasts: &mut Vec<Toast>, kind: ToastKind)
    ensures
        toast_views(final(toasts)@) == toast_views(old(toasts)@).filter(
            |x: ToastView| x.kind != kind,
        ),
{
    let ghost all = toast_views(toasts@);
    let ghost p = |x: ToastView| x.kind != kind;
    let ghost mut done: int = 0;
    let mut i: usize = 0;
    proof {
        reveal(Seq::filter);
        assert(all.take(0).filter(p) =~= Seq::<ToastView>::empty());
        assert(all.subrange(0, all.len() as int) =~= all);
        assert(Seq::<ToastView>::empty() + all =~= all);
    }
    while i < toasts.len()
        invariant
            0 <= done <= all.len(),
            p == (|x: ToastView| x.kind != kind),
            i == all.take(done).filter(p).len(),
            toast_views(toasts@) == all.take(done).filter(p) + all.subrange(
                done,
                all.len() as int,
            ),
        decreases all.len() - done,
    {
        let ghost kept = all.take(done).filter(p);
        let ghost rest = all.subrange(done, all.len() as int);
        let ghost before = toast_views(toasts@);
        proof {
            assert(before.len() == toasts@.len());
            assert(done < all.len());
            assert(before[i as int] == rest[0]);
            assert(toasts@[i as int]@ == all[done]);
            lemma_filter_step(all, p, done);
        }
        if toasts[i].kind == kind {
            let _removed: Toast = toasts.remove(i);
            proof {
                assert(toast_views(toasts@) =~= before.remove(i as int));
                assert(before.remove(i as int) =~= kept + all.subrange(
                    done + 1,
                    all.len() as int,
                ));
            }
        } else {
            i += 1;
            proof {
                assert(before =~= kept.push(all[done]) + all.subrange(done + 1, all.len() as int));
            }
        }
        proof {
            done = done + 1;
        }
    }
    proof {
        assert(toast_views(toasts@).len() == toasts@.len());
        assert(done == all.len());
        assert(all.take(done) =~= all);
        assert(toast_views(toasts@) =~= all.filter(p));
    }
}

/// Shows a toast; it replaces those of its kind.
pub fn add_toast(toasts: &mut Vec<Toast>, message: String, kind: ToastKind, now: u64)
    ensures
        toast_views(final(toasts)@) == toast_added(
            toast_views(old(toasts)@),
            (ToastView { message: message@, kind, spawned: now }),
        ),
{
    let ghost was = toast_views(toasts@);
    let ghost t = ToastView { message: message@, kind, spawned: now };
    drop_kind(toasts, kind);
    let ghost kept = toast_views(toasts@);
    toasts.push(Toast { message, kind, spawned: now });
    proof {
        assert((|x: ToastView| x.kind != kind) =~= (|x: ToastView| x.kind != t.kind));
        assert(toast_views(toasts@) =~= kept.push(t));
    }
}

/// Drops the toasts that have been shown long enough.
pub fn drop_expired(toasts: &mut Vec<Toast>, now: u64)
    ensures
        toast_views(final(toasts)@) == toasts_alive(toast_views(old(toasts)@), now),
{
    let ghost all = toast_views(toasts@);
    let ghost p = |t: ToastView| toast_age(t, now) < TOAST_TOTAL_MS;
    let ghost mut done: int = 0;
    let mut i: usize = 0;
    proof {
        reveal(Seq::filter);
        assert(all.take(0).filter(p) =~= Seq::<ToastView>::empty());
        assert(all.subrange(0, all.len() as int) =~= all);
        assert(Seq::<ToastView>::empty() + all =~= all);
    }
    while i < toasts.len()
        invariant
            0 <= done <= all.len(),
            p == (|t: ToastView| toast_age(t, now) < TOAST_TOTAL_MS),
            i == all.take(done).filter(p).len(),
            toast_views(toasts@) == all.take(done).filter(p) + all.subrange(
                done,
                all.len() as int,
            ),
        decreases all.len() - done,
    {
        let ghost kept = all.take(done).filter(p);
        let ghost rest = all.subrange(done, all.len() as int);
        let ghost before = toast_views(toasts@);
        proof {
            assert(before.len() == toasts@.len());
            assert(done < all.len());
            assert(before[i as int] == rest[0]);
            assert(toasts@[i as int]@ == all[done]);
            lemma_filter_step(all, p, done);
        }
        let spawned: u64 = toasts[i].spawned;
        let alive: bool = now < spawned || now - spawned < TOAST_TOTAL_MS;
        if !alive {
            let _removed: Toast = toasts.remove(i);
            proof {
                assert(toast_views(toasts@) =~= before.remove(i as int));
                assert(before.remove(i as int) =~= kept + all.subrange(
                    done + 1,
                    all.len() as int,
                ));
            }
        } else {
            i += 1;
            proof {
                assert(before =~= kept.push(all[done]) + all.subrange(done + 1, all.len() as int));
            }
        }
        proof {
            done = done + 1;
        }
    }
    proof {
        assert(toast_views(toasts@).len() == toasts@.len());
        assert(done == all.len());
        assert(all.take(done) =~= all);
        assert(toast_views(toasts@) =~= all.filter(p));
    }
}

/// Where a toast is in its short life.
#[derive(Clone, Copy, Debug, PartialEq, Eq, Structural)]
pub enum ToastPhase {
    Entering,
    Holding,
    Leaving,
}

/// The phase of a toast of the given age.
pub open spec fn phase_of(elapsed: u64) -> ToastPhase {
    if elapsed < TOAST_ENTER_MS {
        ToastPhase::Entering
    } else if elapsed > TOAST_ENTER_MS + TOAST_HOLD_MS {
        ToastPhase::Leaving
    } else {
        ToastPhase::Holding
    }
}

/// The phase of a toast of the given age.
pub fn toast_phase(elapsed: u64) -> (res: ToastPhase)
    ensures
        res == phase_of(elapsed),
{
    if elapsed < TOAST_ENTER_MS {
        ToastPhase::Entering
    } else if elapsed > TOAST_ENTER_MS + TOAST_HOLD_MS {
        ToastPhase::Leaving
    } else {
        ToastPhase::Holding
    }
}

// ---------------------------------------------------------------------------
// Laws
// ---------------------------------------------------------------------------

/// No two toasts are of the same kind.
pub open spec fn one_per_kind(ts: Seq<ToastView>) -> bool {
    forall|i: int, j: int| 0 <= i < j < ts.len() ==> ts[i].kind != ts[j].kind
}

proof fn lemma_filter_keeps_one_per_kind(ts: Seq<ToastView>, p: spec_fn(ToastView) -> bool)
    requires
        one_per_kind(ts),
    ensures
        one_per_kind(ts.filter(p)),
        forall|x: ToastView| #[trigger] ts.filter(p).contains(x) <==> ts.contains(x) && p(x),
    decreases ts.len(),
{
    reveal(Seq::filter);
    if ts.len() > 0 {
        let init = ts.drop_last();
        assert(forall|i: int| 0 <= i < init.len() ==> init[i] == ts[i]);
        lemma_filter_keeps_one_per_kind(init, p);
        let kept = init.filter(p);
        let all = ts.filter(p);
        assert forall|x: ToastView| #[trigger] all.contains(x) <==> ts.contains(x) && p(x) by {
            if all.contains(x) {
                let k = choose|k: int| 0 <= k < all.len() && all[k] == x;
                if k < kept.len() {
                    assert(kept[k] == x);
                    assert(kept.contains(x));
                    assert(init.contains(x));
                    let m = choose|m: int| 0 <= m < init.len() && init[m] == x;
                    assert(ts[m] == x);
                } else {
                    assert(ts[ts.len() - 1] == x);
                }
            }
            if ts.contains(x) && p(x) {
                let k = choose|k: int| 0 <= k < ts.len() && ts[k] == x;
                if k < init.len() {
                    assert(init[k] == x);
                    assert(init.contains(x));
                    assert(kept.contains(x));
                    let m = choose|m: int| 0 <= m < kept.len() && kept[m] == x;
                    assert(all[m] == x);
                } else {
                    assert(all[all.len() - 1] == x);
                }
            }
        }
        if p(ts.last()) {
            assert forall|i: int, j: int| 0 <= i < j < all.len() implies all[i].kind
                != all[j].kind by {
                if j == all.len() - 1 {
                    assert(kept.contains(kept[i]));
                    assert(init.contains(kept[i]));
                    let m = choose|m: int| 0 <= m < init.len() && init[m] == kept[i];
                    assert(ts[m].kind != ts[ts.len() - 1].kind);
                }
            }
        }
    }
}

/// At most one toast of each kind is shown at a time, the newest last.
pub proof fn law_one_toast_per_kind(ts: Seq<ToastView>, t: ToastView)
    requires
        one_per_kind(ts),
    ensures
        one_per_kind(toast_added(ts, t)),
        toast_added(ts, t).last() == t,
        forall|x: ToastView|
            x.kind != t.kind ==> (#[trigger] toast_added(ts, t).contains(x) <==> ts.contains(x)),
{
    let p = |x: ToastView| x.kind != t.kind;
    lemma_filter_keeps_one_per_kind(ts, p);
    let kept = ts.filter(p);
    let all = toast_added(ts, t);
    assert(all == kept.push(t));
    assert forall|i: int, j: int| 0 <= i < j < all.len() implies all[i].kind != all[j].kind by {
        if j == all.len() - 1 {
            assert(kept.contains(kept[i]));
            assert(p(kept[i]));
        }
    }
    assert forall|x: ToastView| x.kind != t.kind implies (#[trigger] all.contains(x)
        <==> ts.contains(x)) by {
        if all.contains(x) {
            let k = choose|k: int| 0 <= k < all.len() && all[k] == x;
            assert(kept[k] == x);
            assert(kept.contains(x));
        }
        if ts.contains(x) {
            assert(kept.contains(x));
            let k = choose|k: int| 0 <= k < kept.len() && kept[k] == x;
            assert(all[k] == x);
        }
    }
}

/// A toast is gone once its time is over, and not before.
pub proof fn law_toast_expires(ts: Seq<ToastView>, now: u64, t: ToastView)
    requires
        one_per_kind(ts),
    ensures
        one_per_kind(toasts_alive(ts, now)),
        toasts_alive(ts, now).contains(t) <==> ts.contains(t) && toast_age(t, now)
            < TOAST_TOTAL_MS,
{
    lemma_filter_keeps_one_per_kind(ts, |t: ToastView| toast_age(t, now) < TOAST_TOTAL_MS);
}

/// A new toast stands last and takes the place of the one of its kind; the others stay
/// in their order.
pub proof fn law_toast_added_exact(ts: Seq<ToastView>, x: ToastView, t: ToastView)
    ensures
        toast_added(Seq::<ToastView>::empty(), t) == seq![t],
        x.kind == t.kind ==> toast_added(ts.push(x), t) == toast_added(ts, t),
        x.kind != t.kind ==> toast_added(ts.push(x), t) == toast_added(ts, t).drop_last().push(
            x,
        ).push(t),
{
    reveal(Seq::filter);
    assert(ts.push(x).drop_last() =~= ts);
    assert(toast_added(Seq::<ToastView>::empty(), t) =~= seq![t]);
    let kept = ts.filter(|y: ToastView| y.kind != t.kind);
    assert(kept.push(t).drop_last() =~= kept);
}

/// A toast is gone 3.35 seconds after it appeared, and not before; the others stay in
/// their order.
pub proof fn law_toast_lives_its_time(ts: Seq<ToastView>, x: ToastView, now: u64)
    ensures
        toasts_alive(Seq::<ToastView>::empty(), now).len() == 0,
        now >= x.spawned + 3350 ==> toasts_alive(ts.push(x), now) == toasts_alive(ts, now),
        now < x.spawned + 3350 ==> toasts_alive(ts.push(x), now) == toasts_alive(ts, now).push(x),
{
    reveal(Seq::filter);
    assert(ts.push(x).drop_last() =~= ts);
}

/// A toast flies in for a quarter of a second, stays for 2.8 seconds, and flies out.
pub proof fn law_phases_in_time(elapsed: u64)
    ensures
        phase_of(elapsed) is Entering <==> elapsed < 250,
        phase_of(elapsed) is Holding <==> 250 <= elapsed <= 3050,
        phase_of(elapsed) is Leaving <==> elapsed > 3050,
{
}

} // verus!

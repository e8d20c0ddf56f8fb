use vstd::prelude::*;

verus! {

/// What one poll of a switch reports. At most one event comes per poll.
#[derive(PartialEq, Eq, Structural, Clone, Copy, Debug)]
pub enum SwitchEvent {
    /// Nothing to report.
    Idle,
    /// A debounced press that does not complete a double click.
    Pressed,
    /// A debounced release.
    Released,
    /// A single short press whose double-click window ran out.
    Clicked,
    /// A second press within the double-click window of a short press.
    DoubleClicked,
    /// The switch has been held down for the hold threshold; once per press.
    Held,
}

/// What a switch holds, as plain values. All times are counted in polls.
pub struct SwitchView {
    pub debounce_window: u32,
    pub double_click_window: u32,
    pub held_thresh: u32,
    /// The physical level at the last poll.
    pub level: bool,
    /// Consecutive polls, the last included, at which `level` was seen.
    pub stable_ticks: u32,
    /// The debounced level.
    pub pressed: bool,
    /// Polls since the debounced press.
    pub press_ticks: u32,
    /// `Held` has been reported for the current press.
    pub held: bool,
    /// The current press completed a double click.
    pub second_press: bool,
    /// A short press was released and its click waits for the window to end.
    pub click_pending: bool,
    /// Polls since the release that armed the pending click.
    pub release_ticks: u32,
}

pub open spec fn bump(n: u32) -> u32 {
    if n < u32::MAX {
        (n + 1) as u32
    } else {
        n
    }
}

impl SwitchView {
    /// The state and the event after one poll that reads `level`.
    ///
    /// A level change is accepted once it has been seen for
    /// `debounce_window` consecutive polls. An accepted press reports
    /// `DoubleClicked` when a click is pending, else `Pressed`. An accepted
    /// release reports `Released`, and arms a pending click when the press
    /// was neither held nor the second of a double click and lasted less than
    /// `double_click_window` polls. While pressed, `Held` comes once when the
    /// press reaches `held_thresh` polls. While released, a pending click is
    /// reported as `Clicked` when `double_click_window` polls have passed
    /// since the release.
    pub open spec fn polled(self, level: bool) -> (SwitchView, SwitchEvent) {
        let stable_ticks = if level == self.level {
            bump(self.stable_ticks)
        } else {
            1u32
        };
        let s = SwitchView { level, stable_ticks, ..self };
        let edge = level != self.pressed && stable_ticks >= self.debounce_window;
        if edge && level {
            if self.click_pending {
                (
                    SwitchView {
                        pressed: true,
                        press_ticks: 0,
                        held: false,
                        second_press: true,
                        click_pending: false,
                        ..s
                    },
                    SwitchEvent::DoubleClicked,
                )
            } else {
                (
                    SwitchView {
                        pressed: true,
                        press_ticks: 0,
                        held: false,
                        second_press: false,
                        ..s
                    },
                    SwitchEvent::Pressed,
                )
            }
        } else if edge {
            let arm = !self.held && !self.second_press && self.press_ticks
                < self.double_click_window;
            (
                SwitchView { pressed: false, click_pending: arm, release_ticks: 0, ..s },
                SwitchEvent::Released,
            )
        } else if self.pressed {
            let t = bump(self.press_ticks);
            if !self.held && t >= self.held_thresh {
                (SwitchView { press_ticks: t, held: true, ..s }, SwitchEvent::Held)
            } else {
                (SwitchView { press_ticks: t, ..s }, SwitchEvent::Idle)
            }
        } else if self.click_pending {
            let t = bump(self.release_ticks);
            if t >= self.double_click_window {
                (SwitchView { release_ticks: t, click_pending: false, ..s }, SwitchEvent::Clicked)
            } else {
                (SwitchView { release_ticks: t, ..s }, SwitchEvent::Idle)
            }
        } else {
            (s, SwitchEvent::Idle)
        }
    }
}

impl SwitchView {
    /// The state and the events after polling each level in turn.
    pub open spec fn polled_all(self, levels: Seq<bool>) -> (SwitchView, Seq<SwitchEvent>)
        decreases levels.len(),
    {
        if levels.len() == 0 {
            (self, Seq::empty())
        } else {
            let first = self.polled(levels[0]);
            let rest = first.0.polled_all(levels.subrange(1, levels.len() as int));
            (rest.0, seq![first.1] + rest.1)
        }
    }

    /// Released, at a released level, with no click pending.
    pub open spec fn at_rest(self) -> bool {
        !self.pressed && !self.level && !self.click_pending
    }

    /// Polls at one level that it takes for a change to that level to be
    /// accepted.
    pub open spec fn settle(self) -> nat {
        if self.debounce_window == 0 {
            1
        } else {
            self.debounce_window as nat
        }
    }

    /// Polls after an accepted press at which `Held` is reported.
    pub open spec fn hold_polls(self) -> nat {
        if self.held_thresh == 0 {
            1
        } else {
            self.held_thresh as nat
        }
    }

    /// Consecutive polls, the last included, at which `l` has been seen.
    pub open spec fn seen(self, l: bool) -> nat {
        if self.level == l {
            self.stable_ticks as nat
        } else {
            0
        }
    }
}

/// `n` polls at level `l`.
pub open spec fn repeat(l: bool, n: nat) -> Seq<bool> {
    Seq::new(n, |i: int| l)
}

/// How many times `e` occurs in `es`.
pub open spec fn count_of(es: Seq<SwitchEvent>, e: SwitchEvent) -> nat
    decreases es.len(),
{
    if es.len() == 0 {
        0
    } else {
        (if es[0] == e {
            1nat
        } else {
            0nat
        }) + count_of(es.subrange(1, es.len() as int), e)
    }
}

proof fn lemma_count_append(a: Seq<SwitchEvent>, b: Seq<SwitchEvent>, e: SwitchEvent)
    ensures
        count_of(a + b, e) == count_of(a, e) + count_of(b, e),
    decreases a.len(),
{
    if a.len() == 0 {
        assert(a + b =~= b);
    } else {
        assert((a + b).subrange(1, (a + b).len() as int) =~= a.subrange(1, a.len() as int) + b);
        lemma_count_append(a.subrange(1, a.len() as int), b, e);
    }
}

proof fn lemma_count_idle(n: nat, e: SwitchEvent)
    requires
        e != SwitchEvent::Idle,
    ensures
        count_of(Seq::new(n, |i: int| SwitchEvent::Idle), e) == 0,
    decreases n,
{
    if n > 0 {
        assert(Seq::new(n, |i: int| SwitchEvent::Idle).subrange(1, n as int) =~= Seq::new(
            (n - 1) as nat,
            |i: int| SwitchEvent::Idle,
        ));
        lemma_count_idle((n - 1) as nat, e);
    }
}

proof fn lemma_count_single(x: SwitchEvent, e: SwitchEvent)
    ensures
        count_of(seq![x], e) == if x == e {
            1nat
        } else {
            0nat
        },
{
    assert(seq![x].subrange(1, 1) =~= Seq::<SwitchEvent>::empty());
    assert(count_of(Seq::<SwitchEvent>::empty(), e) == 0);
}

proof fn lemma_polled_all_append(v: SwitchView, a: Seq<bool>, b: Seq<bool>)
    ensures
        v.polled_all(a + b) == (
            v.polled_all(a).0.polled_all(b).0,
            v.polled_all(a).1 + v.polled_all(a).0.polled_all(b).1,
        ),
    decreases a.len(),
{
    if a.len() == 0 {
        assert(a + b =~= b);
        assert(Seq::<SwitchEvent>::empty() + v.polled_all(b).1 =~= v.polled_all(b).1);
    } else {
        let w = v.polled(a[0]).0;
        let a1 = a.subrange(1, a.len() as int);
        assert((a + b)[0] == a[0]);
        assert((a + b).subrange(1, (a + b).len() as int) =~= a1 + b);
        lemma_polled_all_append(w, a1, b);
        let e = v.polled(a[0]).1;
        assert(seq![e] + (w.polled_all(a1).1 + w.polled_all(a1).0.polled_all(b).1) =~= (seq![e]
            + w.polled_all(a1).1) + w.polled_all(a1).0.polled_all(b).1);
    }
}

proof fn lemma_polled_single(v: SwitchView, l: bool)
    ensures
        v.polled_all(seq![l]) == (v.polled(l).0, seq![v.polled(l).1]),
{
    assert(seq![l].subrange(1, 1) =~= Seq::<bool>::empty());
    assert(v.polled(l).0.polled_all(Seq::<bool>::empty()) == (v.polled(l).0, Seq::<
        SwitchEvent,
    >::empty()));
    assert(seq![v.polled(l).1] + Seq::<SwitchEvent>::empty() =~= seq![v.polled(l).1]);
}

/// `n` polls at level `l` in which nothing is accepted or reported: no
/// level change is accepted, no hold is reached and no pending click ends.
proof fn lemma_quiet(v: SwitchView, l: bool, n: nat)
    requires
        n > 0 ==> l == v.pressed || v.seen(l) + n < v.debounce_window,
        n > 0 && v.pressed && !v.held ==> v.press_ticks + n < v.held_thresh,
        n > 0 && !v.pressed && v.click_pending ==> v.release_ticks + n
            < v.double_click_window,
    ensures
        ({
            let (u, es) = v.polled_all(repeat(l, n));
            &&& es == Seq::new(n, |i: int| SwitchEvent::Idle)
            &&& u.debounce_window == v.debounce_window
            &&& u.double_click_window == v.double_click_window
            &&& u.held_thresh == v.held_thresh
            &&& u.pressed == v.pressed
            &&& u.held == v.held
            &&& u.second_press == v.second_press
            &&& u.click_pending == v.click_pending
            &&& n == 0 ==> u == v
            &&& n > 0 ==> u.level == l
            &&& l != v.pressed ==> u.seen(l) == v.seen(l) + n
            &&& v.pressed && !v.held ==> u.press_ticks == v.press_ticks + n
            &&& !v.pressed && v.click_pending ==> u.release_ticks == v.release_ticks + n
        }),
    decreases n,
{
    if n == 0 {
        assert(Seq::new(0, |i: int| SwitchEvent::Idle) =~= Seq::<SwitchEvent>::empty());
    } else {
        let w = v.polled(l).0;
        assert(v.polled(l).1 == SwitchEvent::Idle);
        assert(repeat(l, n).subrange(1, n as int) =~= repeat(l, (n - 1) as nat));
        lemma_quiet(w, l, (n - 1) as nat);
        assert(seq![SwitchEvent::Idle] + Seq::new((n - 1) as nat, |i: int| SwitchEvent::Idle)
            =~= Seq::new(n, |i: int| SwitchEvent::Idle));
    }
}

/// One press held past the hold threshold, then released: from rest,
/// `a` polls pressed and `b` polls released give exactly one `Held` and no
/// click.
pub proof fn lemma_long_press_is_held_once(v: SwitchView, a: nat, b: nat)
    requires
        v.at_rest(),
        a >= v.settle() + v.hold_polls(),
    ensures
        count_of(v.polled_all(repeat(true, a) + repeat(false, b)).1, SwitchEvent::Held) == 1,
        count_of(v.polled_all(repeat(true, a) + repeat(false, b)).1, SwitchEvent::Clicked) == 0,
        count_of(v.polled_all(repeat(true, a) + repeat(false, b)).1, SwitchEvent::DoubleClicked)
            == 0,
{
    let d = v.settle();
    let h = (v.hold_polls() - 1) as nat;
    let r1 = (a - d - h - 1) as nat;
    // pressed: wait for the debounce, accept, count up to the threshold,
    // report Held, then stay quiet.
    let seg1 = repeat(true, (d - 1) as nat);
    let seg2 = seq![true];
    let seg3 = repeat(true, h);
    let seg4 = seq![true];
    let seg5 = repeat(true, r1);
    assert(repeat(true, a) =~= seg1 + seg2 + seg3 + seg4 + seg5);
    lemma_quiet(v, true, (d - 1) as nat);
    let v1 = v.polled_all(seg1).0;
    lemma_polled_single(v1, true);
    let v2 = v1.polled(true).0;
    assert(v1.polled(true).1 == SwitchEvent::Pressed);
    lemma_quiet(v2, true, h);
    let v3 = v2.polled_all(seg3).0;
    lemma_polled_single(v3, true);
    let v4 = v3.polled(true).0;
    assert(v3.polled(true).1 == SwitchEvent::Held);
    lemma_quiet(v4, true, r1);
    let v5 = v4.polled_all(seg5).0;
    assert(v5.pressed && v5.held);
    // released: the release may or may not be accepted; either way it arms
    // no click.
    let released = if b >= d {
        let seg6 = repeat(false, (d - 1) as nat);
        let seg7 = seq![false];
        let seg8 = repeat(false, (b - d) as nat);
        assert(repeat(false, b) =~= seg6 + seg7 + seg8);
        lemma_quiet(v5, false, (d - 1) as nat);
        let v6 = v5.polled_all(seg6).0;
        lemma_polled_single(v6, false);
        let v7 = v6.polled(false).0;
        assert(v6.polled(false).1 == SwitchEvent::Released);
        lemma_quiet(v7, false, (b - d) as nat);
        lemma_polled_all_append(v5, seg6, seg7);
        lemma_polled_all_append(v5, seg6 + seg7, seg8);
        lemma_count_idle((d - 1) as nat, SwitchEvent::Held);
        lemma_count_idle((b - d) as nat, SwitchEvent::Held);
        lemma_count_idle((d - 1) as nat, SwitchEvent::Clicked);
        lemma_count_idle((b - d) as nat, SwitchEvent::Clicked);
        lemma_count_idle((d - 1) as nat, SwitchEvent::DoubleClicked);
        lemma_count_idle((b - d) as nat, SwitchEvent::DoubleClicked);
        let es6 = v5.polled_all(seg6).1;
        let es8 = v7.polled_all(seg8).1;
        let es7 = seq![SwitchEvent::Released];
        lemma_count_append(es6, es7, SwitchEvent::Held);
        lemma_count_append(es6 + es7, es8, SwitchEvent::Held);
        lemma_count_append(es6, es7, SwitchEvent::Clicked);
        lemma_count_append(es6 + es7, es8, SwitchEvent::Clicked);
        lemma_count_append(es6, es7, SwitchEvent::DoubleClicked);
        lemma_count_append(es6 + es7, es8, SwitchEvent::DoubleClicked);
        lemma_count_single(SwitchEvent::Released, SwitchEvent::Held);
        lemma_count_single(SwitchEvent::Released, SwitchEvent::Clicked);
        lemma_count_single(SwitchEvent::Released, SwitchEvent::DoubleClicked);
        v5.polled_all(repeat(false, b)).1
    } else {
        lemma_quiet(v5, false, b);
        lemma_count_idle(b, SwitchEvent::Held);
        lemma_count_idle(b, SwitchEvent::Clicked);
        lemma_count_idle(b, SwitchEvent::DoubleClicked);
        v5.polled_all(repeat(false, b)).1
    };
    assert(count_of(released, SwitchEvent::Held) == 0);
    assert(count_of(released, SwitchEvent::Clicked) == 0);
    assert(count_of(released, SwitchEvent::DoubleClicked) == 0);
    // put the pressed segments together
    lemma_polled_all_append(v, seg1, seg2);
    lemma_polled_all_append(v, seg1 + seg2, seg3);
    lemma_polled_all_append(v, seg1 + seg2 + seg3, seg4);
    lemma_polled_all_append(v, seg1 + seg2 + seg3 + seg4, seg5);
    lemma_polled_all_append(v, repeat(true, a), repeat(false, b));
    let es1 = v.polled_all(seg1).1;
    let es2 = seq![SwitchEvent::Pressed];
    let es3 = v2.polled_all(seg3).1;
    let es4 = seq![SwitchEvent::Held];
    let es5 = v4.polled_all(seg5).1;
    let all = es1 + es2 + es3 + es4 + es5 + released;
    assert(v.polled_all(repeat(true, a) + repeat(false, b)).1 == all);
    let kinds = seq![SwitchEvent::Held, SwitchEvent::Clicked, SwitchEvent::DoubleClicked];
    assert forall|k: int| 0 <= k < 3 implies count_of(all, #[trigger] kinds[k]) == if k == 0 {
        1nat
    } else {
        0nat
    } by {
        let e = kinds[k];
        lemma_count_idle((d - 1) as nat, e);
        lemma_count_idle(h, e);
        lemma_count_idle(r1, e);
        lemma_count_single(SwitchEvent::Pressed, e);
        lemma_count_single(SwitchEvent::Held, e);
        lemma_count_append(es1, es2, e);
        lemma_count_append(es1 + es2, es3, e);
        lemma_count_append(es1 + es2 + es3, es4, e);
        lemma_count_append(es1 + es2 + es3 + es4, es5, e);
        lemma_count_append(es1 + es2 + es3 + es4 + es5, released, e);
    }
    assert(kinds[0] == SwitchEvent::Held);
    assert(kinds[1] == SwitchEvent::Clicked);
    assert(kinds[2] == SwitchEvent::DoubleClicked);
}

impl SwitchView {
    /// The event with which a change to level `l` is accepted.
    pub open spec fn change_event(self, l: bool) -> SwitchEvent {
        if !l {
            SwitchEvent::Released
        } else if self.click_pending {
            SwitchEvent::DoubleClicked
        } else {
            SwitchEvent::Pressed
        }
    }

    /// Whether an accepted release, after the debounce wait, arms a click.
    pub open spec fn release_arms(self) -> bool {
        !self.held && !self.second_press && self.press_ticks + self.settle() - 1
            < self.double_click_window
    }
}

/// `n` polls at a new level `l`: the change is accepted after the debounce
/// wait with its one event, and the rest of the polls are quiet.
proof fn lemma_change(v: SwitchView, l: bool, n: nat)
    requires
        l != v.pressed,
        v.level != l,
        n >= v.settle(),
        v.settle() > 1 && v.pressed && !v.held ==> v.press_ticks + v.settle() - 1
            < v.held_thresh,
        v.settle() > 1 && !v.pressed && v.click_pending ==> v.release_ticks + v.settle() - 1
            < v.double_click_window,
        l && n > v.settle() ==> n - v.settle() < v.held_thresh,
        !l && n > v.settle() && v.release_arms() ==> n - v.settle() < v.double_click_window,
    ensures
        ({
            let (u, es) = v.polled_all(repeat(l, n));
            &&& forall|e: SwitchEvent|
                e != SwitchEvent::Idle ==> #[trigger] count_of(es, e) == if e == v.change_event(
                    l,
                ) {
                    1nat
                } else {
                    0nat
                }
            &&& u.debounce_window == v.debounce_window
            &&& u.double_click_window == v.double_click_window
            &&& u.held_thresh == v.held_thresh
            &&& u.pressed == l
            &&& u.level == l
            &&& l ==> !u.held && u.second_press == v.click_pending && !u.click_pending
                && u.press_ticks == n - v.settle()
            &&& !l ==> u.click_pending == v.release_arms()
            &&& !l && v.release_arms() ==> u.release_ticks == n - v.settle()
        }),
{
    let d = v.settle();
    let seg1 = repeat(l, (d - 1) as nat);
    let seg2 = seq![l];
    let seg3 = repeat(l, (n - d) as nat);
    assert(repeat(l, n) =~= seg1 + seg2 + seg3);
    lemma_quiet(v, l, (d - 1) as nat);
    let v1 = v.polled_all(seg1).0;
    lemma_polled_single(v1, l);
    let v2 = v1.polled(l).0;
    let e = v1.polled(l).1;
    assert(e == v.change_event(l));
    lemma_quiet(v2, l, (n - d) as nat);
    lemma_polled_all_append(v, seg1, seg2);
    lemma_polled_all_append(v, seg1 + seg2, seg3);
    let es1 = v.polled_all(seg1).1;
    let es3 = v2.polled_all(seg3).1;
    assert(v.polled_all(repeat(l, n)).1 == es1 + seq![e] + es3);
    assert forall|x: SwitchEvent| x != SwitchEvent::Idle implies #[trigger] count_of(
        v.polled_all(repeat(l, n)).1,
        x,
    ) == if x == v.change_event(l) {
        1nat
    } else {
        0nat
    } by {
        lemma_count_idle((d - 1) as nat, x);
        lemma_count_idle((n - d) as nat, x);
        lemma_count_single(e, x);
        lemma_count_append(es1, seq![e], x);
        lemma_count_append(es1 + seq![e], es3, x);
    }
}

/// Two short presses close together: from rest, a press of `a1` polls, a
/// gap of `b1` polls within the double-click window, a second press of `a2`
/// polls and `b2` released polls give exactly one `DoubleClicked`, no
/// `Held` and no single click. Each press is no longer than the hold
/// threshold (the first no longer than the double-click window either), and
/// each press and the gap last at least the debounce wait.
pub proof fn lemma_two_short_presses_double_click(
    v: SwitchView,
    a1: nat,
    b1: nat,
    a2: nat,
    b2: nat,
)
    requires
        v.at_rest(),
        v.settle() <= a1 <= v.held_thresh,
        a1 <= v.double_click_window,
        v.settle() <= b1 <= v.double_click_window,
        v.settle() <= a2 <= v.held_thresh,
    ensures
        ({
            let es = v.polled_all(
                repeat(true, a1) + repeat(false, b1) + repeat(true, a2) + repeat(false, b2),
            ).1;
            &&& count_of(es, SwitchEvent::DoubleClicked) == 1
            &&& count_of(es, SwitchEvent::Held) == 0
            &&& count_of(es, SwitchEvent::Clicked) == 0
        }),
{
    let s1 = repeat(true, a1);
    let s2 = repeat(false, b1);
    let s3 = repeat(true, a2);
    let s4 = repeat(false, b2);
    lemma_change(v, true, a1);
    let u1 = v.polled_all(s1).0;
    lemma_change(u1, false, b1);
    let u2 = u1.polled_all(s2).0;
    lemma_change(u2, true, a2);
    let u3 = u2.polled_all(s3).0;
    let es1 = v.polled_all(s1).1;
    let es2 = u1.polled_all(s2).1;
    let es3 = u2.polled_all(s3).1;
    let es4 = u3.polled_all(s4).1;
    if b2 >= v.settle() {
        lemma_change(u3, false, b2);
    } else {
        lemma_quiet(u3, false, b2);
    }
    lemma_polled_all_append(v, s1, s2);
    lemma_polled_all_append(v, s1 + s2, s3);
    lemma_polled_all_append(v, s1 + s2 + s3, s4);
    let all = es1 + es2 + es3 + es4;
    assert(v.polled_all(s1 + s2 + s3 + s4).1 == all);
    let kinds = seq![SwitchEvent::DoubleClicked, SwitchEvent::Held, SwitchEvent::Clicked];
    assert forall|k: int| 0 <= k < 3 implies count_of(all, #[trigger] kinds[k]) == if k == 0 {
        1nat
    } else {
        0nat
    } by {
        let e = kinds[k];
        if b2 < v.settle() {
            lemma_count_idle(b2, e);
        }
        lemma_count_append(es1, es2, e);
        lemma_count_append(es1 + es2, es3, e);
        lemma_count_append(es1 + es2 + es3, es4, e);
    }
    assert(kinds[0] == SwitchEvent::DoubleClicked);
    assert(kinds[1] == SwitchEvent::Held);
    assert(kinds[2] == SwitchEvent::Clicked);
}

/// A switch read once per poll, turned into debounced press, release,
/// click, double-click and hold events.
pub struct DebouncedInput {
    debounce_window: u32,
    double_click_window: u32,
    held_thresh: u32,
    level: bool,
    stable_ticks: u32,
    pressed: bool,
    press_ticks: u32,
    held: bool,
    second_press: bool,
    click_pending: bool,
    release_ticks: u32,
}

impl View for DebouncedInput {
    type V = SwitchView;

    closed spec fn view(&self) -> SwitchView {
        SwitchView {
            debounce_window: self.debounce_window,
            double_click_window: self.double_click_window,
            held_thresh: self.held_thresh,
            level: self.level,
            stable_ticks: self.stable_ticks,
            pressed: self.pressed,
            press_ticks: self.press_ticks,
            held: self.held,
            second_press: self.second_press,
            click_pending: self.click_pending,
            release_ticks: self.release_ticks,
        }
    }
}

fn bump_count(n: u32) -> (r: u32)
    ensures
        r == bump(n),
{
    if n < u32::MAX {
        n + 1
    } else {
        n
    }
}

impl DebouncedInput {
    /// A released switch, long at rest, with no click pending.
    pub fn new(debounce_window: u32, double_click_window: u32, held_thresh: u32) -> (s:
        DebouncedInput)
        ensures
            s@ == (SwitchView {
                debounce_window,
                double_click_window,
                held_thresh,
                level: false,
                stable_ticks: u32::MAX,
                pressed: false,
                press_ticks: 0,
                held: false,
                second_press: false,
                click_pending: false,
                release_ticks: 0,
            }),
    {
        DebouncedInput {
            debounce_window,
            double_click_window,
            held_thresh,
            level: false,
            stable_ticks: u32::MAX,
            pressed: false,
            press_ticks: 0,
            held: false,
            second_press: false,
            click_pending: false,
            release_ticks: 0,
        }
    }

    /// One poll: reads the physical level and reports at most one event.
    pub fn update(&mut self, level: bool) -> (ev: SwitchEvent)
        ensures
            (final(self)@, ev) == old(self)@.polled(level),
    {
        let stable_ticks = if level == self.level {
            bump_count(self.stable_ticks)
        } else {
            1
        };
        let edge = level != self.pressed && stable_ticks >= self.debounce_window;
        let was_pressed = self.pressed;
        let was_held = self.held;
        let was_pending = self.click_pending;
        self.level = level;
        self.stable_ticks = stable_ticks;
        if edge && level {
            self.pressed = true;
            self.press_ticks = 0;
            self.held = false;
            if was_pending {
                self.second_press = true;
                self.click_pending = false;
                SwitchEvent::DoubleClicked
            } else {
                self.second_press = false;
                SwitchEvent::Pressed
            }
        } else if edge {
            self.click_pending = !was_held && !self.second_press && self.press_ticks
                < self.double_click_window;
            self.pressed = false;
            self.release_ticks = 0;
            SwitchEvent::Released
        } else if was_pressed {
            let t = bump_count(self.press_ticks);
            self.press_ticks = t;
            if !was_held && t >= self.held_thresh {
                self.held = true;
                SwitchEvent::Held
            } else {
                SwitchEvent::Idle
            }
        } else if was_pending {
            let t = bump_count(self.release_ticks);
            self.release_ticks = t;
            if t >= self.double_click_window {
                self.click_pending = false;
                SwitchEvent::Clicked
            } else {
                SwitchEvent::Idle
            }
        } else {
            SwitchEvent::Idle
        }
    }

    /// The debounced level.
    pub fn is_pressed(&self) -> (r: bool)
        ensures
            r == self@.pressed,
    {
        self.pressed
    }
}

} // verus!

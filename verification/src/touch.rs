//! Debouncing of the FT5336 touch controller's samples into UI interactions.

use vstd::prelude::*;

verus! {

/// Consecutive frames with a touch that confirm a press.
pub const PRESS_THRESHOLD: u8 = 2;

/// Consecutive frames without a touch that confirm a release.
pub const RELEASE_THRESHOLD: u8 = 3;

/// A position on the panel in pixels.
#[derive(Clone, Copy, Debug, PartialEq, Eq, Structural)]
pub struct Point {
    pub x: i32,
    pub y: i32,
}

/// What a touch sample means to the UI.
#[derive(Clone, Copy, Debug, PartialEq, Eq, Structural)]
pub enum Interaction {
    /// A press was confirmed at this point.
    Click(Point),
    /// The finger is held down and is at this point.
    Drag(Point),
    /// A release was confirmed; the point is the last one touched.
    Release(Point),
    /// Nothing to report.
    Nothing,
}

/// The debouncer's state, as plain values.
#[derive(Clone, Copy, Debug, PartialEq, Eq, Structural)]
pub struct TouchView {
    pub was_touching: bool,
    pub last_point: Point,
    pub stable_count: u8,
    pub release_count: u8,
}

/// Debounces the touch controller: a press counts once it is seen on
/// `PRESS_THRESHOLD` consecutive frames, a release once no touch is seen on
/// `RELEASE_THRESHOLD` consecutive frames.
pub struct TouchHandler {
    pub was_touching: bool,
    last_point: Point,
    stable_count: u8,
    release_count: u8,
}

impl View for TouchHandler {
    type V = TouchView;

    closed spec fn view(&self) -> TouchView {
        TouchView {
            was_touching: self.was_touching,
            last_point: self.last_point,
            stable_count: self.stable_count,
            release_count: self.release_count,
        }
    }
}

/// The state in which a handler starts.
pub open spec fn initial_touch_view() -> TouchView {
    TouchView {
        was_touching: false,
        last_point: Point { x: 0, y: 0 },
        stable_count: 0,
        release_count: 0,
    }
}

/// The point a frame reports: the sampled one if there is one, else the last.
pub open spec fn current_point(s: TouchView, touch_point: Option<(i32, i32)>) -> Point {
    match touch_point {
        Some((x, y)) => Point { x, y },
        None => s.last_point,
    }
}

/// One frame of the debouncer: the next state and the interaction reported,
/// given whether a touch was detected and the sampled point, if any.
pub open spec fn touch_step(s: TouchView, detected: bool, touch_point: Option<(i32, i32)>) -> (
    TouchView,
    Interaction,
) {
    let p = current_point(s, touch_point);
    if detected {
        let stable: u8 = if s.stable_count < 2 { (s.stable_count + 1) as u8 } else { s.stable_count };
        let next = TouchView { was_touching: s.was_touching, last_point: p, stable_count: stable, release_count: 0 };
        if !s.was_touching && stable >= 2 {
            (TouchView { was_touching: true, ..next }, Interaction::Click(p))
        } else if s.was_touching {
            (next, Interaction::Drag(p))
        } else {
            (next, Interaction::Nothing)
        }
    } else if s.was_touching {
        let release: u8 = if s.release_count < 3 { (s.release_count + 1) as u8 } else { s.release_count };
        if release >= 3 {
            (
                TouchView { was_touching: false, last_point: p, stable_count: 0, release_count: release },
                Interaction::Release(s.last_point),
            )
        } else {
            (
                TouchView { was_touching: true, last_point: p, stable_count: 0, release_count: release },
                Interaction::Nothing,
            )
        }
    } else {
        (TouchView { stable_count: 0, last_point: p, ..s }, Interaction::Nothing)
    }
}

/// The point that a raw FT5336 reading stands for: the controller's axes are
/// swapped with respect to the panel's.
pub open spec fn panel_point(raw: Option<(u16, u16)>) -> Option<(i32, i32)> {
    match raw {
        Some((x, y)) => Some((y as i32, x as i32)),
        None => None,
    }
}

impl TouchHandler {
    /// A handler with no touch in progress.
    pub fn new() -> (h: TouchHandler)
        ensures
            h@ == initial_touch_view(),
    {
        TouchHandler {
            was_touching: false,
            last_point: Point { x: 0, y: 0 },
            stable_count: 0,
            release_count: 0,
        }
    }

    /// Whether a touch is in progress.
    pub fn was_touching(&self) -> (b: bool)
        ensures
            b == self@.was_touching,
    {
        self.was_touching
    }

    /// Feed one frame's sample: whether a touch is detected and, if the
    /// controller was read, the touched point.
    pub fn update(&mut self, touch_detected: bool, touch_point: Option<(i32, i32)>) -> (i: Interaction)
        ensures
            (final(self)@, i) == touch_step(old(self)@, touch_detected, touch_point),
    {
        let mut interaction = Interaction::Nothing;

        let current_point = if let Some((x, y)) = touch_point {
            Point { x, y }
        } else {
            self.last_point
        };

        if touch_detected {
            self.release_count = 0;

            if self.stable_count < PRESS_THRESHOLD {
                self.stable_count += 1;
            }

            if !self.was_touching && self.stable_count >= PRESS_THRESHOLD {
                self.was_touching = true;
                interaction = Interaction::Click(current_point);
            } else if self.was_touching {
                interaction = Interaction::Drag(current_point);
            }
        } else {
            self.stable_count = 0;

            if self.was_touching {
                if self.release_count < RELEASE_THRESHOLD {
                    self.release_count += 1;
                }

                if self.release_count >= RELEASE_THRESHOLD {
                    self.was_touching = false;
                    interaction = Interaction::Release(self.last_point);
                }
            }
        }

        self.last_point = current_point;
        interaction
    }

    /// One round of the touch task: feed the sample, where `reading` is the
    /// controller's raw `(x, y)` if it was read, and return the interaction
    /// to send to the UI, if there is one.
    pub fn poll(&mut self, detected: bool, reading: Option<(u16, u16)>) -> (sent: Option<Interaction>)
        ensures
            final(self)@ == touch_step(old(self)@, detected, panel_point(reading)).0,
            sent == (if touch_step(old(self)@, detected, panel_point(reading)).1 is Nothing {
                None
            } else {
                Some(touch_step(old(self)@, detected, panel_point(reading)).1)
            }),
            reading matches Some((x, y)) ==> final(self)@.last_point == (Point {
                x: y as i32,
                y: x as i32,
            }),
            reading matches Some((x, y)) ==> (sent matches Some(Interaction::Click(p)) ==> p == (
            Point { x: y as i32, y: x as i32 })),
            reading matches Some((x, y)) ==> (sent matches Some(Interaction::Drag(p)) ==> p == (
            Point { x: y as i32, y: x as i32 })),
    {
        let point = match reading {
            Some((x, y)) => Some(touch_point_from_raw(x, y)),
            None => None,
        };
        let interaction = self.update(detected, point);
        match interaction {
            Interaction::Nothing => None,
            _ => Some(interaction),
        }
    }
}

/// The panel point of a raw FT5336 reading `(x, y)`: `(y, x)`.
pub fn touch_point_from_raw(x: u16, y: u16) -> (p: (i32, i32))
    ensures
        p == (y as i32, x as i32),
{
    (y as i32, x as i32)
}


/// The debouncer's counters do not pass their thresholds.
pub open spec fn counts_bounded(s: TouchView) -> bool {
    s.stable_count <= PRESS_THRESHOLD && s.release_count <= RELEASE_THRESHOLD
}

/// The debouncer over a sequence of frames: the final state and the
/// interaction reported on each frame.
pub open spec fn touch_run(s: TouchView, frames: Seq<(bool, Option<(i32, i32)>)>) -> (
    TouchView,
    Seq<Interaction>,
)
    decreases frames.len(),
{
    if frames.len() == 0 {
        (s, Seq::empty())
    } else {
        let (t, events) = touch_run(s, frames.drop_last());
        let (u, i) = touch_step(t, frames.last().0, frames.last().1);
        (u, events.push(i))
    }
}

/// Whether a touch is in progress after `events`, starting from `touching`:
/// a Click or a Drag leaves one in progress, a Release ends it, Nothing
/// changes nothing.
pub open spec fn touching_after(touching: bool, events: Seq<Interaction>) -> bool
    decreases events.len(),
{
    if events.len() == 0 {
        touching
    } else {
        match events.last() {
            Interaction::Click(_) => true,
            Interaction::Drag(_) => true,
            Interaction::Release(_) => false,
            Interaction::Nothing => touching_after(touching, events.drop_last()),
        }
    }
}

/// Whether `events` are bracketed, starting from `touching`: a Click comes
/// only when no touch is in progress, a Drag or a Release only when one is.
pub open spec fn events_bracketed(touching: bool, events: Seq<Interaction>) -> bool
    decreases events.len(),
{
    if events.len() == 0 {
        true
    } else {
        let before = touching_after(touching, events.drop_last());
        &&& events_bracketed(touching, events.drop_last())
        &&& match events.last() {
            Interaction::Click(_) => !before,
            Interaction::Drag(_) => before,
            Interaction::Release(_) => before,
            Interaction::Nothing => true,
        }
    }
}

/// A new handler's counters are within their thresholds, and every frame
/// keeps them there.
pub proof fn lemma_counts_stay_bounded(s: TouchView, detected: bool, touch_point: Option<(i32, i32)>)
    ensures
        counts_bounded(initial_touch_view()),
        counts_bounded(s) ==> counts_bounded(touch_step(s, detected, touch_point).0),
{
}

/// Each frame's interaction matches the change of the touching flag: a Click
/// starts a touch, a Release ends one, a Drag comes only during one and
/// keeps it, and Nothing leaves the flag as it was.
pub proof fn lemma_step_transitions(s: TouchView, detected: bool, touch_point: Option<(i32, i32)>)
    ensures
        ({
            let (t, i) = touch_step(s, detected, touch_point);
            match i {
                Interaction::Click(_) => !s.was_touching && t.was_touching,
                Interaction::Drag(_) => s.was_touching && t.was_touching,
                Interaction::Release(_) => s.was_touching && !t.was_touching,
                Interaction::Nothing => s.was_touching == t.was_touching,
            }
        }),
{
}

/// From a frame without a touch, a press is reported on the second
/// consecutive frame with a touch, at that frame's point, and not on the
/// first.
pub proof fn lemma_press_confirmed_on_second_frame(
    s: TouchView,
    p1: Option<(i32, i32)>,
    p2: Option<(i32, i32)>,
)
    requires
        !s.was_touching,
        s.stable_count == 0,
    ensures
        ({
            let (s1, i1) = touch_step(s, true, p1);
            let (s2, i2) = touch_step(s1, true, p2);
            &&& i1 == Interaction::Nothing
            &&& !s1.was_touching
            &&& i2 == Interaction::Click(current_point(s1, p2))
            &&& s2.was_touching
        }),
{
}

/// During a touch, after a frame with a touch, a release is reported on the
/// third consecutive frame without one, at the last point touched, and the
/// touch lasts through the first two.
pub proof fn lemma_release_confirmed_on_third_frame(s: TouchView)
    requires
        s.was_touching,
        s.release_count == 0,
    ensures
        ({
            let (s1, i1) = touch_step(s, false, None);
            let (s2, i2) = touch_step(s1, false, None);
            let (s3, i3) = touch_step(s2, false, None);
            &&& i1 == Interaction::Nothing && s1.was_touching
            &&& i2 == Interaction::Nothing && s2.was_touching
            &&& i3 == Interaction::Release(s.last_point)
            &&& !s3.was_touching
        }),
{
}

/// A touch seen again before its release is confirmed goes on as a drag.
pub proof fn lemma_touch_resumes_as_drag(s: TouchView, p: Option<(i32, i32)>)
    requires
        s.was_touching,
        s.release_count == 0,
    ensures
        ({
            let (s1, i1) = touch_step(s, false, None);
            let (s2, i2) = touch_step(s1, false, None);
            let (s3, i3) = touch_step(s2, true, p);
            &&& i3 == Interaction::Drag(current_point(s2, p))
            &&& s3.was_touching
            &&& s3.release_count == 0
        }),
{
}

/// Over any run of frames the interactions are bracketed: every Drag and
/// Release belongs to a touch that a Click started, and no Click comes while
/// a touch is in progress; the handler's touching flag is what the
/// interactions say it is.
pub proof fn lemma_run_bracketed(s: TouchView, frames: Seq<(bool, Option<(i32, i32)>)>)
    ensures
        touch_run(s, frames).1.len() == frames.len(),
        events_bracketed(s.was_touching, touch_run(s, frames).1),
        touching_after(s.was_touching, touch_run(s, frames).1) == touch_run(s, frames).0.was_touching,
    decreases frames.len(),
{
    if frames.len() > 0 {
        let (t, events) = touch_run(s, frames.drop_last());
        lemma_run_bracketed(s, frames.drop_last());
        lemma_step_transitions(t, frames.last().0, frames.last().1);
        let (u, i) = touch_step(t, frames.last().0, frames.last().1);
        assert(events.push(i).drop_last() =~= events);
    }
}


/// Number of frames at the end of `frames` in a row with a touch detected.
pub open spec fn trailing_touched(frames: Seq<(bool, Option<(i32, i32)>)>) -> nat
    decreases frames.len(),
{
    if frames.len() == 0 {
        0
    } else if frames.last().0 {
        1 + trailing_touched(frames.drop_last())
    } else {
        0
    }
}

/// Number of frames at the end of `frames` in a row without a touch.
pub open spec fn trailing_untouched(frames: Seq<(bool, Option<(i32, i32)>)>) -> nat
    decreases frames.len(),
{
    if frames.len() == 0 {
        0
    } else if !frames.last().0 {
        1 + trailing_untouched(frames.drop_last())
    } else {
        0
    }
}

/// The most recent point sampled in `frames`, or `(0, 0)` if there is none.
pub open spec fn last_sampled_point(frames: Seq<(bool, Option<(i32, i32)>)>) -> Point
    decreases frames.len(),
{
    if frames.len() == 0 {
        Point { x: 0, y: 0 }
    } else {
        match frames.last().1 {
            Some((x, y)) => Point { x, y },
            None => last_sampled_point(frames.drop_last()),
        }
    }
}

/// The state of a new handler after the frames of `frames`.
pub open spec fn state_after(frames: Seq<(bool, Option<(i32, i32)>)>) -> TouchView {
    touch_run(initial_touch_view(), frames).0
}

/// What the state of a handler says of the frames it has seen: its last
/// point is the last one sampled, its press count is the run of touched
/// frames (at most 2), during a touch its release count is the run of
/// untouched frames (below 3), and out of a touch the press count is below 2.
pub proof fn lemma_state_after_history(frames: Seq<(bool, Option<(i32, i32)>)>)
    ensures
        ({
            let s = state_after(frames);
            &&& s.last_point == last_sampled_point(frames)
            &&& s.stable_count as int == if trailing_touched(frames) < 2 {
                trailing_touched(frames) as int
            } else {
                2
            }
            &&& s.was_touching ==> s.release_count as nat == trailing_untouched(frames)
                && s.release_count < RELEASE_THRESHOLD
            &&& !s.was_touching ==> s.stable_count < PRESS_THRESHOLD
            &&& counts_bounded(s)
        }),
    decreases frames.len(),
{
    if frames.len() > 0 {
        lemma_state_after_history(frames.drop_last());
    }
}

/// What one call of `update` reports, given every frame the handler has seen
/// since it was made: a Click exactly when a touch is detected, none is in
/// progress and the frame before also had a touch; a Drag exactly when a
/// touch is detected during a touch; a Release exactly when no touch is
/// detected during a touch and the two frames before had none either. Click
/// and Drag carry this frame's point (the last sampled one if there is none
/// now); Release carries the last point sampled before this frame.
pub proof fn lemma_update_after_history(
    frames: Seq<(bool, Option<(i32, i32)>)>,
    detected: bool,
    point: Option<(i32, i32)>,
)
    ensures
        ({
            let s = state_after(frames);
            let (t, i) = touch_step(s, detected, point);
            let cur = match point {
                Some((x, y)) => Point { x, y },
                None => last_sampled_point(frames),
            };
            let n = frames.len() as int;
            &&& (i is Click) <==> (detected && !s.was_touching && n >= 1 && frames[n - 1].0)
            &&& (i is Click) ==> i == Interaction::Click(cur) && t.was_touching
            &&& (i is Drag) <==> (detected && s.was_touching)
            &&& (i is Drag) ==> i == Interaction::Drag(cur) && t.was_touching
            &&& (i is Release) <==> (!detected && s.was_touching && n >= 2 && !frames[n - 1].0
                && !frames[n - 2].0)
            &&& (i is Release) ==> i == Interaction::Release(last_sampled_point(frames))
                && !t.was_touching
        }),
{
    lemma_state_after_history(frames);
    let n = frames.len() as int;
    if n >= 1 {
        let init = frames.drop_last();
        assert(init.len() == n - 1);
        if n >= 2 {
            assert(init.last() == frames[n - 2]);
            assert(trailing_untouched(frames) >= 2 <==> (!frames[n - 1].0 && !frames[n - 2].0)) by {
                if !frames[n - 1].0 {
                    assert(trailing_untouched(frames) == 1 + trailing_untouched(init));
                    if !frames[n - 2].0 {
                        assert(trailing_untouched(init) == 1 + trailing_untouched(init.drop_last()));
                    }
                }
            }
        } else {
            assert(init.len() == 0);
            assert(trailing_untouched(init) == 0);
            assert(trailing_untouched(frames) <= 1);
        }
    }
}

/// A new handler's counters stay within their thresholds over any frames,
/// and in a touch the release count stays below 3, out of one the press
/// count below 2.
pub proof fn lemma_reachable_counts_bounded(frames: Seq<(bool, Option<(i32, i32)>)>)
    ensures
        counts_bounded(state_after(frames)),
        state_after(frames).was_touching ==> state_after(frames).release_count < RELEASE_THRESHOLD,
        !state_after(frames).was_touching ==> state_after(frames).stable_count < PRESS_THRESHOLD,
{
    lemma_state_after_history(frames);
}

/// Whether `i` is a Click or a Release.
pub open spec fn is_click_or_release(i: Interaction) -> bool {
    i is Click || i is Release
}

/// Number of Clicks and Releases among `events`.
pub open spec fn click_release_count(events: Seq<Interaction>) -> nat
    decreases events.len(),
{
    if events.len() == 0 {
        0
    } else {
        click_release_count(events.drop_last()) + if is_click_or_release(events.last()) {
            1nat
        } else {
            0nat
        }
    }
}

/// From a new handler, Clicks and Releases alternate, starting with a Click:
/// the Clicks and Releases before a Click are even in number, those before a
/// Release odd; before a Drag they are odd, so a Drag follows a Click with no
/// Release between; and a touch is in progress exactly when their number is
/// odd.
pub proof fn lemma_clicks_and_releases_alternate(frames: Seq<(bool, Option<(i32, i32)>)>)
    ensures
        ({
            let (s, events) = touch_run(initial_touch_view(), frames);
            &&& events.len() == frames.len()
            &&& s.was_touching == (click_release_count(events) % 2 == 1)
            &&& forall|k: int|
                #![trigger events[k]]
                0 <= k < events.len() ==> {
                    &&& events[k] is Click ==> click_release_count(events.take(k)) % 2 == 0
                    &&& events[k] is Release ==> click_release_count(events.take(k)) % 2 == 1
                    &&& events[k] is Drag ==> click_release_count(events.take(k)) % 2 == 1
                }
        }),
    decreases frames.len(),
{
    if frames.len() > 0 {
        let init = frames.drop_last();
        lemma_clicks_and_releases_alternate(init);
        let (s, events) = touch_run(initial_touch_view(), init);
        let (t, i) = touch_step(s, frames.last().0, frames.last().1);
        lemma_step_transitions(s, frames.last().0, frames.last().1);
        let ev2 = events.push(i);
        assert(ev2.drop_last() =~= events);
        assert(ev2.take(events.len() as int) =~= events);
        assert forall|k: int| 0 <= k < events.len() implies #[trigger] ev2.take(k) == events.take(k)
            && ev2[k] == events[k] by {
            assert(ev2.take(k) =~= events.take(k));
        }
    }
}

/// Whether two interactions are of the same kind, whatever their points.
pub open spec fn same_kind(a: Interaction, b: Interaction) -> bool {
    &&& (a is Click <==> b is Click)
    &&& (a is Drag <==> b is Drag)
    &&& (a is Release <==> b is Release)
    &&& (a is Nothing <==> b is Nothing)
}

/// Whether two runs of frames have the same touch flags, frame by frame.
pub open spec fn same_flags(
    f1: Seq<(bool, Option<(i32, i32)>)>,
    f2: Seq<(bool, Option<(i32, i32)>)>,
) -> bool {
    f1.len() == f2.len() && forall|k: int| 0 <= k < f1.len() ==> #[trigger] f1[k].0 == f2[k].0
}

/// The sampled points only choose the point an interaction carries: two new
/// handlers fed the same touch flags report interactions of the same kinds,
/// frame by frame, and agree on whether a touch is in progress.
pub proof fn lemma_points_do_not_change_kinds(
    f1: Seq<(bool, Option<(i32, i32)>)>,
    f2: Seq<(bool, Option<(i32, i32)>)>,
)
    requires
        same_flags(f1, f2),
    ensures
        ({
            let (s1, e1) = touch_run(initial_touch_view(), f1);
            let (s2, e2) = touch_run(initial_touch_view(), f2);
            &&& s1.was_touching == s2.was_touching
            &&& s1.stable_count == s2.stable_count
            &&& s1.release_count == s2.release_count
            &&& e1.len() == e2.len()
            &&& forall|k: int| 0 <= k < e1.len() ==> same_kind(#[trigger] e1[k], e2[k])
        }),
    decreases f1.len(),
{
    if f1.len() > 0 {
        let i1 = f1.drop_last();
        let i2 = f2.drop_last();
        assert forall|k: int| 0 <= k < i1.len() implies #[trigger] i1[k].0 == i2[k].0 by {
            assert(i1[k] == f1[k] && i2[k] == f2[k]);
        }
        lemma_points_do_not_change_kinds(i1, i2);
        let (s1, e1) = touch_run(initial_touch_view(), i1);
        let (s2, e2) = touch_run(initial_touch_view(), i2);
        assert(f1.last().0 == f2.last().0);
        let (t1, j1) = touch_step(s1, f1.last().0, f1.last().1);
        let (t2, j2) = touch_step(s2, f2.last().0, f2.last().1);
        assert(same_kind(j1, j2));
        let n1 = e1.push(j1);
        let n2 = e2.push(j2);
        assert forall|k: int| 0 <= k < n1.len() implies same_kind(#[trigger] n1[k], n2[k]) by {
            if k < e1.len() {
                assert(n1[k] == e1[k] && n2[k] == e2[k]);
            }
        }
    }
}


/// A raw FT5336 reading `(x, y)` stands for the panel point `(y, x)`, all 16
/// bits of each coordinate kept: the frame stores it as the last point, and
/// a Click or Drag reported on that frame carries it.
pub proof fn lemma_raw_reading_is_swapped(s: TouchView, detected: bool, x: u16, y: u16)
    ensures
        panel_point(Some((x, y))) == Some((y as i32, x as i32)),
        ({
            let (t, i) = touch_step(s, detected, panel_point(Some((x, y))));
            &&& t.last_point == (Point { x: y as i32, y: x as i32 })
            &&& i matches Interaction::Click(p) ==> p == (Point { x: y as i32, y: x as i32 })
            &&& i matches Interaction::Drag(p) ==> p == (Point { x: y as i32, y: x as i32 })
        }),
{
}

} // verus!

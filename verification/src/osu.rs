//! Circles that appear at random places with a shrinking approach circle; a
//! left click on a circle is judged by how close it comes to the moment the
//! approach circle meets the circle.
use vstd::prelude::*;

use crate::keys::MouseButton;
use crate::labels::shown_number;
use crate::palette::Palette;
use crate::random::random_in_range;

verus! {

/// Width of the playfield.
pub const SCREEN_WIDTH: i64 = 800_000;

/// Height of the playfield.
pub const SCREEN_HEIGHT: i64 = 600_000;

/// Radius of a hit circle.
pub const HIT_CIRCLE_RADIUS: i64 = 64_000;

/// Radius of the approach circle when a circle appears.
pub const APPROACH_CIRCLE_MAX_RADIUS: i64 = 150_000;

/// Time for the approach circle to shrink onto the circle, in milliseconds.
pub const APPROACH_TIME_MS: u64 = 1000;

/// Timing window, in milliseconds.
pub const HIT_WINDOW_MS: u64 = 200;

/// Age after which an unclicked circle counts as missed, in milliseconds.
pub const MISS_AGE_MS: u64 = 1200;

/// Age after which a circle is gone, in milliseconds.
pub const EXPIRY_AGE_MS: u64 = 1400;

/// Time between two new circles, in milliseconds.
pub const SPAWN_INTERVAL_MS: u64 = 1500;

/// Distance between new circles and the edge of the playfield.
pub const SPAWN_MARGIN: i64 = 84_000;

/// How well a click was timed.
#[derive(Debug, Clone, Copy, PartialEq, Eq, Structural)]
pub enum Accuracy {
    Miss,
    Hit50,
    Hit100,
    Hit300,
}

/// The judgement of a click `timing_diff` milliseconds away from the moment the
/// approach circle meets the circle.
pub open spec fn judgement(timing_diff: int) -> Accuracy {
    if timing_diff <= 50 {
        Accuracy::Hit300
    } else if timing_diff <= 100 {
        Accuracy::Hit100
    } else if timing_diff <= 150 {
        Accuracy::Hit50
    } else {
        Accuracy::Miss
    }
}

/// Judges a click `timing_diff` milliseconds off.
pub fn judge(timing_diff: u64) -> (a: Accuracy)
    ensures
        a == judgement(timing_diff as int),
{
    if timing_diff <= 50 {
        Accuracy::Hit300
    } else if timing_diff <= 100 {
        Accuracy::Hit100
    } else if timing_diff <= 150 {
        Accuracy::Hit50
    } else {
        Accuracy::Miss
    }
}

impl Accuracy {
    /// The score that this judgement earns.
    pub open spec fn value(self) -> int {
        match self {
            Accuracy::Hit300 => 300,
            Accuracy::Hit100 => 100,
            Accuracy::Hit50 => 50,
            Accuracy::Miss => 0,
        }
    }

    /// The text shown for this judgement.
    pub open spec fn spec_label(self) -> Seq<char> {
        match self {
            Accuracy::Hit300 => "300!"@,
            Accuracy::Hit100 => "100"@,
            Accuracy::Hit50 => "50"@,
            Accuracy::Miss => "MISS"@,
        }
    }

    /// The colour in which this judgement is shown.
    pub open spec fn spec_tint(self) -> Palette {
        match self {
            Accuracy::Hit300 => Palette::Gold,
            Accuracy::Hit100 => Palette::LightBlue,
            Accuracy::Hit50 => Palette::LightGreen,
            Accuracy::Miss => Palette::MissRed,
        }
    }

    pub fn points(&self) -> (p: i32)
        ensures
            p == self.value(),
    {
        match self {
            Accuracy::Hit300 => 300,
            Accuracy::Hit100 => 100,
            Accuracy::Hit50 => 50,
            Accuracy::Miss => 0,
        }
    }

    pub fn label(&self) -> (s: &'static str)
        ensures
            s@ == self.spec_label(),
    {
        match self {
            Accuracy::Hit300 => "300!",
            Accuracy::Hit100 => "100",
            Accuracy::Hit50 => "50",
            Accuracy::Miss => "MISS",
        }
    }

    pub fn tint(&self) -> (c: Palette)
        ensures
            c == self.spec_tint(),
    {
        match self {
            Accuracy::Hit300 => Palette::Gold,
            Accuracy::Hit100 => Palette::LightBlue,
            Accuracy::Hit50 => Palette::LightGreen,
            Accuracy::Miss => Palette::MissRed,
        }
    }
}

/// How long a judgement stays on screen, in milliseconds.
pub const DISPLAY_TIME_MS: u64 = 1000;

/// The judgement on screen `elapsed_ms` milliseconds after it was made: the
/// judgement on display during the first second, nothing afterwards.
pub fn judgement_shown(display: Option<Accuracy>, elapsed_ms: u64) -> (shown: Option<Accuracy>)
    ensures
        shown == (if elapsed_ms < DISPLAY_TIME_MS {
            display
        } else {
            None
        }),
{
    if elapsed_ms < DISPLAY_TIME_MS {
        display
    } else {
        None
    }
}

/// Milliseconds between `since` and `now`, or zero when `now` is earlier.
pub open spec fn age(since: u64, now: u64) -> int {
    if now >= since {
        now - since
    } else {
        0
    }
}

/// The radius of an approach circle `elapsed` milliseconds after it appeared:
/// it shrinks evenly from 150 pixels to `radius` over one second, then stays.
/// Thousandths of a pixel are rounded toward zero.
pub open spec fn approach_radius(radius: int, elapsed: int) -> int {
    if elapsed >= APPROACH_TIME_MS {
        radius
    } else {
        let n = APPROACH_CIRCLE_MAX_RADIUS * (APPROACH_TIME_MS - elapsed) + radius * elapsed;
        if n >= 0 {
            n / 1000
        } else {
            -((-n) / 1000)
        }
    }
}

/// Whether a point lies inside a circle of radius `r` centred `(dx, dy)` away;
/// a circle of negative radius holds no point.
pub open spec fn inside(dx: int, dy: int, r: int) -> bool {
    r >= 0 && dx * dx + dy * dy <= r * r
}

/// A circle to click.
#[derive(Debug, Clone, Copy)]
pub struct HitCircle {
    /// Centre of the circle.
    pub x: i64,
    pub y: i64,
    pub radius: i64,
    /// Clock reading, in milliseconds, when the circle appeared.
    pub spawn_time: u64,
    /// Whether a click has judged the circle.
    pub hit: bool,
    /// Whether the circle grew too old unclicked.
    pub missed: bool,
    /// The last judgement of a click on the circle.
    pub accuracy: Option<Accuracy>,
}

/// A new circle centred at `(x, y)` that appeared at `now`.
pub open spec fn fresh_circle(x: i64, y: i64, now: u64) -> HitCircle {
    HitCircle {
        x,
        y,
        radius: HIT_CIRCLE_RADIUS,
        spawn_time: now,
        hit: false,
        missed: false,
        accuracy: None,
    }
}

impl HitCircle {
    pub open spec fn spec_is_expired(self, now: u64) -> bool {
        age(self.spawn_time, now) > EXPIRY_AGE_MS
    }

    /// The judgement of a click at `(mx, my)` at clock reading `now`: none when
    /// the circle is hit, missed or gone, or the click lies outside it;
    /// otherwise by the distance in time from the moment the approach circle
    /// meets the circle.
    pub open spec fn click_result(self, mx: i64, my: i64, now: u64) -> Option<Accuracy> {
        let elapsed = age(self.spawn_time, now);
        if self.hit || self.missed || elapsed > EXPIRY_AGE_MS {
            None
        } else if inside(self.x - mx, self.y - my, self.radius as int) {
            Some(
                judgement(
                    if elapsed >= APPROACH_TIME_MS {
                        elapsed - APPROACH_TIME_MS
                    } else {
                        APPROACH_TIME_MS - elapsed
                    },
                ),
            )
        } else {
            None
        }
    }

    /// A circle centred at `(x, y)` that appears at clock reading `now`.
    pub fn new(x: i64, y: i64, now: u64) -> (c: Self)
        ensures
            c == fresh_circle(x, y, now),
    {
        HitCircle {
            x,
            y,
            radius: HIT_CIRCLE_RADIUS,
            spawn_time: now,
            hit: false,
            missed: false,
            accuracy: None,
        }
    }

    /// The radius of the approach circle at clock reading `now`.
    pub fn approach_circle_radius(&self, now: u64) -> (r: i64)
        ensures
            r == approach_radius(self.radius as int, age(self.spawn_time, now)),
    {
        let elapsed = now.saturating_sub(self.spawn_time);
        if elapsed >= APPROACH_TIME_MS {
            self.radius
        } else {
            let e = elapsed as i128;
            let r = self.radius as i128;
            proof {
                lemma_approach_fits(r as int, e as int);
            }
            ((APPROACH_CIRCLE_MAX_RADIUS as i128 * (1000 - e) + r * e) / 1000) as i64
        }
    }

    /// Whether the circle is gone at clock reading `now`.
    pub fn is_expired(&self, now: u64) -> (b: bool)
        ensures
            b == self.spec_is_expired(now),
    {
        now.saturating_sub(self.spawn_time) > EXPIRY_AGE_MS
    }

    /// Judges a click at `(mx, my)` at clock reading `now`.
    pub fn check_click(&self, mx: i64, my: i64, now: u64) -> (judged: Option<Accuracy>)
        ensures
            judged == self.click_result(mx, my, now),
    {
        if self.hit || self.missed {
            return None;
        }
        let elapsed = now.saturating_sub(self.spawn_time);
        if elapsed > EXPIRY_AGE_MS {
            return None;
        }
        let dx: i128 = self.x as i128 - mx as i128;
        let dy: i128 = self.y as i128 - my as i128;
        let r: i128 = self.radius as i128;
        let within = if dx > r || dx < -r || dy > r || dy < -r {
            proof {
                lemma_outside_box(dx as int, dy as int, r as int);
            }
            false
        } else {
            assert(dx * dx <= r * r && dy * dy <= r * r && 0 <= dx * dx && 0 <= dy * dy
                && r * r <= 0x7fff_ffff_ffff_ffff * 0x7fff_ffff_ffff_ffff) by (nonlinear_arith)
                requires
                    -r <= dx <= r,
                    -r <= dy <= r,
                    0 <= r <= 0x7fff_ffff_ffff_ffff,
            ;
            dx * dx + dy * dy <= r * r
        };
        if within {
            let timing_diff = if elapsed >= APPROACH_TIME_MS {
                elapsed - APPROACH_TIME_MS
            } else {
                APPROACH_TIME_MS - elapsed
            };
            Some(judge(timing_diff))
        } else {
            None
        }
    }
}

proof fn lemma_approach_fits(r: int, e: int)
    requires
        i64::MIN <= r <= i64::MAX,
        0 <= e < 1000,
    ensures
        i64::MIN <= (150_000 * (1000 - e) + r * e) / 1000 <= i64::MAX,
{
    assert(i64::MIN <= (150_000 * (1000 - e) + r * e) / 1000 <= i64::MAX) by (nonlinear_arith)
        requires
            -9_223_372_036_854_775_808 <= r <= 9_223_372_036_854_775_807,
            0 <= e < 1000,
    ;
}

proof fn lemma_outside_box(dx: int, dy: int, r: int)
    requires
        dx > r || dx < -r || dy > r || dy < -r,
    ensures
        !inside(dx, dy, r),
{
    if r < 0 {
    } else if dx > r || dx < -r {
        assert(dx * dx > r * r) by (nonlinear_arith)
            requires
                r >= 0,
                dx > r || dx < -r,
        ;
        assert(dy * dy >= 0) by (nonlinear_arith);
    } else {
        assert(dy * dy > r * r) by (nonlinear_arith)
            requires
                r >= 0,
                dy > r || dy < -r,
        ;
        assert(dx * dx >= 0) by (nonlinear_arith);
    }
}

/// Index `i` is the first circle that a click at `(mx, my)` at `now` judges.
pub open spec fn first_clicked(circles: Seq<HitCircle>, mx: i64, my: i64, now: u64, i: int) -> bool {
    &&& 0 <= i < circles.len()
    &&& circles[i].click_result(mx, my, now) is Some
    &&& forall|j: int| 0 <= j < i ==> (#[trigger] circles[j]).click_result(mx, my, now) is None
}

/// A circle after the frame's miss check at `now`: a circle that is older than
/// the miss age and neither hit nor missed becomes missed.
pub open spec fn checked(c: HitCircle, now: u64) -> HitCircle {
    if becomes_missed(c, now) {
        HitCircle { missed: true, ..c }
    } else {
        c
    }
}

/// Whether circle `c` becomes missed at `now`.
pub open spec fn becomes_missed(c: HitCircle, now: u64) -> bool {
    !c.hit && !c.missed && age(c.spawn_time, now) > MISS_AGE_MS
}

/// Whether a circle stays at `now`: it is not gone and not hit.
pub open spec fn stays(c: HitCircle, now: u64) -> bool {
    !c.spec_is_expired(now) && !c.hit
}

/// The circles that stay at `now`, in order.
pub open spec fn kept_circles(circles: Seq<HitCircle>, now: u64) -> Seq<HitCircle> {
    circles.filter(|c: HitCircle| stays(c, now))
}

/// The state of a game, as the rules see it.
pub struct OsuState {
    pub circles: Seq<HitCircle>,
    pub score: int,
    pub combo: int,
    /// Clock reading, in milliseconds, when the last circle appeared.
    pub last_spawn_time: u64,
    /// The last judgement, shown on screen.
    pub accuracy_display: Option<Accuracy>,
}

impl OsuState {
    /// The state of a game started at clock reading `now`.
    pub open spec fn initial(now: u64) -> OsuState {
        OsuState { circles: Seq::empty(), score: 0, combo: 0, last_spawn_time: now, accuracy_display: None }
    }

    /// A click at `(mx, my)` at `now` finds a circle to judge.
    pub open spec fn has_target(self, mx: i64, my: i64, now: u64) -> bool {
        exists|i: int| first_clicked(self.circles, mx, my, now, i)
    }

    /// The circle that a click at `(mx, my)` at `now` judges.
    pub open spec fn target(self, mx: i64, my: i64, now: u64) -> int {
        choose|i: int| first_clicked(self.circles, mx, my, now, i)
    }

    /// The judgement that a click at `(mx, my)` at `now` makes, if any.
    pub open spec fn click_judgement(self, mx: i64, my: i64, now: u64) -> Option<Accuracy> {
        if self.has_target(mx, my, now) {
            self.circles[self.target(mx, my, now)].click_result(mx, my, now)
        } else {
            None
        }
    }

    /// The state after a click at `(mx, my)` at `now`: the first circle that
    /// judges the click is marked hit and records the judgement, the score grows
    /// by its points, the combo grows by one or, on a miss, falls to zero, and
    /// the judgement is put on display.
    pub open spec fn after_click(self, mx: i64, my: i64, now: u64) -> OsuState {
        if self.has_target(mx, my, now) {
            let i = self.target(mx, my, now);
            let acc = self.circles[i].click_result(mx, my, now)->Some_0;
            OsuState {
                circles: self.circles.update(i, HitCircle { hit: true, accuracy: Some(acc), ..self.circles[i] }),
                score: self.score + acc.value(),
                combo: if acc == Accuracy::Miss {
                    0
                } else {
                    self.combo + 1
                },
                accuracy_display: Some(acc),
                ..self
            }
        } else {
            self
        }
    }

    /// Whether a new circle is due at `now`.
    pub open spec fn spawn_due(self, now: u64) -> bool {
        age(self.last_spawn_time, now) > SPAWN_INTERVAL_MS
    }

    /// The state after the frame's sweep at `now`: gone and hit circles are
    /// removed, then old unclicked circles become missed and break the combo.
    pub open spec fn after_sweep(self, now: u64) -> OsuState {
        let kept = kept_circles(self.circles, now);
        OsuState {
            circles: kept.map_values(|c: HitCircle| checked(c, now)),
            combo: if exists|i: int| 0 <= i < kept.len() && becomes_missed(#[trigger] kept[i], now) {
                0
            } else {
                self.combo
            },
            ..self
        }
    }

    /// The state after a frame at `now`: the sweep, and once more than 1.5 s has
    /// passed since the last circle, a circle appears at `(x, y)`.
    pub open spec fn after_update(self, now: u64, x: i64, y: i64) -> OsuState {
        let s = self.after_sweep(now);
        if self.spawn_due(now) {
            OsuState { circles: s.circles.push(fresh_circle(x, y, now)), last_spawn_time: now, ..s }
        } else {
            s
        }
    }
}

/// What a mouse button press led to.
#[derive(Debug, Clone, Copy, PartialEq, Eq, Structural)]
pub enum ClickResponse {
    /// The player asked to quit.
    Quit,
    /// A circle judged the click.
    Judged(Accuracy),
    /// No circle judged the click.
    Ignored,
}

/// A game of circles.
pub struct OsuGame {
    pub circles: Vec<HitCircle>,
    pub score: i32,
    pub combo: i32,
    pub last_spawn_time: u64,
    pub accuracy_display: Option<Accuracy>,
}

impl View for OsuGame {
    type V = OsuState;

    open spec fn view(&self) -> OsuState {
        OsuState {
            circles: self.circles@,
            score: self.score as int,
            combo: self.combo as int,
            last_spawn_time: self.last_spawn_time,
            accuracy_display: self.accuracy_display,
        }
    }
}

proof fn lemma_first_unique(circles: Seq<HitCircle>, mx: i64, my: i64, now: u64, i: int, k: int)
    requires
        first_clicked(circles, mx, my, now, i),
        first_clicked(circles, mx, my, now, k),
    ensures
        i == k,
{
    if i < k {
        assert(circles[i].click_result(mx, my, now) is None);
    } else if k < i {
        assert(circles[k].click_result(mx, my, now) is None);
    }
}

proof fn lemma_filter_step(circles: Seq<HitCircle>, now: u64, i: int)
    requires
        0 <= i < circles.len(),
    ensures
        kept_circles(circles.take(i + 1), now) == if stays(circles[i], now) {
            kept_circles(circles.take(i), now).push(circles[i])
        } else {
            kept_circles(circles.take(i), now)
        },
{
    assert(circles.take(i + 1) =~= circles.take(i).push(circles[i]));
    circles.take(i).lemma_filter_push(circles[i], |c: HitCircle| stays(c, now));
}

proof fn lemma_kept_stay(circles: Seq<HitCircle>, now: u64, n: int)
    requires
        0 <= n <= circles.len(),
    ensures
        kept_circles(circles.take(n), now).len() <= n,
        forall|i: int|
            0 <= i < kept_circles(circles.take(n), now).len() ==> {
                let c = #[trigger] kept_circles(circles.take(n), now)[i];
                &&& stays(c, now)
            },
    decreases n,
{
    if n == 0 {
        assert(circles.take(0) =~= Seq::<HitCircle>::empty());
        reveal(Seq::filter);
    } else {
        lemma_kept_stay(circles, now, n - 1);
        lemma_filter_step(circles, now, n - 1);
    }
}

impl OsuGame {
    /// A game started at clock reading `now`.
    pub fn new(now: u64) -> (game: Self)
        ensures
            game@ == OsuState::initial(now),
    {
        OsuGame { circles: Vec::new(), score: 0, combo: 0, last_spawn_time: now, accuracy_display: None }
    }

    /// Puts a new circle centred at `(x, y)`, appearing at `now`.
    pub fn spawn_circle_at(&mut self, x: i64, y: i64, now: u64)
        ensures
            final(self)@ == (OsuState {
                circles: old(self)@.circles.push(fresh_circle(x, y, now)),
                ..old(self)@
            }),
    {
        let c = HitCircle::new(x, y, now);
        self.circles.push(c);
    }

    /// Puts a new circle at a random place at least 84 pixels from every edge
    /// of the playfield, appearing at `now`.
    pub fn spawn_circle(&mut self, now: u64)
        ensures
            exists|x: i64, y: i64|
                SPAWN_MARGIN <= x < SCREEN_WIDTH - SPAWN_MARGIN && SPAWN_MARGIN <= y < SCREEN_HEIGHT
                    - SPAWN_MARGIN && final(self)@ == (OsuState {
                    circles: old(self)@.circles.push(#[trigger] fresh_circle(x, y, now)),
                    ..old(self)@
                }),
    {
        let x = random_in_range(SPAWN_MARGIN, SCREEN_WIDTH - SPAWN_MARGIN);
        let y = random_in_range(SPAWN_MARGIN, SCREEN_HEIGHT - SPAWN_MARGIN);
        self.spawn_circle_at(x, y, now);
    }

    /// Judges a left click at `(mx, my)` at `now` on the first circle that takes it.
    pub fn handle_click(&mut self, mx: i64, my: i64, now: u64) -> (judged: Option<Accuracy>)
        requires
            old(self).score <= i32::MAX - 300,
            old(self).combo < i32::MAX,
        ensures
            judged == old(self)@.click_judgement(mx, my, now),
            final(self)@ == old(self)@.after_click(mx, my, now),
    {
        let ghost start = self@;
        let n = self.circles.len();
        let mut i: usize = 0;
        while i < n
            invariant
                n == self.circles.len(),
                i <= n,
                self@ == start,
                start == old(self)@,
                self.score <= i32::MAX - 300,
                self.combo < i32::MAX,
                forall|j: int| 0 <= j < i ==> (#[trigger] start.circles[j]).click_result(mx, my, now) is None,
            decreases n - i,
        {
            let circle = self.circles[i];
            match circle.check_click(mx, my, now) {
                Some(accuracy) => {
                    proof {
                        assert(first_clicked(start.circles, mx, my, now, i as int));
                        lemma_first_unique(start.circles, mx, my, now, i as int, start.target(mx, my, now));
                    }
                    self.circles.set(
                        i,
                        HitCircle {
                            x: circle.x,
                            y: circle.y,
                            radius: circle.radius,
                            spawn_time: circle.spawn_time,
                            hit: true,
                            missed: circle.missed,
                            accuracy: Some(accuracy),
                        },
                    );
                    self.accuracy_display = Some(accuracy);
                    self.score = self.score + accuracy.points();
                    if accuracy == Accuracy::Miss {
                        self.combo = 0;
                    } else {
                        self.combo = self.combo + 1;
                    }
                    assert(self@.circles =~= start.after_click(mx, my, now).circles);
                    return Some(accuracy);
                },
                None => {},
            }
            i = i + 1;
        }
        None
    }

    /// Removes gone and hit circles and marks old unclicked circles as missed;
    /// returns whether a new circle is due at `now`.
    fn advance(&mut self, now: u64) -> (due: bool)
        ensures
            due == old(self)@.spawn_due(now),
            final(self)@ == old(self)@.after_sweep(now),
    {
        let ghost start = self@;
        let n = self.circles.len();
        let mut kept: Vec<HitCircle> = Vec::new();
        for i in 0..n
            invariant
                n == self.circles.len(),
                self@ == start,
                kept@ == kept_circles(start.circles.take(i as int), now),
        {
            let c = self.circles[i];
            proof {
                lemma_filter_step(start.circles, now, i as int);
            }
            if !c.is_expired(now) && !c.hit {
                kept.push(c);
            }
        }
        proof {
            assert(start.circles.take(n as int) =~= start.circles);
            lemma_kept_stay(start.circles, now, n as int);
        }
        let ghost kept_view = kept@;
        let m = kept.len();
        for i in 0..m
            invariant
                m == kept.len(),
                m == kept_view.len(),
                forall|k: int| 0 <= k < i ==> #[trigger] kept@[k] == checked(kept_view[k], now),
                forall|k: int| i <= k < m ==> #[trigger] kept@[k] == kept_view[k],
                self.score == start.score,
                self.last_spawn_time == start.last_spawn_time,
                self.accuracy_display == start.accuracy_display,
                self.combo == if exists|k: int| 0 <= k < i && becomes_missed(#[trigger] kept_view[k], now) {
                    0
                } else {
                    start.combo
                },
        {
            let c = kept[i];
            if !c.hit && !c.missed && now.saturating_sub(c.spawn_time) > MISS_AGE_MS {
                kept.set(
                    i,
                    HitCircle {
                        x: c.x,
                        y: c.y,
                        radius: c.radius,
                        spawn_time: c.spawn_time,
                        hit: c.hit,
                        missed: true,
                        accuracy: c.accuracy,
                    },
                );
                self.combo = 0;
            }
            assert(self.combo == if exists|k: int| 0 <= k < i + 1 && becomes_missed(#[trigger] kept_view[k], now) {
                0
            } else {
                start.combo
            }) by {
                if becomes_missed(kept_view[i as int], now) {
                    assert(0 <= i < i + 1);
                }
            }
        }
        self.circles = kept;
        assert(self@.circles =~= kept_view.map_values(|c: HitCircle| checked(c, now)));
        now.saturating_sub(self.last_spawn_time) > SPAWN_INTERVAL_MS
    }

    /// One frame at clock reading `now`, with a circle that appears centred at `(x, y)`.
    pub fn update_with(&mut self, now: u64, x: i64, y: i64)
        ensures
            final(self)@ == old(self)@.after_update(now, x, y),
    {
        if self.advance(now) {
            self.spawn_circle_at(x, y, now);
            self.last_spawn_time = now;
        }
    }

    /// One frame at clock reading `now`; a circle that appears is placed at random.
    pub fn update(&mut self, now: u64)
        ensures
            exists|x: i64, y: i64|
                SPAWN_MARGIN <= x < SCREEN_WIDTH - SPAWN_MARGIN && SPAWN_MARGIN <= y < SCREEN_HEIGHT
                    - SPAWN_MARGIN && final(self)@ == #[trigger] old(self)@.after_update(now, x, y),
    {
        if self.advance(now) {
            let x = random_in_range(SPAWN_MARGIN, SCREEN_WIDTH - SPAWN_MARGIN);
            let y = random_in_range(SPAWN_MARGIN, SCREEN_HEIGHT - SPAWN_MARGIN);
            self.spawn_circle_at(x, y, now);
            self.last_spawn_time = now;
            assert(self@ == old(self)@.after_update(now, x, y));
        } else {
            assert(self@ == old(self)@.after_update(now, SPAWN_MARGIN, SPAWN_MARGIN));
        }
    }
    /// Handles a mouse button: the left button clicks at `(mx, my)`, the right
    /// button asks to quit.
    pub fn mouse_button_down_event(&mut self, button: MouseButton, mx: i64, my: i64, now: u64) -> (response: ClickResponse)
        requires
            old(self).score <= i32::MAX - 300,
            old(self).combo < i32::MAX,
        ensures
            response == (if button == MouseButton::Right {
                ClickResponse::Quit
            } else if button == MouseButton::Left {
                match old(self)@.click_judgement(mx, my, now) {
                    Some(acc) => ClickResponse::Judged(acc),
                    None => ClickResponse::Ignored,
                }
            } else {
                ClickResponse::Ignored
            }),
            final(self)@ == if button == MouseButton::Left {
                old(self)@.after_click(mx, my, now)
            } else {
                old(self)@
            },
    {
        match button {
            MouseButton::Left => match self.handle_click(mx, my, now) {
                Some(acc) => ClickResponse::Judged(acc),
                None => ClickResponse::Ignored,
            },
            MouseButton::Right => ClickResponse::Quit,
            _ => ClickResponse::Ignored,
        }
    }
}

/// A click closer in time to the moment the approach circle meets the circle
/// never earns fewer points.
pub proof fn law_closer_timing_scores_no_less(t1: int, t2: int)
    requires
        0 <= t1 <= t2,
    ensures
        judgement(t1).value() >= judgement(t2).value(),
{
}

/// The approach circle only shrinks, from 150 pixels down to the circle's
/// radius, which it reaches after one second.
pub proof fn law_approach_circle_shrinks(radius: int, e1: int, e2: int)
    requires
        0 <= radius <= APPROACH_CIRCLE_MAX_RADIUS,
        0 <= e1 <= e2,
    ensures
        approach_radius(radius, e1) >= approach_radius(radius, e2),
        radius <= approach_radius(radius, e1) <= APPROACH_CIRCLE_MAX_RADIUS,
        approach_radius(radius, 0) == APPROACH_CIRCLE_MAX_RADIUS,
        e1 >= APPROACH_TIME_MS ==> approach_radius(radius, e1) == radius,
{
    assert(approach_radius(radius, e1) >= approach_radius(radius, e2)
        && radius <= approach_radius(radius, e1) <= APPROACH_CIRCLE_MAX_RADIUS) by (nonlinear_arith)
        requires
            0 <= radius <= 150_000,
            0 <= e1 <= e2,
            approach_radius(radius, e1) == if e1 >= 1000 {
                radius
            } else {
                (150_000 * (1000 - e1) + radius * e1) / 1000
            },
            approach_radius(radius, e2) == if e2 >= 1000 {
                radius
            } else {
                (150_000 * (1000 - e2) + radius * e2) / 1000
            },
    ;
}

/// A click outside a circle is never judged by that circle.
pub proof fn law_click_outside_is_ignored(c: HitCircle, mx: i64, my: i64, now: u64)
    requires
        !inside(c.x - mx, c.y - my, c.radius as int),
    ensures
        c.click_result(mx, my, now) is None,
{
}

/// A click never lowers the score; a click that a circle takes either raises the
/// combo by one or resets it to zero, and a click that no circle takes changes nothing.
pub proof fn law_click_never_lowers_score(s: OsuState, mx: i64, my: i64, now: u64)
    ensures
        s.after_click(mx, my, now).score >= s.score,
        s.has_target(mx, my, now) ==> s.after_click(mx, my, now).combo == s.combo + 1
            || s.after_click(mx, my, now).combo == 0,
        !s.has_target(mx, my, now) ==> s.after_click(mx, my, now) == s,
{
    if s.has_target(mx, my, now) {
        assert(first_clicked(s.circles, mx, my, now, s.target(mx, my, now)));
    }
}

/// A circle that a click judged is hit: no later click judges it again, and
/// the judgement is on display.
pub proof fn law_judged_circle_is_done(s: OsuState, mx: i64, my: i64, now: u64, mx2: i64, my2: i64, now2: u64)
    requires
        s.has_target(mx, my, now),
    ensures
        s.after_click(mx, my, now).circles[s.target(mx, my, now)].hit,
        s.after_click(mx, my, now).circles[s.target(mx, my, now)].click_result(mx2, my2, now2) is None,
        s.after_click(mx, my, now).accuracy_display == s.click_judgement(mx, my, now),
        s.click_judgement(mx, my, now) is Some,
{
    assert(first_clicked(s.circles, mx, my, now, s.target(mx, my, now)));
}

/// A frame never changes the score; it keeps only circles that are neither gone
/// nor hit, and every kept circle older than the miss age is missed.
pub proof fn law_frame_sweeps(s: OsuState, now: u64)
    ensures
        s.after_sweep(now).score == s.score,
        s.after_sweep(now).combo == s.combo || s.after_sweep(now).combo == 0,
        s.after_sweep(now).circles.len() <= s.circles.len(),
        forall|i: int|
            0 <= i < s.after_sweep(now).circles.len() ==> {
                let c = #[trigger] s.after_sweep(now).circles[i];
                &&& !c.spec_is_expired(now)
                &&& !c.hit
                &&& age(c.spawn_time, now) > MISS_AGE_MS ==> c.missed
            },
{
    lemma_kept_stay(s.circles, now, s.circles.len() as int);
    assert(s.circles.take(s.circles.len() as int) =~= s.circles);
}

/// Each judgement earns exactly the number of points written on it: 300 for
/// "300!", 100 for "100", 50 for "50", and none for "MISS".
pub proof fn law_points_are_the_shown_number(a: Accuracy)
    ensures
        a.value() == shown_number(a.spec_label()),
{
    reveal_with_fuel(shown_number, 5);
    reveal_strlit("300!");
    reveal_strlit("100");
    reveal_strlit("50");
    reveal_strlit("MISS");
}

/// A click that a circle judges raises the score by exactly the number shown
/// for its judgement, and a click that none judges leaves it.
pub proof fn law_score_gain_is_shown(s: OsuState, mx: i64, my: i64, now: u64)
    ensures
        s.has_target(mx, my, now) ==> s.after_click(mx, my, now).accuracy_display is Some
            && s.after_click(mx, my, now).score == s.score + shown_number(
            s.after_click(mx, my, now).accuracy_display->Some_0.spec_label(),
        ),
        !s.has_target(mx, my, now) ==> s.after_click(mx, my, now).score == s.score,
{
    if s.has_target(mx, my, now) {
        assert(first_clicked(s.circles, mx, my, now, s.target(mx, my, now)));
        law_points_are_the_shown_number(s.click_judgement(mx, my, now)->Some_0);
    }
}

/// The points of a click by how far, in milliseconds, it lies from the moment
/// the approach circle meets the circle: 300 within 50, 100 within 100, 50
/// within 150, none farther.
pub proof fn law_tiers_earn_their_points(t: int)
    ensures
        0 <= t <= 50 ==> judgement(t).value() == 300,
        50 < t <= 100 ==> judgement(t).value() == 100,
        100 < t <= 150 ==> judgement(t).value() == 50,
        150 < t ==> judgement(t).value() == 0,
{
    law_points_are_the_shown_number(judgement(t));
    reveal_with_fuel(shown_number, 5);
    reveal_strlit("300!");
    reveal_strlit("100");
    reveal_strlit("50");
    reveal_strlit("MISS");
}

/// A circle that is still on the field, unclicked and not yet missed, and is
/// older than the miss age at a frame breaks the combo.
pub proof fn law_old_circle_breaks_combo(s: OsuState, now: u64, x: i64, y: i64, i: int)
    requires
        0 <= i < s.circles.len(),
        !s.circles[i].hit,
        !s.circles[i].missed,
        MISS_AGE_MS < age(s.circles[i].spawn_time, now) <= EXPIRY_AGE_MS,
    ensures
        s.after_update(now, x, y).combo == 0,
{
    let kept = kept_circles(s.circles, now);
    s.circles.lemma_filter_contains(|c: HitCircle| stays(c, now), i);
    let j = choose|j: int| 0 <= j < kept.len() && kept[j] == s.circles[i];
    assert(becomes_missed(kept[j], now));
}

} // verus!

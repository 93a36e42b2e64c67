//! Four-lane falling arrows, hit with D, F, J and K as they cross the hit line.
use vstd::prelude::*;

use crate::keys::Key;
use crate::labels::shown_number;
use crate::motion::{travel, travel_distance, MAX_TRAVEL};
use crate::palette::Palette;
use crate::random::random_usize;

verus! {

/// Height of the playfield.
pub const SCREEN_HEIGHT: i64 = 600_000;

/// Width of one lane.
pub const LANE_WIDTH: i64 = 100_000;

/// Speed of a falling arrow, in pixels per second.
pub const ARROW_SPEED: u64 = 300;

/// Height of the hit line.
pub const HIT_LINE_Y: i64 = 500_000;

/// Greatest distance from the hit line at which a key press judges an arrow.
pub const HIT_WINDOW: i64 = 50_000;

/// Height at which new arrows appear, above the top of the playfield.
pub const SPAWN_Y: i64 = -50_000;

/// Arrows at or below this height have left the playfield and are removed.
pub const REMOVAL_Y: i64 = 650_000;

/// Time between two new arrows, in microseconds.
pub const SPAWN_INTERVAL_US: u64 = 1_000_000;

/// The lane of an arrow.
#[derive(Debug, Clone, Copy, PartialEq, Eq, Structural)]
pub enum ArrowDirection {
    Left,
    Down,
    Up,
    Right,
}

impl ArrowDirection {
    /// The key that plays this lane.
    pub open spec fn spec_key_code(self) -> Key {
        match self {
            ArrowDirection::Left => Key::D,
            ArrowDirection::Down => Key::F,
            ArrowDirection::Up => Key::J,
            ArrowDirection::Right => Key::K,
        }
    }

    /// The left edge of this lane.
    pub open spec fn spec_lane_x(self) -> int {
        match self {
            ArrowDirection::Left => 200_000,
            ArrowDirection::Down => 300_000,
            ArrowDirection::Up => 400_000,
            ArrowDirection::Right => 500_000,
        }
    }

    /// The colour of this lane.
    pub open spec fn spec_color(self) -> Palette {
        match self {
            ArrowDirection::Left => Palette::Red,
            ArrowDirection::Down => Palette::Blue,
            ArrowDirection::Up => Palette::Green,
            ArrowDirection::Right => Palette::Yellow,
        }
    }

    pub fn key_code(&self) -> (k: Key)
        ensures
            k == self.spec_key_code(),
    {
        match self {
            ArrowDirection::Left => Key::D,
            ArrowDirection::Down => Key::F,
            ArrowDirection::Up => Key::J,
            ArrowDirection::Right => Key::K,
        }
    }

    pub fn lane_x(&self) -> (x: i64)
        ensures
            x == self.spec_lane_x(),
    {
        match self {
            ArrowDirection::Left => 200_000,
            ArrowDirection::Down => 300_000,
            ArrowDirection::Up => 400_000,
            ArrowDirection::Right => 500_000,
        }
    }

    pub fn color(&self) -> (c: Palette)
        ensures
            c == self.spec_color(),
    {
        match self {
            ArrowDirection::Left => Palette::Red,
            ArrowDirection::Down => Palette::Blue,
            ArrowDirection::Up => Palette::Green,
            ArrowDirection::Right => Palette::Yellow,
        }
    }
}

/// The lane that a key plays, if any.
pub open spec fn direction_for_key(key: Key) -> Option<ArrowDirection> {
    match key {
        Key::D => Some(ArrowDirection::Left),
        Key::F => Some(ArrowDirection::Down),
        Key::J => Some(ArrowDirection::Up),
        Key::K => Some(ArrowDirection::Right),
        _ => None,
    }
}

/// The lane of a newly spawned arrow, chosen by a random number.
pub open spec fn direction_of_roll(roll: usize) -> ArrowDirection {
    if roll % 4 == 0 {
        ArrowDirection::Left
    } else if roll % 4 == 1 {
        ArrowDirection::Down
    } else if roll % 4 == 2 {
        ArrowDirection::Up
    } else {
        ArrowDirection::Right
    }
}

/// Picks the lane `roll % 4` among Left, Down, Up and Right.
pub fn direction_from_roll(roll: usize) -> (d: ArrowDirection)
    ensures
        d == direction_of_roll(roll),
{
    let r = roll % 4;
    if r == 0 {
        ArrowDirection::Left
    } else if r == 1 {
        ArrowDirection::Down
    } else if r == 2 {
        ArrowDirection::Up
    } else {
        ArrowDirection::Right
    }
}

/// How well a key press was timed.
#[derive(Debug, Clone, Copy, PartialEq, Eq, Structural)]
pub enum Accuracy {
    Miss,
    Hit50,
    Hit100,
    Hit150,
    Hit200,
    Hit300,
    Hit320,
}

/// The judgement of a press made `distance` away from the hit line.
pub open spec fn judgement(distance: int) -> Accuracy {
    if distance <= 10_000 {
        Accuracy::Hit320
    } else if distance <= 20_000 {
        Accuracy::Hit300
    } else if distance <= 40_000 {
        Accuracy::Hit200
    } else if distance <= 60_000 {
        Accuracy::Hit150
    } else if distance <= 80_000 {
        Accuracy::Hit100
    } else if distance <= 100_000 {
        Accuracy::Hit50
    } else {
        Accuracy::Miss
    }
}

/// Judges a press made `distance` away from the hit line.
pub fn judge(distance: i64) -> (a: Accuracy)
    ensures
        a == judgement(distance as int),
{
    if distance <= 10_000 {
        Accuracy::Hit320
    } else if distance <= 20_000 {
        Accuracy::Hit300
    } else if distance <= 40_000 {
        Accuracy::Hit200
    } else if distance <= 60_000 {
        Accuracy::Hit150
    } else if distance <= 80_000 {
        Accuracy::Hit100
    } else if distance <= 100_000 {
        Accuracy::Hit50
    } else {
        Accuracy::Miss
    }
}

impl Accuracy {
    /// The score that this judgement earns.
    pub open spec fn value(self) -> int {
        match self {
            Accuracy::Hit320 => 320,
            Accuracy::Hit300 => 300,
            Accuracy::Hit200 => 200,
            Accuracy::Hit150 => 150,
            Accuracy::Hit100 => 100,
            Accuracy::Hit50 => 50,
            Accuracy::Miss => 0,
        }
    }

    /// The text shown for this judgement.
    pub open spec fn spec_label(self) -> Seq<char> {
        match self {
            Accuracy::Hit320 => "320!"@,
            Accuracy::Hit300 => "300"@,
            Accuracy::Hit200 => "200"@,
            Accuracy::Hit150 => "150"@,
            Accuracy::Hit100 => "100"@,
            Accuracy::Hit50 => "50"@,
            Accuracy::Miss => "MISS"@,
        }
    }

    /// The colour in which this judgement is shown.
    pub open spec fn spec_tint(self) -> Palette {
        match self {
            Accuracy::Hit320 | Accuracy::Hit300 => Palette::Gold,
            Accuracy::Hit200 | Accuracy::Hit150 => Palette::Amber,
            Accuracy::Hit100 => Palette::LightBlue,
            Accuracy::Hit50 => Palette::LightGreen,
            Accuracy::Miss => Palette::MissRed,
        }
    }

    pub fn points(&self) -> (p: i32)
        ensures
            p == self.value(),
    {
        match self {
            Accuracy::Hit320 => 320,
            Accuracy::Hit300 => 300,
            Accuracy::Hit200 => 200,
            Accuracy::Hit150 => 150,
            Accuracy::Hit100 => 100,
            Accuracy::Hit50 => 50,
            Accuracy::Miss => 0,
        }
    }

    pub fn label(&self) -> (s: &'static str)
        ensures
            s@ == self.spec_label(),
    {
        match self {
            Accuracy::Hit320 => "320!",
            Accuracy::Hit300 => "300",
            Accuracy::Hit200 => "200",
            Accuracy::Hit150 => "150",
            Accuracy::Hit100 => "100",
            Accuracy::Hit50 => "50",
            Accuracy::Miss => "MISS",
        }
    }

    pub fn tint(&self) -> (c: Palette)
        ensures
            c == self.spec_tint(),
    {
        match self {
            Accuracy::Hit320 | Accuracy::Hit300 => Palette::Gold,
            Accuracy::Hit200 | Accuracy::Hit150 => Palette::Amber,
            Accuracy::Hit100 => Palette::LightBlue,
            Accuracy::Hit50 => Palette::LightGreen,
            Accuracy::Miss => Palette::MissRed,
        }
    }
}

/// How long a judgement stays on screen, in milliseconds.
pub const DISPLAY_TIME_MS: u64 = 1000;

/// The judgement on screen `elapsed_ms` milliseconds after it was made: the
/// judgement on display during the first second, nothing afterwards.
pub fn judgement_shown(display: Option<Accuracy>, elapsed_ms: u64) -> (shown: Option<Accuracy>)
    ensures
        shown == (if elapsed_ms < DISPLAY_TIME_MS {
            display
        } else {
            None
        }),
{
    if elapsed_ms < DISPLAY_TIME_MS {
        display
    } else {
        None
    }
}

/// A falling arrow.
#[derive(Debug, Clone, Copy)]
pub struct Arrow {
    pub direction: ArrowDirection,
    /// Height of the arrow.
    pub y: i64,
    /// Whether the arrow has been judged.
    pub hit: bool,
    pub accuracy: Option<Accuracy>,
}

/// A new arrow at the top of a lane.
pub open spec fn fresh_arrow(direction: ArrowDirection) -> Arrow {
    Arrow { direction, y: SPAWN_Y, hit: false, accuracy: None }
}

/// Distance between a height and the hit line.
pub open spec fn distance_to_line(y: int) -> int {
    if y >= HIT_LINE_Y {
        y - HIT_LINE_Y
    } else {
        HIT_LINE_Y - y
    }
}

/// Whether a press in lane `direction` can judge arrow `a`: the arrow is not yet
/// judged, lies in that lane, and is within the hit window.
pub open spec fn can_judge(a: Arrow, direction: ArrowDirection) -> bool {
    &&& !a.hit
    &&& a.direction == direction
    &&& distance_to_line(a.y as int) <= HIT_WINDOW
}

/// Arrow `i` is the first arrow that a press in lane `direction` can judge.
pub open spec fn first_judgeable(arrows: Seq<Arrow>, direction: ArrowDirection, i: int) -> bool {
    &&& 0 <= i < arrows.len()
    &&& can_judge(arrows[i], direction)
    &&& forall|j: int| 0 <= j < i ==> !can_judge(#[trigger] arrows[j], direction)
}

/// An arrow after `dt_us` microseconds: judged arrows stay, others fall.
pub open spec fn moved(a: Arrow, dt_us: u64) -> Arrow {
    if a.hit {
        a
    } else {
        Arrow { y: (a.y + travel(ARROW_SPEED, dt_us)) as i64, ..a }
    }
}

/// Whether an arrow stays on the field: it is above the removal height and not judged.
pub open spec fn stays(a: Arrow) -> bool {
    a.y < REMOVAL_Y && !a.hit
}

/// The arrows after one frame: each moved, then those that left the field or
/// were judged removed.
pub open spec fn advance_arrows(arrows: Seq<Arrow>, dt_us: u64) -> Seq<Arrow> {
    arrows.map_values(|a: Arrow| moved(a, dt_us)).filter(|a: Arrow| stays(a))
}

/// The state of a game, as the rules see it.
pub struct StepmaniaState {
    pub arrows: Seq<Arrow>,
    pub score: int,
    pub combo: int,
    /// Microseconds since the last arrow appeared.
    pub last_spawn_time: nat,
    /// The last judgement, shown on screen.
    pub accuracy_display: Option<Accuracy>,
}

impl StepmaniaState {
    /// The state of a new game.
    pub open spec fn initial() -> StepmaniaState {
        StepmaniaState {
            arrows: Seq::empty(),
            score: 0,
            combo: 0,
            last_spawn_time: 0,
            accuracy_display: None,
        }
    }

    /// Every arrow lies between the spawn height and the removal height.
    pub open spec fn wf(self) -> bool {
        forall|i: int|
            0 <= i < self.arrows.len() ==> SPAWN_Y <= #[trigger] self.arrows[i].y < REMOVAL_Y
    }

    /// A press in lane `direction` finds an arrow to judge.
    pub open spec fn has_target(self, direction: ArrowDirection) -> bool {
        exists|i: int| first_judgeable(self.arrows, direction, i)
    }

    /// The arrow that a press in lane `direction` judges.
    pub open spec fn target(self, direction: ArrowDirection) -> int {
        choose|i: int| first_judgeable(self.arrows, direction, i)
    }

    /// The judgement that a press in lane `direction` makes, if any.
    pub open spec fn hit_result(self, direction: ArrowDirection) -> Option<Accuracy> {
        if self.has_target(direction) {
            Some(judgement(distance_to_line(self.arrows[self.target(direction)].y as int)))
        } else {
            None
        }
    }

    /// The state after a press in lane `direction`: the first arrow in that lane
    /// within the window is judged by its distance to the hit line, the score
    /// grows by the judgement's points, the combo grows by one or, on a miss,
    /// falls to zero, and the judgement is put on display.
    pub open spec fn after_hit(self, direction: ArrowDirection) -> StepmaniaState {
        match self.hit_result(direction) {
            None => self,
            Some(acc) => {
                let i = self.target(direction);
                StepmaniaState {
                    arrows: self.arrows.update(
                        i,
                        Arrow { hit: true, accuracy: Some(acc), ..self.arrows[i] },
                    ),
                    score: self.score + acc.value(),
                    combo: if acc == Accuracy::Miss {
                        0
                    } else {
                        self.combo + 1
                    },
                    accuracy_display: Some(acc),
                    ..self
                }
            },
        }
    }

    /// Whether `dt_us` more microseconds make a new arrow due.
    pub open spec fn spawn_due(self, dt_us: u64) -> bool {
        self.last_spawn_time + dt_us > SPAWN_INTERVAL_US
    }

    /// The state after a frame of `dt_us` microseconds: arrows move and leave,
    /// and once more than a second has passed since the last arrow, an arrow
    /// appears in lane `direction_of_roll(roll)`.
    pub open spec fn after_update(self, dt_us: u64, roll: usize) -> StepmaniaState {
        let arrows = advance_arrows(self.arrows, dt_us);
        if self.spawn_due(dt_us) {
            StepmaniaState {
                arrows: arrows.push(fresh_arrow(direction_of_roll(roll))),
                last_spawn_time: 0,
                ..self
            }
        } else {
            StepmaniaState {
                arrows,
                last_spawn_time: (self.last_spawn_time + dt_us) as nat,
                ..self
            }
        }
    }

    /// The state after a key press.
    pub open spec fn after_key(self, key: Key) -> StepmaniaState {
        match direction_for_key(key) {
            Some(d) => self.after_hit(d),
            None => self,
        }
    }
}

/// What a key press led to.
#[derive(Debug, Clone, Copy, PartialEq, Eq, Structural)]
pub enum KeyResponse {
    /// The player asked to quit.
    Quit,
    /// An arrow was judged.
    Judged(Accuracy),
    /// Nothing was judged.
    Ignored,
}

/// A game of falling arrows.
pub struct StepmaniaGame {
    pub arrows: Vec<Arrow>,
    pub score: i32,
    pub combo: i32,
    pub last_spawn_time: u64,
    pub accuracy_display: Option<Accuracy>,
}

impl View for StepmaniaGame {
    type V = StepmaniaState;

    open spec fn view(&self) -> StepmaniaState {
        StepmaniaState {
            arrows: self.arrows@,
            score: self.score as int,
            combo: self.combo as int,
            last_spawn_time: self.last_spawn_time as nat,
            accuracy_display: self.accuracy_display,
        }
    }
}

proof fn lemma_first_unique(arrows: Seq<Arrow>, direction: ArrowDirection, i: int, k: int)
    requires
        first_judgeable(arrows, direction, i),
        first_judgeable(arrows, direction, k),
    ensures
        i == k,
{
    if i < k {
        assert(!can_judge(arrows[i], direction));
    } else if k < i {
        assert(!can_judge(arrows[k], direction));
    }
}

proof fn lemma_advance_step(arrows: Seq<Arrow>, dt_us: u64, i: int)
    requires
        0 <= i < arrows.len(),
    ensures
        advance_arrows(arrows.take(i + 1), dt_us) == if stays(moved(arrows[i], dt_us)) {
            advance_arrows(arrows.take(i), dt_us).push(moved(arrows[i], dt_us))
        } else {
            advance_arrows(arrows.take(i), dt_us)
        },
{
    let f = |a: Arrow| moved(a, dt_us);
    let p = |a: Arrow| stays(a);
    assert(arrows.take(i + 1).map_values(f) =~= arrows.take(i).map_values(f).push(f(arrows[i])));
    arrows.take(i).map_values(f).lemma_filter_push(f(arrows[i]), p);
}

impl StepmaniaGame {
    pub fn new() -> (game: Self)
        ensures
            game@ == StepmaniaState::initial(),
            game@.wf(),
    {
        StepmaniaGame {
            arrows: Vec::new(),
            score: 0,
            combo: 0,
            last_spawn_time: 0,
            accuracy_display: None,
        }
    }

    /// Puts a new arrow at the top of lane `direction`.
    pub fn spawn_arrow(&mut self, direction: ArrowDirection)
        requires
            old(self)@.wf(),
        ensures
            final(self)@ == (StepmaniaState {
                arrows: old(self)@.arrows.push(fresh_arrow(direction)),
                ..old(self)@
            }),
            final(self)@.wf(),
    {
        self.arrows.push(Arrow { direction, y: SPAWN_Y, hit: false, accuracy: None });
    }

    /// Judges the first arrow in lane `direction` that lies within the hit window.
    pub fn check_hit(&mut self, direction: ArrowDirection) -> (judged: Option<Accuracy>)
        requires
            old(self)@.wf(),
            old(self).score <= i32::MAX - 320,
            old(self).combo < i32::MAX,
        ensures
            judged == old(self)@.hit_result(direction),
            final(self)@ == old(self)@.after_hit(direction),
            final(self)@.wf(),
    {
        let ghost start = self@;
        let n = self.arrows.len();
        let mut i: usize = 0;
        while i < n
            invariant
                n == self.arrows.len(),
                i <= n,
                self@ == start,
                start == old(self)@,
                start.wf(),
                self.score <= i32::MAX - 320,
                self.combo < i32::MAX,
                forall|j: int| 0 <= j < i ==> !can_judge(#[trigger] start.arrows[j], direction),
            decreases n - i,
        {
            let a = self.arrows[i];
            if !a.hit && a.direction == direction {
                let distance = if a.y >= HIT_LINE_Y {
                    a.y - HIT_LINE_Y
                } else {
                    HIT_LINE_Y - a.y
                };
                if distance <= HIT_WINDOW {
                    proof {
                        assert(first_judgeable(start.arrows, direction, i as int));
                        lemma_first_unique(
                            start.arrows,
                            direction,
                            i as int,
                            start.target(direction),
                        );
                    }
                    let accuracy = judge(distance);
                    self.score = self.score + accuracy.points();
                    if accuracy == Accuracy::Miss {
                        self.combo = 0;
                    } else {
                        self.combo = self.combo + 1;
                    }
                    self.arrows.set(
                        i,
                        Arrow { direction: a.direction, y: a.y, hit: true, accuracy: Some(accuracy) },
                    );
                    self.accuracy_display = Some(accuracy);
                    assert(self@.arrows =~= start.after_hit(direction).arrows);
                    return Some(accuracy);
                }
            }
            i = i + 1;
        }
        None
    }

    /// Moves the arrows by one frame of `dt_us` microseconds, removes those that
    /// left the field or were judged, and advances the spawn clock; returns
    /// whether a new arrow is due.
    fn advance(&mut self, dt_us: u64) -> (due: bool)
        requires
            old(self)@.wf(),
        ensures
            due == old(self)@.spawn_due(dt_us),
            final(self)@ == (StepmaniaState {
                arrows: advance_arrows(old(self)@.arrows, dt_us),
                last_spawn_time: if due {
                    0
                } else {
                    (old(self)@.last_spawn_time + dt_us) as nat
                },
                ..old(self)@
            }),
            final(self)@.wf(),
    {
        let ghost start = self@;
        let step = travel_distance(ARROW_SPEED, dt_us);
        let n = self.arrows.len();
        let mut kept: Vec<Arrow> = Vec::new();
        for i in 0..n
            invariant
                n == self.arrows.len(),
                self@ == start,
                start.wf(),
                step == travel(ARROW_SPEED, dt_us),
                0 <= step <= MAX_TRAVEL,
                kept@ == advance_arrows(start.arrows.take(i as int), dt_us),
                forall|k: int| 0 <= k < kept@.len() ==> SPAWN_Y <= #[trigger] kept@[k].y < REMOVAL_Y,
        {
            let a = self.arrows[i];
            let m = if a.hit {
                a
            } else {
                Arrow { direction: a.direction, y: a.y + step, hit: a.hit, accuracy: a.accuracy }
            };
            proof {
                lemma_advance_step(start.arrows, dt_us, i as int);
            }
            if m.y < REMOVAL_Y && !m.hit {
                kept.push(m);
            }
        }
        proof {
            assert(start.arrows.take(n as int) =~= start.arrows);
        }
        self.arrows = kept;
        let elapsed = self.last_spawn_time.saturating_add(dt_us);
        if elapsed > SPAWN_INTERVAL_US {
            self.last_spawn_time = 0;
            true
        } else {
            self.last_spawn_time = elapsed;
            false
        }
    }

    /// One frame of `dt_us` microseconds, with `roll` choosing the lane of an
    /// arrow that appears.
    pub fn update_with(&mut self, dt_us: u64, roll: usize)
        requires
            old(self)@.wf(),
        ensures
            final(self)@ == old(self)@.after_update(dt_us, roll),
            final(self)@.wf(),
    {
        if self.advance(dt_us) {
            let direction = direction_from_roll(roll);
            self.spawn_arrow(direction);
        }
    }

    /// One frame of `dt_us` microseconds; the lane of an arrow that appears is
    /// drawn at random.
    pub fn update(&mut self, dt_us: u64)
        requires
            old(self)@.wf(),
        ensures
            exists|roll: usize| final(self)@ == old(self)@.after_update(dt_us, roll),
            final(self)@.wf(),
    {
        if self.advance(dt_us) {
            let roll = random_usize();
            let direction = direction_from_roll(roll);
            self.spawn_arrow(direction);
            assert(self@ == old(self)@.after_update(dt_us, roll));
        } else {
            assert(self@ == old(self)@.after_update(dt_us, 0));
        }
    }

    /// Handles a key press: D, F, J and K judge their lanes, Escape asks to quit.
    pub fn key_down_event(&mut self, key: Key) -> (response: KeyResponse)
        requires
            old(self)@.wf(),
            old(self).score <= i32::MAX - 320,
            old(self).combo < i32::MAX,
        ensures
            final(self)@ == old(self)@.after_key(key),
            final(self)@.wf(),
            response == (if key == Key::Escape {
                KeyResponse::Quit
            } else {
                match direction_for_key(key) {
                    Some(d) => match old(self)@.hit_result(d) {
                        Some(acc) => KeyResponse::Judged(acc),
                        None => KeyResponse::Ignored,
                    },
                    None => KeyResponse::Ignored,
                }
            }),
    {
        let direction = match key {
            Key::D => ArrowDirection::Left,
            Key::F => ArrowDirection::Down,
            Key::J => ArrowDirection::Up,
            Key::K => ArrowDirection::Right,
            Key::Escape => {
                return KeyResponse::Quit;
            },
            _ => {
                return KeyResponse::Ignored;
            },
        };
        match self.check_hit(direction) {
            Some(acc) => KeyResponse::Judged(acc),
            None => KeyResponse::Ignored,
        }
    }
}

/// A press closer to the hit line never earns fewer points than a press farther away.
pub proof fn law_closer_press_scores_no_less(d1: int, d2: int)
    requires
        0 <= d1 <= d2,
    ensures
        judgement(d1).value() >= judgement(d2).value(),
{
}

/// A press never lowers the score, and it either raises the combo by one or
/// resets it to zero.
pub proof fn law_press_never_lowers_score(s: StepmaniaState, direction: ArrowDirection)
    ensures
        s.after_hit(direction).score >= s.score,
        s.after_hit(direction).combo == s.combo || s.after_hit(direction).combo == s.combo + 1
            || s.after_hit(direction).combo == 0,
{
}

/// A press inside the hit window always lands in the window's judgements: it
/// never counts as a miss, so it never breaks the combo.
pub proof fn law_press_in_window_never_misses(s: StepmaniaState, direction: ArrowDirection)
    ensures
        s.hit_result(direction) != Some(Accuracy::Miss),
        s.has_target(direction) ==> s.after_hit(direction).combo == s.combo + 1,
{
    if s.has_target(direction) {
        let i = s.target(direction);
        assert(first_judgeable(s.arrows, direction, i));
    }
}

/// An arrow that was judged is never judged again: a press leaves it as it was.
pub proof fn law_judged_arrow_stays_judged(s: StepmaniaState, direction: ArrowDirection, i: int)
    requires
        0 <= i < s.arrows.len(),
        s.arrows[i].hit,
    ensures
        s.after_hit(direction).arrows[i] == s.arrows[i],
        s.after_hit(direction).arrows.len() == s.arrows.len(),
{
    if s.has_target(direction) {
        assert(first_judgeable(s.arrows, direction, s.target(direction)));
    }
}

proof fn lemma_first_exists(arrows: Seq<Arrow>, direction: ArrowDirection, k: int)
    requires
        0 <= k < arrows.len(),
        can_judge(arrows[k], direction),
    ensures
        exists|i: int| first_judgeable(arrows, direction, i),
    decreases k,
{
    if exists|j: int| 0 <= j < k && can_judge(#[trigger] arrows[j], direction) {
        let j = choose|j: int| 0 <= j < k && can_judge(#[trigger] arrows[j], direction);
        lemma_first_exists(arrows, direction, j);
    } else {
        assert(first_judgeable(arrows, direction, k));
    }
}

/// A press in a lane where an unjudged arrow lies inside the hit window always
/// judges an arrow, and only such presses do.
pub proof fn law_arrow_in_window_is_judged(s: StepmaniaState, direction: ArrowDirection, k: int)
    requires
        0 <= k < s.arrows.len(),
        can_judge(s.arrows[k], direction),
    ensures
        s.hit_result(direction) is Some,
        s.after_hit(direction).score == s.score + s.hit_result(direction)->Some_0.value(),
{
    lemma_first_exists(s.arrows, direction, k);
}

/// A frame never changes score, combo or the judgement on display, and it leaves
/// only unjudged arrows inside the field, at most one more than before.
pub proof fn law_frame_keeps_score(s: StepmaniaState, dt_us: u64, roll: usize)
    requires
        s.wf(),
    ensures
        s.after_update(dt_us, roll).score == s.score,
        s.after_update(dt_us, roll).combo == s.combo,
        s.after_update(dt_us, roll).accuracy_display == s.accuracy_display,
        s.after_update(dt_us, roll).arrows.len() <= s.arrows.len() + 1,
        forall|i: int|
            0 <= i < s.after_update(dt_us, roll).arrows.len() ==> {
                let a = #[trigger] s.after_update(dt_us, roll).arrows[i];
                &&& !a.hit
                &&& SPAWN_Y <= a.y < REMOVAL_Y
            },
{
    lemma_advance_bounds(s.arrows, dt_us, s.arrows.len() as int);
    assert(s.arrows.take(s.arrows.len() as int) =~= s.arrows);
}

proof fn lemma_advance_bounds(arrows: Seq<Arrow>, dt_us: u64, n: int)
    requires
        0 <= n <= arrows.len(),
        forall|i: int| 0 <= i < arrows.len() ==> SPAWN_Y <= #[trigger] arrows[i].y < REMOVAL_Y,
    ensures
        advance_arrows(arrows.take(n), dt_us).len() <= n,
        forall|i: int|
            0 <= i < advance_arrows(arrows.take(n), dt_us).len() ==> {
                let a = #[trigger] advance_arrows(arrows.take(n), dt_us)[i];
                &&& !a.hit
                &&& SPAWN_Y <= a.y < REMOVAL_Y
            },
    decreases n,
{
    if n == 0 {
        assert(arrows.take(0) =~= Seq::<Arrow>::empty());
        reveal(Seq::filter);
    } else {
        lemma_advance_bounds(arrows, dt_us, n - 1);
        lemma_advance_step(arrows, dt_us, n - 1);
    }
}

/// Pressing the key of a lane judges that lane as a press in it does, and a key
/// that plays no lane changes nothing.
pub proof fn law_key_press_is_lane_press(s: StepmaniaState, direction: ArrowDirection, key: Key)
    ensures
        s.after_key(direction.spec_key_code()) == s.after_hit(direction),
        direction_for_key(key) is None ==> s.after_key(key) == s,
{
}

/// Each of D, F, J and K plays exactly the lane whose key it is.
pub proof fn law_key_plays_its_lane(direction: ArrowDirection)
    ensures
        direction_for_key(direction.spec_key_code()) == Some(direction),
{
}

/// Each judgement earns exactly the number of points written on it: 320 for
/// "320!", 300 for "300", down to 50 for "50", and none for "MISS".
pub proof fn law_points_are_the_shown_number(a: Accuracy)
    ensures
        a.value() == shown_number(a.spec_label()),
{
    reveal_with_fuel(shown_number, 5);
    reveal_strlit("320!");
    reveal_strlit("300");
    reveal_strlit("200");
    reveal_strlit("150");
    reveal_strlit("100");
    reveal_strlit("50");
    reveal_strlit("MISS");
}

/// A press that judges an arrow raises the score by exactly the number shown
/// for its judgement, and nothing else does.
pub proof fn law_score_gain_is_shown(s: StepmaniaState, direction: ArrowDirection)
    ensures
        s.has_target(direction) ==> s.after_hit(direction).accuracy_display is Some
            && s.after_hit(direction).score == s.score + shown_number(
            s.after_hit(direction).accuracy_display->Some_0.spec_label(),
        ),
        !s.has_target(direction) ==> s.after_hit(direction).score == s.score,
{
    if s.has_target(direction) {
        law_points_are_the_shown_number(s.hit_result(direction)->Some_0);
    }
}

/// A press from 20 to 40 pixels away from the hit line, in the window, earns
/// exactly 200, and the ranks earn strictly more the closer they are.
pub proof fn law_tiers_earn_their_points(d: int)
    ensures
        20_000 < d <= 40_000 ==> judgement(d).value() == 200,
        0 <= d <= 10_000 ==> judgement(d).value() == 320,
        10_000 < d <= 20_000 ==> judgement(d).value() == 300,
        40_000 < d <= 60_000 ==> judgement(d).value() == 150,
        60_000 < d <= 80_000 ==> judgement(d).value() == 100,
        80_000 < d <= 100_000 ==> judgement(d).value() == 50,
        100_000 < d ==> judgement(d).value() == 0,
{
    law_points_are_the_shown_number(judgement(d));
    reveal_with_fuel(shown_number, 5);
    reveal_strlit("320!");
    reveal_strlit("300");
    reveal_strlit("200");
    reveal_strlit("150");
    reveal_strlit("100");
    reveal_strlit("50");
    reveal_strlit("MISS");
}

/// A new arrow's lane is the `roll % 4`-th from the left, so every lane can
/// be drawn.
pub proof fn law_roll_picks_lane_from_left(roll: usize)
    ensures
        direction_of_roll(roll).spec_lane_x() == 200_000 + LANE_WIDTH * (roll % 4),
{
}

/// D, F, J and K play the four lanes from left to right, in red, blue, green
/// and yellow.
pub proof fn law_keys_play_lanes_left_to_right()
    ensures
        direction_for_key(Key::D) matches Some(d) && d.spec_lane_x() == 200_000 && d.spec_color() == Palette::Red,
        direction_for_key(Key::F) matches Some(d) && d.spec_lane_x() == 300_000 && d.spec_color() == Palette::Blue,
        direction_for_key(Key::J) matches Some(d) && d.spec_lane_x() == 400_000 && d.spec_color() == Palette::Green,
        direction_for_key(Key::K) matches Some(d) && d.spec_lane_x() == 500_000 && d.spec_color() == Palette::Yellow,
{
}

} // verus!

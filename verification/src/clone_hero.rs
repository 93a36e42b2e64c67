//! Five-fret guitar notes falling down a fretboard, played with D, F, J, K and L.
//! Single notes are struck once; hold notes are struck and then held until the
//! fret is released.
use vstd::prelude::*;

use crate::keys::Key;
use crate::motion::{travel, travel_distance, MAX_TRAVEL};
use crate::palette::Palette;
use crate::random::{random_in_range, random_usize};

verus! {

/// Height of the playfield.
pub const SCREEN_HEIGHT: i64 = 600_000;

/// Speed of a falling note, in pixels per second.
pub const NOTE_SPEED: u64 = 300;

/// Height of the hit line.
pub const HIT_LINE_Y: i64 = 500_000;

/// Width of one lane.
pub const LANE_WIDTH: i64 = 80_000;

/// Width of a fret button and of a note.
pub const FRET_WIDTH: i64 = 60_000;

/// A key press judges notes closer than this to the hit line.
pub const HIT_WINDOW: i64 = 50_000;

/// A note that falls below this height unplayed is missed.
pub const MISS_Y: i64 = 550_000;

/// Height at which new notes appear, above the top of the playfield.
pub const SPAWN_Y: i64 = -50_000;

/// Notes at or below this height have left the playfield and are removed.
pub const REMOVAL_Y: i64 = 650_000;

/// Time between two new notes, in microseconds.
pub const SPAWN_INTERVAL_US: u64 = 1_000_000;

/// Out of ten spawned notes, how many are single notes on average.
pub const SINGLE_NOTE_CHANCE: i64 = 7;

/// Shortest trail of a hold note.
pub const MIN_HOLD_LENGTH: i64 = 100_000;

/// Longest trail of a hold note (exclusive).
pub const MAX_HOLD_LENGTH: i64 = 300_000;

/// One of the five frets.
#[derive(Debug, Clone, Copy, PartialEq, Eq, Structural)]
pub enum FretColor {
    Green,
    Red,
    Yellow,
    Blue,
    Orange,
}

impl FretColor {
    /// The key that plays this fret.
    pub open spec fn spec_key_code(self) -> Key {
        match self {
            FretColor::Green => Key::D,
            FretColor::Red => Key::F,
            FretColor::Yellow => Key::J,
            FretColor::Blue => Key::K,
            FretColor::Orange => Key::L,
        }
    }

    /// The left edge of this fret's lane.
    pub open spec fn spec_lane_x(self) -> int {
        200_000 + LANE_WIDTH * self.spec_index()
    }

    /// The colour of this fret.
    pub open spec fn spec_color(self) -> Palette {
        match self {
            FretColor::Green => Palette::Green,
            FretColor::Red => Palette::Red,
            FretColor::Yellow => Palette::Yellow,
            FretColor::Blue => Palette::Blue,
            FretColor::Orange => Palette::Orange,
        }
    }

    /// The position of this fret, counted from the left.
    pub open spec fn spec_index(self) -> int {
        match self {
            FretColor::Green => 0,
            FretColor::Red => 1,
            FretColor::Yellow => 2,
            FretColor::Blue => 3,
            FretColor::Orange => 4,
        }
    }

    pub fn key_code(&self) -> (k: Key)
        ensures
            k == self.spec_key_code(),
    {
        match self {
            FretColor::Green => Key::D,
            FretColor::Red => Key::F,
            FretColor::Yellow => Key::J,
            FretColor::Blue => Key::K,
            FretColor::Orange => Key::L,
        }
    }

    pub fn lane_x(&self) -> (x: i64)
        ensures
            x == self.spec_lane_x(),
    {
        match self {
            FretColor::Green => 200_000,
            FretColor::Red => 280_000,
            FretColor::Yellow => 360_000,
            FretColor::Blue => 440_000,
            FretColor::Orange => 520_000,
        }
    }

    pub fn color(&self) -> (c: Palette)
        ensures
            c == self.spec_color(),
    {
        match self {
            FretColor::Green => Palette::Green,
            FretColor::Red => Palette::Red,
            FretColor::Yellow => Palette::Yellow,
            FretColor::Blue => Palette::Blue,
            FretColor::Orange => Palette::Orange,
        }
    }

    pub fn index(&self) -> (i: usize)
        ensures
            i == self.spec_index(),
    {
        match self {
            FretColor::Green => 0,
            FretColor::Red => 1,
            FretColor::Yellow => 2,
            FretColor::Blue => 3,
            FretColor::Orange => 4,
        }
    }
}

/// The fret that a key plays, if any.
pub open spec fn fret_for_key(key: Key) -> Option<FretColor> {
    match key {
        Key::D => Some(FretColor::Green),
        Key::F => Some(FretColor::Red),
        Key::J => Some(FretColor::Yellow),
        Key::K => Some(FretColor::Blue),
        Key::L => Some(FretColor::Orange),
        _ => None,
    }
}

/// The fret of a newly spawned note, chosen by a random number.
pub open spec fn fret_of_roll(roll: usize) -> FretColor {
    if roll % 5 == 0 {
        FretColor::Green
    } else if roll % 5 == 1 {
        FretColor::Red
    } else if roll % 5 == 2 {
        FretColor::Yellow
    } else if roll % 5 == 3 {
        FretColor::Blue
    } else {
        FretColor::Orange
    }
}

/// Picks the fret `roll % 5` among the five frets, from the left.
pub fn fret_from_roll(roll: usize) -> (c: FretColor)
    ensures
        c == fret_of_roll(roll),
{
    let r = roll % 5;
    if r == 0 {
        FretColor::Green
    } else if r == 1 {
        FretColor::Red
    } else if r == 2 {
        FretColor::Yellow
    } else if r == 3 {
        FretColor::Blue
    } else {
        FretColor::Orange
    }
}

/// The kind of a note.
#[derive(Debug, Clone, Copy, PartialEq, Eq, Structural)]
pub enum NoteType {
    /// A note struck once.
    Single { color: FretColor },
    /// A note struck and then held; `duration` is the length of its trail.
    Hold { color: FretColor, duration: i64 },
}

impl NoteType {
    /// The fret of the note.
    pub open spec fn fret(self) -> FretColor {
        match self {
            NoteType::Single { color } => color,
            NoteType::Hold { color, .. } => color,
        }
    }
}

/// A falling note.
#[derive(Debug, Clone, Copy)]
pub struct Note {
    pub note_type: NoteType,
    /// Height of the note.
    pub y: i64,
    /// Whether the note is done: struck (single) or released (hold).
    pub hit: bool,
    /// Whether the note fell past the hit line unplayed.
    pub missed: bool,
    /// Whether the start of a hold note was struck.
    pub hold_start_hit: bool,
}

/// A new note at the top of the fretboard.
pub open spec fn fresh_note(note_type: NoteType) -> Note {
    Note { note_type, y: SPAWN_Y, hit: false, missed: false, hold_start_hit: false }
}

/// The note that appears for the random values `color_roll`, `kind_roll`
/// (single when below 7) and `duration`.
pub open spec fn spawned_note(color_roll: usize, kind_roll: i64, duration: i64) -> Note {
    if kind_roll < SINGLE_NOTE_CHANCE {
        fresh_note(NoteType::Single { color: fret_of_roll(color_roll) })
    } else {
        fresh_note(NoteType::Hold { color: fret_of_roll(color_roll), duration })
    }
}

/// Distance between a height and the hit line.
pub open spec fn distance_to_line(y: int) -> int {
    if y >= HIT_LINE_Y {
        y - HIT_LINE_Y
    } else {
        HIT_LINE_Y - y
    }
}

/// The points a single note earns when struck `distance` from the hit line.
pub open spec fn single_points(distance: int) -> int {
    if distance < 20_000 {
        100
    } else if distance < 35_000 {
        50
    } else {
        25
    }
}

/// Points for striking a single note `distance` from the hit line: 100 for a
/// perfect strike, 50 for a good one, 25 otherwise.
pub fn single_note_points(distance: i64) -> (p: i32)
    ensures
        p == single_points(distance as int),
{
    if distance < 20_000 {
        100
    } else if distance < 35_000 {
        50
    } else {
        25
    }
}

/// Points for striking the start of a hold note.
pub const HOLD_START_POINTS: i32 = 50;

/// Whether striking `fret` can play note `n`: the note is neither done nor
/// missed, lies closer to the hit line than the window, is on that fret, and,
/// for a hold note, its start was not yet struck.
pub open spec fn can_play(n: Note, fret: FretColor) -> bool {
    &&& !n.hit
    &&& !n.missed
    &&& distance_to_line(n.y as int) < HIT_WINDOW
    &&& match n.note_type {
        NoteType::Single { color } => color == fret,
        NoteType::Hold { color, .. } => color == fret && !n.hold_start_hit,
    }
}

/// Note `i` is the first note that striking `fret` can play.
pub open spec fn first_playable(notes: Seq<Note>, fret: FretColor, i: int) -> bool {
    &&& 0 <= i < notes.len()
    &&& can_play(notes[i], fret)
    &&& forall|j: int| 0 <= j < i ==> !can_play(#[trigger] notes[j], fret)
}

/// A note after `dt_us` microseconds: notes that are done or missed stay put,
/// others fall, and are missed once they fall below the miss height.
pub open spec fn moved(n: Note, dt_us: u64) -> Note {
    if n.hit || n.missed {
        n
    } else {
        let y = (n.y + travel(NOTE_SPEED, dt_us)) as i64;
        Note { y, missed: y > MISS_Y, ..n }
    }
}

/// Whether note `n` becomes missed in a frame of `dt_us` microseconds.
pub open spec fn newly_missed(n: Note, dt_us: u64) -> bool {
    !n.hit && !n.missed && moved(n, dt_us).missed
}

/// Whether hold note `n` was let go: its start was struck, it is not done, and
/// its fret is no longer pressed.
pub open spec fn released(n: Note, pressed: Seq<bool>) -> bool {
    match n.note_type {
        NoteType::Hold { color, .. } => n.hold_start_hit && !n.hit && !pressed[color.spec_index()],
        _ => false,
    }
}

/// A note after the held frets are checked: a let-go hold note is done.
pub open spec fn after_release(n: Note, pressed: Seq<bool>) -> Note {
    if released(n, pressed) {
        Note { hit: true, ..n }
    } else {
        n
    }
}

/// Whether a note stays on the field: it is above the removal height and not done.
pub open spec fn stays(n: Note) -> bool {
    n.y < REMOVAL_Y && !n.hit
}

/// The notes that stay on the field, in order.
pub open spec fn kept_notes(notes: Seq<Note>) -> Seq<Note> {
    notes.filter(|n: Note| stays(n))
}

/// The state of a game, as the rules see it.
pub struct CloneHeroState {
    pub notes: Seq<Note>,
    pub score: int,
    pub combo: int,
    /// Microseconds since the last note appeared.
    pub last_spawn_time: nat,
    /// Which of the five frets are held down, from the left.
    pub pressed_frets: Seq<bool>,
}

impl CloneHeroState {
    /// The state of a new game.
    pub open spec fn initial() -> CloneHeroState {
        CloneHeroState {
            notes: Seq::empty(),
            score: 0,
            combo: 0,
            last_spawn_time: 0,
            pressed_frets: seq![false, false, false, false, false],
        }
    }

    /// Every note lies between the spawn height and the removal height, and
    /// there are five frets.
    pub open spec fn wf(self) -> bool {
        &&& self.pressed_frets.len() == 5
        &&& forall|i: int|
            0 <= i < self.notes.len() ==> SPAWN_Y <= #[trigger] self.notes[i].y < REMOVAL_Y
    }

    /// Striking `fret` finds a note to play.
    pub open spec fn has_target(self, fret: FretColor) -> bool {
        exists|i: int| first_playable(self.notes, fret, i)
    }

    /// The note that striking `fret` plays.
    pub open spec fn target(self, fret: FretColor) -> int {
        choose|i: int| first_playable(self.notes, fret, i)
    }

    /// The state after striking `fret`: the first playable note on that fret is
    /// played. A single note is done and earns points by its distance to the hit
    /// line; a hold note has its start struck and earns 50. Either raises the
    /// combo by one.
    pub open spec fn after_hit(self, fret: FretColor) -> CloneHeroState {
        if self.has_target(fret) {
            let i = self.target(fret);
            let n = self.notes[i];
            match n.note_type {
                NoteType::Single { .. } => CloneHeroState {
                    notes: self.notes.update(i, Note { hit: true, ..n }),
                    score: self.score + single_points(distance_to_line(n.y as int)),
                    combo: self.combo + 1,
                    ..self
                },
                NoteType::Hold { .. } => CloneHeroState {
                    notes: self.notes.update(i, Note { hold_start_hit: true, ..n }),
                    score: self.score + HOLD_START_POINTS,
                    combo: self.combo + 1,
                    ..self
                },
            }
        } else {
            self
        }
    }

    /// The state after pressing the key of `fret`: the fret is held, then struck.
    pub open spec fn press(self, fret: FretColor) -> CloneHeroState {
        CloneHeroState {
            pressed_frets: self.pressed_frets.update(fret.spec_index(), true),
            ..self
        }.after_hit(fret)
    }

    /// The state after letting go of the key of `fret`.
    pub open spec fn release(self, fret: FretColor) -> CloneHeroState {
        CloneHeroState { pressed_frets: self.pressed_frets.update(fret.spec_index(), false), ..self }
    }

    /// The state after notes fall for `dt_us` microseconds; a note that becomes
    /// missed breaks the combo.
    pub open spec fn after_moves(self, dt_us: u64) -> CloneHeroState {
        CloneHeroState {
            notes: self.notes.map_values(|n: Note| moved(n, dt_us)),
            combo: if exists|i: int| 0 <= i < self.notes.len() && newly_missed(#[trigger] self.notes[i], dt_us) {
                0
            } else {
                self.combo
            },
            ..self
        }
    }

    /// The state after the held frets are checked: let-go hold notes are done,
    /// and letting one go breaks the combo.
    pub open spec fn after_hold_check(self) -> CloneHeroState {
        CloneHeroState {
            notes: self.notes.map_values(|n: Note| after_release(n, self.pressed_frets)),
            combo: if exists|i: int| 0 <= i < self.notes.len() && released(#[trigger] self.notes[i], self.pressed_frets) {
                0
            } else {
                self.combo
            },
            ..self
        }
    }

    /// The state after notes that left the field or are done are removed.
    pub open spec fn after_removal(self) -> CloneHeroState {
        CloneHeroState { notes: kept_notes(self.notes), ..self }
    }

    /// Whether `dt_us` more microseconds make a new note due.
    pub open spec fn spawn_due(self, dt_us: u64) -> bool {
        self.last_spawn_time + dt_us > SPAWN_INTERVAL_US
    }

    /// The state after a frame of `dt_us` microseconds: notes fall, held frets
    /// are checked, finished notes leave, and once more than a second has passed
    /// since the last note, `spawned_note(color_roll, kind_roll, duration)` appears.
    pub open spec fn after_update(self, dt_us: u64, color_roll: usize, kind_roll: i64, duration: i64) -> CloneHeroState {
        let s = self.after_moves(dt_us).after_hold_check().after_removal();
        if self.spawn_due(dt_us) {
            CloneHeroState {
                notes: s.notes.push(spawned_note(color_roll, kind_roll, duration)),
                last_spawn_time: 0,
                ..s
            }
        } else {
            CloneHeroState { last_spawn_time: (self.last_spawn_time + dt_us) as nat, ..s }
        }
    }
}

/// A game of guitar notes.
pub struct CloneHeroGame {
    pub notes: Vec<Note>,
    pub score: i32,
    pub combo: i32,
    pub last_spawn_time: u64,
    pub pressed_frets: [bool; 5],
}

impl View for CloneHeroGame {
    type V = CloneHeroState;

    open spec fn view(&self) -> CloneHeroState {
        CloneHeroState {
            notes: self.notes@,
            score: self.score as int,
            combo: self.combo as int,
            last_spawn_time: self.last_spawn_time as nat,
            pressed_frets: self.pressed_frets@,
        }
    }
}

proof fn lemma_first_unique(notes: Seq<Note>, fret: FretColor, i: int, k: int)
    requires
        first_playable(notes, fret, i),
        first_playable(notes, fret, k),
    ensures
        i == k,
{
    if i < k {
        assert(!can_play(notes[i], fret));
    } else if k < i {
        assert(!can_play(notes[k], fret));
    }
}

proof fn lemma_filter_step(notes: Seq<Note>, i: int)
    requires
        0 <= i < notes.len(),
    ensures
        kept_notes(notes.take(i + 1)) == if stays(notes[i]) {
            kept_notes(notes.take(i)).push(notes[i])
        } else {
            kept_notes(notes.take(i))
        },
{
    assert(notes.take(i + 1) =~= notes.take(i).push(notes[i]));
    notes.take(i).lemma_filter_push(notes[i], |n: Note| stays(n));
}

impl CloneHeroGame {
    pub fn new() -> (game: Self)
        ensures
            game@ == CloneHeroState::initial(),
            game@.wf(),
    {
        let game = CloneHeroGame {
            notes: Vec::new(),
            score: 0,
            combo: 0,
            last_spawn_time: 0,
            pressed_frets: [false, false, false, false, false],
        };
        assert(game@.pressed_frets =~= seq![false, false, false, false, false]);
        game
    }

    /// Puts a new note at the top of the fretboard.
    pub fn spawn_note(&mut self, note_type: NoteType)
        requires
            old(self)@.wf(),
        ensures
            final(self)@ == (CloneHeroState {
                notes: old(self)@.notes.push(fresh_note(note_type)),
                ..old(self)@
            }),
            final(self)@.wf(),
    {
        self.notes.push(Note { note_type, y: SPAWN_Y, hit: false, missed: false, hold_start_hit: false });
    }

    /// Plays the first note on `fret` that is neither done nor missed and lies
    /// within the hit window.
    pub fn check_hit(&mut self, fret: FretColor)
        requires
            old(self)@.wf(),
            old(self).score <= i32::MAX - 100,
            old(self).combo < i32::MAX,
        ensures
            final(self)@ == old(self)@.after_hit(fret),
            final(self)@.wf(),
    {
        let ghost start = self@;
        let n = self.notes.len();
        let mut i: usize = 0;
        while i < n
            invariant
                n == self.notes.len(),
                i <= n,
                self@ == start,
                start == old(self)@,
                start.wf(),
                self.score <= i32::MAX - 100,
                self.combo < i32::MAX,
                forall|j: int| 0 <= j < i ==> !can_play(#[trigger] start.notes[j], fret),
            decreases n - i,
        {
            let note = self.notes[i];
            if !note.hit && !note.missed {
                let distance = if note.y >= HIT_LINE_Y {
                    note.y - HIT_LINE_Y
                } else {
                    HIT_LINE_Y - note.y
                };
                if distance < HIT_WINDOW {
                    match note.note_type {
                        NoteType::Single { color } => {
                            if color == fret {
                                proof {
                                    assert(first_playable(start.notes, fret, i as int));
                                    lemma_first_unique(start.notes, fret, i as int, start.target(fret));
                                }
                                self.notes.set(
                                    i,
                                    Note {
                                        note_type: note.note_type,
                                        y: note.y,
                                        hit: true,
                                        missed: note.missed,
                                        hold_start_hit: note.hold_start_hit,
                                    },
                                );
                                self.combo = self.combo + 1;
                                self.score = self.score + single_note_points(distance);
                                assert(self@.notes =~= start.after_hit(fret).notes);
                                return;
                            }
                        },
                        NoteType::Hold { color, .. } => {
                            if color == fret && !note.hold_start_hit {
                                proof {
                                    assert(first_playable(start.notes, fret, i as int));
                                    lemma_first_unique(start.notes, fret, i as int, start.target(fret));
                                }
                                self.notes.set(
                                    i,
                                    Note {
                                        note_type: note.note_type,
                                        y: note.y,
                                        hit: note.hit,
                                        missed: note.missed,
                                        hold_start_hit: true,
                                    },
                                );
                                self.combo = self.combo + 1;
                                self.score = self.score + HOLD_START_POINTS;
                                assert(self@.notes =~= start.after_hit(fret).notes);
                                return;
                            }
                        },
                    }
                }
            }
            i = i + 1;
        }
    }

    /// Finishes every hold note whose start was struck and whose fret is no
    /// longer held; letting one go breaks the combo.
    pub fn update_hold_notes(&mut self)
        requires
            old(self)@.pressed_frets.len() == 5,
        ensures
            final(self)@ == old(self)@.after_hold_check(),
    {
        let ghost start = self@;
        let n = self.notes.len();
        for i in 0..n
            invariant
                n == self.notes.len(),
                start.pressed_frets.len() == 5,
                self.pressed_frets@ == start.pressed_frets,
                self.score == start.score,
                self.last_spawn_time == start.last_spawn_time,
                n == start.notes.len(),
                forall|k: int|
                    0 <= k < i ==> #[trigger] self.notes@[k] == after_release(start.notes[k], start.pressed_frets),
                forall|k: int| i <= k < n ==> #[trigger] self.notes@[k] == start.notes[k],
                self.combo == if exists|k: int| 0 <= k < i && released(#[trigger] start.notes[k], start.pressed_frets) {
                    0
                } else {
                    start.combo
                },
        {
            let note = self.notes[i];
            match note.note_type {
                NoteType::Hold { color, .. } => {
                    if note.hold_start_hit && !note.hit {
                        let idx = color.index();
                        if !self.pressed_frets[idx] {
                            self.notes.set(
                                i,
                                Note {
                                    note_type: note.note_type,
                                    y: note.y,
                                    hit: true,
                                    missed: note.missed,
                                    hold_start_hit: note.hold_start_hit,
                                },
                            );
                            self.combo = 0;
                        }
                    }
                },
                _ => {},
            }
            assert(self.combo == if exists|k: int| 0 <= k < i + 1 && released(#[trigger] start.notes[k], start.pressed_frets) {
                0
            } else {
                start.combo
            }) by {
                if released(start.notes[i as int], start.pressed_frets) {
                    assert(0 <= i < i + 1);
                }
            }
        }
        assert(self@.notes =~= start.after_hold_check().notes);
    }

    /// Lets notes fall for `dt_us` microseconds, marking those that pass the miss
    /// height unplayed as missed.
    fn fall(&mut self, dt_us: u64)
        requires
            old(self)@.wf(),
        ensures
            final(self)@ == old(self)@.after_moves(dt_us),
            forall|k: int|
                0 <= k < final(self)@.notes.len() ==> SPAWN_Y <= #[trigger] final(self)@.notes[k].y,
            final(self)@.pressed_frets.len() == 5,
    {
        let ghost start = self@;
        let step = travel_distance(NOTE_SPEED, dt_us);
        let n = self.notes.len();
        for i in 0..n
            invariant
                n == self.notes.len(),
                start.wf(),
                step == travel(NOTE_SPEED, dt_us),
                0 <= step <= MAX_TRAVEL,
                self.pressed_frets@ == start.pressed_frets,
                self.score == start.score,
                self.last_spawn_time == start.last_spawn_time,
                n == start.notes.len(),
                forall|k: int| 0 <= k < i ==> #[trigger] self.notes@[k] == moved(start.notes[k], dt_us),
                forall|k: int| i <= k < n ==> #[trigger] self.notes@[k] == start.notes[k],
                self.combo == if exists|k: int| 0 <= k < i && newly_missed(#[trigger] start.notes[k], dt_us) {
                    0
                } else {
                    start.combo
                },
        {
            let note = self.notes[i];
            if !note.hit && !note.missed {
                let y = note.y + step;
                let missed = y > MISS_Y;
                self.notes.set(
                    i,
                    Note {
                        note_type: note.note_type,
                        y,
                        hit: note.hit,
                        missed,
                        hold_start_hit: note.hold_start_hit,
                    },
                );
                if missed {
                    self.combo = 0;
                }
            }
            assert(self.combo == if exists|k: int| 0 <= k < i + 1 && newly_missed(#[trigger] start.notes[k], dt_us) {
                0
            } else {
                start.combo
            }) by {
                if newly_missed(start.notes[i as int], dt_us) {
                    assert(0 <= i < i + 1);
                }
            }
        }
        assert(self@.notes =~= start.after_moves(dt_us).notes);
    }

    /// Removes the notes that left the field or are done.
    fn remove_finished(&mut self)
        requires
            forall|k: int| 0 <= k < old(self)@.notes.len() ==> SPAWN_Y <= #[trigger] old(self)@.notes[k].y,
            old(self)@.pressed_frets.len() == 5,
        ensures
            final(self)@ == old(self)@.after_removal(),
            final(self)@.wf(),
    {
        let ghost start = self@;
        let n = self.notes.len();
        let mut kept: Vec<Note> = Vec::new();
        for i in 0..n
            invariant
                n == self.notes.len(),
                self@ == start,
                forall|k: int| 0 <= k < start.notes.len() ==> SPAWN_Y <= #[trigger] start.notes[k].y,
                kept@ == kept_notes(start.notes.take(i as int)),
                forall|k: int| 0 <= k < kept@.len() ==> SPAWN_Y <= #[trigger] kept@[k].y < REMOVAL_Y,
        {
            let note = self.notes[i];
            proof {
                lemma_filter_step(start.notes, i as int);
            }
            if note.y < REMOVAL_Y && !note.hit {
                kept.push(note);
            }
        }
        proof {
            assert(start.notes.take(n as int) =~= start.notes);
        }
        self.notes = kept;
    }

    /// Falls, checks held frets and removes finished notes for a frame of
    /// `dt_us` microseconds, and advances the spawn clock; returns whether a new
    /// note is due.
    fn advance(&mut self, dt_us: u64) -> (due: bool)
        requires
            old(self)@.wf(),
        ensures
            due == old(self)@.spawn_due(dt_us),
            final(self)@ == (CloneHeroState {
                last_spawn_time: if due {
                    0
                } else {
                    (old(self)@.last_spawn_time + dt_us) as nat
                },
                ..old(self)@.after_moves(dt_us).after_hold_check().after_removal()
            }),
            final(self)@.wf(),
    {
        self.fall(dt_us);
        self.update_hold_notes();
        self.remove_finished();
        let elapsed = self.last_spawn_time.saturating_add(dt_us);
        if elapsed > SPAWN_INTERVAL_US {
            self.last_spawn_time = 0;
            true
        } else {
            self.last_spawn_time = elapsed;
            false
        }
    }
    /// One frame of `dt_us` microseconds, with `color_roll`, `kind_roll` and
    /// `duration` choosing a note that appears.
    pub fn update_with(&mut self, dt_us: u64, color_roll: usize, kind_roll: i64, duration: i64)
        requires
            old(self)@.wf(),
        ensures
            final(self)@ == old(self)@.after_update(dt_us, color_roll, kind_roll, duration),
            final(self)@.wf(),
    {
        if self.advance(dt_us) {
            let color = fret_from_roll(color_roll);
            if kind_roll < SINGLE_NOTE_CHANCE {
                self.spawn_note(NoteType::Single { color });
            } else {
                self.spawn_note(NoteType::Hold { color, duration });
            }
        }
    }

    /// One frame of `dt_us` microseconds. A note that appears is on a random
    /// fret, a single note seven times in ten, and otherwise a hold note whose
    /// trail is drawn between 100 and 300 pixels long.
    pub fn update(&mut self, dt_us: u64)
        requires
            old(self)@.wf(),
        ensures
            exists|color_roll: usize, kind_roll: i64, duration: i64|
                0 <= kind_roll < 10 && MIN_HOLD_LENGTH <= duration < MAX_HOLD_LENGTH
                    && final(self)@ == old(self)@.after_update(dt_us, color_roll, kind_roll, duration),
            final(self)@.wf(),
    {
        if self.advance(dt_us) {
            let color_roll = random_usize();
            let color = fret_from_roll(color_roll);
            let kind_roll = random_in_range(0, 10);
            if kind_roll < SINGLE_NOTE_CHANCE {
                self.spawn_note(NoteType::Single { color });
                assert(self@ == old(self)@.after_update(dt_us, color_roll, kind_roll, MIN_HOLD_LENGTH));
            } else {
                let duration = random_in_range(MIN_HOLD_LENGTH, MAX_HOLD_LENGTH);
                self.spawn_note(NoteType::Hold { color, duration });
                assert(self@ == old(self)@.after_update(dt_us, color_roll, kind_roll, duration));
            }
        } else {
            assert(self@ == old(self)@.after_update(dt_us, 0, 0, MIN_HOLD_LENGTH));
        }
    }

    /// Handles a key press: D, F, J, K and L hold down and strike their frets,
    /// Escape asks to quit.
    pub fn key_down_event(&mut self, key: Key) -> (quit: bool)
        requires
            old(self)@.wf(),
            old(self).score <= i32::MAX - 100,
            old(self).combo < i32::MAX,
        ensures
            quit == (key == Key::Escape),
            final(self)@ == match fret_for_key(key) {
                Some(fret) => old(self)@.press(fret),
                None => old(self)@,
            },
            final(self)@.wf(),
    {
        let fret = match key {
            Key::D => FretColor::Green,
            Key::F => FretColor::Red,
            Key::J => FretColor::Yellow,
            Key::K => FretColor::Blue,
            Key::L => FretColor::Orange,
            Key::Escape => {
                return true;
            },
            _ => {
                return false;
            },
        };
        let idx = fret.index();
        self.pressed_frets[idx] = true;
        self.check_hit(fret);
        false
    }

    /// Handles a key release: D, F, J, K and L let go of their frets.
    pub fn key_up_event(&mut self, key: Key)
        requires
            old(self)@.wf(),
        ensures
            final(self)@ == match fret_for_key(key) {
                Some(fret) => old(self)@.release(fret),
                None => old(self)@,
            },
            final(self)@.wf(),
    {
        match key {
            Key::D => self.pressed_frets[0] = false,
            Key::F => self.pressed_frets[1] = false,
            Key::J => self.pressed_frets[2] = false,
            Key::K => self.pressed_frets[3] = false,
            Key::L => self.pressed_frets[4] = false,
            _ => {},
        }
    }
}

/// A strike closer to the hit line never earns fewer points than one farther away.
pub proof fn law_closer_strike_scores_no_less(d1: int, d2: int)
    requires
        0 <= d1 <= d2,
    ensures
        single_points(d1) >= single_points(d2),
{
}

/// Striking a fret never lowers the score; when it plays a note it raises the
/// combo by one, and otherwise it changes nothing.
pub proof fn law_strike_never_lowers_score(s: CloneHeroState, fret: FretColor)
    ensures
        s.after_hit(fret).score >= s.score,
        s.has_target(fret) ==> s.after_hit(fret).combo == s.combo + 1,
        !s.has_target(fret) ==> s.after_hit(fret) == s,
{
}

proof fn lemma_first_exists(notes: Seq<Note>, fret: FretColor, k: int)
    requires
        0 <= k < notes.len(),
        can_play(notes[k], fret),
    ensures
        exists|i: int| first_playable(notes, fret, i),
    decreases k,
{
    if exists|j: int| 0 <= j < k && can_play(#[trigger] notes[j], fret) {
        let j = choose|j: int| 0 <= j < k && can_play(#[trigger] notes[j], fret);
        lemma_first_exists(notes, fret, j);
    } else {
        assert(first_playable(notes, fret, k));
    }
}

/// Striking a fret while a playable note of that fret lies in the hit window
/// always plays a note.
pub proof fn law_note_in_window_is_played(s: CloneHeroState, fret: FretColor, k: int)
    requires
        0 <= k < s.notes.len(),
        can_play(s.notes[k], fret),
    ensures
        s.has_target(fret),
        s.after_hit(fret).combo == s.combo + 1,
{
    lemma_first_exists(s.notes, fret, k);
}

/// A note that is done is never played again.
pub proof fn law_done_note_stays_done(s: CloneHeroState, fret: FretColor, i: int)
    requires
        0 <= i < s.notes.len(),
        s.notes[i].hit,
    ensures
        s.after_hit(fret).notes[i] == s.notes[i],
{
    if s.has_target(fret) {
        assert(first_playable(s.notes, fret, s.target(fret)));
    }
}

/// Letting go of a held hold note breaks the combo, and the note is done.
pub proof fn law_letting_go_breaks_combo(s: CloneHeroState, i: int)
    requires
        0 <= i < s.notes.len(),
        released(s.notes[i], s.pressed_frets),
    ensures
        s.after_hold_check().combo == 0,
        s.after_hold_check().notes[i].hit,
{
}

/// Pressing and then releasing a fret's key leaves that fret released, and the
/// other frets as they were.
pub proof fn law_press_then_release(s: CloneHeroState, fret: FretColor)
    requires
        s.wf(),
    ensures
        s.press(fret).release(fret).pressed_frets =~= s.pressed_frets.update(fret.spec_index(), false),
{
}

/// Each of D, F, J, K and L plays exactly the fret whose key it is.
pub proof fn law_key_plays_its_fret(fret: FretColor)
    ensures
        fret_for_key(fret.spec_key_code()) == Some(fret),
{
}

proof fn lemma_removal_bounds(notes: Seq<Note>, n: int)
    requires
        0 <= n <= notes.len(),
    ensures
        kept_notes(notes.take(n)).len() <= n,
        forall|i: int|
            0 <= i < kept_notes(notes.take(n)).len() ==> {
                let a = #[trigger] kept_notes(notes.take(n))[i];
                &&& !a.hit
                &&& a.y < REMOVAL_Y
            },
    decreases n,
{
    if n == 0 {
        assert(notes.take(0) =~= Seq::<Note>::empty());
        reveal(Seq::filter);
    } else {
        lemma_removal_bounds(notes, n - 1);
        lemma_filter_step(notes, n - 1);
    }
}

/// A frame never raises the score, and it leaves only notes that are not done
/// and lie above the removal height, at most one more than before.
pub proof fn law_frame_keeps_score(s: CloneHeroState, dt_us: u64, color_roll: usize, kind_roll: i64, duration: i64)
    ensures
        s.after_update(dt_us, color_roll, kind_roll, duration).score == s.score,
        s.after_update(dt_us, color_roll, kind_roll, duration).notes.len() <= s.notes.len() + 1,
        forall|i: int|
            0 <= i < s.after_update(dt_us, color_roll, kind_roll, duration).notes.len() ==> {
                let a = #[trigger] s.after_update(dt_us, color_roll, kind_roll, duration).notes[i];
                &&& !a.hit
                &&& a.y < REMOVAL_Y
            },
{
    let t = s.after_moves(dt_us).after_hold_check();
    lemma_removal_bounds(t.notes, t.notes.len() as int);
    assert(t.notes.take(t.notes.len() as int) =~= t.notes);
}

/// A note of either kind that is neither done nor missed and falls below the
/// miss height in a frame breaks the combo.
pub proof fn law_falling_past_breaks_combo(
    s: CloneHeroState,
    dt_us: u64,
    color_roll: usize,
    kind_roll: i64,
    duration: i64,
    i: int,
)
    requires
        s.wf(),
        0 <= i < s.notes.len(),
        !s.notes[i].hit,
        !s.notes[i].missed,
        s.notes[i].y + travel(NOTE_SPEED, dt_us) > MISS_Y,
    ensures
        s.after_moves(dt_us).notes[i].missed,
        s.after_update(dt_us, color_roll, kind_roll, duration).combo == 0,
{
    crate::motion::lemma_travel_bounds(NOTE_SPEED, dt_us);
    assert(newly_missed(s.notes[i], dt_us));
}

/// A new note is on the `roll % 5`-th fret from the left, so every fret can be
/// drawn.
pub proof fn law_roll_picks_fret_from_left(roll: usize)
    ensures
        fret_of_roll(roll).spec_index() == roll % 5,
        fret_of_roll(roll).spec_lane_x() == 200_000 + LANE_WIDTH * (roll % 5),
{
}

/// The points of a strike by its distance to the hit line: 100 for a single note
/// within 20 pixels, 50 within 35, 25 otherwise, and 50 for the start of a hold
/// note wherever it is struck.
pub proof fn law_strike_points(s: CloneHeroState, fret: FretColor, d: int)
    ensures
        0 <= d < 20_000 ==> single_points(d) == 100,
        20_000 <= d < 35_000 ==> single_points(d) == 50,
        35_000 <= d ==> single_points(d) == 25,
        s.has_target(fret) ==> s.after_hit(fret).score == s.score + match s.notes[s.target(fret)].note_type {
            NoteType::Single { .. } => single_points(distance_to_line(s.notes[s.target(fret)].y as int)),
            NoteType::Hold { .. } => 50,
        },
{
}

/// D, F, J, K and L play the five frets from left to right, in green, red,
/// yellow, blue and orange.
pub proof fn law_keys_play_frets_left_to_right()
    ensures
        fret_for_key(Key::D) matches Some(f) && f.spec_index() == 0 && f.spec_color() == Palette::Green,
        fret_for_key(Key::F) matches Some(f) && f.spec_index() == 1 && f.spec_color() == Palette::Red,
        fret_for_key(Key::J) matches Some(f) && f.spec_index() == 2 && f.spec_color() == Palette::Yellow,
        fret_for_key(Key::K) matches Some(f) && f.spec_index() == 3 && f.spec_color() == Palette::Blue,
        fret_for_key(Key::L) matches Some(f) && f.spec_index() == 4 && f.spec_color() == Palette::Orange,
{
}

} // verus!

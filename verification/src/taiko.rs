//! Drum notes scrolling from right to left: red notes (don) are played with D
//! or F, blue notes (kat) with J or K, as they cross the hit line.
use vstd::prelude::*;

use crate::keys::Key;
use crate::labels::shown_number;
use crate::motion::{travel, travel_distance, MAX_TRAVEL};
use crate::palette::Palette;
use crate::random::random_usize;

verus! {

/// Width of the playfield.
pub const SCREEN_WIDTH: i64 = 800_000;

/// Height of the playfield.
pub const SCREEN_HEIGHT: i64 = 600_000;

/// Speed of a note, in pixels per second.
pub const NOTE_SPEED: u64 = 400;

/// Horizontal position of the hit line.
pub const HIT_LINE_X: i64 = 200_000;

/// Greatest distance from the hit line at which a key press judges a note.
pub const HIT_WINDOW: i64 = 50_000;

/// Position at which new notes appear, right of the playfield.
pub const SPAWN_X: i64 = 850_000;

/// Height of the row of notes.
pub const NOTE_Y: i64 = 300_000;

/// Notes at or left of this position have left the playfield and are removed.
pub const REMOVAL_X: i64 = -100_000;

/// Time between two new notes, in microseconds.
pub const SPAWN_INTERVAL_US: u64 = 800_000;

/// The kind of a drum note.
#[derive(Debug, Clone, Copy, PartialEq, Eq, Structural)]
pub enum NoteType {
    /// Red note, hit in the centre.
    Don,
    /// Blue note, hit on the rim.
    Kat,
    /// Large red note.
    BigDon,
    /// Large blue note.
    BigKat,
}

impl NoteType {
    pub open spec fn spec_color(self) -> Palette {
        match self {
            NoteType::Don | NoteType::BigDon => Palette::Red,
            NoteType::Kat | NoteType::BigKat => Palette::Blue,
        }
    }

    pub open spec fn spec_is_big(self) -> bool {
        self == NoteType::BigDon || self == NoteType::BigKat
    }

    /// The drawn size of the note.
    pub open spec fn spec_size(self) -> int {
        if self.spec_is_big() {
            80_000
        } else {
            60_000
        }
    }

    /// The two keys that play this note.
    pub open spec fn spec_keys(self) -> (Key, Key) {
        match self {
            NoteType::Don | NoteType::BigDon => (Key::D, Key::F),
            NoteType::Kat | NoteType::BigKat => (Key::J, Key::K),
        }
    }

    pub fn color(&self) -> (c: Palette)
        ensures
            c == self.spec_color(),
    {
        match self {
            NoteType::Don | NoteType::BigDon => Palette::Red,
            NoteType::Kat | NoteType::BigKat => Palette::Blue,
        }
    }

    pub fn is_big(&self) -> (b: bool)
        ensures
            b == self.spec_is_big(),
    {
        match self {
            NoteType::BigDon | NoteType::BigKat => true,
            _ => false,
        }
    }

    pub fn size(&self) -> (s: i64)
        ensures
            s == self.spec_size(),
    {
        if self.is_big() {
            80_000
        } else {
            60_000
        }
    }

    pub fn keys(&self) -> (k: (Key, Key))
        ensures
            k == self.spec_keys(),
    {
        match self {
            NoteType::Don | NoteType::BigDon => (Key::D, Key::F),
            NoteType::Kat | NoteType::BigKat => (Key::J, Key::K),
        }
    }
}

/// Whether `key` plays notes of kind `note_type`.
pub open spec fn plays(note_type: NoteType, key: Key) -> bool {
    key == note_type.spec_keys().0 || key == note_type.spec_keys().1
}

/// The kind of a newly spawned note, chosen by a random number.
pub open spec fn note_type_of_roll(roll: usize) -> NoteType {
    if roll % 4 == 0 {
        NoteType::Don
    } else if roll % 4 == 1 {
        NoteType::Kat
    } else if roll % 4 == 2 {
        NoteType::BigDon
    } else {
        NoteType::BigKat
    }
}

/// Picks the kind `roll % 4` among Don, Kat, BigDon and BigKat.
pub fn note_type_from_roll(roll: usize) -> (t: NoteType)
    ensures
        t == note_type_of_roll(roll),
{
    let r = roll % 4;
    if r == 0 {
        NoteType::Don
    } else if r == 1 {
        NoteType::Kat
    } else if r == 2 {
        NoteType::BigDon
    } else {
        NoteType::BigKat
    }
}

/// How well a key press was timed.
#[derive(Debug, Clone, Copy, PartialEq, Eq, Structural)]
pub enum Accuracy {
    Miss,
    Hit50,
    Hit100,
    Hit300,
}

/// The judgement of a press made `distance` away from the hit line.
pub open spec fn judgement(distance: int) -> Accuracy {
    if distance <= 20_000 {
        Accuracy::Hit300
    } else if distance <= 50_000 {
        Accuracy::Hit100
    } else if distance <= 100_000 {
        Accuracy::Hit50
    } else {
        Accuracy::Miss
    }
}

/// Judges a press made `distance` away from the hit line.
pub fn judge(distance: i64) -> (a: Accuracy)
    ensures
        a == judgement(distance as int),
{
    if distance <= 20_000 {
        Accuracy::Hit300
    } else if distance <= 50_000 {
        Accuracy::Hit100
    } else if distance <= 100_000 {
        Accuracy::Hit50
    } else {
        Accuracy::Miss
    }
}

impl Accuracy {
    /// The score that this judgement earns.
    pub open spec fn value(self) -> int {
        match self {
            Accuracy::Hit300 => 300,
            Accuracy::Hit100 => 100,
            Accuracy::Hit50 => 50,
            Accuracy::Miss => 0,
        }
    }

    /// The text shown for this judgement.
    pub open spec fn spec_label(self) -> Seq<char> {
        match self {
            Accuracy::Hit300 => "300!"@,
            Accuracy::Hit100 => "100"@,
            Accuracy::Hit50 => "50"@,
            Accuracy::Miss => "MISS"@,
        }
    }

    /// The colour in which this judgement is shown.
    pub open spec fn spec_tint(self) -> Palette {
        match self {
            Accuracy::Hit300 => Palette::Gold,
            Accuracy::Hit100 => Palette::LightBlue,
            Accuracy::Hit50 => Palette::LightGreen,
            Accuracy::Miss => Palette::MissRed,
        }
    }

    pub fn points(&self) -> (p: i32)
        ensures
            p == self.value(),
    {
        match self {
            Accuracy::Hit300 => 300,
            Accuracy::Hit100 => 100,
            Accuracy::Hit50 => 50,
            Accuracy::Miss => 0,
        }
    }

    pub fn label(&self) -> (s: &'static str)
        ensures
            s@ == self.spec_label(),
    {
        match self {
            Accuracy::Hit300 => "300!",
            Accuracy::Hit100 => "100",
            Accuracy::Hit50 => "50",
            Accuracy::Miss => "MISS",
        }
    }

    pub fn tint(&self) -> (c: Palette)
        ensures
            c == self.spec_tint(),
    {
        match self {
            Accuracy::Hit300 => Palette::Gold,
            Accuracy::Hit100 => Palette::LightBlue,
            Accuracy::Hit50 => Palette::LightGreen,
            Accuracy::Miss => Palette::MissRed,
        }
    }
}

/// How long a judgement stays on screen, in milliseconds.
pub const DISPLAY_TIME_MS: u64 = 1000;

/// The judgement on screen `elapsed_ms` milliseconds after it was made: the
/// judgement on display during the first second, nothing afterwards.
pub fn judgement_shown(display: Option<Accuracy>, elapsed_ms: u64) -> (shown: Option<Accuracy>)
    ensures
        shown == (if elapsed_ms < DISPLAY_TIME_MS {
            display
        } else {
            None
        }),
{
    if elapsed_ms < DISPLAY_TIME_MS {
        display
    } else {
        None
    }
}

/// A drum note.
#[derive(Debug, Clone, Copy)]
pub struct Note {
    pub note_type: NoteType,
    /// Horizontal position of the note.
    pub x: i64,
    /// Vertical position of the note.
    pub y: i64,
    /// Whether the note has been judged.
    pub hit: bool,
    pub accuracy: Option<Accuracy>,
}

/// A new note of kind `note_type` right of the playfield.
pub open spec fn fresh_note(note_type: NoteType) -> Note {
    Note { note_type, x: SPAWN_X, y: NOTE_Y, hit: false, accuracy: None }
}

/// Distance between a position and the hit line.
pub open spec fn distance_to_line(x: int) -> int {
    if x >= HIT_LINE_X {
        x - HIT_LINE_X
    } else {
        HIT_LINE_X - x
    }
}

/// Whether pressing `key` can judge note `n`: the note is not yet judged, the
/// key plays its kind, and it is within the hit window.
pub open spec fn can_judge(n: Note, key: Key) -> bool {
    &&& !n.hit
    &&& plays(n.note_type, key)
    &&& distance_to_line(n.x as int) <= HIT_WINDOW
}

/// Note `i` is the first note that pressing `key` can judge.
pub open spec fn first_judgeable(notes: Seq<Note>, key: Key, i: int) -> bool {
    &&& 0 <= i < notes.len()
    &&& can_judge(notes[i], key)
    &&& forall|j: int| 0 <= j < i ==> !can_judge(#[trigger] notes[j], key)
}

/// A note after `dt_us` microseconds: judged notes stay, others move left.
pub open spec fn moved(n: Note, dt_us: u64) -> Note {
    if n.hit {
        n
    } else {
        Note { x: (n.x - travel(NOTE_SPEED, dt_us)) as i64, ..n }
    }
}

/// Whether a note stays on the field: it is right of the removal position and
/// not judged.
pub open spec fn stays(n: Note) -> bool {
    n.x > REMOVAL_X && !n.hit
}

/// The notes after one frame: each moved, then those that left the field or
/// were judged removed.
pub open spec fn advance_notes(notes: Seq<Note>, dt_us: u64) -> Seq<Note> {
    notes.map_values(|n: Note| moved(n, dt_us)).filter(|n: Note| stays(n))
}

/// The state of a game, as the rules see it.
pub struct TaikoState {
    pub notes: Seq<Note>,
    pub score: int,
    pub combo: int,
    /// Microseconds since the last note appeared.
    pub last_spawn_time: nat,
    /// The last judgement, shown on screen.
    pub accuracy_display: Option<Accuracy>,
}

impl TaikoState {
    /// The state of a new game.
    pub open spec fn initial() -> TaikoState {
        TaikoState {
            notes: Seq::empty(),
            score: 0,
            combo: 0,
            last_spawn_time: 0,
            accuracy_display: None,
        }
    }

    /// Every note lies between the removal position and the spawn position.
    pub open spec fn wf(self) -> bool {
        forall|i: int| 0 <= i < self.notes.len() ==> REMOVAL_X < #[trigger] self.notes[i].x <= SPAWN_X
    }

    /// Pressing `key` finds a note to judge.
    pub open spec fn has_target(self, key: Key) -> bool {
        exists|i: int| first_judgeable(self.notes, key, i)
    }

    /// The note that pressing `key` judges.
    pub open spec fn target(self, key: Key) -> int {
        choose|i: int| first_judgeable(self.notes, key, i)
    }

    /// The judgement that pressing `key` makes, if any.
    pub open spec fn hit_result(self, key: Key) -> Option<Accuracy> {
        if self.has_target(key) {
            Some(judgement(distance_to_line(self.notes[self.target(key)].x as int)))
        } else {
            None
        }
    }

    /// The state after pressing `key`: the first note of a kind that the key plays
    /// within the window is judged by its distance to the hit line, the score
    /// grows by the judgement's points, the combo grows by one or, on a miss,
    /// falls to zero, and the judgement is put on display.
    pub open spec fn after_hit(self, key: Key) -> TaikoState {
        match self.hit_result(key) {
            None => self,
            Some(acc) => {
                let i = self.target(key);
                TaikoState {
                    notes: self.notes.update(i, Note { hit: true, accuracy: Some(acc), ..self.notes[i] }),
                    score: self.score + acc.value(),
                    combo: if acc == Accuracy::Miss {
                        0
                    } else {
                        self.combo + 1
                    },
                    accuracy_display: Some(acc),
                    ..self
                }
            },
        }
    }

    /// Whether `dt_us` more microseconds make a new note due.
    pub open spec fn spawn_due(self, dt_us: u64) -> bool {
        self.last_spawn_time + dt_us > SPAWN_INTERVAL_US
    }

    /// The state after a frame of `dt_us` microseconds: notes move and leave,
    /// and once more than 0.8 s has passed since the last note, a note of kind
    /// `note_type_of_roll(roll)` appears.
    pub open spec fn after_update(self, dt_us: u64, roll: usize) -> TaikoState {
        let notes = advance_notes(self.notes, dt_us);
        if self.spawn_due(dt_us) {
            TaikoState {
                notes: notes.push(fresh_note(note_type_of_roll(roll))),
                last_spawn_time: 0,
                ..self
            }
        } else {
            TaikoState { notes, last_spawn_time: (self.last_spawn_time + dt_us) as nat, ..self }
        }
    }

    /// The state after a key press: D, F, J and K strike the drum.
    pub open spec fn after_key(self, key: Key) -> TaikoState {
        if key == Key::D || key == Key::F || key == Key::J || key == Key::K {
            self.after_hit(key)
        } else {
            self
        }
    }
}

/// What a key press led to.
#[derive(Debug, Clone, Copy, PartialEq, Eq, Structural)]
pub enum KeyResponse {
    /// The player asked to quit.
    Quit,
    /// A note was judged.
    Judged(Accuracy),
    /// Nothing was judged.
    Ignored,
}

/// A game of drum notes.
pub struct TaikoGame {
    pub notes: Vec<Note>,
    pub score: i32,
    pub combo: i32,
    pub last_spawn_time: u64,
    pub accuracy_display: Option<Accuracy>,
}

impl View for TaikoGame {
    type V = TaikoState;

    open spec fn view(&self) -> TaikoState {
        TaikoState {
            notes: self.notes@,
            score: self.score as int,
            combo: self.combo as int,
            last_spawn_time: self.last_spawn_time as nat,
            accuracy_display: self.accuracy_display,
        }
    }
}

proof fn lemma_first_unique(notes: Seq<Note>, key: Key, i: int, k: int)
    requires
        first_judgeable(notes, key, i),
        first_judgeable(notes, key, k),
    ensures
        i == k,
{
    if i < k {
        assert(!can_judge(notes[i], key));
    } else if k < i {
        assert(!can_judge(notes[k], key));
    }
}

proof fn lemma_advance_step(notes: Seq<Note>, dt_us: u64, i: int)
    requires
        0 <= i < notes.len(),
    ensures
        advance_notes(notes.take(i + 1), dt_us) == if stays(moved(notes[i], dt_us)) {
            advance_notes(notes.take(i), dt_us).push(moved(notes[i], dt_us))
        } else {
            advance_notes(notes.take(i), dt_us)
        },
{
    let f = |n: Note| moved(n, dt_us);
    let p = |n: Note| stays(n);
    assert(notes.take(i + 1).map_values(f) =~= notes.take(i).map_values(f).push(f(notes[i])));
    notes.take(i).map_values(f).lemma_filter_push(f(notes[i]), p);
}

impl TaikoGame {
    pub fn new() -> (game: Self)
        ensures
            game@ == TaikoState::initial(),
            game@.wf(),
    {
        TaikoGame {
            notes: Vec::new(),
            score: 0,
            combo: 0,
            last_spawn_time: 0,
            accuracy_display: None,
        }
    }

    /// Puts a new note of kind `note_type` right of the playfield.
    pub fn spawn_note(&mut self, note_type: NoteType)
        requires
            old(self)@.wf(),
        ensures
            final(self)@ == (TaikoState {
                notes: old(self)@.notes.push(fresh_note(note_type)),
                ..old(self)@
            }),
            final(self)@.wf(),
    {
        self.notes.push(Note { note_type, x: SPAWN_X, y: NOTE_Y, hit: false, accuracy: None });
    }

    /// Judges the first note played by `key` that lies within the hit window.
    pub fn check_hit(&mut self, key: Key) -> (judged: Option<Accuracy>)
        requires
            old(self)@.wf(),
            old(self).score <= i32::MAX - 300,
            old(self).combo < i32::MAX,
        ensures
            judged == old(self)@.hit_result(key),
            final(self)@ == old(self)@.after_hit(key),
            final(self)@.wf(),
    {
        let ghost start = self@;
        let n = self.notes.len();
        let mut i: usize = 0;
        while i < n
            invariant
                n == self.notes.len(),
                i <= n,
                self@ == start,
                start == old(self)@,
                start.wf(),
                self.score <= i32::MAX - 300,
                self.combo < i32::MAX,
                forall|j: int| 0 <= j < i ==> !can_judge(#[trigger] start.notes[j], key),
            decreases n - i,
        {
            let note = self.notes[i];
            if !note.hit {
                let (key1, key2) = note.note_type.keys();
                if key == key1 || key == key2 {
                    let distance = if note.x >= HIT_LINE_X {
                        note.x - HIT_LINE_X
                    } else {
                        HIT_LINE_X - note.x
                    };
                    if distance <= HIT_WINDOW {
                        proof {
                            assert(first_judgeable(start.notes, key, i as int));
                            lemma_first_unique(start.notes, key, i as int, start.target(key));
                        }
                        let accuracy = judge(distance);
                        self.score = self.score + accuracy.points();
                        if accuracy == Accuracy::Miss {
                            self.combo = 0;
                        } else {
                            self.combo = self.combo + 1;
                        }
                        self.notes.set(
                            i,
                            Note {
                                note_type: note.note_type,
                                x: note.x,
                                y: note.y,
                                hit: true,
                                accuracy: Some(accuracy),
                            },
                        );
                        self.accuracy_display = Some(accuracy);
                        assert(self@.notes =~= start.after_hit(key).notes);
                        return Some(accuracy);
                    }
                }
            }
            i = i + 1;
        }
        None
    }

    /// Moves the notes by one frame of `dt_us` microseconds, removes those that
    /// left the field or were judged, and advances the spawn clock; returns
    /// whether a new note is due.
    fn advance(&mut self, dt_us: u64) -> (due: bool)
        requires
            old(self)@.wf(),
        ensures
            due == old(self)@.spawn_due(dt_us),
            final(self)@ == (TaikoState {
                notes: advance_notes(old(self)@.notes, dt_us),
                last_spawn_time: if due {
                    0
                } else {
                    (old(self)@.last_spawn_time + dt_us) as nat
                },
                ..old(self)@
            }),
            final(self)@.wf(),
    {
        let ghost start = self@;
        let step = travel_distance(NOTE_SPEED, dt_us);
        let n = self.notes.len();
        let mut kept: Vec<Note> = Vec::new();
        for i in 0..n
            invariant
                n == self.notes.len(),
                self@ == start,
                start.wf(),
                step == travel(NOTE_SPEED, dt_us),
                0 <= step <= MAX_TRAVEL,
                kept@ == advance_notes(start.notes.take(i as int), dt_us),
                forall|k: int| 0 <= k < kept@.len() ==> REMOVAL_X < #[trigger] kept@[k].x <= SPAWN_X,
        {
            let note = self.notes[i];
            let m = if note.hit {
                note
            } else {
                Note {
                    note_type: note.note_type,
                    x: note.x - step,
                    y: note.y,
                    hit: note.hit,
                    accuracy: note.accuracy,
                }
            };
            proof {
                lemma_advance_step(start.notes, dt_us, i as int);
            }
            if m.x > REMOVAL_X && !m.hit {
                kept.push(m);
            }
        }
        proof {
            assert(start.notes.take(n as int) =~= start.notes);
        }
        self.notes = kept;
        let elapsed = self.last_spawn_time.saturating_add(dt_us);
        if elapsed > SPAWN_INTERVAL_US {
            self.last_spawn_time = 0;
            true
        } else {
            self.last_spawn_time = elapsed;
            false
        }
    }

    /// One frame of `dt_us` microseconds, with `roll` choosing the kind of a
    /// note that appears.
    pub fn update_with(&mut self, dt_us: u64, roll: usize)
        requires
            old(self)@.wf(),
        ensures
            final(self)@ == old(self)@.after_update(dt_us, roll),
            final(self)@.wf(),
    {
        if self.advance(dt_us) {
            let note_type = note_type_from_roll(roll);
            self.spawn_note(note_type);
        }
    }

    /// One frame of `dt_us` microseconds; the kind of a note that appears is
    /// drawn at random.
    pub fn update(&mut self, dt_us: u64)
        requires
            old(self)@.wf(),
        ensures
            exists|roll: usize| final(self)@ == old(self)@.after_update(dt_us, roll),
            final(self)@.wf(),
    {
        if self.advance(dt_us) {
            let roll = random_usize();
            let note_type = note_type_from_roll(roll);
            self.spawn_note(note_type);
            assert(self@ == old(self)@.after_update(dt_us, roll));
        } else {
            assert(self@ == old(self)@.after_update(dt_us, 0));
        }
    }

    /// Handles a key press: D, F, J and K strike the drum, Escape asks to quit.
    pub fn key_down_event(&mut self, key: Key) -> (response: KeyResponse)
        requires
            old(self)@.wf(),
            old(self).score <= i32::MAX - 300,
            old(self).combo < i32::MAX,
        ensures
            final(self)@ == old(self)@.after_key(key),
            final(self)@.wf(),
            response == (if key == Key::Escape {
                KeyResponse::Quit
            } else if key == Key::D || key == Key::F || key == Key::J || key == Key::K {
                match old(self)@.hit_result(key) {
                    Some(acc) => KeyResponse::Judged(acc),
                    None => KeyResponse::Ignored,
                }
            } else {
                KeyResponse::Ignored
            }),
    {
        match key {
            Key::D | Key::F | Key::J | Key::K => match self.check_hit(key) {
                Some(acc) => KeyResponse::Judged(acc),
                None => KeyResponse::Ignored,
            },
            Key::Escape => KeyResponse::Quit,
            _ => KeyResponse::Ignored,
        }
    }
}

/// A press closer to the hit line never earns fewer points than a press farther away.
pub proof fn law_closer_press_scores_no_less(d1: int, d2: int)
    requires
        0 <= d1 <= d2,
    ensures
        judgement(d1).value() >= judgement(d2).value(),
{
}

/// A press never lowers the score; a press inside the window never counts as a
/// miss, so it raises the combo by one whenever it judges a note.
pub proof fn law_press_never_lowers_score(s: TaikoState, key: Key)
    ensures
        s.after_hit(key).score >= s.score,
        s.hit_result(key) != Some(Accuracy::Miss),
        s.has_target(key) ==> s.after_hit(key).combo == s.combo + 1,
        !s.has_target(key) ==> s.after_hit(key) == s,
{
    if s.has_target(key) {
        assert(first_judgeable(s.notes, key, s.target(key)));
    }
}

/// A note that was judged is never judged again: a press leaves it as it was.
pub proof fn law_judged_note_stays_judged(s: TaikoState, key: Key, i: int)
    requires
        0 <= i < s.notes.len(),
        s.notes[i].hit,
    ensures
        s.after_hit(key).notes[i] == s.notes[i],
        s.after_hit(key).notes.len() == s.notes.len(),
{
    if s.has_target(key) {
        assert(first_judgeable(s.notes, key, s.target(key)));
    }
}

proof fn lemma_first_exists(notes: Seq<Note>, key: Key, k: int)
    requires
        0 <= k < notes.len(),
        can_judge(notes[k], key),
    ensures
        exists|i: int| first_judgeable(notes, key, i),
    decreases k,
{
    if exists|j: int| 0 <= j < k && can_judge(#[trigger] notes[j], key) {
        let j = choose|j: int| 0 <= j < k && can_judge(#[trigger] notes[j], key);
        lemma_first_exists(notes, key, j);
    } else {
        assert(first_judgeable(notes, key, k));
    }
}

/// Pressing a key while an unjudged note of its kind lies inside the hit window
/// always judges a note.
pub proof fn law_note_in_window_is_judged(s: TaikoState, key: Key, k: int)
    requires
        0 <= k < s.notes.len(),
        can_judge(s.notes[k], key),
    ensures
        s.hit_result(key) is Some,
{
    lemma_first_exists(s.notes, key, k);
}

proof fn lemma_advance_bounds(notes: Seq<Note>, dt_us: u64, n: int)
    requires
        0 <= n <= notes.len(),
        forall|i: int| 0 <= i < notes.len() ==> REMOVAL_X < #[trigger] notes[i].x <= SPAWN_X,
    ensures
        advance_notes(notes.take(n), dt_us).len() <= n,
        forall|i: int|
            0 <= i < advance_notes(notes.take(n), dt_us).len() ==> {
                let a = #[trigger] advance_notes(notes.take(n), dt_us)[i];
                &&& !a.hit
                &&& REMOVAL_X < a.x <= SPAWN_X
            },
    decreases n,
{
    if n == 0 {
        assert(notes.take(0) =~= Seq::<Note>::empty());
        reveal(Seq::filter);
    } else {
        lemma_advance_bounds(notes, dt_us, n - 1);
        lemma_advance_step(notes, dt_us, n - 1);
        crate::motion::lemma_travel_bounds(NOTE_SPEED, dt_us);
    }
}

/// A frame never changes score, combo or the judgement on display, and it leaves
/// only unjudged notes inside the field, at most one more than before.
pub proof fn law_frame_keeps_score(s: TaikoState, dt_us: u64, roll: usize)
    requires
        s.wf(),
    ensures
        s.after_update(dt_us, roll).score == s.score,
        s.after_update(dt_us, roll).combo == s.combo,
        s.after_update(dt_us, roll).accuracy_display == s.accuracy_display,
        s.after_update(dt_us, roll).notes.len() <= s.notes.len() + 1,
        forall|i: int|
            0 <= i < s.after_update(dt_us, roll).notes.len() ==> {
                let a = #[trigger] s.after_update(dt_us, roll).notes[i];
                &&& !a.hit
                &&& REMOVAL_X < a.x <= SPAWN_X
            },
{
    lemma_advance_bounds(s.notes, dt_us, s.notes.len() as int);
    assert(s.notes.take(s.notes.len() as int) =~= s.notes);
}

/// Pressing D, F, J or K strikes the drum with that key, and any other key
/// changes nothing.
pub proof fn law_key_press_strikes_drum(s: TaikoState, key: Key)
    ensures
        (key == Key::D || key == Key::F || key == Key::J || key == Key::K) ==> s.after_key(key)
            == s.after_hit(key),
        !(key == Key::D || key == Key::F || key == Key::J || key == Key::K) ==> s.after_key(key) == s,
{
}

/// D and F play exactly the red notes, J and K exactly the blue ones.
pub proof fn law_keys_play_their_colour(t: NoteType, key: Key)
    ensures
        plays(t, key) <==> ((key == Key::D || key == Key::F) && t.spec_color() == Palette::Red)
            || ((key == Key::J || key == Key::K) && t.spec_color() == Palette::Blue),
{
}

/// Each judgement earns exactly the number of points written on it: 300 for
/// "300!", 100 for "100", 50 for "50", and none for "MISS".
pub proof fn law_points_are_the_shown_number(a: Accuracy)
    ensures
        a.value() == shown_number(a.spec_label()),
{
    reveal_with_fuel(shown_number, 5);
    reveal_strlit("300!");
    reveal_strlit("100");
    reveal_strlit("50");
    reveal_strlit("MISS");
}

/// A press that judges a note raises the score by exactly the number shown
/// for its judgement, and nothing else does.
pub proof fn law_score_gain_is_shown(s: TaikoState, key: Key)
    ensures
        s.has_target(key) ==> s.after_hit(key).accuracy_display is Some && s.after_hit(key).score == s.score
            + shown_number(s.after_hit(key).accuracy_display->Some_0.spec_label()),
        !s.has_target(key) ==> s.after_hit(key).score == s.score,
{
    if s.has_target(key) {
        law_points_are_the_shown_number(s.hit_result(key)->Some_0);
    }
}

/// The points of a press by its distance to the hit line: 300 within 20
/// pixels, 100 within 50, 50 within 100, none farther.
pub proof fn law_tiers_earn_their_points(d: int)
    ensures
        0 <= d <= 20_000 ==> judgement(d).value() == 300,
        20_000 < d <= 50_000 ==> judgement(d).value() == 100,
        50_000 < d <= 100_000 ==> judgement(d).value() == 50,
        100_000 < d ==> judgement(d).value() == 0,
{
    law_points_are_the_shown_number(judgement(d));
    reveal_with_fuel(shown_number, 5);
    reveal_strlit("300!");
    reveal_strlit("100");
    reveal_strlit("50");
    reveal_strlit("MISS");
}

/// A new note is red exactly for even rolls and big exactly when `roll % 4` is
/// 2 or 3: the kinds Don, Kat, BigDon, BigKat in that order, each reachable.
pub proof fn law_roll_picks_kind(roll: usize)
    ensures
        note_type_of_roll(roll).spec_color() == (if roll % 2 == 0 {
            Palette::Red
        } else {
            Palette::Blue
        }),
        note_type_of_roll(roll).spec_is_big() == (roll % 4 >= 2),
        note_type_of_roll(roll).spec_keys().0 == (if roll % 2 == 0 {
            Key::D
        } else {
            Key::J
        }),
{
}

} // verus!

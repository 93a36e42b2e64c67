//! Words falling towards a hit line, typed letter by letter before they pass it.
use vstd::prelude::*;
use vstd::utf8::{encode_utf8, is_char_boundary};

use crate::keys::Key;
use crate::motion::{travel, travel_distance, MAX_TRAVEL};
use crate::palette::Palette;
use crate::random::{random_in_range, random_usize};

verus! {

/// Width of the playfield.
pub const SCREEN_WIDTH: i64 = 800_000;

/// Height of the playfield.
pub const SCREEN_HEIGHT: i64 = 600_000;

/// Speed of a falling word, in pixels per second.
pub const WORD_FALL_SPEED: u64 = 100;

/// Height of the hit line.
pub const HIT_LINE_Y: i64 = 500_000;

/// How far below the hit line a word may fall before it is missed.
pub const HIT_WINDOW: i64 = 50_000;

/// A word that falls below this height is missed.
pub const MISS_Y: i64 = 550_000;

/// Height at which new words appear, above the top of the playfield.
pub const SPAWN_Y: i64 = -50_000;

/// Leftmost position of a new word.
pub const SPAWN_X_MIN: i64 = 200_000;

/// Rightmost position of a new word (exclusive).
pub const SPAWN_X_MAX: i64 = 600_000;

/// Time between two new words, in microseconds.
pub const SPAWN_INTERVAL_US: u64 = 2_000_000;

/// How well a word was typed, as the display knows it.
#[derive(Debug, Clone, Copy, PartialEq, Eq, Structural)]
pub enum Accuracy {
    Miss,
    Hit50,
    Hit100,
    Hit150,
    Hit200,
    Hit300,
    Hit320,
}

impl Accuracy {
    /// The text shown for this judgement.
    pub open spec fn spec_label(self) -> Seq<char> {
        match self {
            Accuracy::Hit320 => "320!"@,
            Accuracy::Hit300 => "300"@,
            Accuracy::Hit200 => "200"@,
            Accuracy::Hit150 => "150"@,
            Accuracy::Hit100 => "100"@,
            Accuracy::Hit50 => "50"@,
            Accuracy::Miss => "MISS"@,
        }
    }

    /// The colour in which this judgement is shown.
    pub open spec fn spec_tint(self) -> Palette {
        match self {
            Accuracy::Hit320 | Accuracy::Hit300 => Palette::Gold,
            Accuracy::Hit200 | Accuracy::Hit150 => Palette::Amber,
            Accuracy::Hit100 => Palette::LightBlue,
            Accuracy::Hit50 => Palette::LightGreen,
            Accuracy::Miss => Palette::MissRed,
        }
    }

    pub fn label(&self) -> (s: &'static str)
        ensures
            s@ == self.spec_label(),
    {
        match self {
            Accuracy::Hit320 => "320!",
            Accuracy::Hit300 => "300",
            Accuracy::Hit200 => "200",
            Accuracy::Hit150 => "150",
            Accuracy::Hit100 => "100",
            Accuracy::Hit50 => "50",
            Accuracy::Miss => "MISS",
        }
    }

    pub fn tint(&self) -> (c: Palette)
        ensures
            c == self.spec_tint(),
    {
        match self {
            Accuracy::Hit320 | Accuracy::Hit300 => Palette::Gold,
            Accuracy::Hit200 | Accuracy::Hit150 => Palette::Amber,
            Accuracy::Hit100 => Palette::LightBlue,
            Accuracy::Hit50 => Palette::LightGreen,
            Accuracy::Miss => Palette::MissRed,
        }
    }
}

/// How long a judgement stays on screen, in milliseconds.
pub const DISPLAY_TIME_MS: u64 = 1000;

/// The judgement on screen `elapsed_ms` milliseconds after it was made: the
/// judgement on display during the first second, nothing afterwards.
pub fn judgement_shown(display: Option<Accuracy>, elapsed_ms: u64) -> (shown: Option<Accuracy>)
    ensures
        shown == (if elapsed_ms < DISPLAY_TIME_MS {
            display
        } else {
            None
        }),
{
    if elapsed_ms < DISPLAY_TIME_MS {
        display
    } else {
        None
    }
}

/// The length of a text in bytes of UTF-8, as `str::len` reports it.
pub open spec fn byte_len(text: Seq<char>) -> usize {
    encode_utf8(text).len() as usize
}

/// A falling word.
#[derive(Debug)]
pub struct Word {
    pub text: String,
    /// Position of the word's left edge.
    pub x: i64,
    /// Height of the word.
    pub y: i64,
    /// How many characters have been typed.
    pub typed_chars: usize,
    /// Whether the word has been typed to its end.
    pub completed: bool,
    pub accuracy: Option<Accuracy>,
    /// Whether the word fell past the hit line untyped.
    pub missed: bool,
}

/// A new word at the top of the playfield.
pub open spec fn fresh_word(text: String, x: i64) -> Word {
    Word {
        text,
        x,
        y: SPAWN_Y,
        typed_chars: 0,
        completed: false,
        accuracy: None,
        missed: false,
    }
}

impl Word {
    /// The typed characters reach the word's length in bytes.
    pub open spec fn spec_is_fully_typed(self) -> bool {
        self.typed_chars >= byte_len(self.text@)
    }

    /// Whether typing `c` advances the word: it is neither completed nor missed,
    /// not fully typed, and `c` is its next character.
    pub open spec fn accepts(self, c: char) -> bool {
        &&& !self.completed
        &&& !self.missed
        &&& self.typed_chars < byte_len(self.text@)
        &&& self.typed_chars < self.text@.len()
        &&& self.text@[self.typed_chars as int] == c
    }

    /// The word after `c` is typed: an accepted character advances it by one,
    /// and the word is completed once fully typed.
    pub open spec fn after_char(self, c: char) -> Word {
        if self.accepts(c) {
            Word {
                typed_chars: (self.typed_chars + 1) as usize,
                completed: self.typed_chars + 1 >= byte_len(self.text@),
                ..self
            }
        } else {
            self
        }
    }

    /// Whether the word is gone at the end of a frame.
    pub open spec fn spec_is_expired(self) -> bool {
        self.y > MISS_Y || self.missed
    }

    /// A word with text `text` at the top of the playfield, at position `x`.
    pub fn new(text: String, x: i64) -> (w: Self)
        ensures
            w == fresh_word(text, x),
    {
        Word { text, x, y: SPAWN_Y, typed_chars: 0, completed: false, accuracy: None, missed: false }
    }

    /// Whether the typed characters reach the word's length in bytes.
    pub fn is_fully_typed(&self) -> (b: bool)
        ensures
            b == self.spec_is_fully_typed(),
    {
        self.typed_chars >= self.text.as_str().len()
    }

    /// The typed part of the word followed by the rest of it.
    pub fn get_display_text(&self) -> (s: String)
        requires
            is_char_boundary(encode_utf8(self.text@), self.typed_chars as int),
        ensures
            s@ == self.text@,
    {
        let (typed, rest) = self.text.as_str().split_at(self.typed_chars);
        let mut s = String::from_str(typed);
        s.append(rest);
        proof {
            vstd::utf8::encode_utf8_valid_utf8(self.text@);
            lemma_boundary_in_range(encode_utf8(self.text@), self.typed_chars as int);
            lemma_split_chars(self.text@, typed@, rest@, self.typed_chars as int);
        }
        s
    }

    /// Types `c`; returns whether the word took it.
    pub fn check_char(&mut self, c: char) -> (taken: bool)
        ensures
            taken == old(self).accepts(c),
            *final(self) == old(self).after_char(c),
    {
        if self.completed || self.missed || self.typed_chars >= self.text.as_str().len() {
            return false;
        }
        let char_count = self.text.as_str().unicode_len();
        if self.typed_chars < char_count && self.text.as_str().get_char(self.typed_chars) == c {
            self.typed_chars = self.typed_chars + 1;
            if self.is_fully_typed() {
                self.completed = true;
            }
            true
        } else {
            false
        }
    }

    /// Whether the word is gone at the end of a frame.
    pub fn is_expired(&self) -> (b: bool)
        ensures
            b == self.spec_is_expired(),
    {
        self.y > MISS_Y || self.missed
    }

    /// A copy of the word.
    fn duplicate(&self) -> (w: Word)
        ensures
            w == *self,
    {
        Word {
            text: self.text.clone(),
            x: self.x,
            y: self.y,
            typed_chars: self.typed_chars,
            completed: self.completed,
            accuracy: self.accuracy,
            missed: self.missed,
        }
    }
}

/// The character that a key types, if any.
pub open spec fn char_for_key(key: Key) -> Option<char> {
    match key {
        Key::A => Some('a'),
        Key::B => Some('b'),
        Key::C => Some('c'),
        Key::D => Some('d'),
        Key::E => Some('e'),
        Key::F => Some('f'),
        Key::G => Some('g'),
        Key::H => Some('h'),
        Key::I => Some('i'),
        Key::J => Some('j'),
        Key::K => Some('k'),
        Key::L => Some('l'),
        Key::M => Some('m'),
        Key::N => Some('n'),
        Key::O => Some('o'),
        Key::P => Some('p'),
        Key::Q => Some('q'),
        Key::R => Some('r'),
        Key::S => Some('s'),
        Key::T => Some('t'),
        Key::U => Some('u'),
        Key::V => Some('v'),
        Key::W => Some('w'),
        Key::X => Some('x'),
        Key::Y => Some('y'),
        Key::Z => Some('z'),
        _ => None,
    }
}

/// The words that a new game draws from.
pub open spec fn default_pool() -> Seq<Seq<char>> {
    seq![
        "rhythm"@,
        "beat"@,
        "music"@,
        "tempo"@,
        "dance"@,
        "groove"@,
        "melody"@,
        "harmony"@,
        "timing"@,
        "sync"@,
        "flow"@,
    ]
}

/// Word `i` is the first word that takes `c`.
pub open spec fn first_taker(words: Seq<Word>, c: char, i: int) -> bool {
    &&& 0 <= i < words.len()
    &&& words[i].accepts(c)
    &&& forall|j: int| 0 <= j < i ==> !(#[trigger] words[j]).accepts(c)
}

/// A word after `dt_us` microseconds: completed and missed words stay put,
/// others fall, and are missed once they fall below the miss height.
pub open spec fn moved(w: Word, dt_us: u64) -> Word {
    if w.completed || w.missed {
        w
    } else {
        let y = (w.y + travel(WORD_FALL_SPEED, dt_us)) as i64;
        Word { y, missed: y > MISS_Y, ..w }
    }
}

/// Whether word `w` becomes missed in a frame of `dt_us` microseconds.
pub open spec fn newly_missed(w: Word, dt_us: u64) -> bool {
    !w.completed && !w.missed && moved(w, dt_us).missed
}

/// The words that stay at the end of a frame, in order.
pub open spec fn kept_words(words: Seq<Word>) -> Seq<Word> {
    words.filter(|w: Word| !w.spec_is_expired())
}

/// The score for completing a word of `len` bytes when the combo, counting
/// this word, is `combo`: ten per byte, and five more for every five words of
/// the combo.
pub open spec fn completion_points(len: int, combo: int) -> int {
    len * 10 + (combo / 5) * 5
}

/// The state of a game, as the rules see it.
pub struct RhythmTyperState {
    pub words: Seq<Word>,
    pub score: int,
    pub combo: int,
    /// Microseconds since the last word appeared.
    pub last_spawn_time: nat,
    /// The judgement on display; no rule sets it.
    pub accuracy_display: Option<Accuracy>,
    pub current_input: Seq<char>,
    pub word_pool: Seq<String>,
}

impl RhythmTyperState {
    /// The pool is not empty, score and combo are not negative, and every word
    /// lies between the spawn height and the miss height.
    pub open spec fn wf(self) -> bool {
        &&& self.word_pool.len() > 0
        &&& 0 <= self.score
        &&& 0 <= self.combo
        &&& forall|i: int| 0 <= i < self.words.len() ==> SPAWN_Y <= #[trigger] self.words[i].y <= MISS_Y
    }

    /// Completing any word cannot overflow the score or the combo.
    pub open spec fn has_headroom(self) -> bool {
        &&& self.combo < i32::MAX
        &&& forall|i: int|
            0 <= i < self.words.len() ==> self.score + completion_points(
                byte_len((#[trigger] self.words[i]).text@) as int,
                self.combo + 1,
            ) <= i32::MAX
    }

    /// Typing `c` finds a word that takes it.
    pub open spec fn has_taker(self, c: char) -> bool {
        exists|i: int| first_taker(self.words, c, i)
    }

    /// The word that takes `c`.
    pub open spec fn taker(self, c: char) -> int {
        choose|i: int| first_taker(self.words, c, i)
    }

    /// The state after typing `c`: the first word whose next character is `c`
    /// advances; if that completes it, the combo grows by one and the score by
    /// the completion points. If no word takes `c`, the combo falls to zero.
    pub open spec fn after_char(self, c: char) -> RhythmTyperState {
        if self.has_taker(c) {
            let i = self.taker(c);
            let w = self.words[i].after_char(c);
            if w.completed {
                RhythmTyperState {
                    words: self.words.update(i, w),
                    combo: self.combo + 1,
                    score: self.score + completion_points(byte_len(w.text@) as int, self.combo + 1),
                    ..self
                }
            } else {
                RhythmTyperState { words: self.words.update(i, w), ..self }
            }
        } else {
            RhythmTyperState { combo: 0, ..self }
        }
    }

    /// Whether `dt_us` more microseconds make a new word due.
    pub open spec fn spawn_due(self, dt_us: u64) -> bool {
        self.last_spawn_time + dt_us > SPAWN_INTERVAL_US
    }

    /// The state after words fall for `dt_us` microseconds; a word that becomes
    /// missed breaks the combo.
    pub open spec fn after_fall(self, dt_us: u64) -> RhythmTyperState {
        RhythmTyperState {
            words: self.words.map_values(|w: Word| moved(w, dt_us)),
            combo: if exists|i: int| 0 <= i < self.words.len() && newly_missed(#[trigger] self.words[i], dt_us) {
                0
            } else {
                self.combo
            },
            ..self
        }
    }

    /// The state after gone words are removed.
    pub open spec fn after_removal(self) -> RhythmTyperState {
        RhythmTyperState { words: kept_words(self.words), ..self }
    }

    /// The state after a frame of `dt_us` microseconds: words fall, gone words
    /// leave, and once more than two seconds have passed since the last word,
    /// word `roll % pool size` of the pool appears at position `x`.
    pub open spec fn after_update(self, dt_us: u64, roll: usize, x: i64) -> RhythmTyperState {
        let s = self.after_fall(dt_us).after_removal();
        if self.spawn_due(dt_us) {
            RhythmTyperState {
                words: s.words.push(fresh_word(self.word_pool[roll as int % self.word_pool.len() as int], x)),
                last_spawn_time: 0,
                ..s
            }
        } else {
            RhythmTyperState { last_spawn_time: (self.last_spawn_time + dt_us) as nat, ..s }
        }
    }

    /// The state after a key press: Backspace clears the input, a letter is typed.
    pub open spec fn after_key(self, key: Key) -> RhythmTyperState {
        if key == Key::Escape {
            self
        } else if key == Key::Back {
            RhythmTyperState { current_input: Seq::empty(), ..self }
        } else {
            match char_for_key(key) {
                Some(c) => self.after_char(c),
                None => self,
            }
        }
    }
}

/// A game of falling words.
pub struct RhythmTyperGame {
    pub words: Vec<Word>,
    pub score: i32,
    pub combo: i32,
    pub last_spawn_time: u64,
    pub accuracy_display: Option<Accuracy>,
    pub current_input: String,
    pub word_pool: Vec<String>,
}

impl View for RhythmTyperGame {
    type V = RhythmTyperState;

    open spec fn view(&self) -> RhythmTyperState {
        RhythmTyperState {
            words: self.words@,
            score: self.score as int,
            combo: self.combo as int,
            last_spawn_time: self.last_spawn_time as nat,
            accuracy_display: self.accuracy_display,
            current_input: self.current_input@,
            word_pool: self.word_pool@,
        }
    }
}

proof fn lemma_first_unique(words: Seq<Word>, c: char, i: int, k: int)
    requires
        first_taker(words, c, i),
        first_taker(words, c, k),
    ensures
        i == k,
{
    if i < k {
        assert(!words[i].accepts(c));
    } else if k < i {
        assert(!words[k].accepts(c));
    }
}

proof fn lemma_kept_step(words: Seq<Word>, i: int)
    requires
        0 <= i < words.len(),
    ensures
        kept_words(words.take(i + 1)) == if !words[i].spec_is_expired() {
            kept_words(words.take(i)).push(words[i])
        } else {
            kept_words(words.take(i))
        },
{
    assert(words.take(i + 1) =~= words.take(i).push(words[i]));
    words.take(i).lemma_filter_push(words[i], |w: Word| !w.spec_is_expired());
}

proof fn lemma_kept_bounds(words: Seq<Word>, n: int)
    requires
        0 <= n <= words.len(),
        forall|i: int| 0 <= i < words.len() ==> SPAWN_Y <= #[trigger] words[i].y,
    ensures
        kept_words(words.take(n)).len() <= n,
        forall|i: int|
            0 <= i < kept_words(words.take(n)).len() ==> {
                let w = #[trigger] kept_words(words.take(n))[i];
                &&& !w.missed
                &&& SPAWN_Y <= w.y <= MISS_Y
            },
    decreases n,
{
    if n == 0 {
        assert(words.take(0) =~= Seq::<Word>::empty());
        reveal(Seq::filter);
    } else {
        lemma_kept_bounds(words, n - 1);
        lemma_kept_step(words, n - 1);
    }
}

impl RhythmTyperGame {
    /// A new game with the default word pool.
    pub fn new() -> (game: Self)
        ensures
            game@.words.len() == 0,
            game@.score == 0,
            game@.combo == 0,
            game@.last_spawn_time == 0,
            game@.accuracy_display is None,
            game@.current_input.len() == 0,
            game@.word_pool.map_values(|s: String| s@) == default_pool(),
            game@.wf(),
    {
        let mut word_pool: Vec<String> = Vec::new();
        word_pool.push(String::from_str("rhythm"));
        word_pool.push(String::from_str("beat"));
        word_pool.push(String::from_str("music"));
        word_pool.push(String::from_str("tempo"));
        word_pool.push(String::from_str("dance"));
        word_pool.push(String::from_str("groove"));
        word_pool.push(String::from_str("melody"));
        word_pool.push(String::from_str("harmony"));
        word_pool.push(String::from_str("timing"));
        word_pool.push(String::from_str("sync"));
        word_pool.push(String::from_str("flow"));
        let game = RhythmTyperGame {
            words: Vec::new(),
            score: 0,
            combo: 0,
            last_spawn_time: 0,
            accuracy_display: None,
            current_input: String::new(),
            word_pool,
        };
        assert(game@.word_pool.map_values(|s: String| s@) =~= default_pool());
        game
    }

    /// Puts word `roll % pool size` of the pool at the top of the playfield, at `x`.
    pub fn spawn_word_with(&mut self, roll: usize, x: i64)
        requires
            old(self)@.wf(),
        ensures
            final(self)@ == (RhythmTyperState {
                words: old(self)@.words.push(
                    fresh_word(old(self)@.word_pool[roll as int % old(self)@.word_pool.len() as int], x),
                ),
                ..old(self)@
            }),
            final(self)@.wf(),
    {
        let idx = roll % self.word_pool.len();
        let text = self.word_pool[idx].clone();
        self.words.push(Word::new(text, x));
    }

    /// Puts a random word of the pool at a random position between 200 and 600
    /// pixels at the top of the playfield.
    pub fn spawn_word(&mut self)
        requires
            old(self)@.wf(),
        ensures
            exists|roll: usize, x: i64|
                SPAWN_X_MIN <= x < SPAWN_X_MAX && final(self)@ == (RhythmTyperState {
                    words: old(self)@.words.push(
                        #[trigger] fresh_word(old(self)@.word_pool[roll as int % old(self)@.word_pool.len() as int], x),
                    ),
                    ..old(self)@
                }),
            final(self)@.wf(),
    {
        let roll = random_usize();
        let x = random_in_range(SPAWN_X_MIN, SPAWN_X_MAX);
        self.spawn_word_with(roll, x);
    }

    /// Types `c` into the first word that takes it.
    pub fn handle_char_input(&mut self, c: char)
        requires
            old(self)@.wf(),
            old(self)@.has_headroom(),
        ensures
            final(self)@ == old(self)@.after_char(c),
            final(self)@.wf(),
    {
        let ghost start = self@;
        let n = self.words.len();
        let mut i: usize = 0;
        while i < n
            invariant
                n == self.words.len(),
                i <= n,
                self@ == start,
                start == old(self)@,
                start.wf(),
                start.has_headroom(),
                forall|j: int| 0 <= j < i ==> !(#[trigger] start.words[j]).accepts(c),
            decreases n - i,
        {
            let mut word = self.words[i].duplicate();
            let taken = word.check_char(c);
            if taken {
                proof {
                    assert(first_taker(start.words, c, i as int));
                    lemma_first_unique(start.words, c, i as int, start.taker(c));
                }
                if word.completed {
                    let len = word.text.as_str().len();
                    self.combo = self.combo + 1;
                    let base_score = (len as i32) * 10;
                    let combo_bonus = (self.combo / 5) * 5;
                    self.score = self.score + base_score + combo_bonus;
                }
                self.words.set(i, word);
                assert(self@.words =~= start.after_char(c).words);
                return;
            }
            i = i + 1;
        }
        self.combo = 0;
    }
    /// Lets words fall for `dt_us` microseconds, marking those that pass the
    /// miss height untyped as missed; a word that becomes missed breaks the combo.
    fn fall(&mut self, dt_us: u64)
        requires
            old(self)@.wf(),
        ensures
            final(self)@ == old(self)@.after_fall(dt_us),
            forall|k: int| 0 <= k < final(self)@.words.len() ==> SPAWN_Y <= #[trigger] final(self)@.words[k].y,
    {
        let ghost start = self@;
        let step = travel_distance(WORD_FALL_SPEED, dt_us);
        let n = self.words.len();
        for i in 0..n
            invariant
                n == self.words.len(),
                start.wf(),
                step == travel(WORD_FALL_SPEED, dt_us),
                0 <= step <= MAX_TRAVEL,
                self.score == start.score,
                self.last_spawn_time == start.last_spawn_time,
                self.accuracy_display == start.accuracy_display,
                self.current_input@ == start.current_input,
                self.word_pool@ == start.word_pool,
                n == start.words.len(),
                forall|k: int| 0 <= k < i ==> #[trigger] self.words@[k] == moved(start.words[k], dt_us),
                forall|k: int| i <= k < n ==> #[trigger] self.words@[k] == start.words[k],
                self.combo == if exists|k: int| 0 <= k < i && newly_missed(#[trigger] start.words[k], dt_us) {
                    0
                } else {
                    start.combo
                },
        {
            if !self.words[i].completed && !self.words[i].missed {
                let mut word = self.words[i].duplicate();
                word.y = word.y + step;
                if word.y > MISS_Y {
                    word.missed = true;
                    self.combo = 0;
                }
                self.words.set(i, word);
            }
            assert(self.combo == if exists|k: int| 0 <= k < i + 1 && newly_missed(#[trigger] start.words[k], dt_us) {
                0
            } else {
                start.combo
            }) by {
                if newly_missed(start.words[i as int], dt_us) {
                    assert(0 <= i < i + 1);
                }
            }
        }
        assert(self@.words =~= start.words.map_values(|w: Word| moved(w, dt_us)));
    }

    /// Removes the words that are gone.
    fn remove_expired(&mut self)
        requires
            forall|k: int| 0 <= k < old(self)@.words.len() ==> SPAWN_Y <= #[trigger] old(self)@.words[k].y,
        ensures
            final(self)@ == old(self)@.after_removal(),
            forall|k: int|
                0 <= k < final(self)@.words.len() ==> SPAWN_Y <= #[trigger] final(self)@.words[k].y <= MISS_Y,
    {
        let ghost start = self@;
        let n = self.words.len();
        let mut kept: Vec<Word> = Vec::new();
        for i in 0..n
            invariant
                n == self.words.len(),
                self@ == start,
                forall|k: int| 0 <= k < start.words.len() ==> SPAWN_Y <= #[trigger] start.words[k].y,
                kept@ == kept_words(start.words.take(i as int)),
        {
            proof {
                lemma_kept_step(start.words, i as int);
            }
            if !self.words[i].is_expired() {
                kept.push(self.words[i].duplicate());
            }
        }
        proof {
            assert(start.words.take(n as int) =~= start.words);
            lemma_kept_bounds(start.words, n as int);
        }
        self.words = kept;
    }

    /// Lets words fall and removes gone ones for a frame of `dt_us`
    /// microseconds, and advances the spawn clock; returns whether a new word
    /// is due.
    fn advance(&mut self, dt_us: u64) -> (due: bool)
        requires
            old(self)@.wf(),
        ensures
            due == old(self)@.spawn_due(dt_us),
            final(self)@ == (RhythmTyperState {
                last_spawn_time: if due {
                    0
                } else {
                    (old(self)@.last_spawn_time + dt_us) as nat
                },
                ..old(self)@.after_fall(dt_us).after_removal()
            }),
            final(self)@.wf(),
    {
        self.fall(dt_us);
        self.remove_expired();
        let elapsed = self.last_spawn_time.saturating_add(dt_us);
        if elapsed > SPAWN_INTERVAL_US {
            self.last_spawn_time = 0;
            true
        } else {
            self.last_spawn_time = elapsed;
            false
        }
    }

    /// One frame of `dt_us` microseconds, with `roll` choosing the word and `x`
    /// the position of a word that appears.
    pub fn update_with(&mut self, dt_us: u64, roll: usize, x: i64)
        requires
            old(self)@.wf(),
        ensures
            final(self)@ == old(self)@.after_update(dt_us, roll, x),
            final(self)@.wf(),
    {
        if self.advance(dt_us) {
            self.spawn_word_with(roll, x);
        }
    }

    /// One frame of `dt_us` microseconds; a word that appears is drawn at random
    /// from the pool, at a random position between 200 and 600 pixels.
    pub fn update(&mut self, dt_us: u64)
        requires
            old(self)@.wf(),
        ensures
            exists|roll: usize, x: i64|
                SPAWN_X_MIN <= x < SPAWN_X_MAX && final(self)@ == #[trigger] old(self)@.after_update(dt_us, roll, x),
            final(self)@.wf(),
    {
        if self.advance(dt_us) {
            let roll = random_usize();
            let x = random_in_range(SPAWN_X_MIN, SPAWN_X_MAX);
            self.spawn_word_with(roll, x);
            assert(self@ == old(self)@.after_update(dt_us, roll, x));
        } else {
            assert(self@ == old(self)@.after_update(dt_us, 0, SPAWN_X_MIN));
        }
    }

    /// The character that `key` types, if any: each letter key types its
    /// lower-case letter.
    pub fn get_char_from_key(&self, key: Key) -> (c: Option<char>)
        ensures
            c == char_for_key(key),
    {
        match key {
            Key::D => Some('d'),
            Key::F => Some('f'),
            Key::J => Some('j'),
            Key::K => Some('k'),
            Key::A => Some('a'),
            Key::B => Some('b'),
            Key::C => Some('c'),
            Key::E => Some('e'),
            Key::G => Some('g'),
            Key::H => Some('h'),
            Key::I => Some('i'),
            Key::L => Some('l'),
            Key::M => Some('m'),
            Key::N => Some('n'),
            Key::O => Some('o'),
            Key::P => Some('p'),
            Key::Q => Some('q'),
            Key::R => Some('r'),
            Key::S => Some('s'),
            Key::T => Some('t'),
            Key::U => Some('u'),
            Key::V => Some('v'),
            Key::W => Some('w'),
            Key::X => Some('x'),
            Key::Y => Some('y'),
            Key::Z => Some('z'),
            _ => None,
        }
    }

    /// Handles a key press: Escape asks to quit, Backspace clears the input,
    /// and a letter is typed.
    pub fn key_down_event(&mut self, key: Key) -> (quit: bool)
        requires
            old(self)@.wf(),
            old(self)@.has_headroom(),
        ensures
            quit == (key == Key::Escape),
            final(self)@ == old(self)@.after_key(key),
            final(self)@.wf(),
    {
        match key {
            Key::Escape => true,
            Key::Back => {
                self.current_input = String::new();
                false
            },
            _ => {
                match self.get_char_from_key(key) {
                    Some(c) => self.handle_char_input(c),
                    None => {},
                }
                false
            },
        }
    }
}

proof fn lemma_encode_concat(a: Seq<char>, b: Seq<char>)
    ensures
        encode_utf8(a + b) == encode_utf8(a) + encode_utf8(b),
    decreases a.len(),
{
    if a.len() == 0 {
        assert(a + b =~= b);
    } else {
        lemma_encode_concat(a.drop_first(), b);
        assert((a + b).drop_first() =~= a.drop_first() + b);
        assert(encode_utf8(a + b) =~= encode_utf8(a) + encode_utf8(b));
    }
}

proof fn lemma_boundary_in_range(bytes: Seq<u8>, k: int)
    requires
        vstd::utf8::valid_utf8(bytes),
        is_char_boundary(bytes, k),
    ensures
        0 <= k <= bytes.len(),
{
}

proof fn lemma_split_chars(text: Seq<char>, left: Seq<char>, right: Seq<char>, k: int)
    requires
        0 <= k <= encode_utf8(text).len(),
        encode_utf8(left) =~= encode_utf8(text).subrange(0, k),
        encode_utf8(right) =~= encode_utf8(text).subrange(k, encode_utf8(text).len() as int),
    ensures
        left + right == text,
{
    lemma_encode_concat(left, right);
    assert(encode_utf8(left + right) =~= encode_utf8(text));
    vstd::utf8::encode_utf8_decode_utf8(left + right);
    vstd::utf8::encode_utf8_decode_utf8(text);
}

/// A character that some word takes advances exactly that word by one character and leaves every other word as it was;
/// a character that no word takes resets the combo and changes no word.
pub proof fn law_typing_advances_one_word(s: RhythmTyperState, c: char)
    ensures
        s.has_taker(c) ==> {
            let i = s.taker(c);
            &&& s.after_char(c).words[i].typed_chars == s.words[i].typed_chars + 1
            &&& forall|j: int| 0 <= j < s.words.len() && j != i ==> s.after_char(c).words[j] == s.words[j]
            &&& s.after_char(c).words.len() == s.words.len()
        },
        !s.has_taker(c) ==> s.after_char(c).combo == 0 && s.after_char(c).words == s.words,
{
    if s.has_taker(c) {
        assert(first_taker(s.words, c, s.taker(c)));
    }
}

/// Completing a word raises the combo by one and the score by ten points per
/// byte of the word plus the combo bonus; a longer word or a longer combo never
/// earns less.
pub proof fn law_completion_points(len1: int, len2: int, combo1: int, combo2: int)
    requires
        0 <= len1 <= len2,
        0 <= combo1 <= combo2,
    ensures
        completion_points(len1, combo1) <= completion_points(len2, combo2),
        completion_points(len1, combo1) >= len1 * 10,
{
    assert((combo1 / 5) * 5 <= (combo2 / 5) * 5 && 0 <= (combo1 / 5) * 5) by (nonlinear_arith)
        requires
            0 <= combo1 <= combo2,
    ;
}

/// A word made only of ASCII characters is completed exactly when all of its
/// characters have been typed.
pub proof fn law_ascii_word_completes_at_its_end(w: Word, c: char)
    requires
        vstd::utf8::is_ascii_chars(w.text@),
        w.text@.len() <= usize::MAX,
        w.accepts(c),
    ensures
        w.after_char(c).completed <==> w.after_char(c).typed_chars == w.text@.len(),
{
    vstd::utf8::is_ascii_chars_encode_utf8(w.text@);
}

/// Typing a character never changes the score unless it completes a word, and
/// then only upwards.
pub proof fn law_typing_never_lowers_score(s: RhythmTyperState, c: char)
    requires
        s.wf(),
    ensures
        s.after_char(c).score >= s.score,
        s.after_char(c).score > s.score ==> s.after_char(c).combo == s.combo + 1,
{
    if s.has_taker(c) {
        let i = s.taker(c);
        assert(first_taker(s.words, c, i));
        let w = s.words[i].after_char(c);
        assert(completion_points(byte_len(w.text@) as int, s.combo + 1) >= 0) by (nonlinear_arith)
            requires
                s.combo >= 0,
                byte_len(w.text@) >= 0,
        ;
    }
}

/// A frame never changes the score, and it keeps only words that are not
/// missed and lie between the spawn height and the miss height, at most one
/// more than before.
pub proof fn law_frame_keeps_score(s: RhythmTyperState, dt_us: u64, roll: usize, x: i64)
    requires
        s.wf(),
    ensures
        s.after_update(dt_us, roll, x).score == s.score,
        s.after_update(dt_us, roll, x).words.len() <= s.words.len() + 1,
        forall|i: int|
            0 <= i < s.after_fall(dt_us).after_removal().words.len() ==> {
                let w = #[trigger] s.after_fall(dt_us).after_removal().words[i];
                &&& !w.missed
                &&& SPAWN_Y <= w.y <= MISS_Y
            },
{
    let f = s.after_fall(dt_us);
    assert forall|k: int| 0 <= k < f.words.len() implies SPAWN_Y <= #[trigger] f.words[k].y by {
        crate::motion::lemma_travel_bounds(WORD_FALL_SPEED, dt_us);
    }
    lemma_kept_bounds(f.words, f.words.len() as int);
    assert(f.words.take(f.words.len() as int) =~= f.words);
}

/// Each letter key types its own letter, and no two keys type the same character.
pub proof fn law_letter_keys_are_distinct(k1: Key, k2: Key)
    ensures
        char_for_key(k1) is Some && char_for_key(k1) == char_for_key(k2) ==> k1 == k2,
        char_for_key(Key::Escape) is None && char_for_key(Key::Back) is None,
{
}

/// Every letter key types its own lower-case letter, every lower-case letter
/// has its key, and whatever a key types is a lower-case letter.
pub proof fn law_letter_keys_type_their_letters(key: Key, c: char)
    ensures
        char_for_key(Key::A) == Some('a'),
        char_for_key(Key::B) == Some('b'),
        char_for_key(Key::C) == Some('c'),
        char_for_key(Key::D) == Some('d'),
        char_for_key(Key::E) == Some('e'),
        char_for_key(Key::F) == Some('f'),
        char_for_key(Key::G) == Some('g'),
        char_for_key(Key::H) == Some('h'),
        char_for_key(Key::I) == Some('i'),
        char_for_key(Key::J) == Some('j'),
        char_for_key(Key::K) == Some('k'),
        char_for_key(Key::L) == Some('l'),
        char_for_key(Key::M) == Some('m'),
        char_for_key(Key::N) == Some('n'),
        char_for_key(Key::O) == Some('o'),
        char_for_key(Key::P) == Some('p'),
        char_for_key(Key::Q) == Some('q'),
        char_for_key(Key::R) == Some('r'),
        char_for_key(Key::S) == Some('s'),
        char_for_key(Key::T) == Some('t'),
        char_for_key(Key::U) == Some('u'),
        char_for_key(Key::V) == Some('v'),
        char_for_key(Key::W) == Some('w'),
        char_for_key(Key::X) == Some('x'),
        char_for_key(Key::Y) == Some('y'),
        char_for_key(Key::Z) == Some('z'),
        char_for_key(key) matches Some(t) ==> 'a' <= t <= 'z',
        'a' <= c <= 'z' ==> exists|k: Key| #[trigger] char_for_key(k) == Some(c),
{
}

/// A word that is neither completed nor missed and falls below the miss height
/// in a frame breaks the combo.
pub proof fn law_falling_past_breaks_combo(s: RhythmTyperState, dt_us: u64, roll: usize, x: i64, i: int)
    requires
        s.wf(),
        0 <= i < s.words.len(),
        !s.words[i].completed,
        !s.words[i].missed,
        s.words[i].y + travel(WORD_FALL_SPEED, dt_us) > MISS_Y,
    ensures
        s.after_update(dt_us, roll, x).combo == 0,
{
    crate::motion::lemma_travel_bounds(WORD_FALL_SPEED, dt_us);
    assert(newly_missed(s.words[i], dt_us));
}

/// Completing a word earns ten points for each of its letters plus five for
/// every five words of the combo, counting this one.
pub proof fn law_completion_earns_ten_per_letter(s: RhythmTyperState, c: char)
    requires
        s.has_taker(c),
        s.words[s.taker(c)].after_char(c).completed,
        vstd::utf8::is_ascii_chars(s.words[s.taker(c)].text@),
        s.words[s.taker(c)].text@.len() <= usize::MAX,
    ensures
        s.after_char(c).score == s.score + 10 * s.words[s.taker(c)].text@.len() + ((s.combo + 1) / 5) * 5,
        s.after_char(c).combo == s.combo + 1,
{
    vstd::utf8::is_ascii_chars_encode_utf8(s.words[s.taker(c)].text@);
}

} // verus!

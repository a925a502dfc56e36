//! One game session: the field, the falling and the next piece, score,
//! level and the gravity tick's speed.

use vstd::prelude::*;
use vstd::string::StringExecFns;
use crate::ansi::{decimal, push_decimal};
use crate::canvas::{overlay, paragraph, themed_text_grid, Canvas, Rows};
use crate::color::Color;
use crate::field::{
    cleared_grid, emptied_full_rows, empty_field, free_at, stamp_grid, Field, FIELD_HEIGHT,
};
use crate::position::Position;
use crate::stones::{is_piece_texture, is_shape_texture, lemma_shape_is_piece, Shape, Stone};
use crate::texture::{rotated_grid, Dimensions, Texture};
use crate::tile::background_tile;

verus! {

/// A key the session reacts to; every other key is `Other`.
#[derive(Clone, Copy, Debug, PartialEq, Eq, Structural)]
pub enum Key {
    Left,
    Right,
    Up,
    Down,
    Char(char),
    Other,
}

/// The most lines that can be cleared while the level still fits a byte.
pub const MAX_CLEARED_LINES: u64 = 2549;

/// The shortest time between two ticks, in milliseconds.
pub const MINIMAL_TICK_TIME: u64 = 30;

/// The time between two ticks at the start, in milliseconds.
pub const INITIAL_TICK_TIME: u64 = 1000;

/// `base` to the power `exp`.
pub open spec fn power(base: nat, exp: nat) -> nat
    decreases exp,
{
    if exp == 0 {
        1
    } else {
        base * power(base, (exp - 1) as nat)
    }
}

/// The level reached after clearing `cleared` lines: one more every ten.
pub open spec fn level_for(cleared: nat) -> nat {
    1 + cleared / 10
}

/// The points after clearing `k` lines at `level`: `2^k * level` more, none
/// for no line.
pub open spec fn points_after(points: nat, level: nat, k: nat) -> nat {
    if k == 0 {
        points
    } else {
        points + power(2, k) * level
    }
}

/// The tick time that the level proposes, in milliseconds: 1000 times
/// `0.75^level`, rounded down.
pub open spec fn proposed_tick_time(level: nat) -> nat {
    (1000 * power(3, level)) / power(4, level)
}

/// The tick time at a level: the proposed one, but never below `minimal`.
pub open spec fn tick_time(level: nat, minimal: nat) -> nat {
    if proposed_tick_time(level) < minimal {
        minimal
    } else {
        proposed_tick_time(level)
    }
}

/// Where a piece of the given size enters: centered over the field, its
/// bottom row on the field's top row.
pub open spec fn spawn_position(d: Dimensions) -> Position {
    Position { x: (5 - d.width / 2) as i8, y: (1 - d.height) as i8 }
}

/// The help lines drawn under the field.
pub open spec fn help_lines() -> Seq<&'static str> {
    seq!["q - quit", "esq - menu", "arrows - move block"]
}

/// The label that shows the level.
pub open spec fn level_label(level: u8) -> Seq<char> {
    seq!['l', 'e', 'v', 'e', 'l', ':', ' '] + decimal(level as nat)
}

/// The label that shows the points.
pub open spec fn points_label(points: u64) -> Seq<char> {
    seq!['p', 'o', 'i', 'n', 't', 's', ':', ' '] + decimal(points as nat)
}

/// A power of a positive base is positive.
pub proof fn lemma_power_positive(base: nat, exp: nat)
    requires
        base >= 1,
    ensures
        power(base, exp) >= 1,
    decreases exp,
{
    if exp > 0 {
        lemma_power_positive(base, (exp - 1) as nat);
        assert(base * power(base, (exp - 1) as nat) >= 1) by (nonlinear_arith)
            requires
                base >= 1,
                power(base, (exp - 1) as nat) >= 1,
        ;
    }
}

/// Powers of a positive base grow with the exponent.
pub proof fn lemma_power_monotone(base: nat, i: nat, j: nat)
    requires
        base >= 1,
        i <= j,
    ensures
        power(base, i) <= power(base, j),
    decreases j - i,
{
    if i < j {
        lemma_power_monotone(base, i, (j - 1) as nat);
        lemma_power_positive(base, (j - 1) as nat);
        assert(power(base, (j - 1) as nat) <= base * power(base, (j - 1) as nat)) by (nonlinear_arith)
            requires
                base >= 1,
        ;
    }
}

/// From level 25 on, 1000 times `0.75^level` is below one.
proof fn lemma_tick_time_vanishes(level: nat)
    requires
        level >= 25,
    ensures
        1000 * power(3, level) < power(4, level),
    decreases level,
{
    if level == 25 {
        reveal_with_fuel(power, 26);
        assert(power(3, 25) == 847288609443);
        assert(power(4, 25) == 1125899906842624);
    } else {
        lemma_tick_time_vanishes((level - 1) as nat);
        let a = power(3, (level - 1) as nat);
        let b = power(4, (level - 1) as nat);
        assert(1000 * (3 * a) < 4 * b) by (nonlinear_arith)
            requires
                1000 * a < b,
        ;
    }
}

fn compute_power(base: u64, exp: u64) -> (r: u64)
    requires
        1 <= base <= 4,
        exp <= 24,
    ensures
        r == power(base as nat, exp as nat),
        r <= 281474976710656u64,
{
    proof {
        reveal_with_fuel(power, 25);
        assert(power(4, 24) == 281474976710656);
    }
    let mut r: u64 = 1;
    let mut i: u64 = 0;
    while i < exp
        invariant
            1 <= base <= 4,
            exp <= 24,
            i <= exp,
            r == power(base as nat, i as nat),
            power(4, 24) == 281474976710656,
        decreases exp - i,
    {
        proof {
            lemma_power_base_monotone(base as nat, i as nat + 1);
            lemma_power_monotone(4, i as nat + 1, 24);
            assert(power(base as nat, i as nat + 1) == base * power(base as nat, i as nat));
            assert(r * base == base * r) by (nonlinear_arith);
        }
        r = r * base;
        i = i + 1;
    }
    proof {
        lemma_power_base_monotone(base as nat, exp as nat);
        lemma_power_monotone(4, exp as nat, 24);
    }
    r
}

proof fn lemma_power_base_monotone(base: nat, exp: nat)
    requires
        1 <= base <= 4,
    ensures
        power(base, exp) <= power(4, exp),
    decreases exp,
{
    if exp > 0 {
        lemma_power_base_monotone(base, (exp - 1) as nat);
        let a = power(base, (exp - 1) as nat);
        let b = power(4, (exp - 1) as nat);
        assert(base * a <= 4 * b) by (nonlinear_arith)
            requires
                1 <= base <= 4,
                a <= b,
        ;
    }
}

/// `2^k`.
fn power_of_two(k: usize) -> (r: u64)
    requires
        power(2, k as nat) <= u64::MAX,
    ensures
        r == power(2, k as nat),
{
    let mut r: u64 = 1;
    let mut i: usize = 0;
    while i < k
        invariant
            i <= k,
            r == power(2, i as nat),
            power(2, k as nat) <= u64::MAX,
        decreases k - i,
    {
        proof {
            lemma_power_monotone(2, i as nat + 1, k as nat);
        }
        r = r * 2;
        i = i + 1;
    }
    r
}

/// The tick time that the level proposes, in milliseconds.
pub fn proposed_tick_time_at(level: u8) -> (t: u64)
    ensures
        t == proposed_tick_time(level as nat),
{
    if level > 24 {
        proof {
            lemma_tick_time_vanishes(level as nat);
            let a = 1000 * power(3, level as nat);
            let b = power(4, level as nat);
            assert(a / b == 0) by (nonlinear_arith)
                requires
                    0 <= a < b,
            ;
        }
        0
    } else {
        let three = compute_power(3, level as u64);
        let four = compute_power(4, level as u64);
        proof {
            lemma_power_positive(4, level as nat);
            lemma_power_base_monotone(3, level as nat);
        }
        (1000 * three) / four
    }
}

/// A texture that can enter the field as the next piece.
pub open spec fn spawnable(t: Texture) -> bool {
    &&& is_piece_texture(t)
    &&& t.dimensions.width <= 4
    &&& t.dimensions.height <= 4
}

/// What an arrow key does to the falling stone: left, right and down move
/// it where the field lets it, up turns it where the turned box fits; the
/// stone stays as it was otherwise.
pub open spec fn stone_after_key(old: Stone, new: Stone, field: Field, key: Key) -> bool {
    match key {
        Key::Left => new.texture == old.texture && new.position == if old.spec_can_move_left(&field) {
            Position { x: (old.position.x - 1) as i8, y: old.position.y }
        } else {
            old.position
        },
        Key::Right => new.texture == old.texture && new.position == if old.spec_can_move_right(
            &field,
        ) {
            Position { x: (old.position.x + 1) as i8, y: old.position.y }
        } else {
            old.position
        },
        Key::Down => new.texture == old.texture && new.position == if old.spec_can_move_down(&field) {
            Position { x: old.position.x, y: (old.position.y + 1) as i8 }
        } else {
            old.position
        },
        Key::Up => new.position == old.position && if old.spec_can_rotate(&field) {
            &&& new.texture@ == rotated_grid(
                old.texture@,
                old.texture.dimensions.width as nat,
                old.texture.dimensions.height as nat,
            )
            &&& new.texture.dimensions == (Dimensions {
                width: old.texture.dimensions.height,
                height: old.texture.dimensions.width,
            })
        } else {
            new.texture == old.texture
        },
        _ => new == old,
    }
}

/// The falling stone is laid on the field where it stands, the next piece
/// enters at its spawn position, and a new next piece is one of the shapes.
pub open spec fn stone_locked(old: PlayView, new: PlayView) -> bool {
    &&& new.field.texture@ == stamp_grid(
        old.field.texture@,
        old.current_stone.texture@,
        old.current_stone.position.x as int,
        old.current_stone.position.y as int,
    )
    &&& new.current_stone == (Stone {
        texture: old.next_stone,
        position: spawn_position(old.next_stone.dimensions),
    })
    &&& exists|shape: Shape| is_shape_texture(new.next_stone, shape)
}

/// Score, level and the tick settings are as they were.
pub open spec fn same_score_and_timing(old: PlayView, new: PlayView) -> bool {
    &&& new.points == old.points
    &&& new.cleared_lines == old.cleared_lines
    &&& new.level == old.level
    &&& new.time_per_tick == old.time_per_tick
    &&& new.time_until_next_tick == old.time_until_next_tick
    &&& new.minimal_tick_time == old.minimal_tick_time
    &&& new.ticking == old.ticking
}

/// One gravity step, tick settings aside: the stone falls a row if it can;
/// if it cannot and has not fully entered the field, the session stops and
/// nothing else changes; otherwise it is locked, the full lines are cleared
/// and scored.
pub open spec fn progressed(old: PlayView, new: PlayView) -> bool {
    &&& new.minimal_tick_time == old.minimal_tick_time
    &&& if old.current_stone.spec_can_move_down(&old.field) {
        &&& stone_after_key(old.current_stone, new.current_stone, old.field, Key::Down)
        &&& new.field == old.field
        &&& new.next_stone == old.next_stone
        &&& new.points == old.points
        &&& new.cleared_lines == old.cleared_lines
        &&& new.level == old.level
        &&& new.ticking == old.ticking
    } else if old.current_stone.position.y < 0 {
        &&& new.field == old.field
        &&& new.current_stone == old.current_stone
        &&& new.next_stone == old.next_stone
        &&& new.points == old.points
        &&& new.cleared_lines == old.cleared_lines
        &&& new.level == old.level
        &&& !new.ticking
    } else {
        let stamped = stamp_grid(
            old.field.texture@,
            old.current_stone.texture@,
            old.current_stone.position.x as int,
            old.current_stone.position.y as int,
        );
        let k = emptied_full_rows(stamped).len();
        &&& new.field.texture@ == cleared_grid(stamped)
        &&& new.current_stone == (Stone {
            texture: old.next_stone,
            position: spawn_position(old.next_stone.dimensions),
        })
        &&& exists|shape: Shape| is_shape_texture(new.next_stone, shape)
        &&& new.cleared_lines == old.cleared_lines + k
        &&& new.points == points_after(old.points as nat, old.level as nat, k)
        &&& new.level == level_for(new.cleared_lines as nat)
        &&& new.ticking == old.ticking
    }
}

/// The session drawn with its top-left corner at `position`: the field, the
/// next piece right of it, the falling stone, level and points, and the
/// help lines under the field.
pub open spec fn session_frame(v: PlayView, rows: Rows, position: Position) -> Rows {
    let with_field = overlay(rows, v.field.texture@, position.x as int, position.y as int);
    let with_next = overlay(with_field, v.next_stone@, 10, 0);
    let with_stone = overlay(
        with_next,
        v.current_stone.texture@,
        v.current_stone.position.x as int,
        v.current_stone.position.y as int,
    );
    let with_level = overlay(with_stone, themed_text_grid(level_label(v.level)), 10, 6);
    let with_points = overlay(with_level, themed_text_grid(points_label(v.points)), 10, 7);
    paragraph(with_points, help_lines(), 0, 21)
}

/// One game session.
pub struct PlayView {
    pub field: Field,
    pub next_stone: Texture,
    pub current_stone: Stone,
    /// Milliseconds between two ticks.
    pub time_per_tick: u64,
    /// Milliseconds until the next tick.
    pub time_until_next_tick: u64,
    pub points: u64,
    pub cleared_lines: u64,
    pub level: u8,
    /// The floor of the tick time, in milliseconds.
    pub minimal_tick_time: u64,
    /// Gravity ticks are still to be generated: false once the session has
    /// ended.
    pub ticking: bool,
}

impl Default for PlayView {
    /// A session on an empty field with two pieces drawn at random.
    fn default() -> (v: Self)
        ensures
            v.wf(),
            v.field.texture@ == empty_field(),
            v.current_stone.position == spawn_position(v.current_stone.texture.dimensions),
            exists|shape: Shape| is_shape_texture(v.current_stone.texture, shape),
            exists|shape: Shape| is_shape_texture(v.next_stone, shape),
            v.time_per_tick == INITIAL_TICK_TIME,
            v.time_until_next_tick == INITIAL_TICK_TIME,
            v.points == 0,
            v.cleared_lines == 0,
            v.level == 1,
            v.minimal_tick_time == MINIMAL_TICK_TIME,
            v.ticking,
    {
        let first = Stone::new_random_texture();
        let next = Stone::new_random_texture();
        proof {
            let a = choose|shape: Shape| is_shape_texture(first, shape);
            let b = choose|shape: Shape| is_shape_texture(next, shape);
            lemma_spawnable_shape(first, a);
            lemma_spawnable_shape(next, b);
        }
        Self::new(first, next)
    }
}

impl PlayView {
    /// The field, the falling stone and the next piece are well formed, and
    /// the level follows from the cleared lines.
    pub open spec fn wf(&self) -> bool {
        &&& self.field.wf()
        &&& self.current_stone.wf()
        &&& spawnable(self.next_stone)
        &&& self.level as nat == level_for(self.cleared_lines as nat)
    }

    /// The falling stone can fall no further and has fully entered the
    /// field: the next gravity step locks it.
    pub open spec fn locks_next(&self) -> bool {
        &&& !self.current_stone.spec_can_move_down(&self.field)
        &&& self.current_stone.position.y >= 0
    }

    /// The number of full rows once the falling stone is laid on the field
    /// where it stands.
    pub open spec fn lines_on_lock(&self) -> nat {
        emptied_full_rows(
            stamp_grid(
                self.field.texture@,
                self.current_stone.texture@,
                self.current_stone.position.x as int,
                self.current_stone.position.y as int,
            ),
        ).len()
    }

    /// Clearing `k` more lines leaves the cleared lines, the level and the
    /// points within their integer types.
    pub open spec fn score_fits(&self, k: nat) -> bool {
        &&& self.cleared_lines + k <= MAX_CLEARED_LINES
        &&& k > 0 ==> self.points + power(2, k) * self.level <= u64::MAX
    }

    /// The next gravity step keeps the counters within their types: it
    /// either locks nothing or scores lines that fit.
    pub open spec fn tick_fits(&self) -> bool {
        self.locks_next() ==> self.score_fits(self.lines_on_lock())
    }

    /// Whether the next tick of a running session keeps the counters
    /// within their types.
    pub fn can_progress(&self) -> (r: bool)
        requires
            self.wf(),
        ensures
            r == (self.ticking ==> self.tick_fits()),
    {
        if !self.ticking || self.current_stone.can_move_down(&self.field)
            || self.current_stone.position.y < 0 {
            return true;
        }
        let mut field = Field { texture: self.field.texture.duplicate() };
        field.add_to_texture(self.current_stone.texture.duplicate(), self.current_stone.position);
        let k = field.try_delete_lines();
        if self.cleared_lines > MAX_CLEARED_LINES - k as u64 {
            return false;
        }
        if k == 0 {
            return true;
        }
        proof {
            lemma_power_monotone(2, k as nat, FIELD_HEIGHT as nat);
            reveal_with_fuel(power, 21);
        }
        let factor = power_of_two(k);
        assert(factor * self.level <= 1048576 * 255) by (nonlinear_arith)
            requires
                factor <= 1048576,
                self.level <= 255,
        ;
        let score = factor * self.level as u64;
        self.points <= u64::MAX - score
    }

    /// A session on an empty field with the given falling and next pieces.
    pub fn new(first: Texture, next: Texture) -> (v: Self)
        requires
            spawnable(first),
            spawnable(next),
        ensures
            v.wf(),
            v.field.texture@ == empty_field(),
            v.current_stone == (Stone { texture: first, position: spawn_position(first.dimensions) }),
            v.next_stone == next,
            v.time_per_tick == INITIAL_TICK_TIME,
            v.time_until_next_tick == INITIAL_TICK_TIME,
            v.points == 0,
            v.cleared_lines == 0,
            v.level == 1,
            v.minimal_tick_time == MINIMAL_TICK_TIME,
            v.ticking,
    {
        let position = Self::get_spawn_position(&first.dimensions);
        PlayView {
            field: Field::default(),
            next_stone: next,
            current_stone: Stone::new(position, first),
            time_per_tick: INITIAL_TICK_TIME,
            time_until_next_tick: INITIAL_TICK_TIME,
            points: 0,
            cleared_lines: 0,
            level: 1,
            minimal_tick_time: MINIMAL_TICK_TIME,
            ticking: true,
        }
    }

    /// Where a piece of the given size enters the field.
    pub fn get_spawn_position(dimensions: &Dimensions) -> (p: Position)
        requires
            dimensions.width <= i8::MAX,
            dimensions.height <= i8::MAX,
        ensures
            p == spawn_position(*dimensions),
    {
        Position { x: 5 - (dimensions.width as i8) / 2, y: -(dimensions.height as i8) + 1 }
    }

    /// Locks the falling stone into the field where it stands and lets the
    /// next piece enter; `fresh` becomes the next piece.
    pub fn spawn_next_stone_with(&mut self, fresh: Texture)
        requires
            old(self).wf(),
            spawnable(fresh),
        ensures
            final(self).wf(),
            final(self).field.texture@ == stamp_grid(
                old(self).field.texture@,
                old(self).current_stone.texture@,
                old(self).current_stone.position.x as int,
                old(self).current_stone.position.y as int,
            ),
            final(self).current_stone == (Stone {
                texture: old(self).next_stone,
                position: spawn_position(old(self).next_stone.dimensions),
            }),
            final(self).next_stone == fresh,
            same_score_and_timing(*old(self), *final(self)),
    {
        self.field.add_to_texture(
            self.current_stone.texture.duplicate(),
            self.current_stone.position,
        );
        let position = Self::get_spawn_position(&self.next_stone.dimensions);
        let mut incoming = fresh;
        std::mem::swap(&mut self.next_stone, &mut incoming);
        self.current_stone = Stone::new(position, incoming);
    }

    /// Locks the falling stone into the field where it stands, lets the next
    /// piece enter, and draws a new next piece at random.
    pub fn spawn_next_stone(&mut self)
        requires
            old(self).wf(),
        ensures
            final(self).wf(),
            stone_locked(*old(self), *final(self)),
            same_score_and_timing(*old(self), *final(self)),
    {
        let fresh = Stone::new_random_texture();
        let ghost shape = choose|shape: Shape| is_shape_texture(fresh, shape);
        proof {
            lemma_spawnable_shape(fresh, shape);
        }
        self.spawn_next_stone_with(fresh);
        assert(is_shape_texture(self.next_stone, shape));
    }

    /// Adds the lines cleared by one tick to the score: `2^k * level`
    /// points for `k > 0` lines, and a level for every ten lines in all.
    pub fn update_score(&mut self, deleted_lines: usize)
        requires
            old(self).level as nat == level_for(old(self).cleared_lines as nat),
            old(self).score_fits(deleted_lines as nat),
        ensures
            final(self).cleared_lines == old(self).cleared_lines + deleted_lines,
            final(self).points == points_after(
                old(self).points as nat,
                old(self).level as nat,
                deleted_lines as nat,
            ),
            final(self).level == level_for(final(self).cleared_lines as nat),
            final(self).field == old(self).field,
            final(self).current_stone == old(self).current_stone,
            final(self).next_stone == old(self).next_stone,
            final(self).time_per_tick == old(self).time_per_tick,
            final(self).time_until_next_tick == old(self).time_until_next_tick,
            final(self).minimal_tick_time == old(self).minimal_tick_time,
            final(self).ticking == old(self).ticking,
    {
        if deleted_lines == 0 {
            return;
        }
        proof {
            assert(power(2, deleted_lines as nat) <= power(2, deleted_lines as nat) * self.level)
                by (nonlinear_arith)
                requires
                    self.level >= 1,
            ;
        }
        let factor = power_of_two(deleted_lines);
        self.cleared_lines = self.cleared_lines + deleted_lines as u64;
        let action_score = factor * self.level as u64;
        self.points = self.points + action_score;
        self.level = 1 + (self.cleared_lines / 10) as u8;
    }

    fn cancel_tick_generator(&mut self)
        ensures
            *final(self) == (PlayView { ticking: false, ..*old(self) }),
    {
        self.ticking = false;
    }

    fn stop_game(&mut self)
        ensures
            *final(self) == (PlayView { ticking: false, ..*old(self) }),
    {
        self.cancel_tick_generator();
    }

    /// One gravity step: the stone falls a row if it can; if it cannot and
    /// has not fully entered the field, the session ends; otherwise it is
    /// locked, the next piece enters, full lines are cleared and scored.
    pub fn progress_game(&mut self)
        requires
            old(self).wf(),
            old(self).tick_fits(),
        ensures
            final(self).wf(),
            progressed(*old(self), *final(self)),
            final(self).time_per_tick == old(self).time_per_tick,
            final(self).time_until_next_tick == old(self).time_until_next_tick,
    {
        if !self.current_stone.move_down(&self.field) {
            if self.current_stone.position.y < 0 {
                self.stop_game();
            } else {
                self.spawn_next_stone();
                let ghost spawned = *self;
                let deleted_lines = self.field.try_delete_lines();
                self.update_score(deleted_lines);
                proof {
                    let shape = choose|shape: Shape| is_shape_texture(spawned.next_stone, shape);
                    assert(is_shape_texture(self.next_stone, shape));
                }
            }
        }
    }

    /// A gravity tick of a running session, then the tick time that the
    /// (possibly new) level asks for; says whether ticks go on.
    pub fn handle_tick(&mut self) -> (continues: bool)
        requires
            old(self).wf(),
            old(self).ticking ==> old(self).tick_fits(),
        ensures
            final(self).wf(),
            !old(self).ticking ==> *final(self) == *old(self),
            old(self).ticking ==> {
                &&& progressed(*old(self), *final(self))
                &&& final(self).time_per_tick == tick_time(
                    final(self).level as nat,
                    final(self).minimal_tick_time as nat,
                )
                &&& final(self).time_until_next_tick == final(self).time_per_tick
            },
            continues == final(self).ticking,
    {
        if !self.ticking {
            return false;
        }
        self.progress_game();
        let proposed_tick_time = proposed_tick_time_at(self.level);
        self.time_per_tick = if proposed_tick_time < self.minimal_tick_time {
            self.minimal_tick_time
        } else {
            proposed_tick_time
        };
        self.time_until_next_tick = self.time_per_tick;
        self.ticking
    }

    /// The arrow keys move or turn the falling stone, the space bar locks it
    /// where it stands; other keys change nothing.
    pub fn handle_input(&mut self, key: Key)
        requires
            old(self).wf(),
        ensures
            final(self).wf(),
            key == Key::Char(' ') ==> stone_locked(*old(self), *final(self)) && same_score_and_timing(
                *old(self),
                *final(self),
            ),
            key != Key::Char(' ') ==> {
                &&& stone_after_key(
                    old(self).current_stone,
                    final(self).current_stone,
                    old(self).field,
                    key,
                )
                &&& final(self).field == old(self).field
                &&& final(self).next_stone == old(self).next_stone
                &&& same_score_and_timing(*old(self), *final(self))
            },
    {
        match key {
            Key::Left => {
                self.current_stone.move_left(&self.field);
            },
            Key::Right => {
                self.current_stone.move_right(&self.field);
            },
            Key::Down => {
                self.current_stone.move_down(&self.field);
            },
            Key::Up => {
                self.current_stone.rotate(&self.field);
            },
            Key::Char(' ') => {
                self.spawn_next_stone();
            },
            _ => {},
        }
    }

    /// Draws the session with its top-left corner at `position`.
    pub fn render_at(&self, canvas: &mut Canvas, position: Position)
        ensures
            final(canvas)@ == session_frame(*self, old(canvas)@, position),
            final(canvas).dimensions == old(canvas).dimensions,
            old(canvas).wf() ==> final(canvas).wf(),
    {
        self.field.render_at(canvas, position);
        canvas.add_texture(self.next_stone.duplicate(), &Position { x: 10, y: 0 });
        self.current_stone.render_at(canvas);
        proof {
            reveal_strlit("level: ");
            reveal_strlit("points: ");
        }
        let mut level_text = String::from_str("level: ");
        push_decimal(&mut level_text, self.level as u64);
        assert(level_text@ =~= level_label(self.level));
        canvas.add_themed_text(level_text.as_str(), &Position { x: 10, y: 6 });
        let mut points_text = String::from_str("points: ");
        push_decimal(&mut points_text, self.points);
        assert(points_text@ =~= points_label(self.points));
        canvas.add_themed_text(points_text.as_str(), &Position { x: 10, y: 7 });
        let mut lines: Vec<&str> = Vec::new();
        lines.push("q - quit");
        lines.push("esq - menu");
        lines.push("arrows - move block");
        assert(lines@ =~= help_lines());
        canvas.add_themed_paragraph(lines.as_slice(), Position { x: 0, y: 21 });
    }
}

/// A shape's bitmap can enter the field.
pub proof fn lemma_spawnable_shape(t: Texture, shape: Shape)
    requires
        is_shape_texture(t, shape),
    ensures
        spawnable(t),
{
    lemma_shape_is_piece(t, shape);
}

/// A piece that has just entered an empty field overlaps no tile: every cell
/// under its tiles is free.
pub proof fn lemma_spawn_free(t: Texture)
    requires
        spawnable(t),
    ensures
        forall|r: int, c: int|
            0 <= r < t.dimensions.height && 0 <= c < t.dimensions.width && (#[trigger] t@[r][c]) is Some
                ==> free_at(
                empty_field(),
                spawn_position(t.dimensions).x + c,
                spawn_position(t.dimensions).y + r,
            ),
{
    let g = empty_field();
    assert forall|x: int, y: int| #[trigger] free_at(g, x, y) by {
        if 0 <= y < g.len() && 0 <= x < g[y].len() {
            assert(g[y][x] == Some(background_tile(Color::Gray)));
        }
    }
}

} // verus!

//! A fish: a wandering creature with a two-state swim cycle.
//!
//! The encoding is the position vector, six binary32 fields, the
//! color, and the body and tail rectangles, 68 bytes in all.

use vstd::prelude::*;

use crate::bytes::{be32, lemma_word32_at_be32, read_u32, word32_at, write_u32};
use crate::codec::{Codec, Wire};
use crate::geom::{
    color_at, lemma_color_at_enc, lemma_rect_at_enc, lemma_vector_at_enc, rect_at, vector_at,
    Color, Rectangle, Vector,
};
use crate::fbits::{
    f32_le, f32_le_bits, f32_lt, f32_lt_bits, F32_FISH_FIRST_CYCLE_BITS, F32_IDLE_ANIM_TIMER_BITS,
    F32_IDLE_ANIM_TIME_BITS, F32_IDLE_CYCLE_MAX_BITS, F32_IDLE_CYCLE_MIN_BITS, F32_ONE_BITS,
    F32_ONE_FIFTH_BITS, F32_SIXTEEN_BITS, F32_SWIM_CYCLE_MAX_BITS, F32_SWIM_CYCLE_MIN_BITS,
    F32_TAIL_OFF_BITS, F32_THIRTY_TWO_BITS, F32_ZERO_BITS,
};
use crate::rng::random_ratio;

verus! {

/// A fish, its swim state machine, and its sprite rectangles.
#[derive(Clone, Copy, Debug, PartialEq, Eq, Structural)]
pub struct Fish {
    pub pos: Vector,
    pub r: u32,
    pub swim_time: u32,
    pub swim_timer: u32,
    pub swim_v: u32,
    pub anim_timer: u32,
    pub anim_time: u32,
    pub color: Color,
    pub body_rect: Rectangle,
    pub tail_rect: Rectangle,
}

/// The fish spelled at offset `i` of `d`.
#[verifier::opaque]
pub open spec fn fish_at(d: Seq<u8>, i: int) -> Fish {
    Fish {
        pos: vector_at(d, i),
        r: word32_at(d, i + 8),
        swim_time: word32_at(d, i + 12),
        swim_timer: word32_at(d, i + 16),
        swim_v: word32_at(d, i + 20),
        anim_timer: word32_at(d, i + 24),
        anim_time: word32_at(d, i + 28),
        color: color_at(d, i + 32),
        body_rect: rect_at(d, i + 36),
        tail_rect: rect_at(d, i + 52),
    }
}

/// Where `d` holds the encoding of `f` at `i`, the fish read there is
/// `f`.
#[verifier::rlimit(50)]
pub proof fn lemma_fish_at_enc(d: Seq<u8>, i: int, f: Fish)
    requires
        0 <= i,
        i + 68 <= d.len(),
        d.subrange(i, i + 68) == f.enc(),
    ensures
        fish_at(d, i) == f,
{
    reveal(fish_at);
    assert forall|m: int| i <= m < i + 68 implies d[m] == f.enc()[m - i] by {
        assert(d.subrange(i, i + 68)[m - i] == d[m]);
    }
    assert(d.subrange(i, i + 8) =~= f.pos.enc());
    lemma_vector_at_enc(d, i, f.pos);
    assert(d.subrange(i + 8, i + 12) =~= be32(f.r));
    lemma_word32_at_be32(d, i + 8, f.r);
    assert(d.subrange(i + 12, i + 16) =~= be32(f.swim_time));
    lemma_word32_at_be32(d, i + 12, f.swim_time);
    assert(d.subrange(i + 16, i + 20) =~= be32(f.swim_timer));
    lemma_word32_at_be32(d, i + 16, f.swim_timer);
    assert(d.subrange(i + 20, i + 24) =~= be32(f.swim_v));
    lemma_word32_at_be32(d, i + 20, f.swim_v);
    assert(d.subrange(i + 24, i + 28) =~= be32(f.anim_timer));
    lemma_word32_at_be32(d, i + 24, f.anim_timer);
    assert(d.subrange(i + 28, i + 32) =~= be32(f.anim_time));
    lemma_word32_at_be32(d, i + 28, f.anim_time);
    assert(d.subrange(i + 32, i + 36) =~= f.color.enc());
    lemma_color_at_enc(d, i + 32, f.color);
    assert(d.subrange(i + 36, i + 52) =~= f.body_rect.enc());
    lemma_rect_at_enc(d, i + 36, f.body_rect);
    assert(d.subrange(i + 52, i + 68) =~= f.tail_rect.enc());
    lemma_rect_at_enc(d, i + 52, f.tail_rect);
}

/// Two equal 68-byte windows spell the same fish.
#[verifier::rlimit(50)]
pub proof fn lemma_fish_at_eq(d1: Seq<u8>, i1: int, d2: Seq<u8>, i2: int)
    requires
        0 <= i1,
        i1 + 68 <= d1.len(),
        0 <= i2,
        i2 + 68 <= d2.len(),
        d1.subrange(i1, i1 + 68) == d2.subrange(i2, i2 + 68),
    ensures
        fish_at(d1, i1) == fish_at(d2, i2),
{
    reveal(fish_at);
    assert forall|m: int| i1 <= m < i1 + 68 implies d1[m] == d2[m - i1 + i2] by {
        assert(d1.subrange(i1, i1 + 68)[m - i1] == d1[m]);
        assert(d2.subrange(i2, i2 + 68)[m - i1] == d2[m - i1 + i2]);
    }
    assert(vector_at(d1, i1) == vector_at(d2, i2));
    assert(word32_at(d1, i1 + 8) == word32_at(d2, i2 + 8));
    assert(word32_at(d1, i1 + 12) == word32_at(d2, i2 + 12));
    assert(word32_at(d1, i1 + 16) == word32_at(d2, i2 + 16));
    assert(word32_at(d1, i1 + 20) == word32_at(d2, i2 + 20));
    assert(word32_at(d1, i1 + 24) == word32_at(d2, i2 + 24));
    assert(word32_at(d1, i1 + 28) == word32_at(d2, i2 + 28));
    assert(color_at(d1, i1 + 32) == color_at(d2, i2 + 32));
    assert(rect_at(d1, i1 + 36) == rect_at(d2, i2 + 36));
    assert(rect_at(d1, i1 + 52) == rect_at(d2, i2 + 52));
}

impl View for Fish {
    type V = Fish;

    open spec fn view(&self) -> Fish {
        *self
    }
}

impl Wire for Fish {
    fn read(data: &[u8], offset: usize) -> (r: Result<(Fish, usize), ()>) {
        Fish::deserialize(data, offset)
    }

    fn write(&self) -> (r: Vec<u8>) {
        self.serialize()
    }
}

impl Codec for Fish {
    open spec fn wf(self) -> bool {
        true
    }

    open spec fn enc(self) -> Seq<u8> {
        self.pos.enc() + be32(self.r) + be32(self.swim_time) + be32(self.swim_timer) + be32(
            self.swim_v,
        ) + be32(self.anim_timer) + be32(self.anim_time) + self.color.enc()
            + self.body_rect.enc() + self.tail_rect.enc()
    }

    open spec fn dec(d: Seq<u8>) -> Option<(Fish, int)> {
        if d.len() >= 68 {
            Some((fish_at(d, 0), 68))
        } else {
            None
        }
    }

    proof fn lemma_dec_enc(self, rest: Seq<u8>) {
        let d = self.enc() + rest;
        assert(d.subrange(0, 68) =~= self.enc());
        lemma_fish_at_enc(d, 0, self);
    }

    proof fn lemma_dec_prefix(d: Seq<u8>, k: int) {
        assert(d.take(k).subrange(0, 68) =~= d.subrange(0, 68));
        lemma_fish_at_eq(d.take(k), 0, d, 0);
    }

    proof fn lemma_dec_len(d: Seq<u8>) {
    }
}

impl Fish {
    /// Reads a fish at `offset`: position, the six binary32 fields,
    /// color, body rectangle, tail rectangle.
    #[verifier::rlimit(100)]
    pub fn deserialize(data: &[u8], offset: usize) -> (r: Result<(Fish, usize), ()>)
        ensures
            match r {
                Ok((v, n)) => offset <= data@.len() && Fish::dec(data@.skip(offset as int))
                    == Some((v, n as int)),
                Err(e) => offset > data@.len() || Fish::dec(data@.skip(offset as int)) is None,
            },
    {
        if data.len() < 68 || offset > data.len() - 68 {
            return Err(());
        }
        let f = Fish {
            pos: Vector {
                x: read_u32(data, offset).unwrap(),
                y: read_u32(data, offset + 4).unwrap(),
            },
            r: read_u32(data, offset + 8).unwrap(),
            swim_time: read_u32(data, offset + 12).unwrap(),
            swim_timer: read_u32(data, offset + 16).unwrap(),
            swim_v: read_u32(data, offset + 20).unwrap(),
            anim_timer: read_u32(data, offset + 24).unwrap(),
            anim_time: read_u32(data, offset + 28).unwrap(),
            color: Color {
                r: data[offset + 32],
                g: data[offset + 33],
                b: data[offset + 34],
                a: data[offset + 35],
            },
            body_rect: Rectangle {
                x: read_u32(data, offset + 36).unwrap(),
                y: read_u32(data, offset + 40).unwrap(),
                w: read_u32(data, offset + 44).unwrap(),
                h: read_u32(data, offset + 48).unwrap(),
            },
            tail_rect: Rectangle {
                x: read_u32(data, offset + 52).unwrap(),
                y: read_u32(data, offset + 56).unwrap(),
                w: read_u32(data, offset + 60).unwrap(),
                h: read_u32(data, offset + 64).unwrap(),
            },
        };
        proof {
            reveal(fish_at);
            let d = data@.skip(offset as int);
            assert forall|m: int| 0 <= m < 68 implies d[m] == data@[offset + m] by {}
        }
        Ok((f, 68))
    }

    pub fn serialize(&self) -> (r: Vec<u8>)
        ensures
            r@ == self.enc(),
    {
        let mut bytes: Vec<u8> = self.pos.serialize();
        write_u32(&mut bytes, self.r);
        write_u32(&mut bytes, self.swim_time);
        write_u32(&mut bytes, self.swim_timer);
        write_u32(&mut bytes, self.swim_v);
        write_u32(&mut bytes, self.anim_timer);
        write_u32(&mut bytes, self.anim_time);
        let mut colb = self.color.serialize();
        bytes.append(&mut colb);
        let mut bb = self.body_rect.serialize();
        bytes.append(&mut bb);
        let mut tb = self.tail_rect.serialize();
        bytes.append(&mut tb);
        proof {
            assert(bytes@ =~= self.enc());
        }
        bytes
    }
}

impl Default for Fish {
    /// A still fish one second into its cycle.
    fn default() -> (f: Fish)
        ensures
            f == (Fish {
                pos: Vector { x: F32_ONE_BITS, y: F32_ONE_BITS },
                r: F32_ZERO_BITS,
                swim_time: F32_ONE_BITS,
                swim_timer: F32_ZERO_BITS,
                swim_v: F32_ZERO_BITS,
                anim_timer: F32_ZERO_BITS,
                anim_time: F32_ONE_BITS,
                color: Color { r: 255u8, g: 255u8, b: 255u8, a: 255u8 },
                body_rect: Rectangle { x: 0u32, y: 0u32, w: F32_ONE_BITS, h: F32_ONE_BITS },
                tail_rect: Rectangle { x: 0u32, y: 0u32, w: F32_ONE_BITS, h: F32_ONE_BITS },
            }),
    {
        Fish {
            pos: Vector { x: F32_ONE_BITS, y: F32_ONE_BITS },
            r: F32_ZERO_BITS,
            swim_time: F32_ONE_BITS,
            swim_timer: F32_ZERO_BITS,
            swim_v: F32_ZERO_BITS,
            anim_timer: F32_ZERO_BITS,
            anim_time: F32_ONE_BITS,
            color: Color { r: 255, g: 255, b: 255, a: 255 },
            body_rect: Rectangle { x: 0, y: 0, w: F32_ONE_BITS, h: F32_ONE_BITS },
            tail_rect: Rectangle { x: 0, y: 0, w: F32_ONE_BITS, h: F32_ONE_BITS },
        }
    }
}


/// The two behavior phases of a fish.
#[derive(Clone, Copy, Debug, PartialEq, Eq, Structural)]
pub enum FishState {
    Idle,
    Swim,
}

/// The drawn values a fish needs to enter a state; entering idle uses
/// only the cycle length, entering a swim uses all four.
#[derive(Clone, Copy, Debug, PartialEq, Eq, Structural)]
pub struct FishStateSeed {
    pub swim_time: u32,
    pub r: u32,
    pub anim_timer: u32,
    pub swim_v: u32,
}

/// A fish right after entering a state: the cycle restarts at the
/// drawn length; idle stops the fish with the fixed fin-flap timing,
/// a swim takes the drawn heading, flap timing, and speed.
pub open spec fn fish_entered(f: Fish, state: FishState, seed: FishStateSeed) -> Fish {
    match state {
        FishState::Idle => Fish {
            swim_time: seed.swim_time,
            swim_timer: seed.swim_time,
            anim_timer: F32_IDLE_ANIM_TIMER_BITS,
            anim_time: F32_IDLE_ANIM_TIME_BITS,
            swim_v: F32_ZERO_BITS,
            ..f
        },
        FishState::Swim => Fish {
            swim_time: seed.swim_time,
            swim_timer: seed.swim_time,
            r: seed.r,
            anim_timer: seed.anim_timer,
            anim_time: seed.anim_timer,
            swim_v: seed.swim_v,
            ..f
        },
    }
}

/// A fish after the countdown part of a frame, before any transition:
/// the cycle countdown takes its advanced value and the speed decays
/// once the tail-off window is reached.
pub open spec fn fish_counted_down(f: Fish, new_swim_time: u32, decayed_swim_v: u32) -> Fish {
    Fish {
        swim_time: new_swim_time,
        swim_v: if f32_lt_bits(new_swim_time, F32_TAIL_OFF_BITS) {
            decayed_swim_v
        } else {
            f.swim_v
        },
        ..f
    }
}

/// The cycle length of a fish that just entered a state lies in the
/// range the state draws from, and the swim range lies inside the idle
/// range; so whichever state was entered last, the cycle length lies in
/// the range documented for it.
pub proof fn lemma_fish_cycle_range(f: Fish, state: FishState, seed: FishStateSeed)
    requires
        match state {
            FishState::Idle => f32_le_bits(F32_IDLE_CYCLE_MIN_BITS, seed.swim_time)
                && f32_lt_bits(seed.swim_time, F32_IDLE_CYCLE_MAX_BITS),
            FishState::Swim => f32_le_bits(F32_SWIM_CYCLE_MIN_BITS, seed.swim_time)
                && f32_lt_bits(seed.swim_time, F32_SWIM_CYCLE_MAX_BITS),
        },
    ensures
        f32_le_bits(F32_IDLE_CYCLE_MIN_BITS, fish_entered(f, state, seed).swim_timer),
        f32_lt_bits(fish_entered(f, state, seed).swim_timer, F32_IDLE_CYCLE_MAX_BITS),
        state == FishState::Swim ==> f32_le_bits(
            F32_SWIM_CYCLE_MIN_BITS,
            fish_entered(f, state, seed).swim_timer,
        ) && f32_lt_bits(fish_entered(f, state, seed).swim_timer, F32_SWIM_CYCLE_MAX_BITS),
{
    if state == FishState::Swim {
        lemma_fish_swim_range_widens(seed.swim_time);
    }
}

/// A cycle length drawn from the swim range also lies in the wider
/// idle range.
pub proof fn lemma_fish_swim_range_widens(s: u32)
    requires
        f32_le_bits(F32_SWIM_CYCLE_MIN_BITS, s),
        f32_lt_bits(s, F32_SWIM_CYCLE_MAX_BITS),
    ensures
        f32_le_bits(F32_IDLE_CYCLE_MIN_BITS, s),
        f32_lt_bits(s, F32_IDLE_CYCLE_MAX_BITS),
{
    assert(0x3FB33333u32 & 0x7FFF_FFFF == 0x3FB33333) by (bit_vector);
    assert(0x40133333u32 & 0x7FFF_FFFF == 0x40133333) by (bit_vector);
    assert(0x3F8CCCCDu32 & 0x7FFF_FFFF == 0x3F8CCCCD) by (bit_vector);
    assert(0x4019999Au32 & 0x7FFF_FFFF == 0x4019999A) by (bit_vector);
    assert(s < 0x80000000 ==> s & 0x7FFF_FFFF == s) by (bit_vector);
    assert(s < 0x80000000);
}

impl Fish {
    /// A fresh fish, stopped for one fixed first cycle, its fin-flap
    /// period the drawn value.
    pub fn new(pos: Vector, r: u32, color: Color, anim_timer: u32) -> (f: Fish)
        ensures
            f == (Fish {
                pos,
                r,
                swim_time: F32_FISH_FIRST_CYCLE_BITS,
                swim_timer: F32_FISH_FIRST_CYCLE_BITS,
                swim_v: F32_ONE_FIFTH_BITS,
                anim_timer,
                anim_time: anim_timer,
                color,
                body_rect: Rectangle {
                    x: F32_ZERO_BITS,
                    y: F32_ZERO_BITS,
                    w: F32_THIRTY_TWO_BITS,
                    h: F32_SIXTEEN_BITS,
                },
                tail_rect: Rectangle {
                    x: F32_THIRTY_TWO_BITS,
                    y: F32_ZERO_BITS,
                    w: F32_SIXTEEN_BITS,
                    h: F32_SIXTEEN_BITS,
                },
            }),
    {
        Fish {
            pos,
            r,
            swim_time: F32_FISH_FIRST_CYCLE_BITS,
            swim_timer: F32_FISH_FIRST_CYCLE_BITS,
            swim_v: F32_ONE_FIFTH_BITS,
            anim_timer,
            anim_time: anim_timer,
            color,
            body_rect: Rectangle {
                x: F32_ZERO_BITS,
                y: F32_ZERO_BITS,
                w: F32_THIRTY_TWO_BITS,
                h: F32_SIXTEEN_BITS,
            },
            tail_rect: Rectangle {
                x: F32_THIRTY_TWO_BITS,
                y: F32_ZERO_BITS,
                w: F32_SIXTEEN_BITS,
                h: F32_SIXTEEN_BITS,
            },
        }
    }

    /// Enters the given state with the given draws.
    pub fn set_next(&mut self, state: FishState, seed: &FishStateSeed)
        ensures
            *final(self) == fish_entered(*old(self), state, *seed),
    {
        match state {
            FishState::Idle => {
                self.swim_time = seed.swim_time;
                self.swim_timer = self.swim_time;
                self.anim_timer = F32_IDLE_ANIM_TIMER_BITS;
                self.anim_time = F32_IDLE_ANIM_TIME_BITS;
                self.swim_v = F32_ZERO_BITS;
            },
            FishState::Swim => {
                self.swim_time = seed.swim_time;
                self.swim_timer = self.swim_time;
                self.r = seed.r;
                self.anim_timer = seed.anim_timer;
                self.anim_time = seed.anim_timer;
                self.swim_v = seed.swim_v;
            },
        }
    }

    /// The countdown-and-transition part of a frame: the cycle
    /// countdown takes its advanced value; in the final tail-off window
    /// the speed takes its decayed value; and once the countdown has
    /// run out the fish enters idle with fixed chance two in five, else
    /// a swim, using the matching drawn seed. Reports the state
    /// entered, if any.
    pub fn step_swim(
        &mut self,
        new_swim_time: u32,
        decayed_swim_v: u32,
        idle: &FishStateSeed,
        swim: &FishStateSeed,
    ) -> (entered: Option<FishState>)
        ensures
            entered is Some <==> f32_le_bits(new_swim_time, F32_ZERO_BITS),
            entered == Some(FishState::Idle) ==> *final(self) == fish_entered(
                fish_counted_down(*old(self), new_swim_time, decayed_swim_v),
                FishState::Idle,
                *idle,
            ),
            entered == Some(FishState::Swim) ==> *final(self) == fish_entered(
                fish_counted_down(*old(self), new_swim_time, decayed_swim_v),
                FishState::Swim,
                *swim,
            ),
            entered is None ==> *final(self) == fish_counted_down(
                *old(self),
                new_swim_time,
                decayed_swim_v,
            ),
    {
        self.swim_time = new_swim_time;
        if f32_lt(self.swim_time, F32_TAIL_OFF_BITS) {
            self.swim_v = decayed_swim_v;
        }
        if f32_le(self.swim_time, F32_ZERO_BITS) {
            if random_ratio(2, 5) {
                self.set_next(FishState::Idle, idle);
                Some(FishState::Idle)
            } else {
                self.set_next(FishState::Swim, swim);
                Some(FishState::Swim)
            }
        } else {
            None
        }
    }

    /// The fin-flap part of a frame: the flap timer takes its advanced
    /// value, wrapping back to the flap period when it has run out.
    pub fn step_anim(&mut self, new_anim_timer: u32)
        ensures
            *final(self) == (Fish {
                anim_timer: if f32_le_bits(new_anim_timer, F32_ZERO_BITS) {
                    old(self).anim_time
                } else {
                    new_anim_timer
                },
                ..*old(self)
            }),
    {
        self.anim_timer = new_anim_timer;
        if f32_le(self.anim_timer, F32_ZERO_BITS) {
            self.anim_timer = self.anim_time;
        }
    }
}

} // verus!

//! A star: a bright color, an ambient particle system, and a spin.
//!
//! The encoding is the color, the particle system, then the angular
//! velocity and current angle, two binary32 fields.

use vstd::prelude::*;

use crate::bytes::{be32, lemma_word32_at_be32, read_u32, word32_at, write_u32};
use crate::codec::{Codec, Wire};
use crate::fbits::{F32_ONE_BITS, F32_STAR_LIFETIME_BITS, F32_ZERO_BITS};
use crate::geom::{Circle, Rectangle, Vector};
use crate::rng::random_usize_in;
use crate::geom::{color_at, lemma_color_at_enc, Color};
use crate::particle::Particle;
use crate::psystem::{
    ps_step_particles, ps_step_timer, spawned_particle, ParticleSystem, ParticleSystemView,
    ParticleSpawn, SystemAdvance,
};

verus! {

/// A star as the specifications see it.
#[verifier::ext_equal]
pub struct StarView {
    pub color: Color,
    pub particle_system: ParticleSystemView,
    pub velr: u32,
    pub r: u32,
}

/// A twinkling star.
#[derive(Clone, Debug, PartialEq)]
pub struct Star {
    pub color: Color,
    pub particle_system: ParticleSystem,
    pub velr: u32,
    pub r: u32,
}

impl View for Star {
    type V = StarView;

    open spec fn view(&self) -> StarView {
        StarView {
            color: self.color,
            particle_system: self.particle_system@,
            velr: self.velr,
            r: self.r,
        }
    }
}

/// Reads a star from the front of `d`: color, particle system, then
/// angular velocity and angle.
#[verifier::opaque]
pub open spec fn dec_star(d: Seq<u8>) -> Option<(StarView, int)> {
    if d.len() >= 4 {
        match ParticleSystemView::dec(d.skip(4)) {
            Option::None => None,
            Option::Some((ps, c)) => {
                if d.len() >= 4 + c + 8 {
                    Some(
                        (
                            StarView {
                                color: color_at(d, 0),
                                particle_system: ps,
                                velr: word32_at(d, 4 + c),
                                r: word32_at(d, 4 + c + 4),
                            },
                            4 + c + 8,
                        ),
                    )
                } else {
                    None
                }
            },
        }
    } else {
        None
    }
}

impl Codec for StarView {
    open spec fn wf(self) -> bool {
        self.particle_system.wf()
    }

    open spec fn enc(self) -> Seq<u8> {
        self.color.enc() + self.particle_system.enc() + be32(self.velr) + be32(self.r)
    }

    open spec fn dec(d: Seq<u8>) -> Option<(StarView, int)> {
        dec_star(d)
    }

    proof fn lemma_dec_enc(self, rest: Seq<u8>) {
        reveal(dec_star);
        let d = self.enc() + rest;
        let tail = be32(self.velr) + be32(self.r);
        assert(d.subrange(0, 4) =~= self.color.enc());
        lemma_color_at_enc(d, 0, self.color);
        assert(d.skip(4) =~= self.particle_system.enc() + (tail + rest));
        self.particle_system.lemma_dec_enc(tail + rest);
        let c = self.particle_system.enc().len() as int;
        assert(d.subrange(4 + c, 4 + c + 4) =~= be32(self.velr));
        lemma_word32_at_be32(d, 4 + c, self.velr);
        assert(d.subrange(4 + c + 4, 4 + c + 8) =~= be32(self.r));
        lemma_word32_at_be32(d, 4 + c + 4, self.r);
    }

    proof fn lemma_dec_prefix(d: Seq<u8>, k: int) {
        reveal(dec_star);
        let p = d.take(k);
        assert(p.skip(4) =~= d.skip(4).take(k - 4));
        ParticleSystemView::lemma_dec_prefix(d.skip(4), k - 4);
        ParticleSystemView::lemma_dec_len(p.skip(4));
        let (ps, c) = ParticleSystemView::dec(p.skip(4))->Some_0;
        assert forall|m: int| 0 <= m < 4 implies p[m] == d[m] by {}
        assert(color_at(p, 0) == color_at(d, 0));
        assert forall|m: int| 4 + c <= m < 4 + c + 8 implies p[m] == d[m] by {}
    }

    proof fn lemma_dec_len(d: Seq<u8>) {
        reveal(dec_star);
        if Self::dec(d) is Some {
            ParticleSystemView::lemma_dec_len(d.skip(4));
        }
    }
}

impl Wire for Star {
    fn read(data: &[u8], offset: usize) -> (r: Result<(Star, usize), ()>) {
        Star::deserialize(data, offset)
    }

    fn write(&self) -> (r: Vec<u8>) {
        self.serialize()
    }
}

impl Star {
    /// Reads a star at `offset`: color, particle system, then angular
    /// velocity and angle.
    pub fn deserialize(data: &[u8], offset: usize) -> (r: Result<(Star, usize), ()>)
        ensures
            match r {
                Ok((v, n)) => offset <= data@.len() && StarView::dec(data@.skip(offset as int))
                    == Some((v@, n as int)),
                Err(e) => offset > data@.len() || StarView::dec(data@.skip(offset as int)) is None,
            },
    {
        let dlen = data.len();
        let ghost d = data@.skip(offset as int);
        let (color, _c0) = match Color::deserialize(data, offset) {
            Ok(pair) => pair,
            Err(e) => {
                proof {
                    reveal(dec_star);
                }
                return Err(());
            },
        };
        let (ps, c) = match ParticleSystem::deserialize(data, offset + 4) {
            Ok(pair) => pair,
            Err(e) => {
                proof {
                    reveal(dec_star);
                    assert(data@.skip((offset + 4) as int) =~= d.skip(4));
                }
                return Err(());
            },
        };
        proof {
            assert(data@.len() == dlen);
            assert(data@.skip((offset + 4) as int) =~= d.skip(4));
            ParticleSystemView::lemma_dec_len(d.skip(4));
        }
        if dlen - (offset + 4 + c) < 8 {
            proof {
                reveal(dec_star);
            }
            return Err(());
        }
        let t = offset + 4 + c;
        proof {
            reveal(dec_star);
            assert forall|m: int| 0 <= m < 4 implies d[m] == data@[offset + m] by {}
            assert forall|m: int| 4 + c <= m < 4 + c + 8 implies d[m] == data@[offset + m] by {}
        }
        let r = Star {
            color,
            particle_system: ps,
            velr: read_u32(data, t).unwrap(),
            r: read_u32(data, t + 4).unwrap(),
        };
        proof {
            assert(r@ =~= StarView {
                color: color_at(d, 0),
                particle_system: ps@,
                velr: word32_at(d, 4 + c),
                r: word32_at(d, 4 + c + 4),
            });
        }
        Ok((r, 4 + c + 8))
    }

    pub fn serialize(&self) -> (r: Vec<u8>)
        ensures
            r@ == self@.enc(),
    {
        let mut bytes: Vec<u8> = self.color.serialize();
        let mut ps_bytes: Vec<u8> = self.particle_system.serialize();
        bytes.append(&mut ps_bytes);
        write_u32(&mut bytes, self.velr);
        write_u32(&mut bytes, self.r);
        proof {
            assert(bytes@ =~= self@.enc());
        }
        bytes
    }
}

impl Default for Star {
    /// A white, motionless star with a default particle system.
    fn default() -> (r: Star)
        ensures
            r.color == (Color { r: 255u8, g: 255u8, b: 255u8, a: 255u8 }),
            r.particle_system@.particles == Seq::<Particle>::empty(),
            r.velr == F32_ZERO_BITS,
            r.r == F32_ZERO_BITS,
    {
        Star {
            color: Color { r: 255, g: 255, b: 255, a: 255 },
            particle_system: ParticleSystem::default(),
            velr: F32_ZERO_BITS,
            r: F32_ZERO_BITS,
        }
    }
}


/// A star color floored so every channel stays visibly bright.
pub open spec fn star_bright(c: Color) -> Color {
    Color {
        r: if c.r < 191 {
            191u8
        } else {
            c.r
        },
        g: if c.g < 191 {
            191u8
        } else {
            c.g
        },
        b: if c.b < 191 {
            191u8
        } else {
            c.b
        },
        a: c.a,
    }
}

/// The ambient particle system a new star starts with, before its
/// burst: circle-hosted, with the drawn spawn interval.
pub open spec fn star_base_ps(circle: Circle, color: Color, spawn_time: u32) -> ParticleSystemView {
    ParticleSystemView {
        particles: Seq::<Particle>::empty(),
        spawn_timer: F32_ZERO_BITS,
        spawn_time,
        lifetime: F32_STAR_LIFETIME_BITS,
        host_rect: Rectangle { x: 0u32, y: 0u32, w: F32_ONE_BITS, h: F32_ONE_BITS },
        host_circle: circle,
        is_rect: false,
        direction: Vector { x: F32_ZERO_BITS, y: F32_ZERO_BITS },
        color,
        opacity: F32_ONE_BITS,
        vel_multiplier: F32_ONE_BITS,
    }
}

/// How many particles a new star bursts at once.
pub fn star_burst_count() -> (n: usize)
    ensures
        20 <= n < 45,
{
    random_usize_in(20, 45)
}

impl Star {
    /// A new star: the stored color is floored to stay bright, the
    /// ambient system keeps the given color, and the burst spawns one
    /// particle per entry.
    pub fn new(
        circle: Circle,
        color: Color,
        velr: u32,
        r: u32,
        spawn_time: u32,
        burst: &Vec<ParticleSpawn>,
    ) -> (s: Star)
        ensures
            s.color == star_bright(color),
            s.velr == velr,
            s.r == r,
            s.particle_system@ == (ParticleSystemView {
                particles: burst@.map_values(
                    |sp: ParticleSpawn| spawned_particle(star_base_ps(circle, color, spawn_time), sp),
                ),
                ..star_base_ps(circle, color, spawn_time)
            }),
    {
        let mut star = Star {
            color,
            particle_system: ParticleSystem::new(
                spawn_time,
                F32_STAR_LIFETIME_BITS,
                Rectangle { x: 0, y: 0, w: F32_ONE_BITS, h: F32_ONE_BITS },
                circle,
                false,
                Vector { x: F32_ZERO_BITS, y: F32_ZERO_BITS },
                color,
                F32_ONE_BITS,
                F32_ONE_BITS,
            ),
            velr,
            r,
        };
        if star.color.r < 191 {
            star.color.r = 191;
        }
        if star.color.g < 191 {
            star.color.g = 191;
        }
        if star.color.b < 191 {
            star.color.b = 191;
        }
        proof {
            assert(star.particle_system@ =~= star_base_ps(circle, color, spawn_time));
        }
        star.particle_system.force_spawn(burst);
        proof {
            assert(star.particle_system@ =~= (ParticleSystemView {
                particles: burst@.map_values(
                    |sp: ParticleSpawn| spawned_particle(star_base_ps(circle, color, spawn_time), sp),
                ),
                ..star_base_ps(circle, color, spawn_time)
            }));
        }
        star
    }

    /// One frame: the ambient system runs and the angle advances to
    /// `new_r` (the embedder integrates the spin itself).
    pub fn update_with(&mut self, adv: &SystemAdvance, new_r: u32)
        requires
            adv.steps@.len() == old(self).particle_system.particles@.len(),
        ensures
            final(self)@ == (StarView {
                particle_system: ParticleSystemView {
                    particles: ps_step_particles(
                        old(self).particle_system@,
                        adv.steps@,
                        adv.spawn,
                        adv.spawn_timer_inc,
                    ),
                    spawn_timer: ps_step_timer(
                        old(self).particle_system@,
                        adv.spawn_timer_inc,
                        adv.spawn_timer_dec,
                    ),
                    ..old(self).particle_system@
                },
                r: new_r,
                ..old(self)@
            }),
    {
        self.particle_system.update_with(adv);
        self.r = new_r;
        proof {
            assert(self@ =~= (StarView {
                particle_system: ParticleSystemView {
                    particles: ps_step_particles(
                        old(self).particle_system@,
                        adv.steps@,
                        adv.spawn,
                        adv.spawn_timer_inc,
                    ),
                    spawn_timer: ps_step_timer(
                        old(self).particle_system@,
                        adv.spawn_timer_inc,
                        adv.spawn_timer_dec,
                    ),
                    ..old(self).particle_system@
                },
                r: new_r,
                ..old(self)@
            }));
        }
    }
}

} // verus!

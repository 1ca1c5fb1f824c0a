//! A particle system orbiting a pivot.
//!
//! The wrapped system is encoded first, then the current angle, the
//! angular velocity and the orbit radius, three binary32 fields.

use vstd::prelude::*;

use crate::bytes::{be32, lemma_word32_at_be32, read_u32, word32_at, write_u32};
use crate::codec::{Codec, Wire};
use crate::fbits::{F32_ONE_BITS, F32_ONE_FIFTH_BITS, F32_ZERO_BITS};
use crate::geom::{Circle, Color, Rectangle, Vector};
use crate::particle::Particle;
use crate::psystem::{
    ps_step_particles, ps_step_timer, ParticleSystem, ParticleSystemView, SystemAdvance,
};

verus! {

/// A rotating particle system as the specifications see it.
#[verifier::ext_equal]
pub struct RotatingParticleSystemView {
    pub particle_system: ParticleSystemView,
    pub r: u32,
    pub velr: u32,
    pub offset: u32,
}

/// A particle system whose spawn origin orbits its host.
#[derive(Clone, Debug, PartialEq)]
pub struct RotatingParticleSystem {
    pub particle_system: ParticleSystem,
    pub r: u32,
    pub velr: u32,
    pub offset: u32,
}

impl View for RotatingParticleSystem {
    type V = RotatingParticleSystemView;

    open spec fn view(&self) -> RotatingParticleSystemView {
        RotatingParticleSystemView {
            particle_system: self.particle_system@,
            r: self.r,
            velr: self.velr,
            offset: self.offset,
        }
    }
}

/// Reads an orbiting system from the front of `d`: the wrapped system,
/// then angle, angular velocity and orbit radius.
#[verifier::opaque]
pub open spec fn dec_rps(d: Seq<u8>) -> Option<(RotatingParticleSystemView, int)> {
    match ParticleSystemView::dec(d) {
        Option::None => None,
        Option::Some((ps, c)) => {
            if d.len() >= c + 12 {
                Some(
                    (
                        RotatingParticleSystemView {
                            particle_system: ps,
                            r: word32_at(d, c),
                            velr: word32_at(d, c + 4),
                            offset: word32_at(d, c + 8),
                        },
                        c + 12,
                    ),
                )
            } else {
                None
            }
        },
    }
}

impl Codec for RotatingParticleSystemView {
    open spec fn wf(self) -> bool {
        self.particle_system.wf()
    }

    open spec fn enc(self) -> Seq<u8> {
        self.particle_system.enc() + be32(self.r) + be32(self.velr) + be32(self.offset)
    }

    open spec fn dec(d: Seq<u8>) -> Option<(RotatingParticleSystemView, int)> {
        dec_rps(d)
    }

    proof fn lemma_dec_enc(self, rest: Seq<u8>) {
        reveal(dec_rps);
        let d = self.enc() + rest;
        let tail = be32(self.r) + be32(self.velr) + be32(self.offset);
        assert(d =~= self.particle_system.enc() + (tail + rest));
        self.particle_system.lemma_dec_enc(tail + rest);
        let c = self.particle_system.enc().len() as int;
        assert(d.subrange(c, c + 4) =~= be32(self.r));
        lemma_word32_at_be32(d, c, self.r);
        assert(d.subrange(c + 4, c + 8) =~= be32(self.velr));
        lemma_word32_at_be32(d, c + 4, self.velr);
        assert(d.subrange(c + 8, c + 12) =~= be32(self.offset));
        lemma_word32_at_be32(d, c + 8, self.offset);
    }

    proof fn lemma_dec_prefix(d: Seq<u8>, k: int) {
        reveal(dec_rps);
        let p = d.take(k);
        ParticleSystemView::lemma_dec_prefix(d, k);
        ParticleSystemView::lemma_dec_len(p);
        let (ps, c) = ParticleSystemView::dec(p)->Some_0;
        assert forall|m: int| c <= m < c + 12 implies p[m] == d[m] by {}
    }

    proof fn lemma_dec_len(d: Seq<u8>) {
        reveal(dec_rps);
        ParticleSystemView::lemma_dec_len(d);
    }
}

impl Wire for RotatingParticleSystem {
    fn read(data: &[u8], offset: usize) -> (r: Result<(RotatingParticleSystem, usize), ()>) {
        RotatingParticleSystem::deserialize(data, offset)
    }

    fn write(&self) -> (r: Vec<u8>) {
        self.serialize()
    }
}

impl RotatingParticleSystem {
    /// A fresh orbiting system with no live particles.
    pub fn new(
        spawn_time: u32,
        lifetime: u32,
        host_rect: Rectangle,
        host_circle: Circle,
        is_rect: bool,
        direction: Vector,
        color: Color,
        opacity: u32,
        rotation: u32,
        velr: u32,
        offset: u32,
        vel_multiplier: u32,
    ) -> (r: RotatingParticleSystem)
        ensures
            r@ == (RotatingParticleSystemView {
                particle_system: ParticleSystemView {
                    particles: Seq::<Particle>::empty(),
                    spawn_timer: F32_ZERO_BITS,
                    spawn_time,
                    lifetime,
                    host_rect,
                    host_circle,
                    is_rect,
                    direction,
                    color,
                    opacity,
                    vel_multiplier,
                },
                r: rotation,
                velr,
                offset,
            }),
    {
        let r = RotatingParticleSystem {
            particle_system: ParticleSystem::new(
                spawn_time,
                lifetime,
                host_rect,
                host_circle,
                is_rect,
                direction,
                color,
                opacity,
                vel_multiplier,
            ),
            r: rotation,
            velr,
            offset,
        };
        proof {
            assert(r@ =~= (RotatingParticleSystemView {
                particle_system: ParticleSystemView {
                    particles: Seq::<Particle>::empty(),
                    spawn_timer: F32_ZERO_BITS,
                    spawn_time,
                    lifetime,
                    host_rect,
                    host_circle,
                    is_rect,
                    direction,
                    color,
                    opacity,
                    vel_multiplier,
                },
                r: rotation,
                velr,
                offset,
            }));
        }
        r
    }

    /// Reads an orbiting system at `offset`: the wrapped system, then
    /// angle, angular velocity and orbit radius.
    pub fn deserialize(data: &[u8], offset: usize) -> (r: Result<
        (RotatingParticleSystem, usize),
        (),
    >)
        ensures
            match r {
                Ok((v, n)) => offset <= data@.len() && RotatingParticleSystemView::dec(
                    data@.skip(offset as int),
                ) == Some((v@, n as int)),
                Err(e) => offset > data@.len() || RotatingParticleSystemView::dec(
                    data@.skip(offset as int),
                ) is None,
            },
    {
        let dlen = data.len();
        let (ps, c) = match ParticleSystem::deserialize(data, offset) {
            Ok(pair) => pair,
            Err(e) => {
                proof {
                    reveal(dec_rps);
                }
                return Err(());
            },
        };
        let ghost d = data@.skip(offset as int);
        proof {
            reveal(dec_rps);
            assert(data@.len() == dlen);
            ParticleSystemView::lemma_dec_len(d);
        }
        if dlen - (offset + c) < 12 {
            proof {
                reveal(dec_rps);
            }
            return Err(());
        }
        let t = offset + c;
        proof {
            reveal(dec_rps);
            assert forall|m: int| c <= m < c + 12 implies d[m] == data@[offset + m] by {}
        }
        let r = RotatingParticleSystem {
            particle_system: ps,
            r: read_u32(data, t).unwrap(),
            velr: read_u32(data, t + 4).unwrap(),
            offset: read_u32(data, t + 8).unwrap(),
        };
        proof {
            assert(r@ =~= RotatingParticleSystemView {
                particle_system: ps@,
                r: word32_at(d, c as int),
                velr: word32_at(d, c + 4),
                offset: word32_at(d, c + 8),
            });
        }
        Ok((r, c + 12))
    }

    pub fn serialize(&self) -> (r: Vec<u8>)
        ensures
            r@ == self@.enc(),
    {
        let mut bytes: Vec<u8> = self.particle_system.serialize();
        write_u32(&mut bytes, self.r);
        write_u32(&mut bytes, self.velr);
        write_u32(&mut bytes, self.offset);
        proof {
            assert(bytes@ =~= self@.enc());
        }
        bytes
    }
}

impl Default for RotatingParticleSystem {
    /// A default wrapped system, at angle zero with a slow spin and no
    /// orbit radius.
    fn default() -> (r: RotatingParticleSystem)
        ensures
            r@ == (RotatingParticleSystemView {
                particle_system: ParticleSystemView {
                    particles: Seq::<Particle>::empty(),
                    spawn_timer: F32_ZERO_BITS,
                    spawn_time: F32_ONE_BITS,
                    lifetime: F32_ONE_BITS,
                    host_rect: Rectangle { x: 0u32, y: 0u32, w: F32_ONE_BITS, h: F32_ONE_BITS },
                    host_circle: Circle { x: 0u32, y: 0u32, r: F32_ONE_BITS },
                    is_rect: true,
                    direction: Vector { x: F32_ONE_BITS, y: F32_ONE_BITS },
                    color: Color { r: 255u8, g: 255u8, b: 255u8, a: 255u8 },
                    opacity: F32_ONE_BITS,
                    vel_multiplier: F32_ONE_BITS,
                },
                r: F32_ZERO_BITS,
                velr: F32_ONE_FIFTH_BITS,
                offset: F32_ZERO_BITS,
            }),
    {
        let r = RotatingParticleSystem {
            particle_system: ParticleSystem::default(),
            r: F32_ZERO_BITS,
            velr: F32_ONE_FIFTH_BITS,
            offset: F32_ZERO_BITS,
        };
        proof {
            assert(r@ =~= (RotatingParticleSystemView {
                particle_system: r.particle_system@,
                r: F32_ZERO_BITS,
                velr: F32_ONE_FIFTH_BITS,
                offset: F32_ZERO_BITS,
            }));
        }
        r
    }
}


/// The wrapped system with its active host geometry displaced to the
/// orbital spot; the inactive geometry is untouched.
pub open spec fn displaced_ps(
    v: ParticleSystemView,
    dr: Rectangle,
    dc: Circle,
) -> ParticleSystemView {
    if v.is_rect {
        ParticleSystemView { host_rect: dr, ..v }
    } else {
        ParticleSystemView { host_circle: dc, ..v }
    }
}

impl RotatingParticleSystem {
    /// One frame: the wrapped system runs with its active host
    /// displaced to the given orbital spot (computed by the embedder
    /// from the angle and offset), the original host is restored
    /// afterwards, and the angle advances to `new_r`. The displacement
    /// is never persisted onto the host.
    pub fn update_with(
        &mut self,
        displaced_rect: Rectangle,
        displaced_circle: Circle,
        adv: &SystemAdvance,
        new_r: u32,
    )
        requires
            adv.steps@.len() == old(self).particle_system.particles@.len(),
        ensures
            ({
                let displaced = displaced_ps(
                    old(self).particle_system@,
                    displaced_rect,
                    displaced_circle,
                );
                final(self)@ == (RotatingParticleSystemView {
                    particle_system: ParticleSystemView {
                        particles: ps_step_particles(
                            displaced,
                            adv.steps@,
                            adv.spawn,
                            adv.spawn_timer_inc,
                        ),
                        spawn_timer: ps_step_timer(
                            displaced,
                            adv.spawn_timer_inc,
                            adv.spawn_timer_dec,
                        ),
                        ..old(self).particle_system@
                    },
                    r: new_r,
                    ..old(self)@
                })
            }),
    {
        if self.particle_system.is_rect {
            let saved_rect = self.particle_system.host_rect;
            self.particle_system.host_rect = displaced_rect;
            self.particle_system.update_with(adv);
            self.particle_system.host_rect = saved_rect;
        } else {
            let saved_circle = self.particle_system.host_circle;
            self.particle_system.host_circle = displaced_circle;
            self.particle_system.update_with(adv);
            self.particle_system.host_circle = saved_circle;
        }
        self.r = new_r;
        proof {
            let displaced = displaced_ps(
                old(self).particle_system@,
                displaced_rect,
                displaced_circle,
            );
            assert(self@ =~= (RotatingParticleSystemView {
                particle_system: ParticleSystemView {
                    particles: ps_step_particles(
                        displaced,
                        adv.steps@,
                        adv.spawn,
                        adv.spawn_timer_inc,
                    ),
                    spawn_timer: ps_step_timer(displaced, adv.spawn_timer_inc, adv.spawn_timer_dec),
                    ..old(self).particle_system@
                },
                r: new_r,
                ..old(self)@
            }));
        }
    }
}

} // verus!

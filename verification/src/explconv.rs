//! A one-shot particle burst that becomes a planet.
//!
//! Activation scatters particles at random angles around the host
//! circle. Each frame the embedder eases their radial positions in and
//! hands the results back; when the accumulated life timer reaches the
//! configured lifetime and particles are still present, the burst
//! clears itself and appends one new planet to the given list. A burst
//! that has already finished does nothing more.

use vstd::prelude::*;

use crate::fbits::{f32_ge, f32_ge_bits, F32_ZERO_BITS};
use crate::geom::{Circle, Color, Vector};
use crate::planet::{planet_seeded, Planet, PlanetParams};

verus! {

/// One particle of a burst: its circle, its greatest radial distance,
/// and the angle it was scattered at.
#[derive(Clone, Copy, Debug, PartialEq, Eq, Structural)]
pub struct ExplConvCircleParticle {
    pub circle: Circle,
    pub offset: u32,
    pub r: u32,
}

/// A burst in progress.
#[derive(Clone, Debug, PartialEq)]
pub struct ExplConvParticleSystem {
    pub particles: Vec<ExplConvCircleParticle>,
    pub lifetime: u32,
    pub host_circle: Circle,
    pub color: Color,
    pub opacity: u32,
    pub life_timer: u32,
}

/// A burst particle moved to the eased position of this frame.
pub open spec fn burst_positioned(p: ExplConvCircleParticle, v: Vector) -> ExplConvCircleParticle {
    ExplConvCircleParticle { circle: Circle { x: v.x, y: v.y, r: p.circle.r }, ..p }
}

/// Whether a frame with the given advanced timer converts the burst:
/// the timer has reached the lifetime and particles are still present.
pub open spec fn expl_conv_finishes(particle_count: nat, lifetime: u32, new_life_timer: u32) -> bool {
    f32_ge_bits(new_life_timer, lifetime) && particle_count > 0
}

/// A burst converts exactly once: a frame that converts empties the
/// particle list, and no later frame can convert an empty burst,
/// whatever timer value it carries.
pub proof fn lemma_expl_conv_once(lifetime: u32, lt1: u32, lt2: u32, count: nat)
    requires
        expl_conv_finishes(count, lifetime, lt1),
    ensures
        count > 0,
        !expl_conv_finishes(0, lifetime, lt2),
{
}

impl ExplConvParticleSystem {
    /// A dormant burst with no particles.
    pub fn new(lifetime: u32, host_circle: Circle, color: Color, opacity: u32) -> (r:
        ExplConvParticleSystem)
        ensures
            r.particles@ == Seq::<ExplConvCircleParticle>::empty(),
            r.lifetime == lifetime,
            r.host_circle == host_circle,
            r.color == color,
            r.opacity == opacity,
            r.life_timer == F32_ZERO_BITS,
    {
        ExplConvParticleSystem {
            particles: Vec::new(),
            lifetime,
            host_circle,
            color,
            opacity,
            life_timer: F32_ZERO_BITS,
        }
    }

    /// Arms the burst: resets the timer and scatters `count` particles
    /// at the host, one per drawn angle, each carrying the same
    /// greatest radial distance.
    pub fn activate(&mut self, count: usize, offset: u32, angles: &Vec<u32>)
        requires
            angles@.len() == count,
        ensures
            final(self).life_timer == F32_ZERO_BITS,
            final(self).particles@ == old(self).particles@ + angles@.map_values(
                |a: u32| ExplConvCircleParticle {
                    circle: old(self).host_circle,
                    offset,
                    r: a,
                },
            ),
            final(self).lifetime == old(self).lifetime,
            final(self).host_circle == old(self).host_circle,
            final(self).color == old(self).color,
            final(self).opacity == old(self).opacity,
    {
        self.life_timer = F32_ZERO_BITS;
        for i in 0..count
            invariant
                count == angles@.len(),
                self.particles@ == old(self).particles@ + angles@.take(i as int).map_values(
                    |a: u32| ExplConvCircleParticle {
                        circle: old(self).host_circle,
                        offset,
                        r: a,
                    },
                ),
                self.life_timer == F32_ZERO_BITS,
                self.lifetime == old(self).lifetime,
                self.host_circle == old(self).host_circle,
                self.color == old(self).color,
                self.opacity == old(self).opacity,
        {
            let p = ExplConvCircleParticle {
                circle: self.host_circle,
                offset,
                r: angles[i],
            };
            self.particles.push(p);
            proof {
                assert(angles@.take(i + 1) =~= angles@.take(i as int).push(angles@[i as int]));
                assert(angles@.take(i + 1).map_values(
                    |a: u32| ExplConvCircleParticle {
                        circle: old(self).host_circle,
                        offset,
                        r: a,
                    },
                ) =~= angles@.take(i as int).map_values(
                    |a: u32| ExplConvCircleParticle {
                        circle: old(self).host_circle,
                        offset,
                        r: a,
                    },
                ).push(p));
                assert(self.particles@ =~= old(self).particles@ + angles@.take(i + 1).map_values(
                    |a: u32| ExplConvCircleParticle {
                        circle: old(self).host_circle,
                        offset,
                        r: a,
                    },
                ));
            }
        }
        proof {
            assert(angles@.take(count as int) =~= angles@);
        }
    }

    /// One frame. The timer becomes `new_life_timer`. If it has reached
    /// the lifetime and particles remain, they are cleared, exactly one
    /// planet seeded from `params` is appended to `planets`, and the
    /// call reports the conversion; on an already-empty burst nothing
    /// happens. Before the lifetime, every particle moves to its eased
    /// position for this frame.
    pub fn update_with(
        &mut self,
        new_life_timer: u32,
        moved: &Vec<Vector>,
        planets: &mut Vec<Planet>,
        params: &PlanetParams,
    ) -> (finished: bool)
        requires
            moved@.len() == old(self).particles@.len(),
        ensures
            finished == expl_conv_finishes(
                old(self).particles@.len(),
                old(self).lifetime,
                new_life_timer,
            ),
            final(self).life_timer == new_life_timer,
            final(self).lifetime == old(self).lifetime,
            final(self).host_circle == old(self).host_circle,
            final(self).color == old(self).color,
            final(self).opacity == old(self).opacity,
            finished ==> final(self).particles@ == Seq::<ExplConvCircleParticle>::empty(),
            finished ==> final(planets)@.len() == old(planets)@.len() + 1
                && final(planets)@.subrange(0, old(planets)@.len() as int) == old(planets)@
                && planet_seeded(
                final(planets)@[old(planets)@.len() as int]@,
                old(self).host_circle,
                old(self).color,
                params.ps_spawn_time,
                params.angle,
                params.moon_host_r,
                params.moons@,
            ),
            !finished ==> final(planets)@ == old(planets)@,
            f32_ge_bits(new_life_timer, old(self).lifetime) && !finished ==> final(self).particles@
                == old(self).particles@,
            !f32_ge_bits(new_life_timer, old(self).lifetime) ==> final(self).particles@
                == Seq::new(
                old(self).particles@.len(),
                |i: int| burst_positioned(old(self).particles@[i], moved@[i]),
            ),
    {
        self.life_timer = new_life_timer;
        if f32_ge(self.life_timer, self.lifetime) {
            if self.particles.len() > 0 {
                self.particles.clear();
                planets.push(Planet::new(self.host_circle, self.color, params));
                proof {
                    assert(final(planets)@.subrange(0, old(planets)@.len() as int) =~= old(
                        planets,
                    )@);
                }
                return true;
            }
            return false;
        }
        let n = self.particles.len();
        for i in 0..n
            invariant
                n == self.particles@.len(),
                n == old(self).particles@.len(),
                moved@.len() == n,
                forall|j: int|
                    0 <= j < i ==> self.particles@[j] == burst_positioned(
                        old(self).particles@[j],
                        moved@[j],
                    ),
                forall|j: int| i <= j < n ==> self.particles@[j] == old(self).particles@[j],
                self.life_timer == new_life_timer,
                self.lifetime == old(self).lifetime,
                self.host_circle == old(self).host_circle,
                self.color == old(self).color,
                self.opacity == old(self).opacity,
        {
            let mut p = self.particles[i];
            p.circle.x = moved[i].x;
            p.circle.y = moved[i].y;
            self.particles.set(i, p);
        }
        proof {
            assert(self.particles@ =~= Seq::new(
                old(self).particles@.len(),
                |i: int| burst_positioned(old(self).particles@[i], moved@[i]),
            ));
        }
        false
    }
}

} // verus!

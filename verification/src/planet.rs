//! A planet: a body, an ambient particle system, and orbiting moons.
//!
//! The encoding is the circle, the color, the particle system, then
//! the moon count as eight big-endian bytes and each moon in index
//! order.

use vstd::prelude::*;

use crate::bytes::{be64, lemma_word64_at_be64, read_u64, word64_at, write_u64};
use crate::codec::{
    dec_list, enc_list, lemma_dec_list_enc, lemma_dec_list_len, lemma_dec_list_prefix,
    read_items, views_of, wf_list, write_items, Codec, Wire,
};
use crate::fbits::{
    F32_MOON_LIFETIME_BITS, F32_ONE_BITS, F32_ONE_FIFTH_BITS, F32_PLANET_LIFETIME_BITS,
    F32_PLANET_VEL_MULT_BITS, F32_ZERO_BITS,
};
use crate::geom::{
    circle_at, color_at, lemma_circle_at_enc, lemma_color_at_enc, Circle, Color, Rectangle,
    Vector,
};
use crate::particle::Particle;
use crate::psystem::{
    ps_step_particles, ps_step_timer, ParticleSystem, ParticleSystemView, ParticleSpawn,
    SystemAdvance,
};
use crate::rng::random_usize_in;
use crate::rotating::{displaced_ps, RotatingParticleSystem, RotatingParticleSystemView};

verus! {

/// A planet as the specifications see it.
#[verifier::ext_equal]
pub struct PlanetView {
    pub circle: Circle,
    pub color: Color,
    pub particle_system: ParticleSystemView,
    pub moons: Seq<RotatingParticleSystemView>,
}

/// A planet with its moons.
#[derive(Clone, Debug, PartialEq)]
pub struct Planet {
    pub circle: Circle,
    pub color: Color,
    pub particle_system: ParticleSystem,
    pub moons: Vec<RotatingParticleSystem>,
}

impl View for Planet {
    type V = PlanetView;

    open spec fn view(&self) -> PlanetView {
        PlanetView {
            circle: self.circle,
            color: self.color,
            particle_system: self.particle_system@,
            moons: views_of(self.moons@),
        }
    }
}

/// Reads a planet from the front of `d`: circle, color, particle
/// system, moon count, then the moons.
#[verifier::opaque]
pub open spec fn dec_planet(d: Seq<u8>) -> Option<(PlanetView, int)> {
        if d.len() >= 16 {
            match ParticleSystemView::dec(d.skip(16)) {
                Option::None => None,
                Option::Some((ps, c)) => {
                    let mo = 16 + c;
                    if d.len() >= mo + 8 {
                        match dec_list::<RotatingParticleSystemView>(
                            d.skip(mo + 8),
                            word64_at(d, mo) as nat,
                        ) {
                            Option::None => None,
                            Option::Some((moons, c2)) => Some(
                                (
                                    PlanetView {
                                        circle: circle_at(d, 0),
                                        color: color_at(d, 12),
                                        particle_system: ps,
                                        moons,
                                    },
                                    mo + 8 + c2,
                                ),
                            ),
                        }
                    } else {
                        None
                    }
                },
            }
        } else {
            None
        }
}

impl Codec for PlanetView {
    open spec fn wf(self) -> bool {
        self.particle_system.wf() && self.moons.len() <= u64::MAX && wf_list(self.moons)
    }

    open spec fn enc(self) -> Seq<u8> {
        self.circle.enc() + self.color.enc() + self.particle_system.enc() + be64(
            self.moons.len() as u64,
        ) + enc_list(self.moons)
    }

    open spec fn dec(d: Seq<u8>) -> Option<(PlanetView, int)> {
        dec_planet(d)
    }

    #[verifier::rlimit(100)]
    proof fn lemma_dec_enc(self, rest: Seq<u8>) {
        reveal(dec_planet);
        let d = self.enc() + rest;
        let cnt = self.moons.len() as u64;
        assert(d.subrange(0, 12) =~= self.circle.enc());
        lemma_circle_at_enc(d, 0, self.circle);
        assert(d.subrange(12, 16) =~= self.color.enc());
        lemma_color_at_enc(d, 12, self.color);
        let after_ps = be64(cnt) + enc_list(self.moons) + rest;
        assert(d.skip(16) =~= self.particle_system.enc() + after_ps);
        self.particle_system.lemma_dec_enc(after_ps);
        let c = self.particle_system.enc().len() as int;
        let mo = 16 + c;
        assert(d.subrange(mo, mo + 8) =~= be64(cnt));
        lemma_word64_at_be64(d, mo, cnt);
        assert(d.skip(mo + 8) =~= enc_list(self.moons) + rest);
        lemma_dec_list_enc(self.moons, rest);
    }

    proof fn lemma_dec_prefix(d: Seq<u8>, k: int) {
        reveal(dec_planet);
        let p = d.take(k);
        assert forall|m: int| 0 <= m < 16 implies p[m] == d[m] by {}
        assert(circle_at(p, 0) == circle_at(d, 0));
        assert(color_at(p, 12) == color_at(d, 12));
        assert(p.skip(16) =~= d.skip(16).take(k - 16));
        ParticleSystemView::lemma_dec_prefix(d.skip(16), k - 16);
        ParticleSystemView::lemma_dec_len(p.skip(16));
        let (ps, c) = ParticleSystemView::dec(p.skip(16))->Some_0;
        let mo = 16 + c;
        assert forall|m: int| mo <= m < mo + 8 implies p[m] == d[m] by {}
        assert(word64_at(p, mo) == word64_at(d, mo));
        let cnt = word64_at(d, mo) as nat;
        assert(p.skip(mo + 8) =~= d.skip(mo + 8).take(k - mo - 8));
        lemma_dec_list_prefix::<RotatingParticleSystemView>(d.skip(mo + 8), k - mo - 8, cnt);
    }

    proof fn lemma_dec_len(d: Seq<u8>) {
        reveal(dec_planet);
        if Self::dec(d) is Some {
            ParticleSystemView::lemma_dec_len(d.skip(16));
            let (ps, c) = ParticleSystemView::dec(d.skip(16))->Some_0;
            let mo = 16 + c;
            lemma_dec_list_len::<RotatingParticleSystemView>(
                d.skip(mo + 8),
                word64_at(d, mo) as nat,
            );
        }
    }
}

impl Wire for Planet {
    fn read(data: &[u8], offset: usize) -> (r: Result<(Planet, usize), ()>) {
        Planet::deserialize(data, offset)
    }

    fn write(&self) -> (r: Vec<u8>) {
        self.serialize()
    }
}

impl Planet {
    /// Reads a planet at `offset`: circle, color, particle system,
    /// moon count, then the moons.
    pub fn deserialize(data: &[u8], offset: usize) -> (r: Result<(Planet, usize), ()>)
        ensures
            match r {
                Ok((v, n)) => offset <= data@.len() && PlanetView::dec(data@.skip(offset as int))
                    == Some((v@, n as int)),
                Err(e) => offset > data@.len() || PlanetView::dec(
                    data@.skip(offset as int),
                ) is None,
            },
    {
        let dlen = data.len();
        let ghost d = data@.skip(offset as int);
        let (circle, _c0) = match crate::geom::Circle::deserialize(data, offset) {
            Ok(pair) => pair,
            Err(e) => {
                proof {
                    reveal(dec_planet);
                }
                return Err(());
            },
        };
        let (color, _c1) = match crate::geom::Color::deserialize(data, offset + 12) {
            Ok(pair) => pair,
            Err(e) => {
                proof {
                    reveal(dec_planet);
                    assert(data@.skip((offset + 12) as int) =~= d.skip(12));
                }
                return Err(());
            },
        };
        let (ps, c) = match ParticleSystem::deserialize(data, offset + 16) {
            Ok(pair) => pair,
            Err(e) => {
                proof {
                    reveal(dec_planet);
                    assert(data@.skip((offset + 16) as int) =~= d.skip(16));
                }
                return Err(());
            },
        };
        proof {
            reveal(dec_planet);
            assert(data@.len() == dlen);
            assert(data@.skip((offset + 16) as int) =~= d.skip(16));
            ParticleSystemView::lemma_dec_len(d.skip(16));
        }
        let mo = offset + 16 + c;
        let cnt = match read_u64(data, mo) {
            Some(v) => v,
            None => {
                proof {
                    reveal(dec_planet);
                }
                return Err(());
            },
        };
        proof {
            reveal(dec_planet);
            assert forall|m: int| 16 + c <= m < 16 + c + 8 implies d[m] == data@[offset + m] by {}
            assert(word64_at(d, 16 + c) == cnt);
            assert(data@.skip((mo + 8) as int) =~= d.skip(16 + c + 8));
        }
        let (moons, end) = match read_items::<RotatingParticleSystem>(data, mo + 8, cnt) {
            Ok(pair) => pair,
            Err(e) => {
                proof {
                    reveal(dec_planet);
                }
                return Err(());
            },
        };
        proof {
            reveal(dec_planet);
            assert forall|m: int| 0 <= m < 16 implies d[m] == data@[offset + m] by {}
        }
        let r = Planet { circle, color, particle_system: ps, moons };
        proof {
            assert(r@ =~= PlanetView {
                circle: circle_at(d, 0),
                color: color_at(d, 12),
                particle_system: ps@,
                moons: views_of(moons@),
            });
        }
        Ok((r, end - offset))
    }

    pub fn serialize(&self) -> (r: Vec<u8>)
        ensures
            r@ == self@.enc(),
    {
        let mut bytes: Vec<u8> = self.circle.serialize();
        let mut colb = self.color.serialize();
        bytes.append(&mut colb);
        let mut psb = self.particle_system.serialize();
        bytes.append(&mut psb);
        write_u64(&mut bytes, self.moons.len() as u64);
        write_items(&mut bytes, &self.moons);
        proof {
            assert(bytes@ =~= self@.enc());
        }
        bytes
    }
}

impl Default for Planet {
    /// A default body with no moons.
    fn default() -> (r: Planet)
        ensures
            r.circle == (Circle {
                x: 0u32,
                y: 0u32,
                r: crate::fbits::F32_ONE_BITS,
            }),
            r.color == (Color { r: 255u8, g: 255u8, b: 255u8, a: 255u8 }),
            r@.particle_system.particles == Seq::<crate::particle::Particle>::empty(),
            r@.moons == Seq::<RotatingParticleSystemView>::empty(),
    {
        let r = Planet {
            circle: Circle { x: 0, y: 0, r: crate::fbits::F32_ONE_BITS },
            color: Color { r: 255, g: 255, b: 255, a: 255 },
            particle_system: ParticleSystem::default(),
            moons: Vec::new(),
        };
        proof {
            assert(views_of(r.moons@) =~= Seq::<RotatingParticleSystemView>::empty());
        }
        r
    }
}


/// The greatest number of moon slots a planet has; a new planet always
/// draws fewer moons than this.
pub const MAX_MOONS: usize = 5;

/// The drawn orbital parameters of one moon: its particle spawn
/// interval, its angular velocity, and its orbit radius.
#[derive(Clone, Copy, Debug, PartialEq, Eq, Structural)]
pub struct MoonParams {
    pub spawn_time: u32,
    pub velr: u32,
    pub offset: u32,
}

/// The drawn parameters of a new planet: the ambient spawn interval,
/// the initial orbit angle every moon shares, the quartered body
/// radius that hosts the moons, and one parameter set per possible
/// moon.
pub struct PlanetParams {
    pub ps_spawn_time: u32,
    pub angle: u32,
    pub moon_host_r: u32,
    pub moons: Vec<MoonParams>,
}

/// The ambient particle system a new planet starts with.
pub open spec fn planet_base_ps(circle: Circle, color: Color, spawn_time: u32) -> ParticleSystemView {
    ParticleSystemView {
        particles: Seq::<Particle>::empty(),
        spawn_timer: F32_ZERO_BITS,
        spawn_time,
        lifetime: F32_PLANET_LIFETIME_BITS,
        host_rect: Rectangle { x: 0u32, y: 0u32, w: F32_ONE_BITS, h: F32_ONE_BITS },
        host_circle: circle,
        is_rect: false,
        direction: Vector { x: F32_ZERO_BITS, y: F32_ZERO_BITS },
        color,
        opacity: F32_ONE_BITS,
        vel_multiplier: F32_PLANET_VEL_MULT_BITS,
    }
}

/// The moon a new planet builds from one parameter set: it orbits the
/// planet's center at the quartered radius, starting at the shared
/// angle.
pub open spec fn moon_view(
    circle: Circle,
    color: Color,
    angle: u32,
    moon_host_r: u32,
    m: MoonParams,
) -> RotatingParticleSystemView {
    RotatingParticleSystemView {
        particle_system: ParticleSystemView {
            particles: Seq::<Particle>::empty(),
            spawn_timer: F32_ZERO_BITS,
            spawn_time: m.spawn_time,
            lifetime: F32_MOON_LIFETIME_BITS,
            host_rect: Rectangle { x: 0u32, y: 0u32, w: F32_ONE_BITS, h: F32_ONE_BITS },
            host_circle: Circle { x: circle.x, y: circle.y, r: moon_host_r },
            is_rect: false,
            direction: Vector { x: F32_ZERO_BITS, y: F32_ZERO_BITS },
            color,
            opacity: F32_ONE_BITS,
            vel_multiplier: F32_ONE_FIFTH_BITS,
        },
        r: angle,
        velr: m.velr,
        offset: m.offset,
    }
}

/// What a newly built planet looks like: the given body and color, a
/// fresh ambient system, and fewer than `MAX_MOONS` moons, moon `i`
/// built from the `i`th parameter set.
pub open spec fn planet_seeded(
    p: PlanetView,
    circle: Circle,
    color: Color,
    ps_spawn_time: u32,
    angle: u32,
    moon_host_r: u32,
    moons: Seq<MoonParams>,
) -> bool {
    p.circle == circle && p.color == color && p.particle_system == planet_base_ps(
        circle,
        color,
        ps_spawn_time,
    ) && p.moons.len() < MAX_MOONS && p.moons.len() <= moons.len() && (forall|i: int|
        0 <= i < p.moons.len() ==> p.moons[i] == moon_view(
            circle,
            color,
            angle,
            moon_host_r,
            #[trigger] moons[i],
        ))
}

/// A planet's ambient system with its host circle moved to the body's
/// position, keeping its own radius.
pub open spec fn synced_to(v: ParticleSystemView, c: Circle) -> ParticleSystemView {
    ParticleSystemView {
        host_circle: Circle { x: c.x, y: c.y, r: v.host_circle.r },
        ..v
    }
}

/// One frame's worth of arithmetic for one moon: where its active host
/// is displaced to, the advance of its particle system, and its next
/// angle.
pub struct MoonAdvance {
    pub displaced_rect: Rectangle,
    pub displaced_circle: Circle,
    pub adv: SystemAdvance,
    pub new_r: u32,
}

/// One moon after one frame: its host is synced to the planet's body,
/// the wrapped system runs displaced to the orbital spot, and the
/// angle advances.
pub open spec fn moon_stepped(
    m: RotatingParticleSystemView,
    circle: Circle,
    steps: Seq<crate::psystem::ParticleStep>,
    spawn: ParticleSpawn,
    inc: u32,
    dec: u32,
    dr: Rectangle,
    dc: Circle,
    new_r: u32,
) -> RotatingParticleSystemView {
    let synced = synced_to(m.particle_system, circle);
    let displaced = displaced_ps(synced, dr, dc);
    RotatingParticleSystemView {
        particle_system: ParticleSystemView {
            particles: ps_step_particles(displaced, steps, spawn, inc),
            spawn_timer: ps_step_timer(displaced, inc, dec),
            ..synced
        },
        r: new_r,
        ..m
    }
}

impl Planet {
    /// A new planet: the given body and color, a fresh ambient system
    /// with the drawn spawn interval, and a random number of moons,
    /// always fewer than `MAX_MOONS`, each built from its own parameter
    /// set.
    pub fn new(circle: Circle, color: Color, params: &PlanetParams) -> (p: Planet)
        ensures
            planet_seeded(
                p@,
                circle,
                color,
                params.ps_spawn_time,
                params.angle,
                params.moon_host_r,
                params.moons@,
            ),
    {
        let mut planet = Planet {
            circle,
            color,
            particle_system: ParticleSystem::new(
                params.ps_spawn_time,
                F32_PLANET_LIFETIME_BITS,
                Rectangle { x: 0, y: 0, w: F32_ONE_BITS, h: F32_ONE_BITS },
                circle,
                false,
                Vector { x: F32_ZERO_BITS, y: F32_ZERO_BITS },
                color,
                F32_ONE_BITS,
                F32_PLANET_VEL_MULT_BITS,
            ),
            moons: Vec::new(),
        };
        let count = random_usize_in(0, MAX_MOONS);
        let n = if count <= params.moons.len() {
            count
        } else {
            params.moons.len()
        };
        for i in 0..n
            invariant
                n < MAX_MOONS,
                n <= params.moons@.len(),
                planet.moons@.len() == i,
                forall|j: int|
                    0 <= j < i ==> planet.moons@[j]@ == moon_view(
                        circle,
                        color,
                        params.angle,
                        params.moon_host_r,
                        #[trigger] params.moons@[j],
                    ),
                planet.circle == circle,
                planet.color == color,
                planet.particle_system@ == planet_base_ps(circle, color, params.ps_spawn_time),
        {
            let m = params.moons[i];
            let moon = RotatingParticleSystem::new(
                m.spawn_time,
                F32_MOON_LIFETIME_BITS,
                Rectangle { x: 0, y: 0, w: F32_ONE_BITS, h: F32_ONE_BITS },
                Circle { x: circle.x, y: circle.y, r: params.moon_host_r },
                false,
                Vector { x: F32_ZERO_BITS, y: F32_ZERO_BITS },
                color,
                F32_ONE_BITS,
                params.angle,
                m.velr,
                m.offset,
                F32_ONE_FIFTH_BITS,
            );
            proof {
                assert(moon@ =~= moon_view(circle, color, params.angle, params.moon_host_r, m));
            }
            planet.moons.push(moon);
        }
        proof {
            assert(planet.particle_system@ =~= planet_base_ps(circle, color, params.ps_spawn_time));
        }
        planet
    }

    /// One frame: the ambient system's host syncs to the body and runs,
    /// then each moon in turn syncs to the body and runs its own
    /// orbital frame.
    pub fn update_with(&mut self, own: &SystemAdvance, moons: &Vec<MoonAdvance>)
        requires
            own.steps@.len() == old(self).particle_system.particles@.len(),
            moons@.len() == old(self).moons@.len(),
            forall|j: int|
                0 <= j < moons@.len() ==> (#[trigger] moons@[j].adv).steps@.len() == old(
                    self,
                ).moons@[j].particle_system.particles@.len(),
        ensures
            final(self).circle == old(self).circle,
            final(self).color == old(self).color,
            final(self).moons@.len() == old(self).moons@.len(),
            final(self).particle_system@ == (ParticleSystemView {
                particles: ps_step_particles(
                    synced_to(old(self).particle_system@, old(self).circle),
                    own.steps@,
                    own.spawn,
                    own.spawn_timer_inc,
                ),
                spawn_timer: ps_step_timer(
                    synced_to(old(self).particle_system@, old(self).circle),
                    own.spawn_timer_inc,
                    own.spawn_timer_dec,
                ),
                ..synced_to(old(self).particle_system@, old(self).circle)
            }),
            forall|j: int|
                0 <= j < moons@.len() ==> final(self).moons@[j]@ == moon_stepped(
                    old(self).moons@[j]@,
                    old(self).circle,
                    (#[trigger] moons@[j].adv).steps@,
                    moons@[j].adv.spawn,
                    moons@[j].adv.spawn_timer_inc,
                    moons@[j].adv.spawn_timer_dec,
                    moons@[j].displaced_rect,
                    moons@[j].displaced_circle,
                    moons@[j].new_r,
                ),
    {
        self.particle_system.host_circle.x = self.circle.x;
        self.particle_system.host_circle.y = self.circle.y;
        proof {
            assert(self.particle_system@ =~= synced_to(
                old(self).particle_system@,
                old(self).circle,
            ));
        }
        self.particle_system.update_with(own);
        proof {
            assert(self.particle_system@ =~= (ParticleSystemView {
                particles: ps_step_particles(
                    synced_to(old(self).particle_system@, old(self).circle),
                    own.steps@,
                    own.spawn,
                    own.spawn_timer_inc,
                ),
                spawn_timer: ps_step_timer(
                    synced_to(old(self).particle_system@, old(self).circle),
                    own.spawn_timer_inc,
                    own.spawn_timer_dec,
                ),
                ..synced_to(old(self).particle_system@, old(self).circle)
            }));
        }
        let ghost stepped_ps = self.particle_system;
        let n = self.moons.len();
        let mut updated: Vec<RotatingParticleSystem> = Vec::new();
        for j in 0..n
            invariant
                n == old(self).moons@.len(),
                moons@.len() == n,
                self.moons@ == old(self).moons@.skip(j as int),
                updated@.len() == j,
                forall|k: int|
                    0 <= k < j ==> updated@[k]@ == moon_stepped(
                        old(self).moons@[k]@,
                        old(self).circle,
                        (#[trigger] moons@[k].adv).steps@,
                        moons@[k].adv.spawn,
                        moons@[k].adv.spawn_timer_inc,
                        moons@[k].adv.spawn_timer_dec,
                        moons@[k].displaced_rect,
                        moons@[k].displaced_circle,
                        moons@[k].new_r,
                    ),
                forall|k: int|
                    0 <= k < moons@.len() ==> (#[trigger] moons@[k].adv).steps@.len() == old(
                        self,
                    ).moons@[k].particle_system.particles@.len(),
                self.circle == old(self).circle,
                self.color == old(self).color,
                self.particle_system == stepped_ps,
        {
            let mut m = self.moons.remove(0);
            proof {
                assert(old(self).moons@.skip(j as int)[0] == old(self).moons@[j as int]);
                assert(old(self).moons@.skip(j as int).remove(0) =~= old(self).moons@.skip(j + 1));
            }
            m.particle_system.host_circle.x = self.circle.x;
            m.particle_system.host_circle.y = self.circle.y;
            let ghost synced_m = m;
            proof {
                assert(synced_m.particle_system@ =~= synced_to(
                    old(self).moons@[j as int].particle_system@,
                    old(self).circle,
                ));
            }
            let ma = &moons[j];
            m.update_with(ma.displaced_rect, ma.displaced_circle, &ma.adv, ma.new_r);
            proof {
                assert(m@ =~= moon_stepped(
                    old(self).moons@[j as int]@,
                    old(self).circle,
                    moons@[j as int].adv.steps@,
                    moons@[j as int].adv.spawn,
                    moons@[j as int].adv.spawn_timer_inc,
                    moons@[j as int].adv.spawn_timer_dec,
                    moons@[j as int].displaced_rect,
                    moons@[j as int].displaced_circle,
                    moons@[j as int].new_r,
                ));
            }
            updated.push(m);
        }
        self.moons = updated;
    }
}

} // verus!

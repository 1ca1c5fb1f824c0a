//! A particle system: a spawner and its live particles.
//!
//! The encoding is the particle count as eight big-endian bytes, each
//! particle in index order, then the spawner's own fields: the three
//! timer values, host rectangle, host circle, geometry flag, spawn
//! direction, color, opacity and velocity multiplier.

use vstd::prelude::*;

use crate::bytes::{
    be32, be64, be_bool, lemma_word32_at_be32, lemma_word64_at_be64, read_u32, read_u64,
    word32_at, word64_at, write_u32, write_u64,
};
use crate::codec::{dec_list, enc_list, lemma_dec_list_enc, lemma_dec_list_len,
    lemma_dec_list_prefix, read_items, views_of, wf_list, write_items, Codec, Wire};
use crate::fbits::{f32_gt, f32_gt_bits, F32_ONE_BITS, F32_ZERO_BITS};
use crate::geom::{
    circle_at, color_at, lemma_circle_at_enc, lemma_color_at_enc, lemma_rect_at_enc,
    lemma_vector_at_enc, rect_at, vector_at, Circle, Color, Rectangle, Vector,
};
use crate::particle::Particle;

verus! {

/// A particle system as the specifications see it: the particle list
/// is a sequence, everything else is as in the executable struct.
#[verifier::ext_equal]
pub struct ParticleSystemView {
    pub particles: Seq<Particle>,
    pub spawn_timer: u32,
    pub spawn_time: u32,
    pub lifetime: u32,
    pub host_rect: Rectangle,
    pub host_circle: Circle,
    pub is_rect: bool,
    pub direction: Vector,
    pub color: Color,
    pub opacity: u32,
    pub vel_multiplier: u32,
}

/// A bounded-lifetime spawner of fading particles.
#[derive(Clone, Debug, PartialEq)]
pub struct ParticleSystem {
    pub particles: Vec<Particle>,
    pub spawn_timer: u32,
    pub spawn_time: u32,
    pub lifetime: u32,
    pub host_rect: Rectangle,
    pub host_circle: Circle,
    pub is_rect: bool,
    pub direction: Vector,
    pub color: Color,
    pub opacity: u32,
    pub vel_multiplier: u32,
}

impl View for ParticleSystem {
    type V = ParticleSystemView;

    open spec fn view(&self) -> ParticleSystemView {
        ParticleSystemView {
            particles: self.particles@,
            spawn_timer: self.spawn_timer,
            spawn_time: self.spawn_time,
            lifetime: self.lifetime,
            host_rect: self.host_rect,
            host_circle: self.host_circle,
            is_rect: self.is_rect,
            direction: self.direction,
            color: self.color,
            opacity: self.opacity,
            vel_multiplier: self.vel_multiplier,
        }
    }
}

/// The 61 spawner fields spelled at offset `t` of `d`, shared between
/// the decoder and its lemmas. The particle list sits between the
/// count and these.
#[verifier::opaque]
pub open spec fn ps_tail_at(d: Seq<u8>, t: int, particles: Seq<Particle>) -> ParticleSystemView {
    ParticleSystemView {
        particles,
        spawn_timer: word32_at(d, t),
        spawn_time: word32_at(d, t + 4),
        lifetime: word32_at(d, t + 8),
        host_rect: rect_at(d, t + 12),
        host_circle: circle_at(d, t + 28),
        is_rect: d[t + 40] != 0,
        direction: vector_at(d, t + 41),
        color: color_at(d, t + 49),
        opacity: word32_at(d, t + 53),
        vel_multiplier: word32_at(d, t + 57),
    }
}

impl ParticleSystemView {
    /// The bytes of the spawner's own fields, after the particle list.
    pub open spec fn enc_tail(self) -> Seq<u8> {
        be32(self.spawn_timer) + be32(self.spawn_time) + be32(self.lifetime)
            + self.host_rect.enc() + self.host_circle.enc() + be_bool(self.is_rect)
            + self.direction.enc() + self.color.enc() + be32(self.opacity) + be32(
            self.vel_multiplier,
        )
    }
}

/// Where `d` holds the 61 tail bytes of `v` at `t`, the fields read
/// there are those of `v`.
#[verifier::rlimit(50)]
pub proof fn lemma_ps_tail_at_enc(d: Seq<u8>, t: int, v: ParticleSystemView)
    requires
        0 <= t,
        t + 61 <= d.len(),
        d.subrange(t, t + 61) == v.enc_tail(),
    ensures
        ps_tail_at(d, t, v.particles) == v,
{
    reveal(ps_tail_at);
    assert forall|m: int| t <= m < t + 61 implies d[m] == v.enc_tail()[m - t] by {
        assert(d.subrange(t, t + 61)[m - t] == d[m]);
    }
    assert(d.subrange(t, t + 4) =~= be32(v.spawn_timer));
    lemma_word32_at_be32(d, t, v.spawn_timer);
    assert(d.subrange(t + 4, t + 8) =~= be32(v.spawn_time));
    lemma_word32_at_be32(d, t + 4, v.spawn_time);
    assert(d.subrange(t + 8, t + 12) =~= be32(v.lifetime));
    lemma_word32_at_be32(d, t + 8, v.lifetime);
    assert(d.subrange(t + 12, t + 28) =~= v.host_rect.enc());
    lemma_rect_at_enc(d, t + 12, v.host_rect);
    assert(d.subrange(t + 28, t + 40) =~= v.host_circle.enc());
    lemma_circle_at_enc(d, t + 28, v.host_circle);
    assert(d[t + 40] == (if v.is_rect {
        1u8
    } else {
        0u8
    }));
    assert(d.subrange(t + 41, t + 49) =~= v.direction.enc());
    lemma_vector_at_enc(d, t + 41, v.direction);
    assert(d.subrange(t + 49, t + 53) =~= v.color.enc());
    lemma_color_at_enc(d, t + 49, v.color);
    assert(d.subrange(t + 53, t + 57) =~= be32(v.opacity));
    lemma_word32_at_be32(d, t + 53, v.opacity);
    assert(d.subrange(t + 57, t + 61) =~= be32(v.vel_multiplier));
    lemma_word32_at_be32(d, t + 57, v.vel_multiplier);
}

/// Two equal 61-byte windows spell the same spawner fields.
#[verifier::rlimit(50)]
pub proof fn lemma_ps_tail_at_eq(d1: Seq<u8>, t1: int, d2: Seq<u8>, t2: int, particles: Seq<Particle>)
    requires
        0 <= t1,
        t1 + 61 <= d1.len(),
        0 <= t2,
        t2 + 61 <= d2.len(),
        d1.subrange(t1, t1 + 61) == d2.subrange(t2, t2 + 61),
    ensures
        ps_tail_at(d1, t1, particles) == ps_tail_at(d2, t2, particles),
{
    reveal(ps_tail_at);
    assert forall|m: int| t1 <= m < t1 + 61 implies d1[m] == d2[m - t1 + t2] by {
        assert(d1.subrange(t1, t1 + 61)[m - t1] == d1[m]);
        assert(d2.subrange(t2, t2 + 61)[m - t1] == d2[m - t1 + t2]);
    }
    assert(ps_tail_at(d1, t1, particles) =~= ps_tail_at(d2, t2, particles));
}

/// Reads the 61 spawner field bytes at `t` and installs the given
/// particle list.
fn read_ps_tail(data: &[u8], t: usize, particles: Vec<Particle>) -> (r: Result<
    ParticleSystem,
    (),
>)
    ensures
        r is Ok <==> t + 61 <= data@.len(),
        r is Ok ==> r->Ok_0@ == ps_tail_at(data@, t as int, particles@),
{
    if data.len() < 61 || t > data.len() - 61 {
        return Err(());
    }
    let r = ParticleSystem {
        particles,
        spawn_timer: read_u32(data, t).unwrap(),
        spawn_time: read_u32(data, t + 4).unwrap(),
        lifetime: read_u32(data, t + 8).unwrap(),
        host_rect: Rectangle {
            x: read_u32(data, t + 12).unwrap(),
            y: read_u32(data, t + 16).unwrap(),
            w: read_u32(data, t + 20).unwrap(),
            h: read_u32(data, t + 24).unwrap(),
        },
        host_circle: Circle {
            x: read_u32(data, t + 28).unwrap(),
            y: read_u32(data, t + 32).unwrap(),
            r: read_u32(data, t + 36).unwrap(),
        },
        is_rect: data[t + 40] != 0,
        direction: Vector {
            x: read_u32(data, t + 41).unwrap(),
            y: read_u32(data, t + 45).unwrap(),
        },
        color: Color { r: data[t + 49], g: data[t + 50], b: data[t + 51], a: data[t + 52] },
        opacity: read_u32(data, t + 53).unwrap(),
        vel_multiplier: read_u32(data, t + 57).unwrap(),
    };
    proof {
        reveal(ps_tail_at);
        assert(r@ =~= ps_tail_at(data@, t as int, particles@));
    }
    Ok(r)
}

/// Reads a particle system from the front of `d`: the count, that
/// many particles, then the spawner fields.
#[verifier::opaque]
pub open spec fn dec_psystem(d: Seq<u8>) -> Option<(ParticleSystemView, int)> {
    match u64::dec(d) {
        Option::None => None,
        Option::Some((cnt, _c0)) => match dec_list::<Particle>(d.skip(8), cnt as nat) {
            Option::None => None,
            Option::Some((particles, c)) => {
                let t = 8 + c;
                if d.len() >= t + 61 {
                    Some((ps_tail_at(d, t, particles), t + 61))
                } else {
                    None
                }
            },
        },
    }
}

impl Codec for ParticleSystemView {
    open spec fn wf(self) -> bool {
        self.particles.len() <= u64::MAX
    }

    open spec fn enc(self) -> Seq<u8> {
        be64(self.particles.len() as u64) + enc_list(self.particles) + self.enc_tail()
    }

    open spec fn dec(d: Seq<u8>) -> Option<(ParticleSystemView, int)> {
        dec_psystem(d)
    }

    #[verifier::rlimit(50)]
    proof fn lemma_dec_enc(self, rest: Seq<u8>) {
        reveal(dec_psystem);
        let cnt = self.particles.len() as u64;
        let d = self.enc() + rest;
        assert(d.subrange(0, 8) =~= be64(cnt));
        lemma_word64_at_be64(d, 0, cnt);
        assert(wf_list(self.particles));
        assert(d.skip(8) =~= enc_list(self.particles) + (self.enc_tail() + rest));
        lemma_dec_list_enc(self.particles, self.enc_tail() + rest);
        let c = enc_list(self.particles).len() as int;
        let t = 8 + c;
        assert(d.subrange(t, t + 61) =~= self.enc_tail());
        lemma_ps_tail_at_enc(d, t, self);
    }

    proof fn lemma_dec_prefix(d: Seq<u8>, k: int) {
        reveal(dec_psystem);
        let p = d.take(k);
        u64::lemma_dec_prefix(d, k);
        let cnt = word64_at(p, 0);
        assert(p.skip(8) =~= d.skip(8).take(k - 8));
        lemma_dec_list_prefix::<Particle>(d.skip(8), k - 8, cnt as nat);
        let (particles, c) = dec_list::<Particle>(p.skip(8), cnt as nat)->Some_0;
        let t = 8 + c;
        assert(word64_at(p, 0) == word64_at(d, 0));
        assert(p.subrange(t, t + 61) =~= d.subrange(t, t + 61));
        lemma_ps_tail_at_eq(p, t, d, t, particles);
    }

    proof fn lemma_dec_len(d: Seq<u8>) {
        reveal(dec_psystem);
        if Self::dec(d) is Some {
            let cnt = word64_at(d, 0);
            lemma_dec_list_len::<Particle>(d.skip(8), cnt as nat);
        }
    }
}

impl ParticleSystem {
    /// A fresh system with no live particles.
    pub fn new(
        spawn_time: u32,
        lifetime: u32,
        host_rect: Rectangle,
        host_circle: Circle,
        is_rect: bool,
        direction: Vector,
        color: Color,
        opacity: u32,
        vel_multiplier: u32,
    ) -> (r: ParticleSystem)
        ensures
            r@ == (ParticleSystemView {
                particles: Seq::<Particle>::empty(),
                spawn_timer: F32_ZERO_BITS,
                spawn_time,
                lifetime,
                host_rect,
                host_circle,
                is_rect,
                direction,
                color,
                opacity,
                vel_multiplier,
            }),
    {
        let r = ParticleSystem {
            particles: Vec::new(),
            spawn_timer: F32_ZERO_BITS,
            spawn_time,
            lifetime,
            host_rect,
            host_circle,
            is_rect,
            direction,
            color,
            opacity,
            vel_multiplier,
        };
        proof {
            assert(r@ =~= (ParticleSystemView {
                particles: Seq::<Particle>::empty(),
                spawn_timer: F32_ZERO_BITS,
                spawn_time,
                lifetime,
                host_rect,
                host_circle,
                is_rect,
                direction,
                color,
                opacity,
                vel_multiplier,
            }));
        }
        r
    }

    /// Reads a particle system at `offset`: the count, that many
    /// particles, then the spawner fields.
    pub fn deserialize(data: &[u8], offset: usize) -> (r: Result<(ParticleSystem, usize), ()>)
        ensures
            match r {
                Ok((v, n)) => offset <= data@.len() && ParticleSystemView::dec(
                    data@.skip(offset as int),
                ) == Some((v@, n as int)),
                Err(e) => offset > data@.len() || ParticleSystemView::dec(
                    data@.skip(offset as int),
                ) is None,
            },
    {
        let dlen = data.len();
        let cnt = match read_u64(data, offset) {
            Some(c) => c,
            None => {
                proof {
                    reveal(dec_psystem);
                }
                return Err(());
            },
        };
        let ghost d = data@.skip(offset as int);
        proof {
            reveal(dec_psystem);
            assert(data@.len() == dlen);
            assert forall|m: int| 0 <= m < 8 implies d[m] == data@[offset + m] by {}
            assert(word64_at(d, 0) == cnt);
            assert(data@.skip(offset + 8) =~= d.skip(8));
        }
        let (particles, pend) = match read_items::<Particle>(data, offset + 8, cnt) {
            Ok(pair) => pair,
            Err(e) => {
                proof {
                    reveal(dec_psystem);
                }
                return Err(());
            },
        };
        let ghost t = pend - offset;
        proof {
            reveal(dec_psystem);
            assert(views_of(particles@) =~= particles@);
            assert(dec_list::<Particle>(d.skip(8), cnt as nat) == Some(
                (particles@, t - 8int),
            ));
        }
        let ghost particles_view = particles@;
        let ps = match read_ps_tail(data, pend, particles) {
            Ok(ps) => ps,
            Err(e) => {
                proof {
                    reveal(dec_psystem);
                }
                return Err(());
            },
        };
        proof {
            reveal(dec_psystem);
            assert(data@.subrange(t + offset, t + offset + 61) =~= d.subrange(t, t + 61));
            lemma_ps_tail_at_eq(data@, pend as int, d, t, particles_view);
        }
        Ok((ps, pend - offset + 61))
    }

    /// Appends the spawner's own field bytes.
    fn write_tail(&self, bytes: &mut Vec<u8>)
        ensures
            final(bytes)@ == old(bytes)@ + self@.enc_tail(),
    {
        write_u32(bytes, self.spawn_timer);
        write_u32(bytes, self.spawn_time);
        write_u32(bytes, self.lifetime);
        let mut rb = self.host_rect.serialize();
        bytes.append(&mut rb);
        let mut cb = self.host_circle.serialize();
        bytes.append(&mut cb);
        bytes.push(if self.is_rect {
            1
        } else {
            0
        });
        let mut db = self.direction.serialize();
        bytes.append(&mut db);
        let mut colb = self.color.serialize();
        bytes.append(&mut colb);
        write_u32(bytes, self.opacity);
        write_u32(bytes, self.vel_multiplier);
        proof {
            assert(bytes@ =~= old(bytes)@ + self@.enc_tail());
        }
    }

    pub fn serialize(&self) -> (r: Vec<u8>)
        ensures
            r@ == self@.enc(),
    {
        let mut bytes: Vec<u8> = Vec::new();
        write_u64(&mut bytes, self.particles.len() as u64);
        write_items(&mut bytes, &self.particles);
        self.write_tail(&mut bytes);
        proof {
            assert(views_of(self.particles@) =~= self.particles@);
            assert(bytes@ =~= self@.enc());
        }
        bytes
    }
}

impl Default for ParticleSystem {
    /// An empty one-second spawner on the unit hosts.
    fn default() -> (r: ParticleSystem)
        ensures
            r@ == (ParticleSystemView {
                particles: Seq::<Particle>::empty(),
                spawn_timer: F32_ZERO_BITS,
                spawn_time: F32_ONE_BITS,
                lifetime: F32_ONE_BITS,
                host_rect: Rectangle { x: 0u32, y: 0u32, w: F32_ONE_BITS, h: F32_ONE_BITS },
                host_circle: Circle { x: 0u32, y: 0u32, r: F32_ONE_BITS },
                is_rect: true,
                direction: Vector { x: F32_ONE_BITS, y: F32_ONE_BITS },
                color: Color { r: 255u8, g: 255u8, b: 255u8, a: 255u8 },
                opacity: F32_ONE_BITS,
                vel_multiplier: F32_ONE_BITS,
            }),
    {
        let r = ParticleSystem {
            particles: Vec::new(),
            spawn_timer: F32_ZERO_BITS,
            spawn_time: F32_ONE_BITS,
            lifetime: F32_ONE_BITS,
            host_rect: Rectangle { x: 0, y: 0, w: F32_ONE_BITS, h: F32_ONE_BITS },
            host_circle: Circle { x: 0, y: 0, r: F32_ONE_BITS },
            is_rect: true,
            direction: Vector { x: F32_ONE_BITS, y: F32_ONE_BITS },
            color: Color { r: 255, g: 255, b: 255, a: 255 },
            opacity: F32_ONE_BITS,
            vel_multiplier: F32_ONE_BITS,
        };
        proof {
            assert(r.particles@ =~= Seq::<Particle>::empty());
            assert(r@ =~= (ParticleSystemView {
                particles: Seq::<Particle>::empty(),
                spawn_timer: F32_ZERO_BITS,
                spawn_time: F32_ONE_BITS,
                lifetime: F32_ONE_BITS,
                host_rect: Rectangle { x: 0u32, y: 0u32, w: F32_ONE_BITS, h: F32_ONE_BITS },
                host_circle: Circle { x: 0u32, y: 0u32, r: F32_ONE_BITS },
                is_rect: true,
                direction: Vector { x: F32_ONE_BITS, y: F32_ONE_BITS },
                color: Color { r: 255u8, g: 255u8, b: 255u8, a: 255u8 },
                opacity: F32_ONE_BITS,
                vel_multiplier: F32_ONE_BITS,
            }));
        }
        r
    }
}

impl Wire for ParticleSystem {
    fn read(data: &[u8], offset: usize) -> (r: Result<(ParticleSystem, usize), ()>) {
        ParticleSystem::deserialize(data, offset)
    }

    fn write(&self) -> (r: Vec<u8>) {
        self.serialize()
    }
}


/// The per-particle results of one frame's floating-point arithmetic:
/// the advanced life timer, the moved position, the advanced spin.
#[derive(Clone, Copy, Debug, PartialEq, Eq, Structural)]
pub struct ParticleStep {
    pub life_timer: u32,
    pub x: u32,
    pub y: u32,
    pub r: u32,
}

/// The randomized velocities and spin of one freshly spawned particle,
/// already scaled by the system's velocity multiplier.
#[derive(Clone, Copy, Debug, PartialEq, Eq, Structural)]
pub struct ParticleSpawn {
    pub velx: u32,
    pub vely: u32,
    pub velr: u32,
    pub r: u32,
}

/// One frame's worth of arithmetic for a whole system: one step per
/// live particle, the spawn accumulator before and after the wrap, and
/// the draws for the particle spawned if the accumulator wrapped.
pub struct SystemAdvance {
    pub steps: Vec<ParticleStep>,
    pub spawn_timer_inc: u32,
    pub spawn_timer_dec: u32,
    pub spawn: ParticleSpawn,
}

/// A particle leaves once its advanced timer passes its lifetime.
pub open spec fn particle_expired(p: Particle, s: ParticleStep) -> bool {
    f32_gt_bits(s.life_timer, p.lifetime)
}

/// A surviving particle after one frame: the timer advances, and the
/// active geometry moves; a rectangle particle also spins.
pub open spec fn advanced_particle(p: Particle, s: ParticleStep, sys_is_rect: bool) -> Particle {
    if sys_is_rect {
        Particle {
            rect: Rectangle { x: s.x, y: s.y, ..p.rect },
            r: s.r,
            life_timer: s.life_timer,
            ..p
        }
    } else {
        Particle { circle: Circle { x: s.x, y: s.y, ..p.circle }, life_timer: s.life_timer, ..p }
    }
}

/// The particle a system spawns: it starts at the host geometry with
/// the drawn velocities, a full lifetime ahead of it.
pub open spec fn spawned_particle(v: ParticleSystemView, s: ParticleSpawn) -> Particle {
    Particle {
        rect: v.host_rect,
        circle: v.host_circle,
        is_rect: v.is_rect,
        velx: s.velx,
        vely: s.vely,
        velr: s.velr,
        r: s.r,
        lifetime: v.lifetime,
        life_timer: F32_ZERO_BITS,
    }
}

/// The particle list once every index at or above `i` has been
/// processed, from the highest down: an expired particle is removed by
/// swapping the last one into its place, any other is advanced.
pub open spec fn prune_from(
    s: Seq<Particle>,
    steps: Seq<ParticleStep>,
    is_rect: bool,
    i: nat,
) -> Seq<Particle>
    decreases s.len() - i,
{
    if i >= s.len() {
        s
    } else {
        let cur = prune_from(s, steps, is_rect, (i + 1) as nat);
        if particle_expired(cur[i as int], steps[i as int]) {
            cur.update(i as int, cur.last()).drop_last()
        } else {
            cur.update(i as int, advanced_particle(cur[i as int], steps[i as int], is_rect))
        }
    }
}

/// The particle list after one whole frame: pruning, then one spawn if
/// the accumulator wrapped.
pub open spec fn ps_step_particles(
    v: ParticleSystemView,
    steps: Seq<ParticleStep>,
    spawn: ParticleSpawn,
    inc: u32,
) -> Seq<Particle> {
    let pruned = prune_from(v.particles, steps, v.is_rect, 0);
    if f32_gt_bits(inc, v.spawn_time) {
        pruned.push(spawned_particle(v, spawn))
    } else {
        pruned
    }
}

/// The spawn accumulator after one frame: wrapped when it passed the
/// spawn interval, else merely advanced.
pub open spec fn ps_step_timer(v: ParticleSystemView, inc: u32, dec: u32) -> u32 {
    if f32_gt_bits(inc, v.spawn_time) {
        dec
    } else {
        inc
    }
}

impl ParticleSystem {
    /// One frame: ages every particle by the precomputed steps,
    /// removes the expired ones by swap-to-end compaction, moves the
    /// rest, and spawns one particle if the accumulator wrapped. After
    /// the frame no particle outlives its lifetime: only the particle
    /// spawned this frame is exempt from the check, being brand new.
    pub fn update_with(&mut self, adv: &SystemAdvance)
        requires
            adv.steps@.len() == old(self).particles@.len(),
        ensures
            final(self)@ == (ParticleSystemView {
                particles: ps_step_particles(
                    old(self)@,
                    adv.steps@,
                    adv.spawn,
                    adv.spawn_timer_inc,
                ),
                spawn_timer: ps_step_timer(old(self)@, adv.spawn_timer_inc, adv.spawn_timer_dec),
                ..old(self)@
            }),
            forall|j: int|
                0 <= j < final(self).particles@.len() && !(f32_gt_bits(
                    adv.spawn_timer_inc,
                    old(self).spawn_time,
                ) && j == final(self).particles@.len() - 1) ==> !f32_gt_bits(
                    #[trigger] final(self).particles@[j].life_timer,
                    final(self).particles@[j].lifetime,
                ),
    {
        let ghost orig = self.particles@;
        let mut i: usize = self.particles.len();
        while i > 0
            invariant
                i <= self.particles@.len(),
                i <= orig.len(),
                adv.steps@.len() == orig.len(),
                self.particles@ == prune_from(orig, adv.steps@, old(self).is_rect, i as nat),
                self.spawn_timer == old(self).spawn_timer,
                self.spawn_time == old(self).spawn_time,
                self.lifetime == old(self).lifetime,
                self.host_rect == old(self).host_rect,
                self.host_circle == old(self).host_circle,
                self.is_rect == old(self).is_rect,
                self.direction == old(self).direction,
                self.color == old(self).color,
                self.opacity == old(self).opacity,
                self.vel_multiplier == old(self).vel_multiplier,
                forall|j: int|
                    i <= j < self.particles@.len() ==> !f32_gt_bits(
                        #[trigger] self.particles@[j].life_timer,
                        self.particles@[j].lifetime,
                    ),
            decreases i,
        {
            i = i - 1;
            let p = self.particles[i];
            let st = adv.steps[i];
            if f32_gt(st.life_timer, p.lifetime) {
                self.particles.swap_remove(i);
            } else {
                let mut q = p;
                q.life_timer = st.life_timer;
                if self.is_rect {
                    q.rect.x = st.x;
                    q.rect.y = st.y;
                    q.r = st.r;
                } else {
                    q.circle.x = st.x;
                    q.circle.y = st.y;
                }
                self.particles.set(i, q);
                proof {
                    assert(q == advanced_particle(p, st, old(self).is_rect));
                }
            }
        }
        self.spawn_timer = adv.spawn_timer_inc;
        if f32_gt(self.spawn_timer, self.spawn_time) {
            self.spawn_timer = adv.spawn_timer_dec;
            let np = Particle {
                rect: self.host_rect,
                circle: self.host_circle,
                is_rect: self.is_rect,
                velx: adv.spawn.velx,
                vely: adv.spawn.vely,
                velr: adv.spawn.velr,
                r: adv.spawn.r,
                lifetime: self.lifetime,
                life_timer: F32_ZERO_BITS,
            };
            proof {
                assert(np == spawned_particle(old(self)@, adv.spawn));
            }
            self.particles.push(np);
        }
        proof {
            assert(self@ =~= (ParticleSystemView {
                particles: ps_step_particles(
                    old(self)@,
                    adv.steps@,
                    adv.spawn,
                    adv.spawn_timer_inc,
                ),
                spawn_timer: ps_step_timer(old(self)@, adv.spawn_timer_inc, adv.spawn_timer_dec),
                ..old(self)@
            }));
        }
    }

    /// Spawns one particle per entry of `spawns` at once, bypassing the
    /// accumulator; used for a star's instant twinkle cloud.
    pub fn force_spawn(&mut self, spawns: &Vec<ParticleSpawn>)
        ensures
            final(self)@ == (ParticleSystemView {
                particles: old(self).particles@ + spawns@.map_values(
                    |s: ParticleSpawn| spawned_particle(old(self)@, s),
                ),
                ..old(self)@
            }),
    {
        let n = spawns.len();
        for idx in 0..n
            invariant
                n == spawns@.len(),
                self.particles@ == old(self).particles@ + spawns@.take(idx as int).map_values(
                    |s: ParticleSpawn| spawned_particle(old(self)@, s),
                ),
                self.spawn_timer == old(self).spawn_timer,
                self.spawn_time == old(self).spawn_time,
                self.lifetime == old(self).lifetime,
                self.host_rect == old(self).host_rect,
                self.host_circle == old(self).host_circle,
                self.is_rect == old(self).is_rect,
                self.direction == old(self).direction,
                self.color == old(self).color,
                self.opacity == old(self).opacity,
                self.vel_multiplier == old(self).vel_multiplier,
        {
            let s = spawns[idx];
            let np = Particle {
                rect: self.host_rect,
                circle: self.host_circle,
                is_rect: self.is_rect,
                velx: s.velx,
                vely: s.vely,
                velr: s.velr,
                r: s.r,
                lifetime: self.lifetime,
                life_timer: F32_ZERO_BITS,
            };
            self.particles.push(np);
            proof {
                assert(spawns@.take(idx + 1) =~= spawns@.take(idx as int).push(s));
                assert(spawns@.take(idx + 1).map_values(
                    |s2: ParticleSpawn| spawned_particle(old(self)@, s2),
                ) =~= spawns@.take(idx as int).map_values(
                    |s2: ParticleSpawn| spawned_particle(old(self)@, s2),
                ).push(spawned_particle(old(self)@, s)));
                assert(self.particles@ =~= old(self).particles@ + spawns@.take(idx + 1).map_values(
                    |s2: ParticleSpawn| spawned_particle(old(self)@, s2),
                ));
            }
        }
        proof {
            assert(spawns@.take(n as int) =~= spawns@);
            assert(self@ =~= (ParticleSystemView {
                particles: old(self).particles@ + spawns@.map_values(
                    |s: ParticleSpawn| spawned_particle(old(self)@, s),
                ),
                ..old(self)@
            }));
        }
    }
}

} // verus!

//! A single fading, moving particle.
//!
//! A particle carries both a rectangle and a circle; `is_rect` says
//! which one is the authoritative geometry. Its encoding is the two
//! geometries, the flag byte, and six binary32 fields, 53 bytes in
//! all.

use vstd::prelude::*;

use crate::bytes::{be32, be_bool, lemma_word32_at_be32, read_u32, word32_at, write_u32};
use crate::codec::{Codec, Wire};
use crate::fbits::{F32_ONE_BITS, F32_ZERO_BITS};
use crate::geom::{
    circle_at, lemma_circle_at_enc, lemma_rect_at_enc, rect_at, Circle, Rectangle,
};

verus! {

/// One particle of a particle system.
#[derive(Clone, Copy, Debug, PartialEq, Eq, Structural)]
pub struct Particle {
    pub rect: Rectangle,
    pub circle: Circle,
    pub is_rect: bool,
    pub velx: u32,
    pub vely: u32,
    pub velr: u32,
    pub r: u32,
    pub lifetime: u32,
    pub life_timer: u32,
}

/// The particle spelled at offset `i` of `d`.
#[verifier::opaque]
pub open spec fn particle_at(d: Seq<u8>, i: int) -> Particle {
    Particle {
        rect: rect_at(d, i),
        circle: circle_at(d, i + 16),
        is_rect: d[i + 28] != 0,
        velx: word32_at(d, i + 29),
        vely: word32_at(d, i + 33),
        velr: word32_at(d, i + 37),
        r: word32_at(d, i + 41),
        lifetime: word32_at(d, i + 45),
        life_timer: word32_at(d, i + 49),
    }
}

/// Where `d` holds the encoding of `p` at `i`, the particle read there
/// is `p`.
pub proof fn lemma_particle_at_enc(d: Seq<u8>, i: int, p: Particle)
    requires
        0 <= i,
        i + 53 <= d.len(),
        d.subrange(i, i + 53) == p.enc(),
    ensures
        particle_at(d, i) == p,
{
    reveal(particle_at);
    assert forall|m: int| i <= m < i + 53 implies d[m] == p.enc()[m - i] by {
        assert(d.subrange(i, i + 53)[m - i] == d[m]);
    }
    assert(d.subrange(i, i + 16) =~= p.rect.enc());
    lemma_rect_at_enc(d, i, p.rect);
    assert(d.subrange(i + 16, i + 28) =~= p.circle.enc());
    lemma_circle_at_enc(d, i + 16, p.circle);
    assert(d[i + 28] == (if p.is_rect {
        1u8
    } else {
        0u8
    }));
    assert(d.subrange(i + 29, i + 33) =~= be32(p.velx));
    lemma_word32_at_be32(d, i + 29, p.velx);
    assert(d.subrange(i + 33, i + 37) =~= be32(p.vely));
    lemma_word32_at_be32(d, i + 33, p.vely);
    assert(d.subrange(i + 37, i + 41) =~= be32(p.velr));
    lemma_word32_at_be32(d, i + 37, p.velr);
    assert(d.subrange(i + 41, i + 45) =~= be32(p.r));
    lemma_word32_at_be32(d, i + 41, p.r);
    assert(d.subrange(i + 45, i + 49) =~= be32(p.lifetime));
    lemma_word32_at_be32(d, i + 45, p.lifetime);
    assert(d.subrange(i + 49, i + 53) =~= be32(p.life_timer));
    lemma_word32_at_be32(d, i + 49, p.life_timer);
}

/// Two equal 53-byte windows spell the same particle.
pub proof fn lemma_particle_at_eq(d1: Seq<u8>, i1: int, d2: Seq<u8>, i2: int)
    requires
        0 <= i1,
        i1 + 53 <= d1.len(),
        0 <= i2,
        i2 + 53 <= d2.len(),
        d1.subrange(i1, i1 + 53) == d2.subrange(i2, i2 + 53),
    ensures
        particle_at(d1, i1) == particle_at(d2, i2),
{
    reveal(particle_at);
    assert forall|m: int| i1 <= m < i1 + 53 implies d1[m] == d2[m - i1 + i2] by {
        assert(d1.subrange(i1, i1 + 53)[m - i1] == d1[m]);
        assert(d2.subrange(i2, i2 + 53)[m - i1] == d2[m - i1 + i2]);
    }
}

impl View for Particle {
    type V = Particle;

    open spec fn view(&self) -> Particle {
        *self
    }
}

impl Wire for Particle {
    fn read(data: &[u8], offset: usize) -> (r: Result<(Particle, usize), ()>) {
        Particle::deserialize(data, offset)
    }

    fn write(&self) -> (r: Vec<u8>) {
        self.serialize()
    }
}

impl Codec for Particle {
    open spec fn wf(self) -> bool {
        true
    }

    open spec fn enc(self) -> Seq<u8> {
        self.rect.enc() + self.circle.enc() + be_bool(self.is_rect) + be32(self.velx) + be32(
            self.vely,
        ) + be32(self.velr) + be32(self.r) + be32(self.lifetime) + be32(self.life_timer)
    }

    open spec fn dec(d: Seq<u8>) -> Option<(Particle, int)> {
        if d.len() >= 53 {
            Some((particle_at(d, 0), 53))
        } else {
            None
        }
    }

    proof fn lemma_dec_enc(self, rest: Seq<u8>) {
        let d = self.enc() + rest;
        assert(d.subrange(0, 53) =~= self.enc());
        lemma_particle_at_enc(d, 0, self);
    }

    proof fn lemma_dec_prefix(d: Seq<u8>, k: int) {
        assert(d.take(k).subrange(0, 53) =~= d.subrange(0, 53));
        lemma_particle_at_eq(d.take(k), 0, d, 0);
    }

    proof fn lemma_dec_len(d: Seq<u8>) {
    }
}

impl Particle {
    /// Reads a particle at `offset`: rectangle, circle, the geometry
    /// flag byte, then the six binary32 fields in declaration order.
    pub fn deserialize(data: &[u8], offset: usize) -> (r: Result<(Particle, usize), ()>)
        ensures
            match r {
                Ok((v, n)) => offset <= data@.len() && Particle::dec(data@.skip(offset as int))
                    == Some((v, n as int)),
                Err(e) => offset > data@.len() || Particle::dec(data@.skip(offset as int)) is None,
            },
    {
        if data.len() < 53 || offset > data.len() - 53 {
            return Err(());
        }
        let rect = Rectangle {
            x: read_u32(data, offset).unwrap(),
            y: read_u32(data, offset + 4).unwrap(),
            w: read_u32(data, offset + 8).unwrap(),
            h: read_u32(data, offset + 12).unwrap(),
        };
        let circle = Circle {
            x: read_u32(data, offset + 16).unwrap(),
            y: read_u32(data, offset + 20).unwrap(),
            r: read_u32(data, offset + 24).unwrap(),
        };
        let p = Particle {
            rect,
            circle,
            is_rect: data[offset + 28] != 0,
            velx: read_u32(data, offset + 29).unwrap(),
            vely: read_u32(data, offset + 33).unwrap(),
            velr: read_u32(data, offset + 37).unwrap(),
            r: read_u32(data, offset + 41).unwrap(),
            lifetime: read_u32(data, offset + 45).unwrap(),
            life_timer: read_u32(data, offset + 49).unwrap(),
        };
        proof {
            reveal(particle_at);
            let d = data@.skip(offset as int);
            assert forall|m: int| 0 <= m < 53 implies d[m] == data@[offset + m] by {}
        }
        Ok((p, 53))
    }

    pub fn serialize(&self) -> (r: Vec<u8>)
        ensures
            r@ == self.enc(),
    {
        let mut bytes: Vec<u8> = self.rect.serialize();
        let mut circle_bytes: Vec<u8> = self.circle.serialize();
        bytes.append(&mut circle_bytes);
        bytes.push(if self.is_rect {
            1
        } else {
            0
        });
        write_u32(&mut bytes, self.velx);
        write_u32(&mut bytes, self.vely);
        write_u32(&mut bytes, self.velr);
        write_u32(&mut bytes, self.r);
        write_u32(&mut bytes, self.lifetime);
        write_u32(&mut bytes, self.life_timer);
        proof {
            assert(bytes@ =~= self.enc());
        }
        bytes
    }
}

impl Default for Particle {
    /// A fresh unit rectangle particle at rest at the origin.
    fn default() -> (p: Particle)
        ensures
            p == (Particle {
                rect: Rectangle { x: 0u32, y: 0u32, w: F32_ONE_BITS, h: F32_ONE_BITS },
                circle: Circle { x: 0u32, y: 0u32, r: F32_ONE_BITS },
                is_rect: true,
                velx: F32_ZERO_BITS,
                vely: F32_ZERO_BITS,
                velr: F32_ZERO_BITS,
                r: F32_ONE_BITS,
                lifetime: F32_ONE_BITS,
                life_timer: F32_ZERO_BITS,
            }),
    {
        Particle {
            rect: Rectangle { x: 0, y: 0, w: F32_ONE_BITS, h: F32_ONE_BITS },
            circle: Circle { x: 0, y: 0, r: F32_ONE_BITS },
            is_rect: true,
            velx: F32_ZERO_BITS,
            vely: F32_ZERO_BITS,
            velr: F32_ZERO_BITS,
            r: F32_ONE_BITS,
            lifetime: F32_ONE_BITS,
            life_timer: F32_ZERO_BITS,
        }
    }
}

} // verus!

//! Geometric value types and their binary codecs.
//!
//! A color is four bytes; every other field is a binary32 bit pattern
//! written as four big-endian bytes, in declaration order, with no
//! padding.

use vstd::prelude::*;

use crate::bytes::{be32, lemma_word32_at_be32, read_u32, word32_at, write_u32};
use crate::codec::Codec;
use crate::fbits::F32_ONE_BITS;

verus! {

/// An RGBA color, one byte a channel.
#[derive(Clone, Copy, Debug, PartialEq, Eq, Structural)]
pub struct Color {
    pub r: u8,
    pub g: u8,
    pub b: u8,
    pub a: u8,
}

/// A 2D point or displacement; the fields hold binary32 bit patterns.
#[derive(Clone, Copy, Debug, PartialEq, Eq, Structural)]
pub struct Vector {
    pub x: u32,
    pub y: u32,
}

/// An axis-aligned box; the fields hold binary32 bit patterns.
#[derive(Clone, Copy, Debug, PartialEq, Eq, Structural)]
pub struct Rectangle {
    pub x: u32,
    pub y: u32,
    pub w: u32,
    pub h: u32,
}

/// A circle; the fields hold binary32 bit patterns.
#[derive(Clone, Copy, Debug, PartialEq, Eq, Structural)]
pub struct Circle {
    pub x: u32,
    pub y: u32,
    pub r: u32,
}


/// The color spelled at offset `i` of `d`.
pub open spec fn color_at(d: Seq<u8>, i: int) -> Color {
    Color { r: d[i], g: d[i + 1], b: d[i + 2], a: d[i + 3] }
}

/// The vector spelled at offset `i` of `d`.
pub open spec fn vector_at(d: Seq<u8>, i: int) -> Vector {
    Vector { x: word32_at(d, i), y: word32_at(d, i + 4) }
}

/// The rectangle spelled at offset `i` of `d`.
pub open spec fn rect_at(d: Seq<u8>, i: int) -> Rectangle {
    Rectangle {
        x: word32_at(d, i),
        y: word32_at(d, i + 4),
        w: word32_at(d, i + 8),
        h: word32_at(d, i + 12),
    }
}

/// The circle spelled at offset `i` of `d`.
pub open spec fn circle_at(d: Seq<u8>, i: int) -> Circle {
    Circle { x: word32_at(d, i), y: word32_at(d, i + 4), r: word32_at(d, i + 8) }
}

/// Where `d` holds the encoding of `v` at `i`, the color read there is
/// `v`.
pub proof fn lemma_color_at_enc(d: Seq<u8>, i: int, v: Color)
    requires
        0 <= i,
        i + 4 <= d.len(),
        d.subrange(i, i + 4) == v.enc(),
    ensures
        color_at(d, i) == v,
{
    assert forall|m: int| i <= m < i + 4 implies d[m] == v.enc()[m - i] by {
        assert(d.subrange(i, i + 4)[m - i] == d[m]);
    }
}

/// Where `d` holds the encoding of `v` at `i`, the vector read there
/// is `v`.
pub proof fn lemma_vector_at_enc(d: Seq<u8>, i: int, v: Vector)
    requires
        0 <= i,
        i + 8 <= d.len(),
        d.subrange(i, i + 8) == v.enc(),
    ensures
        vector_at(d, i) == v,
{
    assert forall|m: int| i <= m < i + 8 implies d[m] == v.enc()[m - i] by {
        assert(d.subrange(i, i + 8)[m - i] == d[m]);
    }
    assert(d.subrange(i, i + 4) =~= be32(v.x));
    assert(d.subrange(i + 4, i + 8) =~= be32(v.y));
    lemma_word32_at_be32(d, i, v.x);
    lemma_word32_at_be32(d, i + 4, v.y);
}

/// Where `d` holds the encoding of `v` at `i`, the rectangle read
/// there is `v`.
pub proof fn lemma_rect_at_enc(d: Seq<u8>, i: int, v: Rectangle)
    requires
        0 <= i,
        i + 16 <= d.len(),
        d.subrange(i, i + 16) == v.enc(),
    ensures
        rect_at(d, i) == v,
{
    assert forall|m: int| i <= m < i + 16 implies d[m] == v.enc()[m - i] by {
        assert(d.subrange(i, i + 16)[m - i] == d[m]);
    }
    assert(d.subrange(i, i + 4) =~= be32(v.x));
    assert(d.subrange(i + 4, i + 8) =~= be32(v.y));
    assert(d.subrange(i + 8, i + 12) =~= be32(v.w));
    assert(d.subrange(i + 12, i + 16) =~= be32(v.h));
    lemma_word32_at_be32(d, i, v.x);
    lemma_word32_at_be32(d, i + 4, v.y);
    lemma_word32_at_be32(d, i + 8, v.w);
    lemma_word32_at_be32(d, i + 12, v.h);
}

/// Where `d` holds the encoding of `v` at `i`, the circle read there
/// is `v`.
pub proof fn lemma_circle_at_enc(d: Seq<u8>, i: int, v: Circle)
    requires
        0 <= i,
        i + 12 <= d.len(),
        d.subrange(i, i + 12) == v.enc(),
    ensures
        circle_at(d, i) == v,
{
    assert forall|m: int| i <= m < i + 12 implies d[m] == v.enc()[m - i] by {
        assert(d.subrange(i, i + 12)[m - i] == d[m]);
    }
    assert(d.subrange(i, i + 4) =~= be32(v.x));
    assert(d.subrange(i + 4, i + 8) =~= be32(v.y));
    assert(d.subrange(i + 8, i + 12) =~= be32(v.r));
    lemma_word32_at_be32(d, i, v.x);
    lemma_word32_at_be32(d, i + 4, v.y);
    lemma_word32_at_be32(d, i + 8, v.r);
}

impl Codec for Color {
    open spec fn wf(self) -> bool {
        true
    }

    open spec fn enc(self) -> Seq<u8> {
        seq![self.r, self.g, self.b, self.a]
    }

    open spec fn dec(d: Seq<u8>) -> Option<(Color, int)> {
        if d.len() >= 4 {
            Some((color_at(d, 0), 4))
        } else {
            None
        }
    }

    proof fn lemma_dec_enc(self, rest: Seq<u8>) {
        let d = self.enc() + rest;
        assert(d.subrange(0, 4) =~= self.enc());
        lemma_color_at_enc(d, 0, self);
    }

    proof fn lemma_dec_prefix(d: Seq<u8>, k: int) {
    }

    proof fn lemma_dec_len(d: Seq<u8>) {
    }
}

impl Codec for Vector {
    open spec fn wf(self) -> bool {
        true
    }

    open spec fn enc(self) -> Seq<u8> {
        be32(self.x) + be32(self.y)
    }

    open spec fn dec(d: Seq<u8>) -> Option<(Vector, int)> {
        if d.len() >= 8 {
            Some((vector_at(d, 0), 8))
        } else {
            None
        }
    }

    proof fn lemma_dec_enc(self, rest: Seq<u8>) {
        let d = self.enc() + rest;
        assert(d.subrange(0, 8) =~= self.enc());
        lemma_vector_at_enc(d, 0, self);
    }

    proof fn lemma_dec_prefix(d: Seq<u8>, k: int) {
    }

    proof fn lemma_dec_len(d: Seq<u8>) {
    }
}

impl Codec for Rectangle {
    open spec fn wf(self) -> bool {
        true
    }

    open spec fn enc(self) -> Seq<u8> {
        be32(self.x) + be32(self.y) + be32(self.w) + be32(self.h)
    }

    open spec fn dec(d: Seq<u8>) -> Option<(Rectangle, int)> {
        if d.len() >= 16 {
            Some((rect_at(d, 0), 16))
        } else {
            None
        }
    }

    proof fn lemma_dec_enc(self, rest: Seq<u8>) {
        let d = self.enc() + rest;
        assert(d.subrange(0, 16) =~= self.enc());
        lemma_rect_at_enc(d, 0, self);
    }

    proof fn lemma_dec_prefix(d: Seq<u8>, k: int) {
    }

    proof fn lemma_dec_len(d: Seq<u8>) {
    }
}

impl Codec for Circle {
    open spec fn wf(self) -> bool {
        true
    }

    open spec fn enc(self) -> Seq<u8> {
        be32(self.x) + be32(self.y) + be32(self.r)
    }

    open spec fn dec(d: Seq<u8>) -> Option<(Circle, int)> {
        if d.len() >= 12 {
            Some((circle_at(d, 0), 12))
        } else {
            None
        }
    }

    proof fn lemma_dec_enc(self, rest: Seq<u8>) {
        let d = self.enc() + rest;
        assert(d.subrange(0, 12) =~= self.enc());
        lemma_circle_at_enc(d, 0, self);
    }

    proof fn lemma_dec_prefix(d: Seq<u8>, k: int) {
    }

    proof fn lemma_dec_len(d: Seq<u8>) {
    }
}

impl Color {
    pub fn from_rgba(r: u8, g: u8, b: u8, a: u8) -> (c: Color)
        ensures
            c == (Color { r, g, b, a }),
    {
        Color { r, g, b, a }
    }

    /// Reads a color at `offset`: the four channel bytes in order.
    pub fn deserialize(data: &[u8], offset: usize) -> (r: Result<(Color, usize), ()>)
        ensures
            match r {
                Ok((v, n)) => offset <= data@.len() && Color::dec(data@.skip(offset as int))
                    == Some((v, n as int)),
                Err(e) => offset > data@.len() || Color::dec(data@.skip(offset as int)) is None,
            },
    {
        if data.len() < 4 || offset > data.len() - 4 {
            return Err(());
        }
        let c = Color {
            r: data[offset],
            g: data[offset + 1],
            b: data[offset + 2],
            a: data[offset + 3],
        };
        proof {
            let d = data@.skip(offset as int);
            assert(d[0] == data@[offset as int]);
            assert(d[1] == data@[offset + 1]);
            assert(d[2] == data@[offset + 2]);
            assert(d[3] == data@[offset + 3]);
        }
        Ok((c, 4))
    }

    pub fn serialize(&self) -> (r: Vec<u8>)
        ensures
            r@ == self.enc(),
    {
        let mut bytes: Vec<u8> = Vec::new();
        bytes.push(self.r);
        bytes.push(self.g);
        bytes.push(self.b);
        bytes.push(self.a);
        proof {
            assert(bytes@ =~= self.enc());
        }
        bytes
    }
}

impl Default for Color {
    /// Opaque white.
    fn default() -> (c: Color)
        ensures
            c == (Color { r: 255u8, g: 255u8, b: 255u8, a: 255u8 }),
    {
        Color { r: 255, g: 255, b: 255, a: 255 }
    }
}

impl Vector {
    pub fn new(x: u32, y: u32) -> (v: Vector)
        ensures
            v == (Vector { x, y }),
    {
        Vector { x, y }
    }

    /// Reads a vector at `offset`: two binary32 fields, `x` then `y`.
    pub fn deserialize(data: &[u8], offset: usize) -> (r: Result<(Vector, usize), ()>)
        ensures
            match r {
                Ok((v, n)) => offset <= data@.len() && Vector::dec(data@.skip(offset as int))
                    == Some((v, n as int)),
                Err(e) => offset > data@.len() || Vector::dec(data@.skip(offset as int)) is None,
            },
    {
        if data.len() < 8 || offset > data.len() - 8 {
            return Err(());
        }
        let x = read_u32(data, offset).unwrap();
        let y = read_u32(data, offset + 4).unwrap();
        proof {
            let d = data@.skip(offset as int);
            assert forall|j: int| 0 <= j < 8 implies d[j] == data@[offset + j] by {}
        }
        Ok((Vector { x, y }, 8))
    }

    pub fn serialize(&self) -> (r: Vec<u8>)
        ensures
            r@ == self.enc(),
    {
        let mut bytes: Vec<u8> = Vec::new();
        write_u32(&mut bytes, self.x);
        write_u32(&mut bytes, self.y);
        proof {
            assert(bytes@ =~= self.enc());
        }
        bytes
    }
}

impl Default for Vector {
    /// The unit diagonal: both components hold the bits of one.
    fn default() -> (v: Vector)
        ensures
            v == (Vector { x: F32_ONE_BITS, y: F32_ONE_BITS }),
    {
        Vector { x: F32_ONE_BITS, y: F32_ONE_BITS }
    }
}

impl Rectangle {
    pub fn new(x: u32, y: u32, w: u32, h: u32) -> (v: Rectangle)
        ensures
            v == (Rectangle { x, y, w, h }),
    {
        Rectangle { x, y, w, h }
    }

    /// Reads a rectangle at `offset`: four binary32 fields, `x`, `y`,
    /// `w`, `h`.
    pub fn deserialize(data: &[u8], offset: usize) -> (r: Result<(Rectangle, usize), ()>)
        ensures
            match r {
                Ok((v, n)) => offset <= data@.len() && Rectangle::dec(data@.skip(offset as int))
                    == Some((v, n as int)),
                Err(e) => offset > data@.len() || Rectangle::dec(data@.skip(offset as int)) is None,
            },
    {
        if data.len() < 16 || offset > data.len() - 16 {
            return Err(());
        }
        let x = read_u32(data, offset).unwrap();
        let y = read_u32(data, offset + 4).unwrap();
        let w = read_u32(data, offset + 8).unwrap();
        let h = read_u32(data, offset + 12).unwrap();
        proof {
            let d = data@.skip(offset as int);
            assert forall|j: int| 0 <= j < 16 implies d[j] == data@[offset + j] by {}
        }
        Ok((Rectangle { x, y, w, h }, 16))
    }

    pub fn serialize(&self) -> (r: Vec<u8>)
        ensures
            r@ == self.enc(),
    {
        let mut bytes: Vec<u8> = Vec::new();
        write_u32(&mut bytes, self.x);
        write_u32(&mut bytes, self.y);
        write_u32(&mut bytes, self.w);
        write_u32(&mut bytes, self.h);
        proof {
            assert(bytes@ =~= self.enc());
        }
        bytes
    }
}

impl Default for Rectangle {
    /// The unit square at the origin.
    fn default() -> (v: Rectangle)
        ensures
            v == (Rectangle { x: 0u32, y: 0u32, w: F32_ONE_BITS, h: F32_ONE_BITS }),
    {
        Rectangle { x: 0, y: 0, w: F32_ONE_BITS, h: F32_ONE_BITS }
    }
}

impl Circle {
    pub fn new(x: u32, y: u32, r: u32) -> (v: Circle)
        ensures
            v == (Circle { x, y, r }),
    {
        Circle { x, y, r }
    }

    /// Reads a circle at `offset`: three binary32 fields, `x`, `y`,
    /// `r`.
    pub fn deserialize(data: &[u8], offset: usize) -> (r: Result<(Circle, usize), ()>)
        ensures
            match r {
                Ok((v, n)) => offset <= data@.len() && Circle::dec(data@.skip(offset as int))
                    == Some((v, n as int)),
                Err(e) => offset > data@.len() || Circle::dec(data@.skip(offset as int)) is None,
            },
    {
        if data.len() < 12 || offset > data.len() - 12 {
            return Err(());
        }
        let x = read_u32(data, offset).unwrap();
        let y = read_u32(data, offset + 4).unwrap();
        let r = read_u32(data, offset + 8).unwrap();
        proof {
            let d = data@.skip(offset as int);
            assert forall|j: int| 0 <= j < 12 implies d[j] == data@[offset + j] by {}
        }
        Ok((Circle { x, y, r }, 12))
    }

    pub fn serialize(&self) -> (r: Vec<u8>)
        ensures
            r@ == self.enc(),
    {
        let mut bytes: Vec<u8> = Vec::new();
        write_u32(&mut bytes, self.x);
        write_u32(&mut bytes, self.y);
        write_u32(&mut bytes, self.r);
        proof {
            assert(bytes@ =~= self.enc());
        }
        bytes
    }
}

impl Default for Circle {
    /// The unit circle at the origin.
    fn default() -> (v: Circle)
        ensures
            v == (Circle { x: 0u32, y: 0u32, r: F32_ONE_BITS }),
    {
        Circle { x: 0, y: 0, r: F32_ONE_BITS }
    }
}

} // verus!

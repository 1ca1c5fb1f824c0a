//! The wire format shared by every persisted type.
//!
//! A type that is written into a save buffer implements [`Codec`]: it
//! says what its bytes are (`enc`), how a value is read back from the
//! front of a byte sequence (`dec`, returning the value and the count
//! of bytes consumed), and proves the three facts every codec of this
//! crate obeys. From those facts alone the round-trip and truncation
//! laws follow once and for all, for every implementing type, as the
//! generic lemmas at the bottom of this module.

use vstd::prelude::*;

use crate::bytes::{
    be32, be64, be_bool, lemma_word32_at_be32, lemma_word64_at_be64, read_u64, word32_at,
    word64_at, write_u64,
};

verus! {

/// A value with a fixed binary spelling.
///
/// `dec` must be the left inverse of `enc` even when further bytes
/// follow (`lemma_dec_enc`), must never look past the bytes it
/// consumes (`lemma_dec_prefix`), and must never consume more bytes
/// than it was given (`lemma_dec_len`).
pub trait Codec: Sized {
    /// Whether the writer can spell this value at all: every collection
    /// it holds is short enough for its count field. Every value built
    /// by executable code is well formed.
    spec fn wf(self) -> bool;

    /// The bytes this value is written as.
    spec fn enc(self) -> Seq<u8>;

    /// Reads one value from the front of `d`, with the count of bytes
    /// consumed; `None` when `d` is too short or malformed.
    spec fn dec(d: Seq<u8>) -> Option<(Self, int)>;

    /// Decoding an encoding consumes exactly the encoding, whatever
    /// follows it, and yields the encoded value.
    proof fn lemma_dec_enc(self, rest: Seq<u8>)
        requires
            self.wf(),
        ensures
            Self::dec(self.enc() + rest) == Some((self, self.enc().len() as int)),
    ;

    /// A decoder reads only the bytes it consumes: what it returns on a
    /// prefix, it also returns on the whole sequence.
    proof fn lemma_dec_prefix(d: Seq<u8>, k: int)
        requires
            0 <= k <= d.len(),
            Self::dec(d.take(k)) is Some,
        ensures
            Self::dec(d) == Self::dec(d.take(k)),
            Self::dec(d.take(k))->Some_0.1 <= k,
    ;

    /// A successful decode consumes a non-negative count of bytes, no
    /// more than were given.
    proof fn lemma_dec_len(d: Seq<u8>)
        ensures
            Self::dec(d) is Some ==> 0 <= Self::dec(d)->Some_0.1 <= d.len(),
    ;
}

impl Codec for u32 {
    open spec fn wf(self) -> bool {
        true
    }

    open spec fn enc(self) -> Seq<u8> {
        be32(self)
    }

    open spec fn dec(d: Seq<u8>) -> Option<(u32, int)> {
        if d.len() >= 4 {
            Some((word32_at(d, 0), 4))
        } else {
            None
        }
    }

    proof fn lemma_dec_enc(self, rest: Seq<u8>) {
        let d = self.enc() + rest;
        assert(d.subrange(0, 4) =~= be32(self));
        lemma_word32_at_be32(d, 0, self);
    }

    proof fn lemma_dec_prefix(d: Seq<u8>, k: int) {
    }

    proof fn lemma_dec_len(d: Seq<u8>) {
    }
}

impl Codec for u64 {
    open spec fn wf(self) -> bool {
        true
    }

    open spec fn enc(self) -> Seq<u8> {
        be64(self)
    }

    open spec fn dec(d: Seq<u8>) -> Option<(u64, int)> {
        if d.len() >= 8 {
            Some((word64_at(d, 0), 8))
        } else {
            None
        }
    }

    proof fn lemma_dec_enc(self, rest: Seq<u8>) {
        let d = self.enc() + rest;
        assert(d.subrange(0, 8) =~= be64(self));
        lemma_word64_at_be64(d, 0, self);
    }

    proof fn lemma_dec_prefix(d: Seq<u8>, k: int) {
    }

    proof fn lemma_dec_len(d: Seq<u8>) {
    }
}

impl Codec for bool {
    open spec fn wf(self) -> bool {
        true
    }

    open spec fn enc(self) -> Seq<u8> {
        be_bool(self)
    }

    open spec fn dec(d: Seq<u8>) -> Option<(bool, int)> {
        if d.len() >= 1 {
            Some((d[0] != 0, 1))
        } else {
            None
        }
    }

    proof fn lemma_dec_enc(self, rest: Seq<u8>) {
    }

    proof fn lemma_dec_prefix(d: Seq<u8>, k: int) {
    }

    proof fn lemma_dec_len(d: Seq<u8>) {
    }
}

/// The concatenation of the encodings of the elements of `s`, in index
/// order. A count prefix is not included here: the enclosing type
/// writes it.
pub open spec fn enc_list<T: Codec>(s: Seq<T>) -> Seq<u8>
    decreases s.len(),
{
    if s.len() == 0 {
        Seq::empty()
    } else {
        s[0].enc() + enc_list(s.drop_first())
    }
}

/// Reads exactly `n` values, each from where the one before ended.
pub open spec fn dec_list<T: Codec>(d: Seq<u8>, n: nat) -> Option<(Seq<T>, int)>
    decreases n,
{
    if n == 0 {
        Some((Seq::empty(), 0))
    } else {
        match T::dec(d) {
            Option::None => None,
            Option::Some((v, c)) => match dec_list::<T>(d.skip(c), (n - 1) as nat) {
                Option::None => None,
                Option::Some((s, c2)) => Some((seq![v] + s, c + c2)),
            },
        }
    }
}

/// Every element of `s` is well formed.
pub open spec fn wf_list<T: Codec>(s: Seq<T>) -> bool {
    forall|i: int| 0 <= i < s.len() ==> #[trigger] s[i].wf()
}

/// Appending one element appends its encoding.
pub proof fn lemma_enc_list_snoc<T: Codec>(s: Seq<T>, x: T)
    ensures
        enc_list(s.push(x)) == enc_list(s) + x.enc(),
    decreases s.len(),
{
    if s.len() == 0 {
        assert(enc_list::<T>(Seq::empty()) == Seq::<u8>::empty());
        assert(s.push(x)[0] == x);
        assert(s.push(x).drop_first() =~= Seq::<T>::empty());
        assert(s =~= Seq::<T>::empty());
        assert(enc_list(s.push(x)) == x.enc() + enc_list::<T>(Seq::empty()));
        assert(enc_list(s.push(x)) =~= enc_list(s) + x.enc());
    } else {
        assert(s.push(x).drop_first() =~= s.drop_first().push(x));
        lemma_enc_list_snoc(s.drop_first(), x);
        assert(s.push(x)[0] == s[0]);
        assert(enc_list(s.push(x)) == s[0].enc() + (enc_list(s.drop_first()) + x.enc()));
        assert(enc_list(s.push(x)) =~= enc_list(s) + x.enc());
    }
}

/// Reading `rem` values where the first one is known peels it off:
/// the rest are read after its bytes.
pub proof fn lemma_dec_list_step<T: Codec>(d: Seq<u8>, idx: int, rem: nat, v: T, c: int)
    requires
        0 <= idx <= d.len(),
        rem > 0,
        T::dec(d.skip(idx)) == Some((v, c)),
        0 <= c,
        idx + c <= d.len(),
    ensures
        dec_list::<T>(d.skip(idx), rem) == (match dec_list::<T>(
            d.skip(idx + c),
            (rem - 1) as nat,
        ) {
            Option::None => None::<(Seq<T>, int)>,
            Option::Some((s, c2)) => Some((seq![v] + s, c + c2)),
        }),
{
    assert(d.skip(idx).skip(c) =~= d.skip(idx + c));
}

/// `lemma_dec_enc`, lifted to lists read with the list's own length.
pub proof fn lemma_dec_list_enc<T: Codec>(s: Seq<T>, rest: Seq<u8>)
    requires
        wf_list(s),
    ensures
        dec_list::<T>(enc_list(s) + rest, s.len()) == Some((s, enc_list(s).len() as int)),
    decreases s.len(),
{
    if s.len() == 0 {
        assert(enc_list(s) + rest =~= rest);
        assert(Seq::<T>::empty() =~= s);
    } else {
        let head = s[0];
        let tail = s.drop_first();
        assert(head.wf());
        assert(wf_list(tail)) by {
            assert forall|i: int| 0 <= i < tail.len() implies #[trigger] tail[i].wf() by {
                assert(tail[i] == s[i + 1]);
            }
        }
        head.lemma_dec_enc(enc_list(tail) + rest);
        assert(enc_list(s) + rest =~= head.enc() + (enc_list(tail) + rest));
        let c = head.enc().len() as int;
        assert((head.enc() + (enc_list(tail) + rest)).skip(c) =~= enc_list(tail) + rest);
        lemma_dec_list_enc(tail, rest);
        assert(seq![head] + tail =~= s);
    }
}

/// `lemma_dec_prefix`, lifted to lists.
pub proof fn lemma_dec_list_prefix<T: Codec>(d: Seq<u8>, k: int, n: nat)
    requires
        0 <= k <= d.len(),
        dec_list::<T>(d.take(k), n) is Some,
    ensures
        dec_list::<T>(d, n) == dec_list::<T>(d.take(k), n),
        0 <= dec_list::<T>(d.take(k), n)->Some_0.1 <= k,
    decreases n,
{
    if n == 0 {
    } else {
        T::lemma_dec_prefix(d, k);
        T::lemma_dec_len(d.take(k));
        let (v, c) = T::dec(d.take(k))->Some_0;
        assert(d.take(k).skip(c) =~= d.skip(c).take(k - c));
        lemma_dec_list_prefix::<T>(d.skip(c), k - c, (n - 1) as nat);
    }
}

/// `lemma_dec_len`, lifted to lists.
pub proof fn lemma_dec_list_len<T: Codec>(d: Seq<u8>, n: nat)
    ensures
        dec_list::<T>(d, n) is Some ==> 0 <= dec_list::<T>(d, n)->Some_0.1 <= d.len(),
    decreases n,
{
    if n == 0 {
    } else {
        if dec_list::<T>(d, n) is Some {
            T::lemma_dec_len(d);
            let (v, c) = T::dec(d)->Some_0;
            lemma_dec_list_len::<T>(d.skip(c), (n - 1) as nat);
        }
    }
}

/// The views of the elements of `s`, in order.
pub open spec fn views_of<T: View>(s: Seq<T>) -> Seq<<T as View>::V> {
    s.map_values(|x: T| x@)
}

/// An executable type whose view has a wire format: it can be read
/// from and written into byte buffers.
pub trait Wire: View + Sized where <Self as View>::V: Codec {
    /// Reads one value at `offset`, with the count of bytes consumed.
    fn read(data: &[u8], offset: usize) -> (r: Result<(Self, usize), ()>)
        ensures
            match r {
                Ok((v, n)) => offset <= data@.len() && <<Self as View>::V as Codec>::dec(
                    data@.skip(offset as int),
                ) == Some((v@, n as int)),
                Err(e) => offset > data@.len() || <<Self as View>::V as Codec>::dec(
                    data@.skip(offset as int),
                ) is None,
            },
    ;

    /// The value's bytes.
    fn write(&self) -> (r: Vec<u8>)
        ensures
            r@ == self@.enc(),
    ;
}

/// Reads `cnt` consecutive values beginning at `start`.
pub fn read_items<T: Wire>(data: &[u8], start: usize, cnt: u64) -> (r: Result<
    (Vec<T>, usize),
    (),
>) where <T as View>::V: Codec
    ensures
        match r {
            Ok((v, end)) => start <= end <= data@.len() && v@.len() == cnt && dec_list::<
                <T as View>::V,
            >(data@.skip(start as int), cnt as nat) == Some((views_of(v@), end - start as int)),
            Err(e) => start > data@.len() || dec_list::<<T as View>::V>(
                data@.skip(start as int),
                cnt as nat,
            ) is None,
        },
{
    let dlen = data.len();
    if start > dlen {
        return Err(());
    }
    let ghost d = data@.skip(start as int);
    let mut items: Vec<T> = Vec::new();
    let mut idx: usize = 0;
    let mut i: u64 = 0;
    while i < cnt
        invariant
            data@.len() == dlen,
            start + idx <= data@.len(),
            start <= data@.len(),
            i <= cnt,
            d == data@.skip(start as int),
            items@.len() == i,
            match dec_list::<<T as View>::V>(d.skip(idx as int), (cnt - i) as nat) {
                Option::None => dec_list::<<T as View>::V>(d.skip(0), cnt as nat) is None,
                Option::Some((s, c)) => dec_list::<<T as View>::V>(d.skip(0), cnt as nat) == Some(
                    (views_of(items@) + s, idx + c),
                ),
            },
        decreases cnt - i,
    {
        let (p, n) = match T::read(data, start + idx) {
            Ok(pair) => pair,
            Err(e) => {
                proof {
                    assert(data@.skip((start + idx) as int) =~= d.skip(idx as int));
                    assert(d.skip(0) =~= d);
                }
                return Err(());
            },
        };
        proof {
            let rem = (cnt - i) as nat;
            assert(data@.skip((start + idx) as int) =~= d.skip(idx as int));
            <T as View>::V::lemma_dec_len(d.skip(idx as int));
            assert(start + idx + n <= data@.len());
            lemma_dec_list_step::<<T as View>::V>(d, idx as int, rem, p@, n as int);
            assert((rem - 1) as nat == (cnt - (i + 1)) as nat);
            assert(views_of(items@.push(p)) =~= views_of(items@).push(p@));
            if dec_list::<<T as View>::V>(d.skip(idx + n), (rem - 1) as nat) is Some {
                let (s2, c2) = dec_list::<<T as View>::V>(
                    d.skip(idx + n),
                    (rem - 1) as nat,
                )->Some_0;
                assert(views_of(items@) + (seq![p@] + s2) =~= views_of(items@).push(p@) + s2);
            }
        }
        items.push(p);
        idx = idx + n;
        i = i + 1;
    }
    proof {
        assert(dec_list::<<T as View>::V>(d.skip(idx as int), 0) == Some(
            (Seq::<<T as View>::V>::empty(), 0int),
        ));
        assert(views_of(items@) + Seq::<<T as View>::V>::empty() =~= views_of(items@));
        assert(d.skip(0) =~= d);
    }
    Ok((items, start + idx))
}

/// Appends the bytes of each value of `items`, in index order.
pub fn write_items<T: Wire>(bytes: &mut Vec<u8>, items: &Vec<T>) where <T as View>::V: Codec
    ensures
        final(bytes)@ == old(bytes)@ + enc_list(views_of(items@)),
{
    let ghost head = old(bytes)@;
    let n = items.len();
    for i in 0..n
        invariant
            n == items@.len(),
            bytes@ == head + enc_list(views_of(items@.take(i as int))),
    {
        let mut pb = items[i].write();
        proof {
            lemma_enc_list_snoc(views_of(items@.take(i as int)), items@[i as int]@);
            assert(views_of(items@.take(i + 1)) =~= views_of(items@.take(i as int)).push(
                items@[i as int]@,
            ));
        }
        bytes.append(&mut pb);
        proof {
            assert(bytes@ =~= head + enc_list(views_of(items@.take(i + 1))));
        }
    }
    proof {
        assert(items@.take(n as int) =~= items@);
    }
}

/// Concatenation of byte sequences associates.
pub proof fn lemma_add_assoc(a: Seq<u8>, b: Seq<u8>, c: Seq<u8>)
    ensures
        (a + b) + c == a + (b + c),
{
    assert((a + b) + c =~= a + (b + c));
}

/// Skipping past the first part of a concatenation leaves the second.
pub proof fn lemma_skip_concat(a: Seq<u8>, b: Seq<u8>)
    ensures
        (a + b).skip(a.len() as int) == b,
{
    assert((a + b).skip(a.len() as int) =~= b);
}

/// Skipping twice skips the sum.
pub proof fn lemma_skip_skip(d: Seq<u8>, a: int, b: int)
    requires
        0 <= a,
        0 <= b,
        a + b <= d.len(),
    ensures
        d.skip(a).skip(b) == d.skip(a + b),
{
    assert(d.skip(a).skip(b) =~= d.skip(a + b));
}

/// A counted list: the element count as eight big-endian bytes, then
/// each element's encoding in index order.
pub open spec fn enc_counted<T: Codec>(s: Seq<T>) -> Seq<u8> {
    be64(s.len() as u64) + enc_list(s)
}

/// Reads a counted list: the count, then that many elements.
pub open spec fn dec_counted<T: Codec>(d: Seq<u8>) -> Option<(Seq<T>, int)> {
    if d.len() >= 8 {
        match dec_list::<T>(d.skip(8), word64_at(d, 0) as nat) {
            Option::None => None,
            Option::Some((s, c)) => Some((s, 8 + c)),
        }
    } else {
        None
    }
}

/// `lemma_dec_enc` for counted lists.
pub proof fn lemma_dec_counted_enc<T: Codec>(s: Seq<T>, rest: Seq<u8>)
    requires
        wf_list(s),
        s.len() <= u64::MAX,
    ensures
        dec_counted::<T>(enc_counted(s) + rest) == Some((s, enc_counted(s).len() as int)),
{
    let d = enc_counted(s) + rest;
    assert(d.subrange(0, 8) =~= be64(s.len() as u64));
    lemma_word64_at_be64(d, 0, s.len() as u64);
    assert(d.skip(8) =~= enc_list(s) + rest);
    lemma_dec_list_enc(s, rest);
}

/// `lemma_dec_prefix` for counted lists.
pub proof fn lemma_dec_counted_prefix<T: Codec>(d: Seq<u8>, k: int)
    requires
        0 <= k <= d.len(),
        dec_counted::<T>(d.take(k)) is Some,
    ensures
        dec_counted::<T>(d) == dec_counted::<T>(d.take(k)),
        0 <= dec_counted::<T>(d.take(k))->Some_0.1 <= k,
{
    let p = d.take(k);
    assert forall|m: int| 0 <= m < 8 implies p[m] == d[m] by {}
    assert(word64_at(p, 0) == word64_at(d, 0));
    assert(p.skip(8) =~= d.skip(8).take(k - 8));
    lemma_dec_list_prefix::<T>(d.skip(8), k - 8, word64_at(d, 0) as nat);
    lemma_dec_list_len::<T>(p.skip(8), word64_at(d, 0) as nat);
}

/// `lemma_dec_len` for counted lists.
pub proof fn lemma_dec_counted_len<T: Codec>(d: Seq<u8>)
    ensures
        dec_counted::<T>(d) is Some ==> 0 <= dec_counted::<T>(d)->Some_0.1 <= d.len(),
{
    if dec_counted::<T>(d) is Some {
        lemma_dec_list_len::<T>(d.skip(8), word64_at(d, 0) as nat);
    }
}

/// One counted-list stage of a larger format: where the bytes from
/// `o` on are a counted list followed by `rest`, the list decodes
/// there and `rest` begins right after it.
pub proof fn lemma_dec_counted_stage<T: Codec>(d: Seq<u8>, o: int, s: Seq<T>, rest: Seq<u8>)
    requires
        0 <= o <= d.len(),
        d.skip(o) == enc_counted(s) + rest,
        wf_list(s),
        s.len() <= u64::MAX,
    ensures
        dec_counted::<T>(d.skip(o)) == Some((s, enc_counted(s).len() as int)),
        d.skip(o + enc_counted(s).len()) == rest,
{
    lemma_dec_counted_enc(s, rest);
    lemma_skip_skip(d, o, enc_counted(s).len() as int);
    lemma_skip_concat(enc_counted(s), rest);
}

/// Reads a counted list of values beginning at `start`.
pub fn read_counted<T: Wire>(data: &[u8], start: usize) -> (r: Result<
    (Vec<T>, usize),
    (),
>) where <T as View>::V: Codec
    ensures
        match r {
            Ok((v, end)) => start <= end <= data@.len() && dec_counted::<<T as View>::V>(
                data@.skip(start as int),
            ) == Some((views_of(v@), end - start as int)),
            Err(e) => start > data@.len() || dec_counted::<<T as View>::V>(
                data@.skip(start as int),
            ) is None,
        },
{
    let dlen = data.len();
    let cnt = match read_u64(data, start) {
        Some(c) => c,
        None => {
            return Err(());
        },
    };
    proof {
        assert(data@.len() == dlen);
        assert forall|m: int| 0 <= m < 8 implies data@.skip(start as int)[m] == data@[start
            + m] by {}
        assert(word64_at(data@.skip(start as int), 0) == cnt);
        assert(data@.skip(start as int).skip(8) =~= data@.skip(start + 8));
    }
    let (items, end) = match read_items::<T>(data, start + 8, cnt) {
        Ok(pair) => pair,
        Err(e) => {
            return Err(());
        },
    };
    Ok((items, end))
}

/// Appends a counted list: the count, then each value's bytes.
pub fn write_counted<T: Wire>(bytes: &mut Vec<u8>, items: &Vec<T>) where <T as View>::V: Codec
    ensures
        final(bytes)@ == old(bytes)@ + enc_counted(views_of(items@)),
{
    write_u64(bytes, items.len() as u64);
    write_items(bytes, items);
    proof {
        assert(bytes@ =~= old(bytes)@ + enc_counted(views_of(items@)));
    }
}

/// Round-trip law: decoding the encoding of any value of any persisted
/// type yields that value back and consumes the whole encoding.
pub proof fn lemma_round_trip<T: Codec>(v: T)
    requires
        v.wf(),
    ensures
        T::dec(v.enc()) == Some((v, v.enc().len() as int)),
{
    v.lemma_dec_enc(Seq::empty());
    assert(v.enc() + Seq::<u8>::empty() =~= v.enc());
}

/// Truncation law: decoding any strict prefix of an encoding fails;
/// it never yields a value.
pub proof fn lemma_truncated_fails<T: Codec>(v: T, k: int)
    requires
        v.wf(),
        0 <= k < v.enc().len(),
    ensures
        T::dec(v.enc().take(k)) is None,
{
    if T::dec(v.enc().take(k)) is Some {
        T::lemma_dec_prefix(v.enc(), k);
        lemma_round_trip(v);
    }
}

} // verus!

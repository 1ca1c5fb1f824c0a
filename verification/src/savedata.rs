//! The whole persistent world state and its save-buffer format.
//!
//! A save buffer starts with the four ASCII bytes `SAVE`; then come
//! the planets, stars and fishes as counted lists, then the player
//! rectangle and the joining particle system. A buffer whose first
//! four bytes differ is rejected before anything else is read.

use vstd::prelude::*;

use crate::codec::{
    dec_counted, enc_counted, lemma_add_assoc, lemma_dec_counted_len, lemma_dec_counted_prefix,
    lemma_dec_counted_stage, lemma_skip_concat, lemma_skip_skip, read_counted, views_of, wf_list,
    write_counted, Codec,
};
use crate::fish::Fish;
use crate::geom::{lemma_rect_at_enc, rect_at, Rectangle};
use crate::planet::{Planet, PlanetView};
use crate::rotating::{RotatingParticleSystem, RotatingParticleSystemView};
use crate::star::{Star, StarView};

verus! {

/// The four bytes every save buffer starts with: ASCII `SAVE`.
pub open spec fn save_magic() -> Seq<u8> {
    seq![0x53u8, 0x41u8, 0x56u8, 0x45u8]
}

/// The world state as the specifications see it.
#[verifier::ext_equal]
pub struct SaveDataView {
    pub planets: Seq<PlanetView>,
    pub stars: Seq<StarView>,
    pub fishes: Seq<Fish>,
    pub player: Rectangle,
    pub joining_particles: RotatingParticleSystemView,
}

/// The whole persistent world state.
#[derive(Clone, Debug, PartialEq)]
pub struct SaveData {
    pub planets: Vec<Planet>,
    pub stars: Vec<Star>,
    pub fishes: Vec<Fish>,
    pub player: Rectangle,
    pub joining_particles: RotatingParticleSystem,
}

impl View for SaveData {
    type V = SaveDataView;

    open spec fn view(&self) -> SaveDataView {
        SaveDataView {
            planets: views_of(self.planets@),
            stars: views_of(self.stars@),
            fishes: self.fishes@,
            player: self.player,
            joining_particles: self.joining_particles@,
        }
    }
}

/// Reads a whole save buffer from the front of `d`: the magic header,
/// the three counted entity lists, the player rectangle and the
/// joining particle system.
#[verifier::opaque]
pub open spec fn dec_save(d: Seq<u8>) -> Option<(SaveDataView, int)> {
        if d.len() >= 4 && d[0] == 0x53 && d[1] == 0x41 && d[2] == 0x56 && d[3] == 0x45 {
            match dec_counted::<PlanetView>(d.skip(4)) {
                Option::None => None,
                Option::Some((planets, n1)) => {
                    let o1 = 4 + n1;
                    match dec_counted::<StarView>(d.skip(o1)) {
                        Option::None => None,
                        Option::Some((stars, n2)) => {
                            let o2 = o1 + n2;
                            match dec_counted::<Fish>(d.skip(o2)) {
                                Option::None => None,
                                Option::Some((fishes, n3)) => {
                                    let o3 = o2 + n3;
                                    if d.len() >= o3 + 16 {
                                        match RotatingParticleSystemView::dec(d.skip(o3 + 16)) {
                                            Option::None => None,
                                            Option::Some((jp, n4)) => Some(
                                                (
                                                    SaveDataView {
                                                        planets,
                                                        stars,
                                                        fishes,
                                                        player: rect_at(d, o3),
                                                        joining_particles: jp,
                                                    },
                                                    o3 + 16 + n4,
                                                ),
                                            ),
                                        }
                                    } else {
                                        None
                                    }
                                },
                            }
                        },
                    }
                },
            }
        } else {
            None
        }
}

/// The bytes that follow the planet section of a save buffer.
pub open spec fn save_rest1(s: SaveDataView, rest: Seq<u8>) -> Seq<u8> {
    enc_counted(s.stars) + save_rest2(s, rest)
}

/// The bytes that follow the star section of a save buffer.
pub open spec fn save_rest2(s: SaveDataView, rest: Seq<u8>) -> Seq<u8> {
    enc_counted(s.fishes) + save_rest3(s, rest)
}

/// The bytes that follow the fish section of a save buffer.
pub open spec fn save_rest3(s: SaveDataView, rest: Seq<u8>) -> Seq<u8> {
    s.player.enc() + (s.joining_particles.enc() + rest)
}

/// A save buffer opens with the magic and then the planet section.
#[verifier::rlimit(100)]
proof fn lemma_save_enc_head(s: SaveDataView, rest: Seq<u8>, d: Seq<u8>)
    requires
        d == s.enc() + rest,
    ensures
        d.len() == s.enc().len() + rest.len(),
        s.enc().len() == 4 + enc_counted(s.planets).len() + enc_counted(s.stars).len()
            + enc_counted(s.fishes).len() + 16 + s.joining_particles.enc().len(),
        d[0] == 0x53 && d[1] == 0x41 && d[2] == 0x56 && d[3] == 0x45,
        d.skip(4) == enc_counted(s.planets) + save_rest1(s, rest),
{
    let m = save_magic();
    let a = enc_counted(s.planets);
    let b = enc_counted(s.stars);
    let c = enc_counted(s.fishes);
    let p = s.player.enc();
    let j = s.joining_particles.enc();
    lemma_add_assoc(m, a + (b + (c + (p + j))), rest);
    lemma_add_assoc(a, b + (c + (p + j)), rest);
    lemma_add_assoc(b, c + (p + j), rest);
    lemma_add_assoc(c, p + j, rest);
    lemma_add_assoc(p, j, rest);
    assert(d == m + (a + save_rest1(s, rest)));
    assert(d[0] == 0x53 && d[1] == 0x41 && d[2] == 0x56 && d[3] == 0x45);
    lemma_skip_concat(m, a + save_rest1(s, rest));
}

/// The three counted sections decode in order from offset four.
#[verifier::rlimit(100)]
proof fn lemma_save_enc_lists(s: SaveDataView, rest: Seq<u8>, d: Seq<u8>)
    requires
        s.wf(),
        0 <= 4 <= d.len(),
        d.skip(4) == enc_counted(s.planets) + save_rest1(s, rest),
    ensures
        dec_counted::<PlanetView>(d.skip(4)) == Some(
            (s.planets, enc_counted(s.planets).len() as int),
        ),
        dec_counted::<StarView>(d.skip((4 + enc_counted(s.planets).len()) as int)) == Some(
            (s.stars, enc_counted(s.stars).len() as int),
        ),
        dec_counted::<Fish>(
            d.skip((4 + enc_counted(s.planets).len() + enc_counted(s.stars).len()) as int),
        ) == Some((s.fishes, enc_counted(s.fishes).len() as int)),
        d.skip(
            (4 + enc_counted(s.planets).len() + enc_counted(s.stars).len() + enc_counted(
                s.fishes,
            ).len()) as int,
        ) == save_rest3(s, rest),
{
    assert(wf_list(s.fishes));
    lemma_dec_counted_stage::<PlanetView>(d, 4, s.planets, save_rest1(s, rest));
    let o1 = 4 + enc_counted(s.planets).len() as int;
    lemma_dec_counted_stage::<StarView>(d, o1, s.stars, save_rest2(s, rest));
    let o2 = o1 + enc_counted(s.stars).len() as int;
    lemma_dec_counted_stage::<Fish>(d, o2, s.fishes, save_rest3(s, rest));
}

/// The player rectangle and joining particles decode after the lists.
#[verifier::rlimit(100)]
proof fn lemma_save_enc_tail(s: SaveDataView, rest: Seq<u8>, d: Seq<u8>, o3: int)
    requires
        s.wf(),
        0 <= o3,
        o3 + 16 <= d.len(),
        d.skip(o3) == save_rest3(s, rest),
    ensures
        rect_at(d, o3) == s.player,
        RotatingParticleSystemView::dec(d.skip(o3 + 16)) == Some(
            (s.joining_particles, s.joining_particles.enc().len() as int),
        ),
{
    lemma_save_player_window(d, o3, s.player, s.joining_particles.enc() + rest);
    lemma_skip_skip(d, o3, 16);
    lemma_skip_concat(s.player.enc(), s.joining_particles.enc() + rest);
    assert(d.skip(o3 + 16) == s.joining_particles.enc() + rest);
    s.joining_particles.lemma_dec_enc(rest);
}

/// A buffer whose sections each decode to the fields of `s` decodes
/// whole to `s`.
proof fn lemma_save_dec_from_sections(s: SaveDataView, d: Seq<u8>, n1: int, n2: int, n3: int, n4: int)
    requires
        d.len() >= 4,
        d[0] == 0x53 && d[1] == 0x41 && d[2] == 0x56 && d[3] == 0x45,
        dec_counted::<PlanetView>(d.skip(4)) == Some((s.planets, n1)),
        dec_counted::<StarView>(d.skip(4 + n1)) == Some((s.stars, n2)),
        dec_counted::<Fish>(d.skip(4 + n1 + n2)) == Some((s.fishes, n3)),
        d.len() >= 4 + n1 + n2 + n3 + 16,
        rect_at(d, 4 + n1 + n2 + n3) == s.player,
        RotatingParticleSystemView::dec(d.skip(4 + n1 + n2 + n3 + 16)) == Some(
            (s.joining_particles, n4),
        ),
    ensures
        SaveDataView::dec(d) == Some((s, 4 + n1 + n2 + n3 + 16 + n4)),
{
    reveal(dec_save);
    assert((SaveDataView {
        planets: s.planets,
        stars: s.stars,
        fishes: s.fishes,
        player: rect_at(d, 4 + n1 + n2 + n3),
        joining_particles: s.joining_particles,
    }) =~= s);
}

/// Where a buffer is the encoding of `s` followed by `rest`, the whole
/// buffer decodes to `s` and consumes exactly the encoding.
#[verifier::rlimit(100)]
pub proof fn lemma_save_enc_layout(s: SaveDataView, rest: Seq<u8>)
    requires
        s.wf(),
    ensures
        SaveDataView::dec(s.enc() + rest) == Some((s, s.enc().len() as int)),
{
    let d = s.enc() + rest;
    lemma_save_enc_head(s, rest, d);
    lemma_save_enc_lists(s, rest, d);
    let n1 = enc_counted(s.planets).len() as int;
    let n2 = enc_counted(s.stars).len() as int;
    let n3 = enc_counted(s.fishes).len() as int;
    let n4 = s.joining_particles.enc().len() as int;
    lemma_save_enc_tail(s, rest, d, 4 + n1 + n2 + n3);
    lemma_save_dec_from_sections(s, d, n1, n2, n3, n4);
}

/// Where the bytes from `o` on are a player rectangle followed by
/// `rest`, the rectangle reads back at `o`.
pub proof fn lemma_save_player_window(d: Seq<u8>, o: int, player: Rectangle, rest: Seq<u8>)
    requires
        0 <= o <= d.len(),
        d.skip(o) == player.enc() + rest,
    ensures
        rect_at(d, o) == player,
{
    assert(d.skip(o).len() == 16 + rest.len());
    assert(d.subrange(o, o + 16) =~= d.skip(o).take(16));
    assert(d.skip(o).take(16) =~= player.enc());
    lemma_rect_at_enc(d, o, player);
}

impl Codec for SaveDataView {
    open spec fn wf(self) -> bool {
        self.planets.len() <= u64::MAX && wf_list(self.planets) && self.stars.len() <= u64::MAX
            && wf_list(self.stars) && self.fishes.len() <= u64::MAX
            && self.joining_particles.wf()
    }

    open spec fn enc(self) -> Seq<u8> {
        save_magic() + (enc_counted(self.planets) + (enc_counted(self.stars) + (enc_counted(
            self.fishes,
        ) + (self.player.enc() + self.joining_particles.enc()))))
    }

    open spec fn dec(d: Seq<u8>) -> Option<(SaveDataView, int)> {
        dec_save(d)
    }

    proof fn lemma_dec_enc(self, rest: Seq<u8>) {
        lemma_save_enc_layout(self, rest);
    }

    #[verifier::rlimit(100)]
    proof fn lemma_dec_prefix(d: Seq<u8>, k: int) {
        reveal(dec_save);
        let p = d.take(k);
        assert forall|m: int| 0 <= m < 4 implies p[m] == d[m] by {}
        assert(p.skip(4) =~= d.skip(4).take(k - 4));
        lemma_dec_counted_prefix::<PlanetView>(d.skip(4), k - 4);
        let (planets, n1) = dec_counted::<PlanetView>(p.skip(4))->Some_0;
        let o1 = 4 + n1;
        assert(p.skip(o1) =~= d.skip(o1).take(k - o1));
        lemma_dec_counted_prefix::<StarView>(d.skip(o1), k - o1);
        let (stars, n2) = dec_counted::<StarView>(p.skip(o1))->Some_0;
        let o2 = o1 + n2;
        assert(p.skip(o2) =~= d.skip(o2).take(k - o2));
        lemma_dec_counted_prefix::<Fish>(d.skip(o2), k - o2);
        let (fishes, n3) = dec_counted::<Fish>(p.skip(o2))->Some_0;
        let o3 = o2 + n3;
        assert forall|m: int| o3 <= m < o3 + 16 implies p[m] == d[m] by {}
        assert(rect_at(p, o3) == rect_at(d, o3));
        assert(p.skip(o3 + 16) =~= d.skip(o3 + 16).take(k - o3 - 16));
        RotatingParticleSystemView::lemma_dec_prefix(d.skip(o3 + 16), k - o3 - 16);
        RotatingParticleSystemView::lemma_dec_len(p.skip(o3 + 16));
    }

    proof fn lemma_dec_len(d: Seq<u8>) {
        reveal(dec_save);
        if Self::dec(d) is Some {
            lemma_dec_counted_len::<PlanetView>(d.skip(4));
            let (planets, n1) = dec_counted::<PlanetView>(d.skip(4))->Some_0;
            let o1 = 4 + n1;
            lemma_dec_counted_len::<StarView>(d.skip(o1));
            let (stars, n2) = dec_counted::<StarView>(d.skip(o1))->Some_0;
            let o2 = o1 + n2;
            lemma_dec_counted_len::<Fish>(d.skip(o2));
            let (fishes, n3) = dec_counted::<Fish>(d.skip(o2))->Some_0;
            let o3 = o2 + n3;
            RotatingParticleSystemView::lemma_dec_len(d.skip(o3 + 16));
        }
    }
}

/// Bad-magic rejection: a buffer that does not begin with the four
/// `SAVE` bytes never decodes, whatever else it holds.
pub proof fn lemma_bad_magic_rejected(d: Seq<u8>)
    requires
        d.len() < 4 || d.subrange(0, 4) != save_magic(),
    ensures
        SaveDataView::dec(d) is None,
{
    reveal(dec_save);
    if d.len() >= 4 && d[0] == 0x53 && d[1] == 0x41 && d[2] == 0x56 && d[3] == 0x45 {
        assert(d.subrange(0, 4) =~= save_magic());
    }
}

impl SaveData {
    /// Reads a whole save buffer: the magic header, the three entity
    /// lists, the player rectangle, the joining particle system.
    #[verifier::rlimit(50)]
    pub fn deserialize(data: &[u8]) -> (r: Result<(SaveData, usize), ()>)
        ensures
            match r {
                Ok((v, n)) => SaveDataView::dec(data@) == Some((v@, n as int)),
                Err(e) => SaveDataView::dec(data@) is None,
            },
    {
        let dlen = data.len();
        if dlen < 4 {
            proof {
                reveal(dec_save);
            }
            return Err(());
        }
        if data[0] != 0x53 || data[1] != 0x41 || data[2] != 0x56 || data[3] != 0x45 {
            proof {
                reveal(dec_save);
            }
            return Err(());
        }
        let (planets, e1) = match read_counted::<Planet>(data, 4) {
            Ok(pair) => pair,
            Err(e) => {
                proof {
                    reveal(dec_save);
                }
                return Err(());
            },
        };
        let (stars, e2) = match read_counted::<Star>(data, e1) {
            Ok(pair) => pair,
            Err(e) => {
                proof {
                    reveal(dec_save);
                }
                return Err(());
            },
        };
        let (fishes, e3) = match read_counted::<Fish>(data, e2) {
            Ok(pair) => pair,
            Err(e) => {
                proof {
                    reveal(dec_save);
                }
                return Err(());
            },
        };
        let (player, _pn) = match Rectangle::deserialize(data, e3) {
            Ok(pair) => pair,
            Err(e) => {
                proof {
                    reveal(dec_save);
                }
                return Err(());
            },
        };
        proof {
            assert forall|j: int| 0 <= j < 16 implies data@.skip(e3 as int)[j] == data@[e3
                + j] by {}
            assert(player == rect_at(data@, e3 as int));
        }
        proof {
            reveal(dec_save);
        }
        let (jp, jn) = match RotatingParticleSystem::deserialize(data, e3 + 16) {
            Ok(pair) => pair,
            Err(e) => {
                proof {
                    reveal(dec_save);
                }
                return Err(());
            },
        };
        let r = SaveData { planets, stars, fishes, player, joining_particles: jp };
        proof {
            reveal(dec_save);
            RotatingParticleSystemView::lemma_dec_len(data@.skip((e3 + 16) as int));
            assert(views_of(fishes@) =~= fishes@);
            assert(r@ =~= SaveDataView {
                planets: views_of(planets@),
                stars: views_of(stars@),
                fishes: fishes@,
                player: rect_at(data@, e3 as int),
                joining_particles: jp@,
            });
        }
        Ok((r, e3 + 16 + jn))
    }

    pub fn serialize(&self) -> (r: Vec<u8>)
        ensures
            r@ == self@.enc(),
    {
        let mut bytes: Vec<u8> = Vec::new();
        bytes.push(0x53);
        bytes.push(0x41);
        bytes.push(0x56);
        bytes.push(0x45);
        proof {
            assert(bytes@ =~= save_magic());
        }
        write_counted(&mut bytes, &self.planets);
        write_counted(&mut bytes, &self.stars);
        write_counted(&mut bytes, &self.fishes);
        let mut pb = self.player.serialize();
        bytes.append(&mut pb);
        let mut jb = self.joining_particles.serialize();
        bytes.append(&mut jb);
        proof {
            assert(views_of(self.fishes@) =~= self.fishes@);
            let m = save_magic();
            let a = enc_counted(self@.planets);
            let b = enc_counted(self@.stars);
            let c = enc_counted(self@.fishes);
            let p = self@.player.enc();
            let j = self@.joining_particles.enc();
            assert(bytes@ == ((((m + a) + b) + c) + p) + j);
            lemma_add_assoc((((m + a) + b) + c), p, j);
            lemma_add_assoc(((m + a) + b), c, p + j);
            lemma_add_assoc((m + a), b, c + (p + j));
            lemma_add_assoc(m, a, b + (c + (p + j)));
        }
        bytes
    }
}

impl Default for SaveData {
    /// An empty world.
    fn default() -> (r: SaveData)
        ensures
            r@.planets == Seq::<PlanetView>::empty(),
            r@.stars == Seq::<StarView>::empty(),
            r@.fishes == Seq::<Fish>::empty(),
            r@.player == (Rectangle {
                x: 0u32,
                y: 0u32,
                w: crate::fbits::F32_ONE_BITS,
                h: crate::fbits::F32_ONE_BITS,
            }),
    {
        let r = SaveData {
            planets: Vec::new(),
            stars: Vec::new(),
            fishes: Vec::new(),
            player: Rectangle::default(),
            joining_particles: RotatingParticleSystem::default(),
        };
        proof {
            assert(views_of(r.planets@) =~= Seq::<PlanetView>::empty());
            assert(views_of(r.stars@) =~= Seq::<StarView>::empty());
        }
        r
    }
}

} // verus!

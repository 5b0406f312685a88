//! Bit-packed texture atlas.
//!
//! The atlas is a square arrangement of square textures stored as one flat
//! buffer of 32-bit packing words. Each texel occupies `texel_bits` bits
//! (a power of two, at most a word), so `32 / texel_bits` texels share a
//! word. Writing a texel clears exactly its own bit field and ORs the new
//! value in, leaving every other texel of the word untouched.

use vstd::arithmetic::div_mod::{
    lemma_div_pos_is_pos, lemma_fundamental_div_mod, lemma_mod_multiples_basic,
    lemma_mod_pos_bound,
};
use vstd::arithmetic::mul::{
    lemma_mul_inequality, lemma_mul_is_distributive_sub_other_way, lemma_mul_nonnegative,
    lemma_mul_strict_inequality,
};
use vstd::prelude::*;

verus! {

/// The accepted texel depths: a power of two no wider than the 32-bit
/// packing word.
pub open spec fn texel_bits_ok(bits: u32) -> bool {
    bits == 1 || bits == 2 || bits == 4 || bits == 8 || bits == 16 || bits == 32
}

/// How many texels of `bits` bits fit in one packing word.
pub open spec fn texels_per_word(bits: u32) -> int {
    32int / (bits as int)
}

/// Mask with the low `bits` bits set.
pub open spec fn low_mask(bits: u32) -> u32 {
    if bits >= 32 {
        0xffff_ffffu32
    } else {
        ((1u32 << bits) - 1) as u32
    }
}

/// The `bits`-wide field stored `off` bits up in word `w`.
pub open spec fn texel_in_word(w: u32, off: u32, bits: u32) -> u32 {
    (w >> off) & low_mask(bits)
}

/// Word `w` with the `bits`-wide field `off` bits up cleared and replaced
/// by the low `bits` bits of `v`.
pub open spec fn store_in_word(w: u32, off: u32, bits: u32, v: u32) -> u32 {
    (w & !(low_mask(bits) << off)) | ((v & low_mask(bits)) << off)
}

/// Which word of the packed buffer holds flat texel `i`.
pub open spec fn word_index(i: int, bits: u32) -> int {
    i / texels_per_word(bits)
}

/// Bit offset of flat texel `i` inside its word.
pub open spec fn bit_offset(i: int, bits: u32) -> int {
    (i % texels_per_word(bits)) * (bits as int)
}

/// The value of flat texel `i` of a packed word sequence.
pub open spec fn texel_from_words(words: Seq<u32>, i: int, bits: u32) -> u32 {
    texel_in_word(words[word_index(i, bits)], bit_offset(i, bits) as u32, bits)
}

/// The packed word sequence after flat texel `i` is overwritten with the
/// low `bits` bits of `v`.
pub open spec fn store_texel_in_words(words: Seq<u32>, i: int, bits: u32, v: u32) -> Seq<u32> {
    words.update(
        word_index(i, bits),
        store_in_word(words[word_index(i, bits)], bit_offset(i, bits) as u32, bits, v),
    )
}

/// Atlas of all tile textures. Must be square: `atlas_size` textures per
/// side, each texture `tex_size` texels per side, every texel `texel_bits`
/// bits wide, packed into 32-bit words.
pub struct TextureAtlas {
    words: Vec<u32>,
    atlas_size: usize,
    tex_size: usize,
    texel_bits: u32,
}

impl TextureAtlas {
    /// Size of the atlas in textures per side.
    pub closed spec fn spec_atlas_size(&self) -> usize {
        self.atlas_size
    }

    /// Size of one texture in texels per side.
    pub closed spec fn spec_tex_size(&self) -> usize {
        self.tex_size
    }

    /// Bit depth of one texel.
    pub closed spec fn spec_texel_bits(&self) -> u32 {
        self.texel_bits
    }

    /// The packed words.
    pub closed spec fn spec_words(&self) -> Seq<u32> {
        self.words@
    }

    /// Texels per side of the whole atlas.
    pub open spec fn side_texels(&self) -> int {
        self.spec_atlas_size() * self.spec_tex_size()
    }

    /// Texels in the whole atlas.
    pub open spec fn total_texels(&self) -> int {
        self.side_texels() * self.side_texels()
    }

    /// Words the packed buffer holds: all texel bits, rounded up to whole
    /// words.
    pub open spec fn word_count(&self) -> int {
        (self.total_texels() * self.spec_texel_bits() + 31) / 32
    }

    pub open spec fn wf(&self) -> bool {
        &&& texel_bits_ok(self.spec_texel_bits())
        &&& self.spec_words().len() == self.word_count()
        &&& self.total_texels() * self.spec_texel_bits() + 31 <= usize::MAX
    }

    /// Same sizes and bit depth (everything but the stored texels).
    pub open spec fn same_config(&self, other: &TextureAtlas) -> bool {
        &&& self.spec_atlas_size() == other.spec_atlas_size()
        &&& self.spec_tex_size() == other.spec_tex_size()
        &&& self.spec_texel_bits() == other.spec_texel_bits()
    }

    /// Flat index of texel `(gx, gy)`, row-major over the whole atlas.
    pub open spec fn texel_index(&self, gx: int, gy: int) -> int {
        gy * self.side_texels() + gx
    }

    pub open spec fn valid_texel(&self, gx: int, gy: int) -> bool {
        0 <= gx < self.side_texels() && 0 <= gy < self.side_texels()
    }

    /// The value of texel `(gx, gy)`.
    pub open spec fn texel(&self, gx: int, gy: int) -> u32 {
        texel_from_words(self.spec_words(), self.texel_index(gx, gy), self.spec_texel_bits())
    }

    /// Texel `(gx, gy)` lies inside tile `(tx, ty)`.
    pub open spec fn texel_in_tile(&self, gx: int, gy: int, tx: int, ty: int) -> bool {
        &&& tx * self.spec_tex_size() <= gx < tx * self.spec_tex_size() + self.spec_tex_size()
        &&& ty * self.spec_tex_size() <= gy < ty * self.spec_tex_size() + self.spec_tex_size()
    }
}

/// Every texel outside tile `(tx, ty)` holds the same value in `b` as in
/// `a`.
pub open spec fn agrees_outside_tile(a: &TextureAtlas, b: &TextureAtlas, tx: int, ty: int) -> bool {
    forall|gx: int, gy: int|
        a.valid_texel(gx, gy) && !a.texel_in_tile(gx, gy, tx, ty) ==> #[trigger] b.texel(gx, gy)
            == a.texel(gx, gy)
}

/// Flat texel `i` of a buffer of `total` texels lands inside the packed
/// word buffer, at a word-aligned field that fits in its word.
proof fn lemma_texel_location(total: int, i: int, bits: u32)
    requires
        texel_bits_ok(bits),
        0 <= i < total,
    ensures
        0 <= word_index(i, bits) < (total * bits + 31) / 32,
        0 <= bit_offset(i, bits) <= 32 - bits,
        bit_offset(i, bits) % (bits as int) == 0,
{
    let tb = bits as int;
    let tpw = texels_per_word(bits);
    assert(tpw * tb == 32 && 1 <= tpw <= 32);
    let q = i / tpw;
    let r = i % tpw;
    lemma_fundamental_div_mod(i, tpw);
    lemma_mod_pos_bound(i, tpw);
    lemma_div_pos_is_pos(i, tpw);
    // The field fits: its offset is at most (tpw - 1) * tb == 32 - tb.
    lemma_mul_nonnegative(r, tb);
    lemma_mul_inequality(r, tpw - 1, tb);
    lemma_mul_is_distributive_sub_other_way(tb, tpw, 1);
    assert((tpw - 1) * tb == tpw * tb - 1 * tb);
    // The field is aligned.
    lemma_mod_multiples_basic(r, tb);
    // The word index is below the rounded-up word count.
    let k = (total * tb + 31) / 32;
    lemma_fundamental_div_mod(total * tb + 31, 32);
    lemma_mod_pos_bound(total * tb + 31, 32);
    assert(32 * k >= total * tb);
    assert((tpw * k) * tb == 32 * k) by (nonlinear_arith)
        requires
            tpw * tb == 32,
    ;
    assert(tpw * k >= total) by {
        if tpw * k < total {
            lemma_mul_strict_inequality(tpw * k, total, tb);
        }
    };
    assert(q < k) by {
        if q >= k {
            lemma_mul_inequality(k, q, tpw);
            assert(k * tpw <= q * tpw);
            assert(tpw * q <= i) by (nonlinear_arith)
                requires
                    i == tpw * q + r,
                    r >= 0,
            ;
            assert(tpw * k == k * tpw) by (nonlinear_arith);
            assert(q * tpw == tpw * q) by (nonlinear_arith);
        }
    };
}

/// Distinct texel coordinates have distinct flat indices.
proof fn lemma_texel_index_injective(side: int, ax: int, ay: int, bx: int, cy: int)
    requires
        0 <= ax < side,
        0 <= bx < side,
        0 <= ay,
        0 <= cy,
        ay * side + ax == cy * side + bx,
    ensures
        ax == bx && ay == cy,
{
    assert(ax == bx && ay == cy) by (nonlinear_arith)
        requires
            0 <= ax < side,
            0 <= bx < side,
            0 <= ay,
            0 <= cy,
            ay * side + ax == cy * side + bx,
    ;
}

/// Storing a field and extracting the same slot yields back exactly the
/// low `bits` bits of the stored value.
proof fn lemma_store_extract_same(w: u32, v: u32, off: u32, bits: u32)
    requires
        texel_bits_ok(bits),
        off + bits <= 32,
    ensures
        texel_in_word(store_in_word(w, off, bits, v), off, bits) == v & low_mask(bits),
{
    assert(texel_in_word(store_in_word(w, off, bits, v), off, bits) == v & low_mask(bits))
        by (bit_vector)
        requires
            off + bits <= 32,
            bits == 1 || bits == 2 || bits == 4 || bits == 8 || bits == 16 || bits == 32,
    ;
}

/// Storing one aligned field leaves every other aligned field of the word
/// unchanged.
proof fn lemma_store_extract_other(w: u32, v: u32, off1: u32, off2: u32, bits: u32)
    requires
        texel_bits_ok(bits),
        off1 % bits == 0,
        off2 % bits == 0,
        off1 + bits <= 32,
        off2 + bits <= 32,
        off1 != off2,
    ensures
        texel_in_word(store_in_word(w, off1, bits, v), off2, bits) == texel_in_word(w, off2, bits),
{
    assert(texel_in_word(store_in_word(w, off1, bits, v), off2, bits) == texel_in_word(
        w,
        off2,
        bits,
    )) by (bit_vector)
        requires
            off1 % bits == 0,
            off2 % bits == 0,
            off1 + bits <= 32,
            off2 + bits <= 32,
            off1 != off2,
            bits == 1 || bits == 2 || bits == 4 || bits == 8 || bits == 16 || bits == 32,
    ;
}

/// Every field of an all-zero word is zero.
proof fn lemma_extract_zero(off: u32, bits: u32)
    ensures
        texel_in_word(0u32, off, bits) == 0,
{
    assert(texel_in_word(0u32, off, bits) == 0) by (bit_vector);
}

/// Law: storing a texel in a packed buffer and reading the same slot back
/// yields exactly the low `bits` bits of the stored value, and every other
/// texel of the buffer reads unchanged.
pub proof fn lemma_texel_round_trip(words: Seq<u32>, total: int, i: int, bits: u32, v: u32)
    requires
        texel_bits_ok(bits),
        words.len() == (total * bits + 31) / 32,
        0 <= i < total,
    ensures
        texel_from_words(store_texel_in_words(words, i, bits, v), i, bits) == v & low_mask(bits),
        forall|j: int|
            0 <= j < total && j != i ==> texel_from_words(
                #[trigger] store_texel_in_words(words, i, bits, v),
                j,
                bits,
            ) == texel_from_words(words, j, bits),
{
    let tb = bits as int;
    let tpw = texels_per_word(bits);
    assert(tpw * tb == 32 && 1 <= tpw <= 32);
    lemma_texel_location(total, i, bits);
    let wi = word_index(i, bits);
    let offi = bit_offset(i, bits) as u32;
    let stored = store_texel_in_words(words, i, bits, v);
    lemma_store_extract_same(words[wi], v, offi, bits);
    assert forall|j: int| 0 <= j < total && j != i implies texel_from_words(
        stored,
        j,
        bits,
    ) == texel_from_words(words, j, bits) by {
        lemma_texel_location(total, j, bits);
        let wj = word_index(j, bits);
        let offj = bit_offset(j, bits) as u32;
        if wj == wi {
            lemma_fundamental_div_mod(i, tpw);
            lemma_fundamental_div_mod(j, tpw);
            assert(i % tpw != j % tpw);
            assert(offi != offj) by {
                if (i % tpw) * tb == (j % tpw) * tb {
                    assert(i % tpw == j % tpw) by (nonlinear_arith)
                        requires
                            (i % tpw) * tb == (j % tpw) * tb,
                            tb >= 1,
                    ;
                }
            };
            lemma_store_extract_other(words[wi], v, offi, offj, bits);
        } else {
            assert(stored[wj] == words[wj]);
        }
    };
}

/// Relies on `rand::random`: draws one 32-bit value from the thread-local
/// generator. Nothing is promised of the result; callers mask it down to
/// the texel depth themselves.
#[verifier::external_body]
fn random_word() -> u32 {
    rand::random::<u32>()
}

impl TextureAtlas {
    /// Bounds that well-formedness puts on the derived sizes; they let the
    /// addressing arithmetic stay inside `usize`.
    proof fn lemma_size_bounds(&self)
        requires
            self.wf(),
        ensures
            0 <= self.side_texels() <= usize::MAX,
            0 <= self.total_texels() <= usize::MAX,
            self.side_texels() * self.side_texels() == self.total_texels(),
    {
        let side = self.side_texels();
        let tb = self.spec_texel_bits() as int;
        lemma_mul_nonnegative(self.spec_atlas_size() as int, self.spec_tex_size() as int);
        lemma_mul_nonnegative(side, side);
        assert(side * side * tb >= side * side) by (nonlinear_arith)
            requires
                tb >= 1,
                side * side >= 0,
        ;
        assert(side * side * tb >= side) by (nonlinear_arith)
            requires
                tb >= 1,
                side >= 0,
        ;
        assert(self.total_texels() * tb == side * side * tb);
    }

    /// Atlas size: size of the atlas in textures per side.
    /// Tex size: size of a texture in texels per side.
    /// Texel bits: bit depth of one texel; must be a power of two no wider
    /// than a packing word. The buffer starts all zero.
    pub fn new(atlas_size: usize, tex_size: usize, texel_bits: u32) -> (r: Self)
        requires
            texel_bits_ok(texel_bits),
            (atlas_size * tex_size) * (atlas_size * tex_size) * texel_bits + 31 <= usize::MAX,
        ensures
            r.wf(),
            r.spec_atlas_size() == atlas_size,
            r.spec_tex_size() == tex_size,
            r.spec_texel_bits() == texel_bits,
            forall|gx: int, gy: int| r.valid_texel(gx, gy) ==> r.texel(gx, gy) == 0,
    {
        proof {
            let side = (atlas_size as int) * (tex_size as int);
            lemma_mul_nonnegative(atlas_size as int, tex_size as int);
            lemma_mul_nonnegative(side, side);
            assert(side * side * texel_bits >= side * side) by (nonlinear_arith)
                requires
                    texel_bits >= 1,
                    side * side >= 0,
            ;
            assert(side * side * texel_bits >= side) by (nonlinear_arith)
                requires
                    texel_bits >= 1,
                    side >= 0,
            ;
        }
        let width = atlas_size * tex_size;  // Width and height must be the same.
        let area = width * width;
        let total_bits = area * (texel_bits as usize);
        let word_count = (total_bits + 31) / 32;
        let mut words: Vec<u32> = Vec::new();
        while words.len() < word_count
            invariant
                words@.len() <= word_count,
                forall|j: int| 0 <= j < words@.len() ==> words@[j] == 0u32,
            decreases word_count - words@.len(),
        {
            words.push(0u32);
        }
        let r = TextureAtlas { words, atlas_size, tex_size, texel_bits };
        proof {
            assert(r.word_count() == word_count);
            assert forall|gx: int, gy: int| r.valid_texel(gx, gy) implies r.texel(gx, gy)
                == 0 by {
                let i = r.texel_index(gx, gy);
                assert(0 <= i < r.total_texels()) by (nonlinear_arith)
                    requires
                        0 <= gx < r.side_texels(),
                        0 <= gy < r.side_texels(),
                        i == gy * r.side_texels() + gx,
                        r.total_texels() == r.side_texels() * r.side_texels(),
                ;
                lemma_texel_location(r.total_texels(), i, texel_bits);
                lemma_extract_zero(bit_offset(i, texel_bits) as u32, texel_bits);
            };
        }
        r
    }

    /// Build the mask that isolates a `bits`-wide field `offset` bits up a
    /// 32-bit word. The bit-packing mask arithmetic is concentrated here.
    pub fn make_mask(offset: u32, bits: u32) -> (r: u32)
        requires
            1 <= bits <= 32,
            offset + bits <= 32,
        ensures
            r == (low_mask(bits) << offset),
            offset == 0 ==> r == low_mask(bits),
    {
        let base = if bits >= 32 {
            0xffff_ffffu32
        } else {
            proof {
                assert(1u32 << bits >= 1u32) by (bit_vector)
                    requires
                        bits < 32,
                ;
            }
            (1u32 << bits) - 1
        };
        assert(base == low_mask(bits));
        proof {
            assert(base << 0u32 == base) by (bit_vector);
        }
        base << offset
    }

    /// Read texel `(gx, gy)`, addressed over the whole atlas.
    pub fn read_texel(&self, gx: usize, gy: usize) -> (r: u32)
        requires
            self.wf(),
            (gx as int) < self.side_texels(),
            (gy as int) < self.side_texels(),
        ensures
            r == self.texel(gx as int, gy as int),
    {
        proof {
            self.lemma_size_bounds();
        }
        let side = self.atlas_size * self.tex_size;
        proof {
            assert((gy as int) * (side as int) + (gx as int) < (side as int) * (side as int))
                by (nonlinear_arith)
                requires
                    0 <= (gx as int) < (side as int),
                    0 <= (gy as int) < (side as int),
            ;
            lemma_mul_nonnegative(gy as int, side as int);
        }
        let i = gy * side + gx;
        let bits = self.texel_bits;
        proof {
            assert(32u32 / bits >= 1 && 32u32 / bits <= 32) by (bit_vector)
                requires
                    bits == 1 || bits == 2 || bits == 4 || bits == 8 || bits == 16 || bits == 32,
            ;
        }
        let tpw = (32 / bits) as usize;
        let wi = i / tpw;
        proof {
            lemma_texel_location(self.total_texels(), i as int, bits);
            assert(wi == word_index(i as int, bits));
            assert(((i % tpw) as int) * (bits as int) == bit_offset(i as int, bits));
        }
        let off = ((i % tpw) as u32) * bits;
        proof {
            assert(off == bit_offset(i as int, bits));
        }
        let w = self.words[wi];
        (w >> off) & Self::make_mask(0, self.texel_bits)
    }

    /// Overwrite texel `(gx, gy)` with the low `texel_bits` bits of
    /// `value`, clearing exactly its own bit field and leaving every other
    /// texel untouched.
    pub fn write_texel(&mut self, gx: usize, gy: usize, value: u32)
        requires
            old(self).wf(),
            (gx as int) < old(self).side_texels(),
            (gy as int) < old(self).side_texels(),
        ensures
            final(self).wf(),
            final(self).same_config(old(self)),
            final(self).spec_words() == store_texel_in_words(
                old(self).spec_words(),
                old(self).texel_index(gx as int, gy as int),
                old(self).spec_texel_bits(),
                value,
            ),
            final(self).texel(gx as int, gy as int) == value & low_mask(
                old(self).spec_texel_bits(),
            ),
            forall|ax: int, ay: int|
                old(self).valid_texel(ax, ay) && (ax != gx || ay != gy)
                    ==> #[trigger] final(self).texel(ax, ay) == old(self).texel(ax, ay),
    {
        proof {
            self.lemma_size_bounds();
        }
        let side = self.atlas_size * self.tex_size;
        proof {
            assert((gy as int) * (side as int) + (gx as int) < (side as int) * (side as int))
                by (nonlinear_arith)
                requires
                    0 <= (gx as int) < (side as int),
                    0 <= (gy as int) < (side as int),
            ;
            lemma_mul_nonnegative(gy as int, side as int);
        }
        let i = gy * side + gx;
        let bits = self.texel_bits;
        proof {
            assert(32u32 / bits >= 1 && 32u32 / bits <= 32) by (bit_vector)
                requires
                    bits == 1 || bits == 2 || bits == 4 || bits == 8 || bits == 16 || bits == 32,
            ;
        }
        let tpw = (32 / bits) as usize;
        let wi = i / tpw;
        proof {
            lemma_texel_location(self.total_texels(), i as int, bits);
            assert(wi == word_index(i as int, bits));
            assert(((i % tpw) as int) * (bits as int) == bit_offset(i as int, bits));
        }
        let off = ((i % tpw) as u32) * bits;
        proof {
            assert(off == bit_offset(i as int, bits));
        }
        let w = self.words[wi];
        let field_mask = Self::make_mask(off, self.texel_bits);
        let value_mask = Self::make_mask(0, self.texel_bits);
        self.words[wi] = (w & !field_mask) | ((value & value_mask) << off);
        proof {
            let bits = self.texel_bits;
            let ii = old(self).texel_index(gx as int, gy as int);
            assert(self.words@[wi as int] == store_in_word(w, off, bits, value));
            assert(self.spec_words() == store_texel_in_words(old(self).spec_words(), ii, bits, value));
            lemma_texel_round_trip(old(self).spec_words(), old(self).total_texels(), ii, bits, value);
            assert forall|ax: int, ay: int|
                old(self).valid_texel(ax, ay) && (ax != gx || ay != gy) implies #[trigger] self
                .texel(ax, ay) == old(self).texel(ax, ay) by {
                let jj = old(self).texel_index(ax, ay);
                let oside = old(self).side_texels();
                let ototal = old(self).total_texels();
                assert(0 <= jj < ototal) by (nonlinear_arith)
                    requires
                        0 <= ax < oside,
                        0 <= ay < oside,
                        jj == ay * oside + ax,
                        ototal == oside * oside,
                ;
                if jj == ii {
                    lemma_texel_index_injective(
                        old(self).side_texels(),
                        ax,
                        ay,
                        gx as int,
                        gy as int,
                    );
                }
            };
        }
    }

    /// Generate a new tile texture in the atlas: every texel of tile
    /// `(x, y)` is overwritten with a freshly drawn random value masked to
    /// the texel depth; no texel of any other tile changes.
    pub fn generate_tile_tex(&mut self, x: usize, y: usize)
        requires
            old(self).wf(),
            x < old(self).spec_atlas_size(),
            y < old(self).spec_atlas_size(),
        ensures
            final(self).wf(),
            final(self).same_config(old(self)),
            agrees_outside_tile(old(self), final(self), x as int, y as int),
    {
        proof {
            self.lemma_size_bounds();
            lemma_mul_nonnegative(x as int, self.spec_tex_size() as int);
            lemma_mul_nonnegative(y as int, self.spec_tex_size() as int);
            lemma_mul_inequality(x as int + 1, self.spec_atlas_size() as int, self.spec_tex_size() as int);
            lemma_mul_inequality(y as int + 1, self.spec_atlas_size() as int, self.spec_tex_size() as int);
            assert((x as int + 1) * self.spec_tex_size() == (x as int) * self.spec_tex_size()
                + self.spec_tex_size()) by (nonlinear_arith);
            assert((y as int + 1) * self.spec_tex_size() == (y as int) * self.spec_tex_size()
                + self.spec_tex_size()) by (nonlinear_arith);
        }
        let base_x = x * self.tex_size;
        let base_y = y * self.tex_size;
        let mut gy = base_y;
        while gy < base_y + self.tex_size
            invariant
                self.wf(),
                self.same_config(old(self)),
                old(self).wf(),
                x < old(self).spec_atlas_size(),
                y < old(self).spec_atlas_size(),
                base_x == x * old(self).spec_tex_size(),
                base_y == y * old(self).spec_tex_size(),
                base_x + old(self).spec_tex_size() <= old(self).side_texels(),
                base_y + old(self).spec_tex_size() <= old(self).side_texels(),
                old(self).side_texels() <= usize::MAX,
                base_y <= gy <= base_y + old(self).spec_tex_size(),
                agrees_outside_tile(old(self), self, x as int, y as int),
            decreases base_y + self.spec_tex_size() - gy,
        {
            let mut gx = base_x;
            while gx < base_x + self.tex_size
                invariant
                    self.wf(),
                    self.same_config(old(self)),
                    old(self).wf(),
                    x < old(self).spec_atlas_size(),
                    y < old(self).spec_atlas_size(),
                    base_x == x * old(self).spec_tex_size(),
                    base_y == y * old(self).spec_tex_size(),
                    base_x + old(self).spec_tex_size() <= old(self).side_texels(),
                    base_y + old(self).spec_tex_size() <= old(self).side_texels(),
                    old(self).side_texels() <= usize::MAX,
                    base_y <= gy < base_y + old(self).spec_tex_size(),
                    base_x <= gx <= base_x + old(self).spec_tex_size(),
                    agrees_outside_tile(old(self), self, x as int, y as int),
                decreases base_x + self.spec_tex_size() - gx,
            {
                let ghost pre = *self;
                let value = random_word();
                self.write_texel(gx, gy, value);
                proof {
                    assert forall|ax: int, ay: int|
                        old(self).valid_texel(ax, ay) && !old(self).texel_in_tile(
                            ax,
                            ay,
                            x as int,
                            y as int,
                        ) implies #[trigger] self.texel(ax, ay) == old(self).texel(ax, ay) by {
                        assert(pre.texel(ax, ay) == old(self).texel(ax, ay));
                        assert(ax != gx || ay != gy);
                        assert(self.texel(ax, ay) == pre.texel(ax, ay));
                    };
                }
                gx = gx + 1;
            }
            gy = gy + 1;
        }
    }

    /// Bulk export of the packed words as bytes, each word little-endian,
    /// for the renderer to upload as an opaque image.
    pub fn as_bytes(&self) -> (r: Vec<u8>)
        requires
            self.wf(),
        ensures
            r@.len() == self.spec_words().len() * 4,
            forall|j: int|
                0 <= j < r@.len() ==> #[trigger] r@[j] == word_byte(
                    self.spec_words()[j / 4],
                    (j % 4) as u32,
                ),
    {
        proof {
            let umax = usize::MAX as int;
            let total_bits = self.total_texels() * self.spec_texel_bits();
            vstd::arithmetic::div_mod::lemma_div_is_ordered(total_bits + 31, umax, 32);
            lemma_fundamental_div_mod(umax, 32);
            lemma_mod_pos_bound(umax, 32);
            let wl = self.spec_words().len() as int;
            let q32 = umax / 32;
            assert(wl * 4 <= umax) by (nonlinear_arith)
                requires
                    0 <= wl <= q32,
                    32 * q32 <= umax,
            ;
        }
        let mut out: Vec<u8> = Vec::new();
        let mut k: usize = 0;
        while k < self.words.len()
            invariant
                k <= self.words@.len(),
                out@.len() == k * 4,
                self.words@.len() * 4 <= usize::MAX,
                forall|j: int|
                    0 <= j < out@.len() ==> #[trigger] out@[j] == word_byte(
                        self.spec_words()[j / 4],
                        (j % 4) as u32,
                    ),
            decreases self.words@.len() - k,
        {
            let w = self.words[k];
            proof {
                assert((w & 0xff) == texel_in_word(w, 0, 8) && ((w >> 8) & 0xff) == texel_in_word(
                    w,
                    8,
                    8,
                ) && ((w >> 16) & 0xff) == texel_in_word(w, 16, 8) && ((w >> 24) & 0xff)
                    == texel_in_word(w, 24, 8)) by (bit_vector);
                assert(((w & 0xff) as u8) == word_byte(w, 0) && (((w >> 8) & 0xff) as u8)
                    == word_byte(w, 1) && (((w >> 16) & 0xff) as u8) == word_byte(w, 2) && (((w
                    >> 24) & 0xff) as u8) == word_byte(w, 3)) by (bit_vector);
            }
            out.push((w & 0xff) as u8);
            out.push(((w >> 8) & 0xff) as u8);
            out.push(((w >> 16) & 0xff) as u8);
            out.push(((w >> 24) & 0xff) as u8);
            proof {
                assert forall|j: int| 0 <= j < out@.len() implies #[trigger] out@[j] == word_byte(
                    self.spec_words()[j / 4],
                    (j % 4) as u32,
                ) by {
                    if j >= k * 4 {
                        assert(j / 4 == k && j % 4 == j - k * 4) by (nonlinear_arith)
                            requires
                                k * 4 <= j < k * 4 + 4,
                        ;
                    }
                };
            }
            k = k + 1;
        }
        proof {
            assert(out@.len() == self.spec_words().len() * 4);
        }
        out
    }
}

/// Byte `b` (0 = least significant) of word `w`.
pub open spec fn word_byte(w: u32, b: u32) -> u8 {
    ((w >> (8 * b)) & 0xff) as u8
}

/// Law: whatever was stored and however often a tile was regenerated,
/// every texel reads back within its bit depth: extraction masks to
/// exactly `texel_bits` bits.
pub proof fn lemma_texel_within_depth(a: &TextureAtlas, gx: int, gy: int)
    ensures
        a.texel(gx, gy) <= low_mask(a.spec_texel_bits()),
{
    let w = a.spec_words()[word_index(a.texel_index(gx, gy), a.spec_texel_bits())];
    let off = bit_offset(a.texel_index(gx, gy), a.spec_texel_bits()) as u32;
    let bits = a.spec_texel_bits();
    assert(texel_in_word(w, off, bits) <= low_mask(bits)) by (bit_vector);
}

/// Law: regenerating one tile twice leaves every texel outside that tile
/// exactly as it started. Stability of the untouched tiles composes across
/// repeated regeneration, whatever values the two regenerations drew.
pub proof fn lemma_untouched_tiles_compose(
    a: &TextureAtlas,
    b: &TextureAtlas,
    c: &TextureAtlas,
    tx: int,
    ty: int,
)
    requires
        a.same_config(b),
        b.same_config(c),
        agrees_outside_tile(a, b, tx, ty),
        agrees_outside_tile(b, c, tx, ty),
    ensures
        agrees_outside_tile(a, c, tx, ty),
{
    assert forall|gx: int, gy: int|
        a.valid_texel(gx, gy) && !a.texel_in_tile(gx, gy, tx, ty) implies #[trigger] c.texel(
        gx,
        gy,
    ) == a.texel(gx, gy) by {
        assert(b.texel(gx, gy) == a.texel(gx, gy));
        assert(c.texel(gx, gy) == b.texel(gx, gy));
    };
}

} // verus!

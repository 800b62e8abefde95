//! The integer half of the gradient-noise field: the fixed permutation
//! table, lattice hashing through it, and the choice of gradient direction
//! at each lattice corner. The floating-point sampling and interpolation
//! that consume these live outside the verified library.

use vstd::prelude::*;

verus! {

/// The canonical permutation of the byte values 0..=255.
pub open spec fn base_permutation() -> Seq<u8> {
    seq![
        151u8, 160, 137, 91, 90, 15, 131, 13, 201, 95, 96, 53, 194, 233, 7, 225,
        140, 36, 103, 30, 69, 142, 8, 99, 37, 240, 21, 10, 23, 190, 6, 148,
        247, 120, 234, 75, 0, 26, 197, 62, 94, 252, 219, 203, 117, 35, 11, 32,
        57, 177, 33, 88, 237, 149, 56, 87, 174, 20, 125, 136, 171, 168, 68, 175,
        74, 165, 71, 134, 139, 48, 27, 166, 77, 146, 158, 231, 83, 111, 229, 122,
        60, 211, 133, 230, 220, 105, 92, 41, 55, 46, 245, 40, 244, 102, 143, 54,
        65, 25, 63, 161, 1, 216, 80, 73, 209, 76, 132, 187, 208, 89, 18, 169,
        200, 196, 135, 130, 116, 188, 159, 86, 164, 100, 109, 198, 173, 186, 3, 64,
        52, 217, 226, 250, 124, 123, 5, 202, 38, 147, 118, 126, 255, 82, 85, 212,
        207, 206, 59, 227, 47, 16, 58, 17, 182, 189, 28, 42, 223, 183, 170, 213,
        119, 248, 152, 2, 44, 154, 163, 70, 221, 153, 101, 155, 167, 43, 172, 9,
        129, 22, 39, 253, 19, 98, 108, 110, 79, 113, 224, 232, 178, 185, 112, 104,
        218, 246, 97, 228, 251, 34, 242, 193, 238, 210, 144, 12, 191, 179, 162, 241,
        81, 51, 145, 235, 249, 14, 239, 107, 49, 192, 214, 31, 181, 199, 106, 157,
        184, 84, 204, 176, 115, 121, 50, 45, 127, 4, 150, 254, 138, 236, 205, 93,
        222, 114, 67, 29, 24, 72, 243, 141, 128, 195, 78, 66, 215, 61, 156, 180,
    ]
}

/// Entry `i` of the 512-entry table: the base permutation written twice.
pub open spec fn perm_at(i: int) -> u8 {
    base_permutation()[i % 256]
}

/// The base permutation as a vector.
fn base_permutation_vec() -> (r: Vec<u8>)
    ensures
        r@ == base_permutation(),
{
    vec![
        151, 160, 137, 91, 90, 15, 131, 13, 201, 95, 96, 53, 194, 233, 7, 225,
        140, 36, 103, 30, 69, 142, 8, 99, 37, 240, 21, 10, 23, 190, 6, 148,
        247, 120, 234, 75, 0, 26, 197, 62, 94, 252, 219, 203, 117, 35, 11, 32,
        57, 177, 33, 88, 237, 149, 56, 87, 174, 20, 125, 136, 171, 168, 68, 175,
        74, 165, 71, 134, 139, 48, 27, 166, 77, 146, 158, 231, 83, 111, 229, 122,
        60, 211, 133, 230, 220, 105, 92, 41, 55, 46, 245, 40, 244, 102, 143, 54,
        65, 25, 63, 161, 1, 216, 80, 73, 209, 76, 132, 187, 208, 89, 18, 169,
        200, 196, 135, 130, 116, 188, 159, 86, 164, 100, 109, 198, 173, 186, 3, 64,
        52, 217, 226, 250, 124, 123, 5, 202, 38, 147, 118, 126, 255, 82, 85, 212,
        207, 206, 59, 227, 47, 16, 58, 17, 182, 189, 28, 42, 223, 183, 170, 213,
        119, 248, 152, 2, 44, 154, 163, 70, 221, 153, 101, 155, 167, 43, 172, 9,
        129, 22, 39, 253, 19, 98, 108, 110, 79, 113, 224, 232, 178, 185, 112, 104,
        218, 246, 97, 228, 251, 34, 242, 193, 238, 210, 144, 12, 191, 179, 162, 241,
        81, 51, 145, 235, 249, 14, 239, 107, 49, 192, 214, 31, 181, 199, 106, 157,
        184, 84, 204, 176, 115, 121, 50, 45, 127, 4, 150, 254, 138, 236, 205, 93,
        222, 114, 67, 29, 24, 72, 243, 141, 128, 195, 78, 66, 215, 61, 156, 180,
    ]
}

/// Width of the permutation table: the base permutation written twice, so
/// that an index of up to 511 needs no wrap.
pub const PERM_LEN: usize = 512;

/// The permutation table that hashes lattice coordinates.
pub struct NoiseTable {
    perm: Vec<u8>,
}

impl NoiseTable {
    /// The table holds 512 entries, entry `i` being `perm_at(i)`.
    pub closed spec fn wf(&self) -> bool {
        &&& self.perm@.len() == PERM_LEN
        &&& forall|i: int| 0 <= i < PERM_LEN ==> #[trigger] self.perm@[i] == perm_at(i)
    }

    /// Builds the fixed table; every call builds the same one.
    pub fn new() -> (r: NoiseTable)
        ensures
            r.wf(),
    {
        let base = base_permutation_vec();
        let mut perm: Vec<u8> = Vec::with_capacity(PERM_LEN);
        let mut i: usize = 0;
        while i < PERM_LEN
            invariant
                i <= PERM_LEN,
                base@ == base_permutation(),
                perm@.len() == i,
                forall|j: int| 0 <= j < i ==> #[trigger] perm@[j] == perm_at(j),
            decreases PERM_LEN - i,
        {
            perm.push(base[i % 256]);
            i = i + 1;
        }
        NoiseTable { perm }
    }

    /// Entry `i` of the table.
    pub fn perm(&self, i: usize) -> (r: u8)
        requires
            self.wf(),
            i < PERM_LEN,
        ensures
            r == perm_at(i as int),
    {
        self.perm[i]
    }

    /// The hash of the 2D lattice point `(xi, yi)`: `perm[perm[xi] + yi]`.
    pub fn hash2(&self, xi: usize, yi: usize) -> (r: u8)
        requires
            self.wf(),
            xi <= 256,
            yi <= 256,
        ensures
            r == hash2_of(xi as int, yi as int),
    {
        let a = self.perm(xi);
        self.perm(a as usize + yi)
    }

    /// The hash of the 3D lattice point `(xi, yi, zi)`:
    /// `perm[perm[perm[xi] + yi] + zi]`.
    pub fn hash3(&self, xi: usize, yi: usize, zi: usize) -> (r: u8)
        requires
            self.wf(),
            xi <= 256,
            yi <= 256,
            zi <= 256,
        ensures
            r == hash3_of(xi as int, yi as int, zi as int),
    {
        let a = self.perm(xi);
        let b = self.perm(a as usize + yi);
        self.perm(b as usize + zi)
    }
}

/// Hash of a 2D lattice point through the table.
pub open spec fn hash2_of(xi: int, yi: int) -> u8 {
    perm_at(perm_at(xi) as int + yi)
}

/// Hash of a 3D lattice point through the table.
pub open spec fn hash3_of(xi: int, yi: int, zi: int) -> u8 {
    perm_at(perm_at(perm_at(xi) as int + yi) + zi)
}

/// Reduces a non-negative lattice coordinate to a table index in 0..=255.
pub fn lattice_index(cell: usize) -> (r: usize)
    ensures
        r == cell as int % 256,
{
    let r = cell & 255;
    assert(cell & 255 == cell % 256) by (bit_vector);
    r
}

/// The four 2D gradient directions, chosen by an index in 0..=3.
pub open spec fn grad2_dir(k: int) -> (i8, i8) {
    if k == 0 {
        (1i8, 1i8)
    } else if k == 1 {
        (-1i8, 1i8)
    } else if k == 2 {
        (1i8, -1i8)
    } else {
        (-1i8, -1i8)
    }
}

/// The eight 3D gradient directions, chosen by an index in 0..=7.
pub open spec fn grad3_dir(k: int) -> (i8, i8, i8) {
    if k == 0 {
        (1i8, 1i8, 0i8)
    } else if k == 1 {
        (-1i8, 1i8, 0i8)
    } else if k == 2 {
        (1i8, -1i8, 0i8)
    } else if k == 3 {
        (-1i8, -1i8, 0i8)
    } else if k == 4 {
        (1i8, 0i8, 1i8)
    } else if k == 5 {
        (-1i8, 0i8, 1i8)
    } else if k == 6 {
        (1i8, 0i8, -1i8)
    } else {
        (-1i8, 0i8, -1i8)
    }
}

/// The 2D gradient picked by the low two bits of a hash.
pub fn gradient2d(hash: u8) -> (r: (i8, i8))
    ensures
        r == grad2_dir(hash as int % 4),
{
    let k = hash & 3;
    assert(hash & 3 == hash % 4) by (bit_vector);
    if k == 0 {
        (1, 1)
    } else if k == 1 {
        (-1, 1)
    } else if k == 2 {
        (1, -1)
    } else {
        (-1, -1)
    }
}

/// The 3D gradient picked by the low three bits of a hash.
pub fn gradient3d(hash: u8) -> (r: (i8, i8, i8))
    ensures
        r == grad3_dir(hash as int % 8),
{
    let k = hash & 7;
    assert(hash & 7 == hash % 8) by (bit_vector);
    if k == 0 {
        (1, 1, 0)
    } else if k == 1 {
        (-1, 1, 0)
    } else if k == 2 {
        (1, -1, 0)
    } else if k == 3 {
        (-1, -1, 0)
    } else if k == 4 {
        (1, 0, 1)
    } else if k == 5 {
        (-1, 0, 1)
    } else if k == 6 {
        (1, 0, -1)
    } else {
        (-1, 0, -1)
    }
}

/// The direction index that the coordinate hash
/// `(ix * 374761393 + iy * 668265263)`, taken as a 32-bit word, selects:
/// its value modulo 4.
pub open spec fn hashed_dir_index(ix: int, iy: int) -> int {
    (ix * 374761393 + iy * 668265263) % 4
}

/// Modulus of a 32-bit word.
const WORD: u64 = 4294967296;

proof fn lemma_word_mod4(x: int)
    ensures
        (x % (WORD as int)) % 4 == x % 4,
{
    vstd::arithmetic::div_mod::lemma_mod_mod(x, 4, 1073741824);
}

proof fn lemma_hashed_index(ix: int, iy: int, a: int, b: int, h: int)
    requires
        a == (ix + WORD) % (WORD as int),
        b == (iy + WORD) % (WORD as int),
        h == ((a * 374761393) % (WORD as int) + (b * 668265263) % (WORD as int)) % (WORD as int),
    ensures
        h % 4 == hashed_dir_index(ix, iy),
{
    let m = WORD as int;
    let pa = a * 374761393;
    let pb = b * 668265263;
    lemma_word_mod4(pa % m + pb % m);
    vstd::arithmetic::div_mod::lemma_add_mod_noop(pa % m, pb % m, 4);
    lemma_word_mod4(pa);
    lemma_word_mod4(pb);
    lemma_word_mod4(ix + WORD);
    lemma_word_mod4(iy + WORD);
    assert((ix + WORD) % 4 == ix % 4) by {
        vstd::arithmetic::div_mod::lemma_add_mod_noop(ix, m, 4);
    }
    assert((iy + WORD) % 4 == iy % 4) by {
        vstd::arithmetic::div_mod::lemma_add_mod_noop(iy, m, 4);
    }
    vstd::arithmetic::div_mod::lemma_mul_mod_noop_left(a, 374761393, 4);
    vstd::arithmetic::div_mod::lemma_mul_mod_noop_left(ix, 374761393, 4);
    vstd::arithmetic::div_mod::lemma_mul_mod_noop_left(b, 668265263, 4);
    vstd::arithmetic::div_mod::lemma_mul_mod_noop_left(iy, 668265263, 4);
    vstd::arithmetic::div_mod::lemma_add_mod_noop(ix * 374761393, iy * 668265263, 4);
}

/// The 2D gradient at lattice point `(ix, iy)` chosen by hashing the
/// coordinates themselves, without the permutation table: the product-sum
/// `ix * 374761393 + iy * 668265263` wraps as a 32-bit word and its value
/// modulo 4 picks the direction.
pub fn hashed_gradient2d(ix: i32, iy: i32) -> (r: (i8, i8))
    ensures
        r == grad2_dir(hashed_dir_index(ix as int, iy as int)),
{
    let a: u64 = ((ix as i64 + WORD as i64) as u64) % WORD;
    let b: u64 = ((iy as i64 + WORD as i64) as u64) % WORD;
    let h: u64 = ((a * 374761393) % WORD + (b * 668265263) % WORD) % WORD;
    proof {
        lemma_hashed_index(ix as int, iy as int, a as int, b as int, h as int);
    }
    let k: u64 = h % 4;
    if k == 0 {
        (1, 1)
    } else if k == 1 {
        (-1, 1)
    } else if k == 2 {
        (1, -1)
    } else {
        (-1, -1)
    }
}

} // verus!

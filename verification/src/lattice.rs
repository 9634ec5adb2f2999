//! The lattice as it is stored, and the operations that read and change it.

use vstd::prelude::*;
use crate::model::LatticeModel;
use crate::model::spins_of_bools;
use crate::random::fill_random;
use crate::random::random_index;
use crate::random::thread_rng;
use crate::spin::Spin;
use crate::theory::lemma_place;
use crate::theory::lemma_wrap;

verus! {

/// The side length of the lattice that [`Lattice::new`] makes.
pub const LATTICE_SIZE: usize = 500;

/// The largest side length a lattice can have: with it every energy fits
/// in an `i64`, whatever the coupling and the field.
pub const MAX_SIZE: usize = 32768;

/// A square grid of spins with periodic boundaries, a coupling constant
/// and an external field, both in integer units of energy.
#[derive(Debug)]
pub struct Lattice {
    size: usize,
    spins: Vec<Spin>,
    j: i32,
    h: i32,
}

impl View for Lattice {
    type V = LatticeModel;

    closed spec fn view(&self) -> LatticeModel {
        LatticeModel { size: self.size as nat, spins: self.spins@, j: self.j as int, h: self.h as int }
    }
}

/// Whether a lattice of side `size` can be built from `count` spins.
pub open spec fn shape_fits(size: usize, count: nat) -> bool {
    1 <= size <= MAX_SIZE && count == size * size
}

impl Clone for Lattice {
    fn clone(&self) -> (r: Lattice)
        ensures
            r@ == self@,
    {
        let spins = self.spins.clone();
        assert(spins@ =~= self.spins@);
        Lattice { size: self.size, spins, j: self.j, h: self.h }
    }
}

impl Lattice {
    /// The lattice is a square grid that is not empty and no larger than
    /// [`MAX_SIZE`] a side.
    pub open spec fn wf(&self) -> bool {
        self@.wf() && self@.size <= MAX_SIZE
    }

    /// A lattice of side `size` with the given spins in row-major order,
    /// coupling `j` and no field. Refused when the side is zero or larger
    /// than [`MAX_SIZE`], or when the number of spins is not its square.
    pub fn from_spins(size: usize, j: i32, spins: Vec<Spin>) -> (r: Option<Lattice>)
        ensures
            r.is_some() <==> shape_fits(size, spins@.len()),
            r.is_some() ==> r.unwrap()@ == (LatticeModel {
                size: size as nat,
                spins: spins@,
                j: j as int,
                h: 0,
            }) && r.unwrap().wf(),
    {
        if size < 1 || size > MAX_SIZE {
            return None;
        }
        assert(size * size <= MAX_SIZE * MAX_SIZE) by (nonlinear_arith)
            requires
                size <= MAX_SIZE,
        ;
        if spins.len() != size * size {
            return None;
        }
        Some(Lattice { size, spins, j, h: 0 })
    }

    /// A lattice whose spins are read from booleans, `true` for up; see
    /// [`Lattice::from_spins`] for when it is refused.
    pub fn from_bools(size: usize, j: i32, bits: &Vec<bool>) -> (r: Option<Lattice>)
        ensures
            r.is_some() <==> shape_fits(size, bits@.len()),
            r.is_some() ==> r.unwrap()@ == (LatticeModel {
                size: size as nat,
                spins: spins_of_bools(bits@),
                j: j as int,
                h: 0,
            }) && r.unwrap().wf(),
    {
        let mut spins: Vec<Spin> = Vec::new();
        let mut k: usize = 0;
        while k < bits.len()
            invariant
                k <= bits.len(),
                spins@.len() == k,
                forall|i: int| 0 <= i < k ==> spins@[i] == spins_of_bools(bits@)[i],
            decreases bits.len() - k,
        {
            spins.push(Spin::from(bits[k]));
            k = k + 1;
        }
        assert(spins@ =~= spins_of_bools(bits@));
        Lattice::from_spins(size, j, spins)
    }

    /// A lattice of side `size` whose spins are drawn at random, each up
    /// or down with equal chance, with coupling `j` and no field.
    fn random(size: usize, j: i32) -> (r: Lattice)
        requires
            1 <= size <= MAX_SIZE,
        ensures
            r.wf(),
            r@.size == size,
            r@.j == j,
            r@.h == 0,
    {
        proof {
            lemma_index_bound(size as int, 0, 0);
        }
        let mut rng = thread_rng();
        let mut bits: Vec<bool> = Vec::new();
        bits.resize(size * size, false);
        fill_random(&mut rng, &mut bits);
        Lattice::from_bools(size, j, &bits).unwrap()
    }

    /// A lattice of side [`LATTICE_SIZE`] with random spins, coupling `j`
    /// and no field.
    pub fn new(j: i32) -> (r: Lattice)
        ensures
            r.wf(),
            r@.size == LATTICE_SIZE,
            r@.j == j,
            r@.h == 0,
    {
        Lattice::random(LATTICE_SIZE, j)
    }

    /// A lattice of side `size` with random spins, coupling `j` and no
    /// field. Refused when the side is zero or larger than [`MAX_SIZE`].
    pub fn with_size(size: usize, j: i32) -> (r: Option<Lattice>)
        ensures
            r.is_some() <==> 1 <= size <= MAX_SIZE,
            r.is_some() ==> r.unwrap().wf() && r.unwrap()@.size == size && r.unwrap()@.j == j
                && r.unwrap()@.h == 0,
    {
        if size < 1 || size > MAX_SIZE {
            None
        } else {
            Some(Lattice::random(size, j))
        }
    }

    /// The side length.
    pub fn size(&self) -> (n: usize)
        ensures
            n == self@.size,
    {
        self.size
    }

    /// The coupling constant.
    pub fn coupling(&self) -> (j: i32)
        ensures
            j == self@.j,
    {
        self.j
    }

    /// The external field.
    pub fn field(&self) -> (h: i32)
        ensures
            h == self@.h,
    {
        self.h
    }

    /// Sets the external field and leaves the spins alone.
    pub fn set_field(&mut self, h: i32)
        ensures
            final(self)@ == old(self)@.with_field(h as int),
    {
        self.h = h;
    }

    /// The spins in row-major order: site `(x, y)` stands at `y * size + x`.
    pub fn get_spins(&self) -> (spins: &Vec<Spin>)
        ensures
            spins@ == self@.spins,
    {
        &self.spins
    }

    /// Flips the spin at column `x` of row `y`.
    pub fn flip_spin(&mut self, x: usize, y: usize)
        requires
            old(self).wf(),
            old(self)@.in_range(x as int, y as int),
        ensures
            final(self)@ == old(self)@.flip(x as int, y as int),
            final(self).wf(),
            old(self)@.size >= 2 || old(self)@.j == 0 ==> final(self)@.energy() == old(self)@.energy()
                + old(self)@.energy_diff(x as int, y as int),
    {
        proof {
            lemma_index_bound(self.size as int, x as int, y as int);
            if self@.size >= 2 || self@.j == 0 {
                self@.lemma_flip_energy(x as int, y as int);
            }
        }
        let k = y * self.size + x;
        let mut s = self.spins[k];
        s.flip();
        self.spins.set(k, s);
    }

    /// Flips a site chosen at random, each column and each row with equal
    /// chance, and returns its column and row.
    pub fn flip_random_spin(&mut self) -> (site: (usize, usize))
        requires
            old(self).wf(),
        ensures
            old(self)@.in_range(site.0 as int, site.1 as int),
            final(self)@ == old(self)@.flip(site.0 as int, site.1 as int),
            final(self).wf(),
    {
        let mut rng = thread_rng();
        let x = random_index(&mut rng, self.size);
        let y = random_index(&mut rng, self.size);
        self.flip_spin(x, y);
        (x, y)
    }

    /// The energy that flipping the spin at `(x, y)` would add, computed
    /// from its four neighbours without touching the lattice.
    pub fn energy_diff(&self, x: usize, y: usize) -> (e: i64)
        requires
            self.wf(),
            self@.in_range(x as int, y as int),
        ensures
            e == self@.energy_diff(x as int, y as int),
    {
        let l = self.size;
        let right = (x + 1) % l;
        let up = (y + 1) % l;
        let left = if x == 0 {
            l - 1
        } else {
            x - 1
        };
        let down = if y == 0 {
            l - 1
        } else {
            y - 1
        };
        proof {
            lemma_wrap(l as int, x as int);
            lemma_wrap(l as int, y as int);
            lemma_index_bound(l as int, right as int, y as int);
            lemma_index_bound(l as int, x as int, up as int);
            lemma_index_bound(l as int, left as int, y as int);
            lemma_index_bound(l as int, x as int, down as int);
            lemma_index_bound(l as int, x as int, y as int);
        }
        let mut neighbours: i32 = 0;
        neighbours = neighbours + i32::from(self.spins[y * l + right]);
        neighbours = neighbours + i32::from(self.spins[up * l + x]);
        neighbours = neighbours + i32::from(self.spins[y * l + left]);
        neighbours = neighbours + i32::from(self.spins[down * l + x]);
        let here: i64 = i32::from(self.spins[y * l + x]) as i64;
        assert(-0x2_0000_0000 <= (self.j as int) * (neighbours as int) <= 0x2_0000_0000)
            by (nonlinear_arith)
            requires
                -0x8000_0000 <= (self.j as int) < 0x8000_0000,
                -4 <= (neighbours as int) <= 4,
        ;
        let pull: i64 = (self.j as i64) * (neighbours as i64) + (self.h as i64);
        assert(2 * here * pull == 2 * self@.sigma(x as int, y as int) * (self@.j
            * self@.neighbour_sum(x as int, y as int) + self@.h)) by (nonlinear_arith)
            requires
                here == self@.sigma(x as int, y as int),
                pull == self@.j * self@.neighbour_sum(x as int, y as int) + self@.h,
        ;
        let twice: i64 = 2 * pull;
        if here == 1 {
            assert(2 * here * pull == twice) by (nonlinear_arith)
                requires
                    here == 1,
                    twice == 2 * pull,
            ;
            twice
        } else {
            assert(2 * here * pull == -twice) by (nonlinear_arith)
                requires
                    here == -1,
                    twice == 2 * pull,
            ;
            -twice
        }
    }

    /// The total energy `H = -j * bonds - h * net_spin`, with every
    /// nearest-neighbour bond of the torus counted once: each site brings
    /// the bond to its right-hand and the bond to its upper neighbour.
    pub fn energy(&self) -> (e: i64)
        requires
            self.wf(),
        ensures
            e == self@.energy(),
    {
        let l = self.size;
        let mut bonds: i64 = 0;
        let mut net: i64 = 0;
        let mut y: usize = 0;
        proof {
            lemma_index_bound(l as int, 0, 0);
            assert(0 * l == 0);
        }
        while y < l
            invariant
                self.wf(),
                l == self.size,
                y <= l,
                0 <= y * l <= l * l <= 0x4000_0000,
                bonds == self@.bond_sum((y * l) as nat),
                net == self@.spin_sum((y * l) as nat),
                -2 * (y * l) <= bonds <= 2 * (y * l),
                -(y * l) <= net <= y * l,
            decreases l - y,
        {
            let mut x: usize = 0;
            proof {
                lemma_index_bound(l as int, 0, y as int);
            }
            while x < l
                invariant
                    self.wf(),
                    l == self.size,
                    y < l,
                    x <= l,
                    0 <= y * l <= l * l - l,
                    l * l <= 0x4000_0000,
                    bonds == self@.bond_sum((y * l + x) as nat),
                    net == self@.spin_sum((y * l + x) as nat),
                    -2 * (y * l + x) <= bonds <= 2 * (y * l + x),
                    -(y * l + x) <= net <= y * l + x,
                decreases l - x,
            {
                let right = (x + 1) % l;
                let up = (y + 1) % l;
                proof {
                    lemma_wrap(l as int, x as int);
                    lemma_wrap(l as int, y as int);
                    lemma_index_bound(l as int, x as int, y as int);
                    lemma_index_bound(l as int, right as int, y as int);
                    lemma_index_bound(l as int, x as int, up as int);
                }
                let here: i32 = i32::from(self.spins[y * l + x]);
                let beside: i32 = i32::from(self.spins[y * l + right]);
                let above: i32 = i32::from(self.spins[up * l + x]);
                assert(-2 <= here * (beside + above) <= 2) by (nonlinear_arith)
                    requires
                        here == 1 || here == -1,
                        beside == 1 || beside == -1,
                        above == 1 || above == -1,
                ;
                bonds = bonds + (here * (beside + above)) as i64;
                net = net + here as i64;
                x = x + 1;
            }
            proof {
                assert(y * l + l == (y + 1) * l) by (nonlinear_arith);
                assert((y + 1) * l <= l * l) by (nonlinear_arith)
                    requires
                        y + 1 <= l,
                ;
            }
            y = y + 1;
        }
        assert(y * l == self@.sites());
        let j = self.j as i64;
        let h = self.h as i64;
        assert(-0x4000_0000_0000_0000 <= j * bonds <= 0x4000_0000_0000_0000) by (nonlinear_arith)
            requires
                -0x8000_0000 <= j <= 0x8000_0000,
                -0x8000_0000 <= bonds <= 0x8000_0000,
        ;
        assert(-0x2000_0000_0000_0000 <= h * net <= 0x2000_0000_0000_0000) by (nonlinear_arith)
            requires
                -0x8000_0000 <= h <= 0x8000_0000,
                -0x4000_0000 <= net <= 0x4000_0000,
        ;
        -(j * bonds + h * net)
    }

    /// The sum of all spins, which is the number of up-spins less the
    /// number of down-spins; the magnetization is this sum divided by the
    /// number of sites, and so lies between `-1` and `1`.
    pub fn net_spin(&self) -> (m: i64)
        requires
            self.wf(),
        ensures
            m == self@.net_spin(),
            m == self@.up_count(self@.sites()) - self@.down_count(self@.sites()),
            self@.up_count(self@.sites()) + self@.down_count(self@.sites()) == self@.sites(),
            -(self@.sites() as int) <= m <= self@.sites(),
    {
        proof {
            lemma_index_bound(self.size as int, 0, 0);
        }
        let n = self.spins.len();
        let mut net: i64 = 0;
        let mut k: usize = 0;
        while k < n
            invariant
                self.wf(),
                n == self.spins.len(),
                n <= 0x4000_0000,
                k <= n,
                net == self@.spin_sum(k as nat),
                net == self@.up_count(k as nat) - self@.down_count(k as nat),
                self@.up_count(k as nat) + self@.down_count(k as nat) == k,
            decreases n - k,
        {
            net = net + i32::from(self.spins[k]) as i64;
            k = k + 1;
        }
        net
    }

    /// The grid as text, one row a line, `+` for up and `-` for down.
    pub fn to_string(&self) -> (s: String)
        requires
            self.wf(),
        ensures
            s@ == self@.text(),
    {
        let l = self.size;
        let mut out = String::new();
        let mut y: usize = 0;
        proof {
            reveal_strlit("\n");
            assert(out@ =~= self@.text_upto(0));
        }
        while y < l
            invariant
                self.wf(),
                l == self.size,
                y <= l,
                out@ == self@.text_upto(y as nat),
            decreases l - y,
        {
            let mut x: usize = 0;
            proof {
                assert(out@ =~= self@.text_upto(y as nat) + self@.row_text(y as int, 0));
            }
            while x < l
                invariant
                    self.wf(),
                    l == self.size,
                    y < l,
                    x <= l,
                    out@ == self@.text_upto(y as nat) + self@.row_text(y as int, x as nat),
                decreases l - x,
            {
                proof {
                    lemma_index_bound(l as int, x as int, y as int);
                }
                let glyph = self.spins[y * l + x].to_string();
                out.append(glyph.as_str());
                proof {
                    assert(self@.row_text(y as int, (x + 1) as nat) =~= self@.row_text(
                        y as int,
                        x as nat,
                    ).push(self@.at(x as int, y as int).glyph()));
                    assert(out@ =~= self@.text_upto(y as nat) + self@.row_text(
                        y as int,
                        (x + 1) as nat,
                    ));
                }
                x = x + 1;
            }
            out.append("\n");
            proof {
                reveal_strlit("\n");
                assert(out@ =~= self@.text_upto((y + 1) as nat));
            }
            y = y + 1;
        }
        out
    }
}

/// On a lattice no larger than [`MAX_SIZE`] a side, the place of every
/// site fits in every machine word: there are at most `2^30` of them.
pub proof fn lemma_index_bound(l: int, x: int, y: int)
    requires
        0 <= x < l <= MAX_SIZE,
        0 <= y < l,
    ensures
        0 <= y * l + x < l * l,
        0 <= y * l <= l * l - l,
        l * l <= 0x4000_0000,
        (y * l + x) % l == x,
        (y * l + x) / l == y,
{
    lemma_place(l, x, y);
    assert(l * l <= 32768 * 32768) by (nonlinear_arith)
        requires
            0 <= l <= 32768,
    ;
    assert(0 <= y * l <= (l - 1) * l) by (nonlinear_arith)
        requires
            0 <= y <= l - 1,
            0 < l,
    ;
    assert((l - 1) * l == l * l - l) by (nonlinear_arith);
}

} // verus!

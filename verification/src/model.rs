//! The mathematical model of a lattice: a square periodic grid of spins
//! with a coupling constant and an external field, and its Hamiltonian.

use vstd::prelude::*;
use crate::spin::Spin;

verus! {

/// What a lattice is, apart from how it is stored: its side length, its
/// spins in row-major order, the coupling `j` and the field `h`.
pub struct LatticeModel {
    pub size: nat,
    pub spins: Seq<Spin>,
    pub j: int,
    pub h: int,
}

impl LatticeModel {
    /// The grid is square and not empty.
    pub open spec fn wf(self) -> bool {
        &&& self.size >= 1
        &&& self.spins.len() == self.size * self.size
    }

    /// The number of sites.
    pub open spec fn sites(self) -> nat {
        self.size * self.size
    }

    /// Both coordinates lie on the grid.
    pub open spec fn in_range(self, x: int, y: int) -> bool {
        0 <= x < self.size && 0 <= y < self.size
    }

    /// The place of site `(x, y)` in the row-major sequence.
    pub open spec fn index(self, x: int, y: int) -> int {
        y * self.size + x
    }

    /// The spin at column `x` of row `y`.
    pub open spec fn at(self, x: int, y: int) -> Spin {
        self.spins[self.index(x, y)]
    }

    /// The spin at `(x, y)` as `+1` or `-1`.
    pub open spec fn sigma(self, x: int, y: int) -> int {
        self.at(x, y).value()
    }

    /// The coordinate after `c` on the torus.
    pub open spec fn next(self, c: int) -> int {
        (c + 1) % (self.size as int)
    }

    /// The coordinate before `c` on the torus.
    pub open spec fn prev(self, c: int) -> int {
        (c + self.size - 1) % (self.size as int)
    }

    /// The two bonds that site `(x, y)` owns: the one to its right-hand
    /// neighbour and the one to its upper neighbour.
    pub open spec fn bond_term(self, x: int, y: int) -> int {
        self.sigma(x, y) * (self.sigma(self.next(x), y) + self.sigma(x, self.next(y)))
    }

    /// The bonds owned by the first `n` sites in row-major order.
    pub open spec fn bond_sum(self, n: nat) -> int
        decreases n,
    {
        if n == 0 {
            0
        } else {
            self.bond_sum((n - 1) as nat) + self.bond_term(
                (n - 1) % (self.size as int),
                (n - 1) / (self.size as int),
            )
        }
    }

    /// The sum of the first `n` spins in row-major order.
    pub open spec fn spin_sum(self, n: nat) -> int
        decreases n,
    {
        if n == 0 {
            0
        } else {
            self.spin_sum((n - 1) as nat) + self.spins[n - 1].value()
        }
    }

    /// How many of the first `n` spins point up.
    pub open spec fn up_count(self, n: nat) -> nat
        decreases n,
    {
        if n == 0 {
            0
        } else {
            self.up_count((n - 1) as nat) + if self.spins[n - 1].is_up() {
                1nat
            } else {
                0nat
            }
        }
    }

    /// How many of the first `n` spins point down.
    pub open spec fn down_count(self, n: nat) -> nat
        decreases n,
    {
        if n == 0 {
            0
        } else {
            self.down_count((n - 1) as nat) + if self.spins[n - 1].is_up() {
                0nat
            } else {
                1nat
            }
        }
    }

    /// The sum of the products of the two spins of every nearest-neighbour
    /// bond, each bond taken once.
    pub open spec fn bonds(self) -> int {
        self.bond_sum(self.sites())
    }

    /// The sum of all spins: up-spins minus down-spins.
    pub open spec fn net_spin(self) -> int {
        self.spin_sum(self.sites())
    }

    /// The Hamiltonian `H = -j * bonds - h * net_spin`.
    pub open spec fn energy(self) -> int {
        -(self.j * self.bonds() + self.h * self.net_spin())
    }

    /// The sum of the four neighbours of `(x, y)` on the torus.
    pub open spec fn neighbour_sum(self, x: int, y: int) -> int {
        self.sigma(self.next(x), y) + self.sigma(x, self.next(y)) + self.sigma(self.prev(x), y)
            + self.sigma(x, self.prev(y))
    }

    /// What flipping `(x, y)` would add to the energy.
    pub open spec fn energy_diff(self, x: int, y: int) -> int {
        2 * self.sigma(x, y) * (self.j * self.neighbour_sum(x, y) + self.h)
    }

    /// The lattice with the spin at `(x, y)` flipped.
    pub open spec fn flip(self, x: int, y: int) -> LatticeModel {
        LatticeModel {
            spins: self.spins.update(self.index(x, y), self.at(x, y).flipped()),
            ..self
        }
    }

    /// The lattice with every spin flipped.
    pub open spec fn inverted(self) -> LatticeModel {
        LatticeModel {
            spins: Seq::new(self.spins.len(), |k: int| self.spins[k].flipped()),
            ..self
        }
    }

    /// The lattice turned by one column: the new column `x` is the old
    /// column after `x`, so the old column `0` becomes the last one.
    pub open spec fn rotated(self) -> LatticeModel {
        LatticeModel {
            spins: Seq::new(
                self.spins.len(),
                |k: int| self.at(self.next(k % (self.size as int)), k / (self.size as int)),
            ),
            ..self
        }
    }

    /// The lattice with the field set to `h`.
    pub open spec fn with_field(self, h: int) -> LatticeModel {
        LatticeModel { h, ..self }
    }

    /// The first `n` glyphs of row `y`.
    pub open spec fn row_text(self, y: int, n: nat) -> Seq<char> {
        Seq::new(n, |x: int| self.at(x, y).glyph())
    }

    /// The first `rows` rows as text, each closed by a line feed.
    pub open spec fn text_upto(self, rows: nat) -> Seq<char>
        decreases rows,
    {
        if rows == 0 {
            Seq::empty()
        } else {
            self.text_upto((rows - 1) as nat) + self.row_text(rows - 1, self.size).push('\n')
        }
    }

    /// The whole grid as text, row by row.
    pub open spec fn text(self) -> Seq<char> {
        self.text_upto(self.size)
    }
}

/// The spins that a sequence of booleans stands for: `true` is up.
pub open spec fn spins_of_bools(bits: Seq<bool>) -> Seq<Spin> {
    Seq::new(
        bits.len(),
        |k: int|
            if bits[k] {
                Spin::UP
            } else {
                Spin::DOWN
            },
    )
}

/// The booleans that stand for a sequence of spins: up is `true`.
pub open spec fn bools_of_spins(spins: Seq<Spin>) -> Seq<bool> {
    Seq::new(spins.len(), |k: int| spins[k].is_up())
}

} // verus!

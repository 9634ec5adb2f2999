//! What holds of every lattice: how the energy answers to a flip, to a
//! turn of the grid and to the inversion of all spins.

use vstd::prelude::*;
use vstd::arithmetic::div_mod::lemma_fundamental_div_mod;
use vstd::arithmetic::div_mod::lemma_fundamental_div_mod_converse;
use vstd::arithmetic::div_mod::lemma_mod_add_multiples_vanish;
use vstd::arithmetic::div_mod::lemma_mod_bound;
use vstd::arithmetic::div_mod::lemma_mod_self_0;
use vstd::arithmetic::div_mod::lemma_small_mod;
use crate::model::LatticeModel;

verus! {

/// On a torus of side `l`, the coordinate after `c` is `c + 1`, or `0`
/// behind the last one; the coordinate before `c` is `c - 1`, or the last
/// one before `0`.
pub proof fn lemma_wrap(l: int, c: int)
    requires
        0 <= c < l,
    ensures
        (c + 1) % l == if c == l - 1 {
            0
        } else {
            c + 1
        },
        (c + l - 1) % l == if c == 0 {
            l - 1
        } else {
            c - 1
        },
{
    if c == l - 1 {
        lemma_mod_self_0(l);
    } else {
        lemma_small_mod((c + 1) as nat, l as nat);
    }
    if c == 0 {
        lemma_small_mod((l - 1) as nat, l as nat);
    } else {
        lemma_mod_add_multiples_vanish(c - 1, l);
        lemma_small_mod((c - 1) as nat, l as nat);
    }
}

/// The place `k` of a site in row-major order gives back its column
/// `k % l` and its row `k / l`, and both lie on the grid.
pub proof fn lemma_coords(l: int, k: int)
    requires
        0 < l,
        0 <= k < l * l,
    ensures
        0 <= k % l < l,
        0 <= k / l < l,
        (k / l) * l + k % l == k,
{
    lemma_fundamental_div_mod(k, l);
    lemma_mod_bound(k, l);
    let q = k / l;
    let r = k % l;
    assert(l * q == q * l) by (nonlinear_arith);
    assert(q < l) by (nonlinear_arith)
        requires
            q * l + r == k,
            0 <= r,
            k < l * l,
            0 < l,
    ;
    assert(0 <= q) by (nonlinear_arith)
        requires
            q * l + r == k,
            r < l,
            0 <= k,
            0 < l,
    ;
}

/// The site `(x, y)` stands at a place of its own inside the sequence,
/// from which its coordinates can be read back.
pub proof fn lemma_place(l: int, x: int, y: int)
    requires
        0 <= x < l,
        0 <= y < l,
    ensures
        0 <= y * l + x < l * l,
        (y * l + x) % l == x,
        (y * l + x) / l == y,
{
    assert(0 <= y * l <= (l - 1) * l) by (nonlinear_arith)
        requires
            0 <= y <= l - 1,
            0 < l,
    ;
    assert((l - 1) * l == l * l - l) by (nonlinear_arith);
    lemma_fundamental_div_mod_converse(y * l + x, l, y, x);
}

/// The arithmetic of a flip: with bonds `b` and net spin `m`, a spin `s`
/// whose neighbours sum to `ru + w + d` changes the energy by
/// `2 * s * (j * (ru + w + d) + h)` when the bonds move by
/// `-2 * s * (ru + w + d)` and the net spin by `-2 * s`.
pub proof fn lemma_flip_algebra(j: int, h: int, b: int, m: int, s: int, ru: int, w: int, d: int)
    ensures
        -(j * (b + (-2 * s * ru + -2 * s * w + -2 * s * d)) + h * (m - 2 * s)) == -(j * b + h * m)
            + 2 * s * (j * (ru + w + d) + h),
        j == 0 ==> -(h * (m - 2 * s)) == -(h * m) + 2 * s * h,
{
    let n = ru + w + d;
    let shift = -2 * s * ru + -2 * s * w + -2 * s * d;
    assert(shift == -2 * (s * n)) by (nonlinear_arith)
        requires
            n == ru + w + d,
            shift == -2 * s * ru + -2 * s * w + -2 * s * d,
    ;
    assert(j * (b + shift) == j * b + j * shift) by (nonlinear_arith);
    assert(j * shift == -2 * (s * (j * n))) by (nonlinear_arith)
        requires
            shift == -2 * (s * n),
    ;
    assert(h * (m - 2 * s) == h * m - 2 * (s * h)) by (nonlinear_arith);
    assert(2 * s * (j * n + h) == 2 * (s * (j * n)) + 2 * (s * h)) by (nonlinear_arith);
    assert(2 * s * h == 2 * (s * h)) by (nonlinear_arith);
}

impl LatticeModel {
    /// Flipping `(x0, y0)` changes the spin there and no other, and leaves
    /// the shape, the coupling and the field as they were.
    pub proof fn lemma_flip_at(self, x0: int, y0: int, x: int, y: int)
        requires
            self.wf(),
            self.in_range(x0, y0),
            self.in_range(x, y),
        ensures
            self.flip(x0, y0).wf(),
            self.flip(x0, y0).at(x, y) == if x == x0 && y == y0 {
                self.at(x, y).flipped()
            } else {
                self.at(x, y)
            },
            self.flip(x0, y0).sigma(x, y) == if x == x0 && y == y0 {
                -self.sigma(x, y)
            } else {
                self.sigma(x, y)
            },
    {
        lemma_place(self.size as int, x0, y0);
        lemma_place(self.size as int, x, y);
    }

    /// **Double flip.** Flipping the same site twice gives back the
    /// lattice, and with it the energy.
    pub proof fn lemma_double_flip(self, x: int, y: int)
        requires
            self.wf(),
            self.in_range(x, y),
        ensures
            self.flip(x, y).flip(x, y) == self,
            self.flip(x, y).flip(x, y).energy() == self.energy(),
    {
        lemma_place(self.size as int, x, y);
        assert(self.flip(x, y).flip(x, y).spins =~= self.spins);
    }

    /// The sum of the first `n` spins after a flip of `(x0, y0)`: less by
    /// twice the old spin there once the sum has reached that site.
    pub proof fn lemma_flip_spin_sum(self, x0: int, y0: int, n: nat)
        requires
            self.wf(),
            self.in_range(x0, y0),
            n <= self.sites(),
        ensures
            self.flip(x0, y0).spin_sum(n) == self.spin_sum(n) - if self.index(x0, y0) < n {
                2 * self.sigma(x0, y0)
            } else {
                0
            },
        decreases n,
    {
        lemma_place(self.size as int, x0, y0);
        if n > 0 {
            self.lemma_flip_spin_sum(x0, y0, (n - 1) as nat);
        }
    }

    /// What a flip of `(x0, y0)` does to the two bonds that `(x, y)`
    /// owns: they change for the site itself, for its left-hand and for
    /// its lower neighbour, and for no other site.
    pub proof fn lemma_flip_bond_term(self, x0: int, y0: int, x: int, y: int)
        requires
            self.wf(),
            self.size >= 2,
            self.in_range(x0, y0),
            self.in_range(x, y),
        ensures
            self.flip(x0, y0).bond_term(x, y) - self.bond_term(x, y) == self.bond_shift(
                x0,
                y0,
                self.index(x, y),
            ),
    {
        let l = self.size as int;
        let f = self.flip(x0, y0);
        lemma_wrap(l, x);
        lemma_wrap(l, y);
        lemma_wrap(l, x0);
        lemma_wrap(l, y0);
        lemma_place(l, x, y);
        lemma_place(l, x0, y0);
        lemma_place(l, self.prev(x0), y0);
        lemma_place(l, x0, self.prev(y0));
        self.lemma_flip_at(x0, y0, x, y);
        self.lemma_flip_at(x0, y0, self.next(x), y);
        self.lemma_flip_at(x0, y0, x, self.next(y));
        let a = self.sigma(x, y);
        let b = self.sigma(self.next(x), y);
        let c = self.sigma(x, self.next(y));
        if x == x0 && y == y0 {
            assert((-a) * (b + c) - a * (b + c) == -2 * a * (b + c)) by (nonlinear_arith);
        } else if x == self.prev(x0) && y == y0 {
            assert(a * ((-b) + c) - a * (b + c) == -2 * b * a) by (nonlinear_arith);
        } else if x == x0 && y == self.prev(y0) {
            assert(a * (b + (-c)) - a * (b + c) == -2 * c * a) by (nonlinear_arith);
        } else {
        }
    }

    /// What a flip of `(x0, y0)` adds to the bonds owned by the site at
    /// place `k`.
    pub open spec fn bond_shift(self, x0: int, y0: int, k: int) -> int {
        if k == self.index(x0, y0) {
            -2 * self.sigma(x0, y0) * (self.sigma(self.next(x0), y0) + self.sigma(
                x0,
                self.next(y0),
            ))
        } else if k == self.index(self.prev(x0), y0) {
            -2 * self.sigma(x0, y0) * self.sigma(self.prev(x0), y0)
        } else if k == self.index(x0, self.prev(y0)) {
            -2 * self.sigma(x0, y0) * self.sigma(x0, self.prev(y0))
        } else {
            0
        }
    }

    /// What a flip of `(x0, y0)` adds to the bonds owned by the first `n`
    /// sites.
    pub open spec fn bond_shift_sum(self, x0: int, y0: int, n: nat) -> int
        decreases n,
    {
        if n == 0 {
            0
        } else {
            self.bond_shift_sum(x0, y0, (n - 1) as nat) + self.bond_shift(x0, y0, n - 1)
        }
    }

    /// The bonds of the first `n` sites after a flip are the bonds before
    /// it and what the flip added to each.
    pub proof fn lemma_flip_bond_sum(self, x0: int, y0: int, n: nat)
        requires
            self.wf(),
            self.size >= 2,
            self.in_range(x0, y0),
            n <= self.sites(),
        ensures
            self.flip(x0, y0).bond_sum(n) == self.bond_sum(n) + self.bond_shift_sum(x0, y0, n),
        decreases n,
    {
        if n > 0 {
            let l = self.size as int;
            self.lemma_flip_bond_sum(x0, y0, (n - 1) as nat);
            lemma_coords(l, n - 1);
            self.lemma_flip_bond_term(x0, y0, (n - 1) % l, (n - 1) / l);
        }
    }

    /// What a flip of `(x0, y0)` adds to the bonds of the first `n` sites
    /// is what it adds at the site itself, at its left-hand and at its
    /// lower neighbour, as far as the sum has reached them: on a lattice
    /// of two or more a side the three are different sites.
    pub proof fn lemma_bond_shift_sum(self, x0: int, y0: int, n: nat)
        requires
            self.wf(),
            self.size >= 2,
            self.in_range(x0, y0),
        ensures
            self.bond_shift_sum(x0, y0, n) == (if self.index(x0, y0) < n {
                self.bond_shift(x0, y0, self.index(x0, y0))
            } else {
                0
            }) + (if self.index(self.prev(x0), y0) < n {
                self.bond_shift(x0, y0, self.index(self.prev(x0), y0))
            } else {
                0
            }) + (if self.index(x0, self.prev(y0)) < n {
                self.bond_shift(x0, y0, self.index(x0, self.prev(y0)))
            } else {
                0
            }),
        decreases n,
    {
        let l = self.size as int;
        lemma_wrap(l, x0);
        lemma_wrap(l, y0);
        lemma_place(l, x0, y0);
        lemma_place(l, self.prev(x0), y0);
        lemma_place(l, x0, self.prev(y0));
        if n > 0 {
            self.lemma_bond_shift_sum(x0, y0, (n - 1) as nat);
        }
    }

    /// **Energy of a flip.** The energy after a flip of `(x, y)` is the
    /// energy before it plus the difference that `energy_diff` foretold
    /// from the lattice before the flip. On a lattice of a single site
    /// with a coupling the site is its own neighbour, its bonds do not
    /// change with it, and the closed form does not apply.
    pub proof fn lemma_flip_energy(self, x: int, y: int)
        requires
            self.wf(),
            self.in_range(x, y),
            self.size >= 2 || self.j == 0,
        ensures
            self.flip(x, y).energy() == self.energy() + self.energy_diff(x, y),
    {
        let l = self.size as int;
        let f = self.flip(x, y);
        let s = self.sigma(x, y);
        lemma_place(l, x, y);
        self.lemma_flip_spin_sum(x, y, self.sites());
        assert(f.net_spin() == self.net_spin() - 2 * s);
        if self.size >= 2 {
            lemma_wrap(l, x);
            lemma_wrap(l, y);
            lemma_place(l, self.prev(x), y);
            lemma_place(l, x, self.prev(y));
            self.lemma_flip_bond_sum(x, y, self.sites());
            self.lemma_bond_shift_sum(x, y, self.sites());
            let r = self.sigma(self.next(x), y);
            let u = self.sigma(x, self.next(y));
            let w = self.sigma(self.prev(x), y);
            let d = self.sigma(x, self.prev(y));
            let shift = self.bond_shift_sum(x, y, self.sites());
            assert(shift == -2 * s * (r + u) + -2 * s * w + -2 * s * d);
            assert(f.bonds() == self.bonds() + shift);
            lemma_flip_algebra(self.j, self.h, self.bonds(), self.net_spin(), s, r + u, w, d);
        } else {
            lemma_flip_algebra(
                self.j,
                self.h,
                self.bonds(),
                self.net_spin(),
                s,
                self.sigma(self.next(x), y) + self.sigma(x, self.next(y)),
                self.sigma(self.prev(x), y),
                self.sigma(x, self.prev(y)),
            );
            assert(self.j * f.bonds() == 0) by (nonlinear_arith)
                requires
                    self.j == 0,
            ;
            assert(self.j * self.bonds() == 0) by (nonlinear_arith)
                requires
                    self.j == 0,
            ;
            assert(self.j * self.neighbour_sum(x, y) == 0) by (nonlinear_arith)
                requires
                    self.j == 0,
            ;
        }
    }

    /// The lattice after the sites of `path` have been flipped one after
    /// another.
    pub open spec fn after(self, path: Seq<(int, int)>) -> LatticeModel
        decreases path.len(),
    {
        if path.len() == 0 {
            self
        } else {
            self.flip(path[0].0, path[0].1).after(path.drop_first())
        }
    }

    /// The sum of the energy differences along `path`, each taken from
    /// the lattice as it is just before that flip.
    pub open spec fn diff_along(self, path: Seq<(int, int)>) -> int
        decreases path.len(),
    {
        if path.len() == 0 {
            0
        } else {
            self.energy_diff(path[0].0, path[0].1) + self.flip(path[0].0, path[0].1).diff_along(
                path.drop_first(),
            )
        }
    }

    /// **Energy consistency.** The energy after any number of flips is
    /// the energy at the start plus the sum of the differences that
    /// `energy_diff` gave before each of them.
    pub proof fn lemma_energy_along(self, path: Seq<(int, int)>)
        requires
            self.wf(),
            self.size >= 2 || self.j == 0,
            forall|i: int| 0 <= i < path.len() ==> self.in_range(path[i].0, path[i].1),
        ensures
            self.after(path).wf(),
            self.after(path).energy() == self.energy() + self.diff_along(path),
        decreases path.len(),
    {
        if path.len() > 0 {
            let next = self.flip(path[0].0, path[0].1);
            self.lemma_flip_energy(path[0].0, path[0].1);
            self.lemma_flip_at(path[0].0, path[0].1, 0, 0);
            let rest = path.drop_first();
            assert forall|i: int| 0 <= i < rest.len() implies next.in_range(
                rest[i].0,
                rest[i].1,
            ) by {
                assert(rest[i] == path[i + 1]);
            }
            next.lemma_energy_along(rest);
        }
    }

    /// Inverting every spin keeps each bond and negates each spin, so the
    /// sums over the first `n` sites keep the bonds and negate the spins.
    pub proof fn lemma_inverted_sums(self, n: nat)
        requires
            self.wf(),
            n <= self.sites(),
        ensures
            self.inverted().bond_sum(n) == self.bond_sum(n),
            self.inverted().spin_sum(n) == -self.spin_sum(n),
        decreases n,
    {
        if n > 0 {
            let l = self.size as int;
            self.lemma_inverted_sums((n - 1) as nat);
            lemma_coords(l, n - 1);
            let x = (n - 1) % l;
            let y = (n - 1) / l;
            lemma_wrap(l, x);
            lemma_wrap(l, y);
            lemma_place(l, x, y);
            lemma_place(l, self.next(x), y);
            lemma_place(l, x, self.next(y));
            let a = self.sigma(x, y);
            let b = self.sigma(self.next(x), y);
            let c = self.sigma(x, self.next(y));
            assert(self.inverted().sigma(x, y) == -a);
            assert(self.inverted().sigma(self.next(x), y) == -b);
            assert(self.inverted().sigma(x, self.next(y)) == -c);
            assert((-a) * ((-b) + (-c)) == a * (b + c)) by (nonlinear_arith);
        }
    }

    /// **Inversion.** Flipping every spin keeps the bonds and negates the
    /// net spin; without a field the energy is the same.
    pub proof fn lemma_inversion_symmetry(self)
        requires
            self.wf(),
        ensures
            self.inverted().wf(),
            self.inverted().bonds() == self.bonds(),
            self.inverted().net_spin() == -self.net_spin(),
            self.h == 0 ==> self.inverted().energy() == self.energy(),
    {
        self.lemma_inverted_sums(self.sites());
        if self.h == 0 {
            assert(self.h * self.net_spin() == 0) by (nonlinear_arith)
                requires
                    self.h == 0,
            ;
            assert(self.h * self.inverted().net_spin() == 0) by (nonlinear_arith)
                requires
                    self.h == 0,
            ;
        }
    }

    /// The grid turned by one column holds at `(x, y)` what stood at the
    /// column after `x`.
    pub proof fn lemma_rotated_at(self, x: int, y: int)
        requires
            self.wf(),
            self.in_range(x, y),
        ensures
            self.rotated().wf(),
            self.rotated().at(x, y) == self.at(self.next(x), y),
    {
        lemma_place(self.size as int, x, y);
    }

    /// The energy difference of a site is that of the site one column on
    /// before the grid was turned: the closed form sees the torus alike
    /// from every column.
    pub proof fn lemma_rotated_energy_diff(self, x: int, y: int)
        requires
            self.wf(),
            self.in_range(x, y),
        ensures
            self.rotated().energy_diff(x, y) == self.energy_diff(self.next(x), y),
    {
        let l = self.size as int;
        let t = self.rotated();
        lemma_wrap(l, x);
        lemma_wrap(l, y);
        lemma_wrap(l, self.next(x));
        lemma_wrap(l, self.prev(x));
        self.lemma_rotated_at(x, y);
        self.lemma_rotated_at(self.next(x), y);
        self.lemma_rotated_at(self.prev(x), y);
        self.lemma_rotated_at(x, self.next(y));
        self.lemma_rotated_at(x, self.prev(y));
        assert(t.next(x) == self.next(x));
        assert(t.prev(x) == self.prev(x));
        assert(self.next(self.prev(x)) == x);
        assert(self.prev(self.next(x)) == x);
        assert(t.neighbour_sum(x, y) == self.neighbour_sum(self.next(x), y));
    }

    /// **Periodicity.** The energy difference at the first column is the
    /// energy difference at the last column of the grid turned by one
    /// column, in which the first column stands last.
    pub proof fn lemma_periodicity(self, y: int)
        requires
            self.wf(),
            0 <= y < self.size,
        ensures
            self.energy_diff(0, y) == self.rotated().energy_diff(self.size - 1, y),
            self.rotated().at(self.size - 1, y) == self.at(0, y),
    {
        let l = self.size as int;
        lemma_wrap(l, l - 1);
        self.lemma_rotated_energy_diff(l - 1, y);
        self.lemma_rotated_at(l - 1, y);
    }

    /// The first `n` spins sum to the up-spins less the down-spins among
    /// them, which together are all `n`.
    pub proof fn lemma_spin_counts(self, n: nat)
        ensures
            self.spin_sum(n) == self.up_count(n) - self.down_count(n),
            self.up_count(n) + self.down_count(n) == n,
            -(n as int) <= self.spin_sum(n) <= n,
        decreases n,
    {
        if n > 0 {
            self.lemma_spin_counts((n - 1) as nat);
        }
    }

    /// **Magnetization.** The net spin is the number of up-spins less the
    /// number of down-spins, and no larger in size than the number of
    /// sites: the mean spin lies between `-1` and `1`.
    pub proof fn lemma_magnetization_bound(self)
        requires
            self.wf(),
        ensures
            self.net_spin() == self.up_count(self.sites()) - self.down_count(self.sites()),
            self.up_count(self.sites()) + self.down_count(self.sites()) == self.sites(),
            -(self.sites() as int) <= self.net_spin() <= self.sites(),
    {
        self.lemma_spin_counts(self.sites());
    }
}

} // verus!

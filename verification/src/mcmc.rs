//! The Metropolis engine: single-spin-flip proposals on a lattice at a
//! temperature, accepted when they lower the energy and otherwise by a
//! Boltzmann test that the caller supplies.

use vstd::prelude::*;
use crate::lattice::Lattice;
use crate::lattice::lemma_index_bound;
use crate::model::LatticeModel;
use crate::random::random_index;
use crate::random::thread_rng;

verus! {

/// The magnetic moment by which an external field acts on a spin.
pub const BOHR_MAGNETON: i32 = 1;

/// The Boltzmann constant, in units of energy per unit of temperature.
pub const K_B: i32 = 1;

/// The Metropolis rule: a flip that lowers the energy is accepted; any
/// other flip is accepted when the Boltzmann test came out in its favour.
pub open spec fn metropolis_rule(delta: int, boltzmann: bool) -> bool {
    delta < 0 || boltzmann
}

/// Decides by the Metropolis rule whether a flip that would add `delta`
/// to the energy is made, given how the Boltzmann test
/// `exp(-delta / (K_B * T)) > p` came out for the uniform draw `p`.
pub fn accepts(delta: i64, boltzmann: bool) -> (a: bool)
    ensures
        a == metropolis_rule(delta as int, boltzmann),
{
    delta < 0 || boltzmann
}

/// One proposal of a sweep as it went: the site that came up, and
/// whether its spin was flipped.
pub struct Proposal {
    pub x: int,
    pub y: int,
    pub flipped: bool,
}

/// Whether the proposal went by the Metropolis rule on the lattice `m`:
/// its site lies on the grid; where the flip lowers the energy it was
/// made; where it does not, it was made if and only if `boltzmann`,
/// asked with the energy difference and the thermal energy, said so.
pub open spec fn settled<F: Fn(i64, i64) -> bool>(
    m: LatticeModel,
    boltzmann: &F,
    thermal: i64,
    p: Proposal,
) -> bool {
    &&& m.in_range(p.x, p.y)
    &&& if m.energy_diff(p.x, p.y) < 0 {
        p.flipped
    } else {
        boltzmann.ensures((m.energy_diff(p.x, p.y) as i64, thermal), p.flipped)
    }
}

/// The lattice after the proposals of `trace`, one after another: each
/// flips its site or leaves the lattice as it is.
pub open spec fn after_proposals(m: LatticeModel, trace: Seq<Proposal>) -> LatticeModel
    decreases trace.len(),
{
    if trace.len() == 0 {
        m
    } else {
        let before = after_proposals(m, trace.drop_last());
        if trace.last().flipped {
            before.flip(trace.last().x, trace.last().y)
        } else {
            before
        }
    }
}

/// Whether every proposal of `trace` went by the Metropolis rule on the
/// lattice that the proposals before it had left.
pub open spec fn all_settled<F: Fn(i64, i64) -> bool>(
    m: LatticeModel,
    boltzmann: &F,
    thermal: i64,
    trace: Seq<Proposal>,
) -> bool
    decreases trace.len(),
{
    if trace.len() == 0 {
        true
    } else {
        &&& all_settled(m, boltzmann, thermal, trace.drop_last())
        &&& settled(after_proposals(m, trace.drop_last()), boltzmann, thermal, trace.last())
    }
}

/// Whether one sweep can have made `after` of `before`: some run of
/// proposals, one for each site of the lattice and each settled by the
/// Metropolis rule with what `boltzmann` said at the thermal energy
/// `thermal`, leads from the one to the other.
pub open spec fn swept<F: Fn(i64, i64) -> bool>(
    before: LatticeModel,
    after: LatticeModel,
    boltzmann: &F,
    thermal: i64,
) -> bool {
    exists|trace: Seq<Proposal>|
        {
            &&& trace.len() == before.sites()
            &&& #[trigger] all_settled(before, boltzmann, thermal, trace)
            &&& after == after_proposals(before, trace)
        }
}

/// Whether each lattice of `stages` but the first can have been made of
/// the one before it by one sweep.
pub open spec fn sweeps_in_a_row<F: Fn(i64, i64) -> bool>(
    stages: Seq<LatticeModel>,
    boltzmann: &F,
    thermal: i64,
) -> bool {
    forall|i: int|
        0 <= i < stages.len() - 1 ==> swept(#[trigger] stages[i], stages[i + 1], boltzmann, thermal)
}

/// Whether `n` sweeps in a row can have made `after` of `before`: there
/// are lattices from the one to the other, each made of the one before
/// it by one sweep.
pub open spec fn swept_times<F: Fn(i64, i64) -> bool>(
    before: LatticeModel,
    after: LatticeModel,
    boltzmann: &F,
    thermal: i64,
    n: nat,
) -> bool {
    exists|stages: Seq<LatticeModel>|
        {
            &&& #[trigger] sweeps_in_a_row(stages, boltzmann, thermal)
            &&& stages.len() == n + 1
            &&& stages[0] == before
            &&& stages.last() == after
        }
}

/// No sweep leaves a lattice as it is.
pub proof fn lemma_no_sweep<F: Fn(i64, i64) -> bool>(m: LatticeModel, boltzmann: &F, thermal: i64)
    ensures
        swept_times(m, m, boltzmann, thermal, 0),
{
    let stages = seq![m];
    assert(sweeps_in_a_row(stages, boltzmann, thermal));
}

/// One sweep after `n` sweeps makes `n + 1` of them.
pub proof fn lemma_one_more_sweep<F: Fn(i64, i64) -> bool>(
    before: LatticeModel,
    mid: LatticeModel,
    after: LatticeModel,
    boltzmann: &F,
    thermal: i64,
    n: nat,
)
    requires
        swept_times(before, mid, boltzmann, thermal, n),
        swept(mid, after, boltzmann, thermal),
    ensures
        swept_times(before, after, boltzmann, thermal, n + 1),
{
    let stages = choose|stages: Seq<LatticeModel>|
        {
            &&& #[trigger] sweeps_in_a_row(stages, boltzmann, thermal)
            &&& stages.len() == n + 1
            &&& stages[0] == before
            &&& stages.last() == mid
        };
    let longer = stages.push(after);
    assert forall|i: int| 0 <= i < longer.len() - 1 implies swept(
        #[trigger] longer[i],
        longer[i + 1],
        boltzmann,
        thermal,
    ) by {
        if i < n {
            assert(swept(stages[i], stages[i + 1], boltzmann, thermal));
        }
    }
    assert(sweeps_in_a_row(longer, boltzmann, thermal));
    assert(longer[0] == before);
    assert(longer.last() == after);
}

/// A Metropolis engine with its lattice, its temperature and its own
/// source of random sites.
pub struct MCMC {
    lattice: Lattice,
    temperature: i32,
    rng: rand::rngs::ThreadRng,
}

impl MCMC {
    /// The lattice that the engine works on.
    pub closed spec fn model(&self) -> LatticeModel {
        self.lattice@
    }

    /// The engine's lattice is a valid one.
    pub closed spec fn wf(&self) -> bool {
        self.lattice.wf()
    }

    /// The temperature `T`, in units of energy per `K_B`.
    pub closed spec fn temp(&self) -> int {
        self.temperature as int
    }

    /// The thermal energy `K_B * T` against which energy differences are
    /// weighed.
    pub open spec fn thermal(&self) -> int {
        K_B * self.temp()
    }

    /// An engine for `lattice` at the given temperature. The lattice is
    /// taken as it is: no proposal is made and no site is flipped.
    pub fn new(lattice: Lattice, temperature: i32) -> (r: MCMC)
        requires
            lattice.wf(),
        ensures
            r.wf(),
            r.model() == lattice@,
            r.temp() == temperature,
    {
        MCMC { lattice, temperature, rng: thread_rng() }
    }

    /// Sets the lattice's field to `BOHR_MAGNETON * external_field`.
    pub fn set_external_field(&mut self, external_field: i32)
        requires
            old(self).wf(),
        ensures
            final(self).wf(),
            final(self).model() == old(self).model().with_field(BOHR_MAGNETON * external_field),
            final(self).temp() == old(self).temp(),
    {
        self.lattice.set_field(BOHR_MAGNETON * external_field);
    }

    /// The temperature.
    pub fn temperature(&self) -> (t: i32)
        ensures
            t == self.temp(),
    {
        self.temperature
    }

    /// Sets the temperature and leaves the lattice alone. A temperature
    /// that is not positive is handed to the Boltzmann test like any
    /// other: nothing here divides by it.
    pub fn set_temperature(&mut self, temperature: i32)
        ensures
            final(self).temp() == temperature,
            final(self).model() == old(self).model(),
            final(self).wf() == old(self).wf(),
    {
        self.temperature = temperature;
    }

    /// The thermal energy `K_B * T` at the present temperature.
    pub fn thermal_energy(&self) -> (t: i64)
        ensures
            t == self.thermal(),
    {
        assert(-0x4000_0000_0000_0000 <= (K_B as int) * (self.temperature as int)
            <= 0x4000_0000_0000_0000) by (nonlinear_arith)
            requires
                -0x8000_0000 <= (K_B as int) <= 0x8000_0000,
                -0x8000_0000 <= (self.temperature as int) <= 0x8000_0000,
        ;
        (K_B as i64) * (self.temperature as i64)
    }

    /// Draws a site, each column and each row with equal chance.
    pub fn choose_site(&mut self) -> (site: (usize, usize))
        requires
            old(self).wf(),
        ensures
            final(self).wf(),
            final(self).model() == old(self).model(),
            final(self).temp() == old(self).temp(),
            final(self).model().in_range(site.0 as int, site.1 as int),
    {
        let l = self.lattice.size();
        let x = random_index(&mut self.rng, l);
        let y = random_index(&mut self.rng, l);
        (x, y)
    }

    /// One proposal: flips the site `(x, y)` when the Metropolis rule
    /// accepts the flip, given the outcome of the Boltzmann test, and says
    /// whether it did. The energy difference is taken before the flip.
    pub fn attempt(&mut self, x: usize, y: usize, boltzmann: bool) -> (flipped: bool)
        requires
            old(self).wf(),
            old(self).model().in_range(x as int, y as int),
        ensures
            final(self).wf(),
            final(self).temp() == old(self).temp(),
            flipped == metropolis_rule(
                old(self).model().energy_diff(x as int, y as int),
                boltzmann,
            ),
            final(self).model() == if flipped {
                old(self).model().flip(x as int, y as int)
            } else {
                old(self).model()
            },
    {
        let delta = self.lattice.energy_diff(x, y);
        let go = accepts(delta, boltzmann);
        if go {
            self.lattice.flip_spin(x, y);
        }
        go
    }

    /// One sweep: as many proposals as the lattice has sites, each at a
    /// site drawn at random, so that a site may come up twice or not at
    /// all. A proposal that lowers the energy is made at once; for any
    /// other, `boltzmann` is asked with the energy difference and the
    /// thermal energy `K_B * T`, and the flip is made when it says so.
    ///
    /// Which sites come up is left to chance, and what `boltzmann` says
    /// is its own: the lattice afterwards is what some run of proposals,
    /// one for each site of the lattice and each settled by the
    /// Metropolis rule, has made of the lattice before. The shape, the
    /// coupling and the field stay; where `boltzmann` never accepts, the
    /// energy has not risen.
    pub fn sweep<F: Fn(i64, i64) -> bool>(&mut self, boltzmann: &F)
        requires
            old(self).wf(),
            forall|delta: i64, thermal: i64| boltzmann.requires((delta, thermal)),
        ensures
            final(self).wf(),
            final(self).temp() == old(self).temp(),
            swept(
                old(self).model(),
                final(self).model(),
                boltzmann,
                old(self).thermal() as i64,
            ),
            final(self).model().size == old(self).model().size,
            final(self).model().j == old(self).model().j,
            final(self).model().h == old(self).model().h,
            (old(self).model().size >= 2 || old(self).model().j == 0) && (forall|
                delta: i64,
                thermal: i64,
                go: bool,
            |
                boltzmann.ensures((delta, thermal), go) ==> !go) ==> final(self).model().energy()
                <= old(self).model().energy(),
    {
        let l = self.lattice.size();
        let thermal = self.thermal_energy();
        proof {
            lemma_index_bound(l as int, 0, 0);
        }
        let proposals = l * l;
        let mut k: usize = 0;
        let ghost mut trace: Seq<Proposal> = Seq::empty();
        while k < proposals
            invariant
                self.wf(),
                l == self.model().size,
                proposals == old(self).model().sites(),
                k <= proposals,
                thermal == old(self).thermal(),
                trace.len() == k,
                all_settled(old(self).model(), boltzmann, thermal, trace),
                self.model() == after_proposals(old(self).model(), trace),
                self.temp() == old(self).temp(),
                self.model().size == old(self).model().size,
                self.model().j == old(self).model().j,
                self.model().h == old(self).model().h,
                forall|delta: i64, thermal: i64| boltzmann.requires((delta, thermal)),
                (old(self).model().size >= 2 || old(self).model().j == 0) && (forall|
                    delta: i64,
                    thermal: i64,
                    go: bool,
                |
                    boltzmann.ensures((delta, thermal), go) ==> !go) ==> self.model().energy()
                    <= old(self).model().energy(),
            decreases proposals - k,
        {
            let ghost before = self.model();
            let (x, y) = self.choose_site();
            let delta = self.lattice.energy_diff(x, y);
            let drawn = if delta < 0 {
                false
            } else {
                boltzmann(delta, thermal)
            };
            let go = accepts(delta, drawn);
            if go {
                self.lattice.flip_spin(x, y);
            }
            proof {
                let p = Proposal { x: x as int, y: y as int, flipped: go };
                let longer = trace.push(p);
                assert(longer.drop_last() =~= trace);
                assert(longer.last() == p);
                assert(before.energy_diff(p.x, p.y) as i64 == delta);
                assert(settled(before, boltzmann, thermal, p));
                trace = longer;
            }
            k = k + 1;
        }
        proof {
            let heat = old(self).thermal() as i64;
            assert(heat == thermal);
            assert(trace.len() == old(self).model().sites());
            assert(all_settled(old(self).model(), boltzmann, heat, trace));
            assert(self.model() == after_proposals(old(self).model(), trace));
        }
    }

    /// The lattice as text, ready to be shown: one row a line, `+` for up
    /// and `-` for down.
    pub fn show_lattice(&self) -> (s: String)
        requires
            self.wf(),
        ensures
            s@ == self.model().text(),
    {
        self.lattice.to_string()
    }

    /// The lattice, to read and to measure.
    pub fn get_lattice(&self) -> (lattice: &Lattice)
        ensures
            lattice@ == self.model(),
            lattice.wf() == self.wf(),
    {
        &self.lattice
    }
}

} // verus!

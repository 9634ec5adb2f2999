//! A schedule of measurements: the engine is taken through a list of
//! fields and temperatures, and after each batch of sweeps the chosen
//! observables of its lattice are recorded.

use vstd::prelude::*;
use crate::config::count_under;
use crate::config::is_json;
use crate::config::json_text_counts;
use crate::config::parse_json;
use crate::config::read_count;
use crate::config::resolve_counts;
use crate::config::resolved_measurements;
use crate::config::resolved_sweeps;
use crate::config::ConfigError;
use crate::mcmc::lemma_no_sweep;
use crate::mcmc::lemma_one_more_sweep;
use crate::mcmc::swept_times;
use crate::mcmc::MCMC;
use crate::mcmc::BOHR_MAGNETON;
use crate::mcmc::K_B;
use crate::model::bools_of_spins;
use crate::model::LatticeModel;

verus! {

/// The number of sweeps that warm the lattice up before the first
/// measurement.
pub const SETUP_SWEEPS: usize = 20;

/// What to record, and the fields and temperatures to go through.
#[derive(Debug)]
pub struct Parameters {
    pub spins: bool,
    pub energy: bool,
    pub magnetization: bool,
    pub field: Vec<i32>,
    pub temp: Vec<i32>,
}

/// The parameters with their lists as sequences.
pub struct ParametersModel {
    pub spins: bool,
    pub energy: bool,
    pub magnetization: bool,
    pub field: Seq<i32>,
    pub temp: Seq<i32>,
}

impl View for Parameters {
    type V = ParametersModel;

    open spec fn view(&self) -> ParametersModel {
        ParametersModel {
            spins: self.spins,
            energy: self.energy,
            magnetization: self.magnetization,
            field: self.field@,
            temp: self.temp@,
        }
    }
}

/// The entry of a list that is in force at step `i`: the `i`-th, or
/// `fallback` where the list has run out.
pub open spec fn scheduled(list: Seq<i32>, fallback: i32, i: int) -> i32 {
    if 0 <= i < list.len() {
        list[i]
    } else {
        fallback
    }
}

/// The byte that stands for a spin in a dump: `1` for up, `0` for down.
pub open spec fn byte_of(up: bool) -> u8 {
    if up {
        1u8
    } else {
        0u8
    }
}

/// The first `n` recorded configurations one after another, a byte a
/// site.
pub open spec fn dump(records: Seq<Seq<bool>>, n: nat) -> Seq<u8>
    decreases n,
{
    if n == 0 {
        Seq::empty()
    } else {
        dump(records, (n - 1) as nat) + records[n - 1].map_values(|up: bool| byte_of(up))
    }
}

/// A measurement apart from how it is stored: the state of the engine,
/// the schedule, and what has been recorded so far.
pub struct MeasurementModel {
    pub lattice: LatticeModel,
    pub temperature: int,
    pub params: ParametersModel,
    pub unit: i32,
    pub measurement_count: nat,
    pub sweep_per_measure: nat,
    pub spins: Seq<Seq<bool>>,
    pub energies: Seq<int>,
    pub magnetization: Seq<int>,
}

impl MeasurementModel {
    /// The measurement after the chosen observables of its lattice have
    /// been recorded once more.
    pub open spec fn recorded(self) -> MeasurementModel {
        MeasurementModel {
            spins: if self.params.spins {
                self.spins.push(bools_of_spins(self.lattice.spins))
            } else {
                self.spins
            },
            energies: if self.params.energy {
                self.energies.push(self.lattice.energy())
            } else {
                self.energies
            },
            magnetization: if self.params.magnetization {
                self.magnetization.push(self.lattice.net_spin())
            } else {
                self.magnetization
            },
            ..self
        }
    }

    /// The measurement with its engine in another state.
    pub open spec fn moved_to(self, lattice: LatticeModel, temperature: int) -> MeasurementModel {
        MeasurementModel { lattice, temperature, ..self }
    }

    /// The field that the schedule sets at step `i`.
    pub open spec fn field_at(self, i: int) -> int {
        BOHR_MAGNETON * scheduled(self.params.field, 0, i)
    }

    /// The temperature that the schedule sets at step `i`: where the list
    /// has run out, the unit of temperature.
    pub open spec fn temperature_at(self, i: int) -> int {
        scheduled(self.params.temp, self.unit, i) as int
    }

    /// The thermal energy `K_B * T` at the temperature of step `i`.
    pub open spec fn thermal_at(self, i: int) -> i64 {
        (K_B * self.temperature_at(i)) as i64
    }

    /// Whether the record that step `i` added to those of `start` shows
    /// `lattice`, for each observable that is recorded.
    pub open spec fn shows(self, start: MeasurementModel, i: int, lattice: LatticeModel) -> bool {
        &&& self.params.spins ==> {
            &&& start.spins.len() + i <= self.spins.len()
            &&& self.spins[start.spins.len() + i - 1] == bools_of_spins(lattice.spins)
        }
        &&& self.params.energy ==> {
            &&& start.energies.len() + i <= self.energies.len()
            &&& self.energies[start.energies.len() + i - 1] == lattice.energy()
        }
        &&& self.params.magnetization ==> {
            &&& start.magnetization.len() + i <= self.magnetization.len()
            &&& self.magnetization[start.magnetization.len() + i - 1] == lattice.net_spin()
        }
    }

    /// Whether the steps `1`, `2`, ... of the schedule of `start` went as
    /// `steps` says, the lattice `steps[i - 1]` being what step `i` left:
    /// it was made of the lattice that the step before had left (for the
    /// first step, of the lattice of `start`), put under the field of
    /// step `i`, by `sweep_per_measure` sweeps at the temperature of step
    /// `i`; and the record that step `i` added shows it.
    pub open spec fn followed<F: Fn(i64, i64) -> bool>(
        self,
        start: MeasurementModel,
        boltzmann: &F,
        steps: Seq<LatticeModel>,
    ) -> bool
        decreases steps.len(),
    {
        if steps.len() == 0 {
            true
        } else {
            let i = steps.len() as int;
            let left = if i == 1 {
                start.lattice
            } else {
                steps[i - 2]
            };
            &&& self.followed(start, boltzmann, steps.drop_last())
            &&& swept_times(
                left.with_field(start.field_at(i)),
                steps.last(),
                boltzmann,
                start.thermal_at(i),
                start.sweep_per_measure,
            )
            &&& self.shows(start, i, steps.last())
        }
    }

    /// Every observable that is recorded has at least as many records as
    /// the schedule has measurements.
    pub open spec fn complete(self) -> bool {
        &&& self.params.spins ==> self.measurement_count <= self.spins.len()
        &&& self.params.energy ==> self.measurement_count <= self.energies.len()
        &&& self.params.magnetization ==> self.measurement_count <= self.magnetization.len()
    }

    /// Of each observable that is recorded there is one record more than
    /// in `before`, and what was there is kept.
    pub open spec fn grown_from(self, before: MeasurementModel, steps: nat) -> bool {
        &&& self.spins.len() == before.spins.len() + if self.params.spins {
            steps
        } else {
            0
        }
        &&& self.energies.len() == before.energies.len() + if self.params.energy {
            steps
        } else {
            0
        }
        &&& self.magnetization.len() == before.magnetization.len() + if self.params.magnetization {
            steps
        } else {
            0
        }
        &&& self.spins.subrange(0, before.spins.len() as int) == before.spins
        &&& self.energies.subrange(0, before.energies.len() as int) == before.energies
        &&& self.magnetization.subrange(0, before.magnetization.len() as int)
            == before.magnetization
    }

    /// The last record of each observable that is recorded shows the
    /// lattice as it is.
    pub open spec fn up_to_date(self) -> bool {
        &&& self.params.spins ==> self.spins.len() > 0 && self.spins.last() == bools_of_spins(
            self.lattice.spins,
        )
        &&& self.params.energy ==> self.energies.len() > 0 && self.energies.last()
            == self.lattice.energy()
        &&& self.params.magnetization ==> self.magnetization.len() > 0
            && self.magnetization.last() == self.lattice.net_spin()
    }

    /// The schedule and the shape of the lattice are those of `before`.
    pub open spec fn same_schedule(self, before: MeasurementModel) -> bool {
        &&& self.params == before.params
        &&& self.unit == before.unit
        &&& self.measurement_count == before.measurement_count
        &&& self.sweep_per_measure == before.sweep_per_measure
        &&& self.lattice.size == before.lattice.size
        &&& self.lattice.j == before.lattice.j
    }
}

/// What a measurement has to write, one part for each file: the dump of
/// the configurations, the energies, and the net spins.
#[derive(Debug)]
pub struct Records {
    pub spins: Vec<u8>,
    pub energies: Vec<i64>,
    pub magnetization: Vec<i64>,
}

/// A schedule of measurements on an engine, with what it has recorded.
pub struct Measurement {
    mcmc: MCMC,
    params: Parameters,
    unit: i32,
    measurement_count: usize,
    sweep_per_measure: usize,
    spins: Vec<Vec<bool>>,
    energies: Vec<i64>,
    magnetization: Vec<i64>,
}

impl View for Measurement {
    type V = MeasurementModel;

    closed spec fn view(&self) -> MeasurementModel {
        MeasurementModel {
            lattice: self.mcmc.model(),
            temperature: self.mcmc.temp(),
            params: self.params@,
            unit: self.unit,
            measurement_count: self.measurement_count as nat,
            sweep_per_measure: self.sweep_per_measure as nat,
            spins: self.spins@.map_values(|r: Vec<bool>| r@),
            energies: self.energies@.map_values(|e: i64| e as int),
            magnetization: self.magnetization@.map_values(|m: i64| m as int),
        }
    }
}

impl Measurement {
    /// The engine is valid and every measurement follows at least one
    /// sweep.
    pub closed spec fn wf(&self) -> bool {
        self.mcmc.wf() && self.sweep_per_measure >= 1
    }

    /// A measurement on `mcmc` with nothing recorded yet. `unit` is the
    /// integer that stands for one unit of temperature. The counts are
    /// settled as [`resolve_counts`] says.
    pub fn with_counts(
        mcmc: MCMC,
        params: Parameters,
        unit: i32,
        measurement_count: Option<u64>,
        sweep_per_measure: Option<u64>,
    ) -> (r: Measurement)
        requires
            mcmc.wf(),
        ensures
            r.wf(),
            r@ == (MeasurementModel {
                lattice: mcmc.model(),
                temperature: mcmc.temp(),
                params: params@,
                unit,
                measurement_count: resolved_measurements(
                    measurement_count,
                    params.field.len(),
                    params.temp.len(),
                ) as nat,
                sweep_per_measure: resolved_sweeps(sweep_per_measure) as nat,
                spins: Seq::empty(),
                energies: Seq::empty(),
                magnetization: Seq::empty(),
            }),
    {
        let counts = resolve_counts(
            measurement_count,
            sweep_per_measure,
            params.field.len(),
            params.temp.len(),
        );
        let r = Measurement {
            mcmc,
            params,
            unit,
            measurement_count: counts.0,
            sweep_per_measure: counts.1,
            spins: Vec::new(),
            energies: Vec::new(),
            magnetization: Vec::new(),
        };
        assert(r@.spins =~= Seq::empty());
        assert(r@.energies =~= Seq::empty());
        assert(r@.magnetization =~= Seq::empty());
        r
    }

    /// A measurement on `mcmc` whose two counts are read from the members
    /// `measurement_count` and `sweep_per_measure` of the JSON text
    /// `config`, each of which may be missing or hold something else than
    /// a count; the counts are settled as in [`Measurement::with_counts`].
    /// Text that is not JSON is refused.
    pub fn new(mcmc: MCMC, params: Parameters, unit: i32, config: &str) -> (r: Result<
        Measurement,
        ConfigError,
    >)
        requires
            mcmc.wf(),
        ensures
            r.is_ok() == is_json(config@),
            r matches Err(e) ==> e == ConfigError::Malformed,
            r matches Ok(m) ==> m.wf() && m@ == (MeasurementModel {
                lattice: mcmc.model(),
                temperature: mcmc.temp(),
                params: params@,
                unit,
                measurement_count: resolved_measurements(
                    count_under(json_text_counts(config@).unwrap(), "measurement_count"@),
                    params.field.len(),
                    params.temp.len(),
                ) as nat,
                sweep_per_measure: resolved_sweeps(
                    count_under(json_text_counts(config@).unwrap(), "sweep_per_measure"@),
                ) as nat,
                spins: Seq::empty(),
                energies: Seq::empty(),
                magnetization: Seq::empty(),
            }),
    {
        match parse_json(config) {
            Ok(json) => {
                let measurement_count = read_count(&json, "measurement_count");
                let sweep_per_measure = read_count(&json, "sweep_per_measure");
                Ok(Measurement::with_counts(mcmc, params, unit, measurement_count, sweep_per_measure))
            },
            Err(_) => Err(ConfigError::Malformed),
        }
    }

    /// The number of measurements of the schedule.
    pub fn measurement_count(&self) -> (n: usize)
        ensures
            n == self@.measurement_count,
    {
        self.measurement_count
    }

    /// The number of sweeps before each measurement but the first.
    pub fn sweep_per_measure(&self) -> (n: usize)
        ensures
            n == self@.sweep_per_measure,
    {
        self.sweep_per_measure
    }

    /// The engine, to read.
    pub fn get_mcmc(&self) -> (mcmc: &MCMC)
        ensures
            mcmc.model() == self@.lattice,
            mcmc.temp() == self@.temperature,
            self.wf() ==> mcmc.wf(),
    {
        &self.mcmc
    }

    /// Records the chosen observables of the lattice as it is.
    pub fn store_data(&mut self)
        requires
            old(self).wf(),
        ensures
            final(self).wf(),
            final(self)@ == old(self)@.recorded(),
    {
        if self.params.spins {
            let spins = self.mcmc.get_lattice().get_spins();
            let mut bits: Vec<bool> = Vec::new();
            let mut k: usize = 0;
            while k < spins.len()
                invariant
                    k <= spins.len(),
                    bits@.len() == k,
                    forall|i: int| 0 <= i < k ==> bits@[i] == spins@[i].is_up(),
                decreases spins.len() - k,
            {
                bits.push(bool::from(spins[k]));
                k = k + 1;
            }
            assert(bits@ =~= bools_of_spins(spins@));
            self.spins.push(bits);
            assert(self@.spins =~= old(self)@.spins.push(bools_of_spins(old(self)@.lattice.spins)));
        }
        if self.params.energy {
            let energy = self.mcmc.get_lattice().energy();
            self.energies.push(energy);
            assert(self@.energies =~= old(self)@.energies.push(old(self)@.lattice.energy()));
        }
        if self.params.magnetization {
            let net = self.mcmc.get_lattice().net_spin();
            self.magnetization.push(net);
            assert(self@.magnetization =~= old(self)@.magnetization.push(
                old(self)@.lattice.net_spin(),
            ));
        }
    }

    /// Brings the engine to the first field and temperature of the
    /// schedule (no field and the unit of temperature where a list is
    /// empty), warms the lattice up with [`SETUP_SWEEPS`] sweeps under
    /// them, whatever the number of sweeps per measurement, and records
    /// it for the first time: the new record shows the lattice as the
    /// sweeps left it.
    pub fn setup<F: Fn(i64, i64) -> bool>(&mut self, boltzmann: &F)
        requires
            old(self).wf(),
            forall|delta: i64, thermal: i64| boltzmann.requires((delta, thermal)),
        ensures
            final(self).wf(),
            final(self)@.same_schedule(old(self)@),
            final(self)@.temperature == old(self)@.temperature_at(0),
            final(self)@.lattice.h == old(self)@.field_at(0),
            final(self)@.grown_from(old(self)@, 1),
            final(self)@.up_to_date(),
            swept_times(
                old(self)@.lattice.with_field(old(self)@.field_at(0)),
                final(self)@.lattice,
                boltzmann,
                old(self)@.thermal_at(0),
                SETUP_SWEEPS as nat,
            ),
    {
        let field = if self.params.field.len() > 0 {
            self.params.field[0]
        } else {
            0
        };
        self.mcmc.set_external_field(field);
        let temperature = if self.params.temp.len() > 0 {
            self.params.temp[0]
        } else {
            self.unit
        };
        self.mcmc.set_temperature(temperature);
        let ghost cold = self@.lattice;
        proof {
            lemma_no_sweep(cold, boltzmann, old(self)@.thermal_at(0));
        }
        let mut k: usize = 0;
        while k < SETUP_SWEEPS
            invariant
                self.wf(),
                self@.same_schedule(old(self)@),
                self@.temperature == old(self)@.temperature_at(0),
                self@.lattice.h == old(self)@.field_at(0),
                self@.spins == old(self)@.spins,
                self@.energies == old(self)@.energies,
                self@.magnetization == old(self)@.magnetization,
                k <= SETUP_SWEEPS,
                swept_times(cold, self@.lattice, boltzmann, old(self)@.thermal_at(0), k as nat),
                forall|delta: i64, thermal: i64| boltzmann.requires((delta, thermal)),
            decreases SETUP_SWEEPS - k,
        {
            let ghost mid = self@.lattice;
            self.mcmc.sweep(boltzmann);
            proof {
                lemma_one_more_sweep(
                    cold,
                    mid,
                    self@.lattice,
                    boltzmann,
                    old(self)@.thermal_at(0),
                    k as nat,
                );
            }
            k = k + 1;
        }
        let ghost warm = self@;
        self.store_data();
        proof {
            old(self)@.lemma_grown_from_itself();
            warm.lemma_recorded_grows(old(self)@, 0);
        }
    }

    /// Takes the engine through the rest of the schedule: for each step
    /// after the first, sets the field and the temperature of that step,
    /// makes `sweep_per_measure` sweeps under them, and records the
    /// lattice as they left it, before the next step sets its own. A list
    /// that has run out gives no field, or the unit of temperature, from
    /// then on.
    pub fn run<F: Fn(i64, i64) -> bool>(&mut self, boltzmann: &F)
        requires
            old(self).wf(),
            forall|delta: i64, thermal: i64| boltzmann.requires((delta, thermal)),
        ensures
            final(self).wf(),
            final(self)@.same_schedule(old(self)@),
            old(self)@.measurement_count < 2 ==> final(self)@ == old(self)@,
            old(self)@.measurement_count >= 2 ==> {
                &&& final(self)@.temperature == old(self)@.temperature_at(
                    old(self)@.measurement_count - 1,
                )
                &&& final(self)@.lattice.h == old(self)@.field_at(old(self)@.measurement_count - 1)
                &&& final(self)@.grown_from(old(self)@, (old(self)@.measurement_count - 1) as nat)
                &&& final(self)@.up_to_date()
                &&& exists|steps: Seq<LatticeModel>|
                    {
                        &&& #[trigger] final(self)@.followed(old(self)@, boltzmann, steps)
                        &&& steps.len() == old(self)@.measurement_count - 1
                        &&& steps.last() == final(self)@.lattice
                    }
            },
    {
        let mut last_field_set = false;
        let mut last_temp_set = false;
        let mut i: usize = 1;
        let ghost mut steps: Seq<LatticeModel> = Seq::empty();
        proof {
            old(self)@.lemma_grown_from_itself();
        }
        while i < self.measurement_count
            invariant
                self.wf(),
                self@.same_schedule(old(self)@),
                1 <= i,
                i == 1 ==> self@ == old(self)@,
                i >= 2 ==> i <= self.measurement_count,
                last_field_set ==> i >= 2 && i - 1 >= self.params.field.len(),
                last_temp_set ==> i >= 2 && i - 1 >= self.params.temp.len(),
                i >= 2 ==> self@.temperature == old(self)@.temperature_at(i - 1),
                i >= 2 ==> self@.lattice.h == old(self)@.field_at(i - 1),
                i >= 2 ==> self@.up_to_date(),
                self@.grown_from(old(self)@, (i - 1) as nat),
                steps.len() == i - 1,
                i >= 2 ==> steps.last() == self@.lattice,
                self@.followed(old(self)@, boltzmann, steps),
                forall|delta: i64, thermal: i64| boltzmann.requires((delta, thermal)),
            decreases self.measurement_count - i,
        {
            let ghost arrived = self@;
            if !last_field_set {
                let field = if i < self.params.field.len() {
                    self.params.field[i]
                } else {
                    last_field_set = true;
                    0
                };
                self.mcmc.set_external_field(field);
            }
            if !last_temp_set {
                let temperature = if i < self.params.temp.len() {
                    self.params.temp[i]
                } else {
                    last_temp_set = true;
                    self.unit
                };
                self.mcmc.set_temperature(temperature);
            }
            let ghost set = self@.lattice;
            proof {
                assert(set == arrived.lattice.with_field(old(self)@.field_at(i as int)));
                lemma_no_sweep(set, boltzmann, old(self)@.thermal_at(i as int));
            }
            let mut k: usize = 0;
            while k < self.sweep_per_measure
                invariant
                    self.wf(),
                    self@.same_schedule(old(self)@),
                    self@.temperature == old(self)@.temperature_at(i as int),
                    self@.lattice.h == old(self)@.field_at(i as int),
                    self@.grown_from(old(self)@, (i - 1) as nat),
                    self@.spins == arrived.spins,
                    self@.energies == arrived.energies,
                    self@.magnetization == arrived.magnetization,
                    k <= self.sweep_per_measure,
                    swept_times(
                        set,
                        self@.lattice,
                        boltzmann,
                        old(self)@.thermal_at(i as int),
                        k as nat,
                    ),
                    forall|delta: i64, thermal: i64| boltzmann.requires((delta, thermal)),
                decreases self.sweep_per_measure - k,
            {
                let ghost mid = self@.lattice;
                self.mcmc.sweep(boltzmann);
                proof {
                    lemma_one_more_sweep(
                        set,
                        mid,
                        self@.lattice,
                        boltzmann,
                        old(self)@.thermal_at(i as int),
                        k as nat,
                    );
                }
                k = k + 1;
            }
            let ghost done = self@;
            self.store_data();
            proof {
                done.lemma_recorded_grows(old(self)@, (i - 1) as nat);
                let longer = steps.push(done.lattice);
                assert(longer.drop_last() =~= steps);
                assert(self@.spins.subrange(0, arrived.spins.len() as int) =~= arrived.spins);
                assert(self@.energies.subrange(0, arrived.energies.len() as int)
                    =~= arrived.energies);
                assert(self@.magnetization.subrange(0, arrived.magnetization.len() as int)
                    =~= arrived.magnetization);
                arrived.lemma_followed_kept(self@, old(self)@, boltzmann, steps);
                assert(self@.shows(old(self)@, i as int, done.lattice));
                assert(self@.followed(old(self)@, boltzmann, longer));
                steps = longer;
            }
            i = i + 1;
        }
    }

    /// Whether every observable that is recorded has a record for each
    /// measurement of the schedule, as it has after [`Measurement::setup`]
    /// and [`Measurement::run`].
    pub fn is_complete(&self) -> (b: bool)
        ensures
            b == self@.complete(),
    {
        (!self.params.spins || self.measurement_count <= self.spins.len()) && (!self.params.energy
            || self.measurement_count <= self.energies.len()) && (!self.params.magnetization
            || self.measurement_count <= self.magnetization.len())
    }

    /// The recorded configurations.
    pub fn spin_records(&self) -> (records: &Vec<Vec<bool>>)
        ensures
            records@.map_values(|r: Vec<bool>| r@) == self@.spins,
    {
        &self.spins
    }

    /// The recorded energies.
    pub fn energy_records(&self) -> (records: &Vec<i64>)
        ensures
            records@.map_values(|e: i64| e as int) == self@.energies,
    {
        &self.energies
    }

    /// The recorded net spins: each is the magnetization times the number
    /// of sites.
    pub fn magnetization_records(&self) -> (records: &Vec<i64>)
        ensures
            records@.map_values(|m: i64| m as int) == self@.magnetization,
    {
        &self.magnetization
    }

    /// The dump of the configurations: those of the measurements of the
    /// schedule one after another, a byte a site, `1` for up and `0` for
    /// down; nothing where configurations are not recorded.
    pub fn spin_output(&self) -> (bytes: Vec<u8>)
        requires
            self@.params.spins ==> self@.measurement_count <= self@.spins.len(),
        ensures
            bytes@ == if self@.params.spins {
                dump(self@.spins, self@.measurement_count)
            } else {
                Seq::empty()
            },
    {
        let mut bytes: Vec<u8> = Vec::new();
        if self.params.spins {
            let mut i: usize = 0;
            while i < self.measurement_count
                invariant
                    i <= self.measurement_count <= self.spins.len(),
                    bytes@ == dump(self@.spins, i as nat),
                decreases self.measurement_count - i,
            {
                let record = &self.spins[i];
                let mut k: usize = 0;
                assert(bytes@ =~= dump(self@.spins, i as nat) + Seq::new(
                    0,
                    |t: int| byte_of(record@[t]),
                ));
                while k < record.len()
                    invariant
                        k <= record.len(),
                        i < self.measurement_count <= self.spins.len(),
                        record@ == self@.spins[i as int],
                        bytes@ == dump(self@.spins, i as nat) + Seq::new(
                            k as nat,
                            |t: int| byte_of(record@[t]),
                        ),
                    decreases record.len() - k,
                {
                    let byte: u8 = if record[k] {
                        1
                    } else {
                        0
                    };
                    bytes.push(byte);
                    assert(bytes@ =~= dump(self@.spins, i as nat) + Seq::new(
                        (k + 1) as nat,
                        |t: int| byte_of(record@[t]),
                    ));
                    k = k + 1;
                }
                assert(Seq::new(record@.len(), |t: int| byte_of(record@[t])) =~= record@.map_values(
                    |up: bool| byte_of(up),
                ));
                i = i + 1;
            }
        }
        bytes
    }

    /// The energies of the measurements of the schedule, in order;
    /// nothing where energies are not recorded.
    pub fn energy_output(&self) -> (values: Vec<i64>)
        requires
            self@.params.energy ==> self@.measurement_count <= self@.energies.len(),
        ensures
            values@.map_values(|e: i64| e as int) == if self@.params.energy {
                self@.energies.subrange(0, self@.measurement_count as int)
            } else {
                Seq::empty()
            },
    {
        let values = if self.params.energy {
            first_of(&self.energies, self.measurement_count)
        } else {
            Vec::new()
        };
        assert(values@.map_values(|e: i64| e as int) =~= if self@.params.energy {
            self@.energies.subrange(0, self@.measurement_count as int)
        } else {
            Seq::empty()
        });
        values
    }

    /// The net spins of the measurements of the schedule, in order;
    /// nothing where the magnetization is not recorded. The magnetization
    /// is the net spin divided by the number of sites.
    pub fn magnetization_output(&self) -> (values: Vec<i64>)
        requires
            self@.params.magnetization ==> self@.measurement_count <= self@.magnetization.len(),
        ensures
            values@.map_values(|m: i64| m as int) == if self@.params.magnetization {
                self@.magnetization.subrange(0, self@.measurement_count as int)
            } else {
                Seq::empty()
            },
    {
        let values = if self.params.magnetization {
            first_of(&self.magnetization, self.measurement_count)
        } else {
            Vec::new()
        };
        assert(values@.map_values(|m: i64| m as int) =~= if self@.params.magnetization {
            self@.magnetization.subrange(0, self@.measurement_count as int)
        } else {
            Seq::empty()
        });
        values
    }

    /// What there is to write of a complete measurement: of each
    /// observable that is recorded, the records of the measurements of
    /// the schedule, in order; of any other, nothing.
    pub fn save(&self) -> (r: Records)
        requires
            self@.complete(),
        ensures
            r.spins@ == if self@.params.spins {
                dump(self@.spins, self@.measurement_count)
            } else {
                Seq::empty()
            },
            r.energies@.map_values(|e: i64| e as int) == if self@.params.energy {
                self@.energies.subrange(0, self@.measurement_count as int)
            } else {
                Seq::empty()
            },
            r.magnetization@.map_values(|m: i64| m as int) == if self@.params.magnetization {
                self@.magnetization.subrange(0, self@.measurement_count as int)
            } else {
                Seq::empty()
            },
    {
        Records {
            spins: self.spin_output(),
            energies: self.energy_output(),
            magnetization: self.magnetization_output(),
        }
    }
}

/// The first `n` of the values.
fn first_of(values: &Vec<i64>, n: usize) -> (head: Vec<i64>)
    requires
        n <= values@.len(),
    ensures
        head@ == values@.subrange(0, n as int),
{
    let mut head: Vec<i64> = Vec::new();
    let mut i: usize = 0;
    while i < n
        invariant
            i <= n <= values@.len(),
            head@ == values@.subrange(0, i as int),
        decreases n - i,
    {
        head.push(values[i]);
        assert(head@ =~= values@.subrange(0, (i + 1) as int));
        i = i + 1;
    }
    assert(head@ =~= values@.subrange(0, n as int));
    head
}

impl MeasurementModel {
    /// A measurement has grown from itself by nothing.
    pub proof fn lemma_grown_from_itself(self)
        ensures
            self.grown_from(self, 0),
    {
        assert(self.spins.subrange(0, self.spins.len() as int) =~= self.spins);
        assert(self.energies.subrange(0, self.energies.len() as int) =~= self.energies);
        assert(self.magnetization.subrange(0, self.magnetization.len() as int)
            =~= self.magnetization);
    }

    /// A schedule that was set up on a measurement without records and
    /// then run is complete: `warm` is the measurement after the set-up,
    /// `self` the one after the run.
    pub proof fn lemma_schedule_completes(self, start: MeasurementModel, warm: MeasurementModel)
        requires
            start.spins.len() == 0,
            start.energies.len() == 0,
            start.magnetization.len() == 0,
            warm.same_schedule(start),
            warm.grown_from(start, 1),
            self.same_schedule(warm),
            warm.measurement_count < 2 ==> self == warm,
            warm.measurement_count >= 2 ==> self.grown_from(
                warm,
                (warm.measurement_count - 1) as nat,
            ),
        ensures
            self.complete(),
    {
    }

    /// Steps that went as `steps` says still did so when more has been
    /// recorded since: `later` holds the records of `self` and more.
    pub proof fn lemma_followed_kept<F: Fn(i64, i64) -> bool>(
        self,
        later: MeasurementModel,
        start: MeasurementModel,
        boltzmann: &F,
        steps: Seq<LatticeModel>,
    )
        requires
            self.followed(start, boltzmann, steps),
            later.params == self.params,
            self.spins.len() <= later.spins.len(),
            self.energies.len() <= later.energies.len(),
            self.magnetization.len() <= later.magnetization.len(),
            later.spins.subrange(0, self.spins.len() as int) == self.spins,
            later.energies.subrange(0, self.energies.len() as int) == self.energies,
            later.magnetization.subrange(0, self.magnetization.len() as int) == self.magnetization,
        ensures
            later.followed(start, boltzmann, steps),
        decreases steps.len(),
    {
        if steps.len() > 0 {
            self.lemma_followed_kept(later, start, boltzmann, steps.drop_last());
            let i = steps.len() as int;
            if self.params.spins {
                let k = start.spins.len() + i - 1;
                assert(later.spins.subrange(0, self.spins.len() as int)[k] == later.spins[k]);
            }
            if self.params.energy {
                let k = start.energies.len() + i - 1;
                assert(later.energies.subrange(0, self.energies.len() as int)[k]
                    == later.energies[k]);
            }
            if self.params.magnetization {
                let k = start.magnetization.len() + i - 1;
                assert(later.magnetization.subrange(0, self.magnetization.len() as int)[k]
                    == later.magnetization[k]);
            }
        }
    }

    /// Recording once more adds one record to each observable that is
    /// recorded, keeps what was there, and leaves the last record of each
    /// showing the lattice as it is.
    pub proof fn lemma_recorded_grows(self, before: MeasurementModel, steps: nat)
        requires
            self.params == before.params,
            self.grown_from(before, steps),
        ensures
            self.recorded().grown_from(before, steps + 1),
            self.recorded().up_to_date(),
    {
        let after = self.recorded();
        assert(after.spins.subrange(0, before.spins.len() as int) =~= self.spins.subrange(
            0,
            before.spins.len() as int,
        ));
        assert(after.energies.subrange(0, before.energies.len() as int) =~= self.energies.subrange(
            0,
            before.energies.len() as int,
        ));
        assert(after.magnetization.subrange(0, before.magnetization.len() as int)
            =~= self.magnetization.subrange(0, before.magnetization.len() as int));
    }
}

} // verus!

use ising::config::resolve_counts;
use ising::config::ConfigError;
use ising::lattice::Lattice;
use ising::mcmc::MCMC;
use ising::measurement::Measurement;
use ising::measurement::Parameters;
use ising::spin::Spin;

fn engine() -> MCMC {
    MCMC::new(Lattice::from_spins(3, 1, vec![Spin::UP; 9]).unwrap(), 1)
}

fn everything(field: Vec<i32>, temp: Vec<i32>) -> Parameters {
    Parameters { spins: true, energy: true, magnetization: true, field, temp }
}

fn never(_delta: i64, _thermal: i64) -> bool {
    false
}

#[test]
fn counts_default_to_the_longer_list_and_one_sweep() {
    assert_eq!(resolve_counts(None, None, 3, 5), (5, 1));
    assert_eq!(resolve_counts(None, None, 6, 5), (6, 1));
    assert_eq!(resolve_counts(Some(0), Some(0), 2, 2), (2, 1));
    assert_eq!(resolve_counts(None, None, 0, 0), (0, 1));
}

#[test]
fn counts_that_are_asked_for_are_kept() {
    assert_eq!(resolve_counts(Some(7), Some(4), 3, 5), (7, 4));
    assert_eq!(resolve_counts(Some(1), None, 3, 5), (1, 1));
    assert_eq!(resolve_counts(None, Some(9), 3, 5), (5, 9));
}

#[test]
fn new_reads_both_counts_from_json() {
    let m = Measurement::new(
        engine(),
        everything(vec![0, 1], vec![2]),
        1,
        "{\"measurement_count\": 6, \"sweep_per_measure\": 3, \"spins\": true}",
    )
    .unwrap();
    assert_eq!(m.measurement_count(), 6);
    assert_eq!(m.sweep_per_measure(), 3);
    assert!(m.spin_records().is_empty());
    assert!(m.energy_records().is_empty());
    assert!(m.magnetization_records().is_empty());
}

#[test]
fn new_falls_back_where_a_count_is_missing_or_no_count() {
    let lists = || everything(vec![0, 1, 2], vec![2]);
    let m = Measurement::new(engine(), lists(), 1, "{}").unwrap();
    assert_eq!((m.measurement_count(), m.sweep_per_measure()), (3, 1));
    let m = Measurement::new(engine(), lists(), 1, "{\"measurement_count\": -4}").unwrap();
    assert_eq!((m.measurement_count(), m.sweep_per_measure()), (3, 1));
    let m = Measurement::new(engine(), lists(), 1, "{\"sweep_per_measure\": \"two\"}").unwrap();
    assert_eq!((m.measurement_count(), m.sweep_per_measure()), (3, 1));
    let m = Measurement::new(engine(), lists(), 1, "{\"sweep_per_measure\": 2.5}").unwrap();
    assert_eq!((m.measurement_count(), m.sweep_per_measure()), (3, 1));
    let m = Measurement::new(engine(), lists(), 1, "[1, 2, 3]").unwrap();
    assert_eq!((m.measurement_count(), m.sweep_per_measure()), (3, 1));
    let m = Measurement::new(engine(), lists(), 1, "{\"sweep_per_measure\": 0}").unwrap();
    assert_eq!((m.measurement_count(), m.sweep_per_measure()), (3, 1));
}

#[test]
fn new_refuses_text_that_is_not_json() {
    for text in ["", "{", "{\"measurement_count\": }", "measurement_count = 3"] {
        let r = Measurement::new(engine(), everything(vec![], vec![]), 1, text);
        assert!(matches!(r, Err(ConfigError::Malformed)));
    }
}

#[test]
fn setup_takes_the_first_entries_and_records_once() {
    let mut m = Measurement::with_counts(engine(), everything(vec![4, 5], vec![6, 7]), 1, None, None);
    m.setup(&never);
    assert_eq!(m.get_mcmc().get_lattice().field(), 4);
    assert_eq!(m.get_mcmc().temperature(), 6);
    assert_eq!(m.spin_records(), &vec![vec![true; 9]]);
    assert_eq!(m.energy_records(), &vec![-18 - 4 * 9]);
    assert_eq!(m.magnetization_records(), &vec![9]);
    assert!(!m.is_complete());
}

#[test]
fn setup_falls_back_to_no_field_and_the_unit_of_temperature() {
    let mut m = Measurement::with_counts(engine(), everything(vec![], vec![]), 1000, Some(1), None);
    m.setup(&never);
    assert_eq!(m.get_mcmc().get_lattice().field(), 0);
    assert_eq!(m.get_mcmc().temperature(), 1000);
    assert!(m.is_complete());
}

#[test]
fn run_goes_through_the_rest_of_the_schedule() {
    let mut m = Measurement::with_counts(engine(), everything(vec![4, 5, 6], vec![7, 8, 9]), 1, None, Some(2));
    m.setup(&never);
    m.run(&never);
    assert_eq!(m.get_mcmc().get_lattice().field(), 6);
    assert_eq!(m.get_mcmc().temperature(), 9);
    assert_eq!(m.spin_records().len(), 3);
    assert_eq!(m.energy_records(), &vec![-18 - 4 * 9, -18 - 5 * 9, -18 - 6 * 9]);
    assert_eq!(m.magnetization_records(), &vec![9, 9, 9]);
    assert!(m.is_complete());
}

#[test]
fn run_falls_back_once_a_list_has_run_out() {
    let mut m = Measurement::with_counts(engine(), everything(vec![4, 5], vec![7]), 50, Some(4), None);
    m.setup(&never);
    assert_eq!(m.get_mcmc().temperature(), 7);
    m.run(&never);
    assert_eq!(m.get_mcmc().get_lattice().field(), 0);
    assert_eq!(m.get_mcmc().temperature(), 50);
    assert_eq!(m.energy_records(), &vec![-18 - 4 * 9, -18 - 5 * 9, -18, -18]);
    assert!(m.is_complete());
}

#[test]
fn run_does_nothing_for_a_single_measurement() {
    let mut m = Measurement::with_counts(engine(), everything(vec![4, 5], vec![7]), 1, Some(1), None);
    m.setup(&never);
    m.run(&never);
    assert_eq!(m.get_mcmc().get_lattice().field(), 4);
    assert_eq!(m.get_mcmc().temperature(), 7);
    assert_eq!(m.energy_records().len(), 1);
}

#[test]
fn only_the_chosen_observables_are_recorded() {
    let params = Parameters { spins: false, energy: true, magnetization: false, field: vec![1, 2], temp: vec![] };
    let mut m = Measurement::with_counts(engine(), params, 1, None, None);
    m.setup(&never);
    m.run(&never);
    assert!(m.spin_records().is_empty());
    assert_eq!(m.energy_records().len(), 2);
    assert!(m.magnetization_records().is_empty());
    assert!(m.is_complete());
    assert!(m.spin_output().is_empty());
    assert_eq!(m.energy_output(), vec![-18 - 9, -18 - 2 * 9]);
    assert!(m.magnetization_output().is_empty());
}

#[test]
fn store_data_records_the_lattice_as_it_is() {
    let lattice = Lattice::from_bools(2, 1, &vec![true, false, false, false]).unwrap();
    let mut m = Measurement::with_counts(MCMC::new(lattice, 1), everything(vec![], vec![]), 1, Some(2), None);
    m.store_data();
    m.store_data();
    assert_eq!(m.spin_records(), &vec![vec![true, false, false, false]; 2]);
    assert_eq!(m.energy_records(), &vec![0, 0]);
    assert_eq!(m.magnetization_records(), &vec![-2, -2]);
}

#[test]
fn spin_output_is_a_byte_a_site() {
    let lattice = Lattice::from_bools(2, 1, &vec![true, false, false, true]).unwrap();
    let mut m = Measurement::with_counts(MCMC::new(lattice, 1), everything(vec![], vec![]), 1, Some(2), None);
    m.store_data();
    m.store_data();
    m.store_data();
    assert!(m.is_complete());
    assert_eq!(m.spin_output(), vec![1, 0, 0, 1, 1, 0, 0, 1]);
    assert_eq!(m.energy_output().len(), 2);
    assert_eq!(m.magnetization_output(), vec![0, 0]);
}

#[test]
fn outputs_are_empty_for_no_measurements() {
    let mut m = Measurement::with_counts(engine(), everything(vec![], vec![]), 1, None, None);
    assert_eq!(m.measurement_count(), 0);
    m.setup(&never);
    m.run(&never);
    assert_eq!(m.energy_records().len(), 1);
    assert!(m.is_complete());
    assert!(m.spin_output().is_empty());
    assert!(m.energy_output().is_empty());
    assert!(m.magnetization_output().is_empty());
}

#[test]
fn sweeps_between_measurements_are_counted() {
    // Without coupling or field each proposal asks once: 20 sweeps to
    // warm up, then 3 before each of the 2 later measurements.
    let lattice = Lattice::from_spins(2, 0, vec![Spin::UP; 4]).unwrap();
    let params = Parameters { spins: false, energy: false, magnetization: true, field: vec![], temp: vec![] };
    let mut m = Measurement::with_counts(MCMC::new(lattice, 1), params, 1, Some(3), Some(3));
    let asked = std::cell::Cell::new(0usize);
    let count = |_delta: i64, _thermal: i64| {
        asked.set(asked.get() + 1);
        false
    };
    m.setup(&count);
    assert_eq!(asked.get(), 20 * 4);
    m.run(&count);
    assert_eq!(asked.get(), 20 * 4 + 2 * 3 * 4);
    assert_eq!(m.magnetization_records(), &vec![4, 4, 4]);
}

#[test]
fn save_hands_out_one_part_per_file() {
    let lattice = Lattice::from_bools(2, 1, &vec![false, true, true, true]).unwrap();
    let mut m = Measurement::with_counts(MCMC::new(lattice, 1), everything(vec![3], vec![]), 1, Some(2), None);
    m.store_data();
    m.store_data();
    let records = m.save();
    assert_eq!(records.spins, vec![0, 1, 1, 1, 0, 1, 1, 1]);
    assert_eq!(records.energies, vec![0, 0]);
    assert_eq!(records.magnetization, vec![2, 2]);
}

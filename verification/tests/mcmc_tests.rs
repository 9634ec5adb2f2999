use ising::lattice::Lattice;
use ising::mcmc::accepts;
use ising::mcmc::BOHR_MAGNETON;
use ising::mcmc::K_B;
use ising::mcmc::MCMC;
use ising::spin::Spin;

fn engine_on(size: usize, j: i32, spin: Spin) -> MCMC {
    MCMC::new(Lattice::from_spins(size, j, vec![spin; size * size]).unwrap(), 1)
}

/// The Boltzmann test for a uniform draw `p`.
fn boltzmann(delta: f64, temperature: f64, p: f64) -> bool {
    (-delta / (f64::from(K_B) * temperature)).exp() > p
}

#[test]
fn a_flip_that_lowers_the_energy_is_always_accepted() {
    for p in [0.0, 0.1, 0.5, 0.99] {
        assert!(accepts(-1, boltzmann(-1.0, 1.0, p)));
    }
    assert!(accepts(-1, false));
    assert!(accepts(i64::MIN, false));
}

#[test]
fn a_flip_that_raises_the_energy_is_rejected_by_a_high_draw() {
    assert!(!boltzmann(1.0, 1.0, 0.99));
    assert!(!accepts(1, boltzmann(1.0, 1.0, 0.99)));
}

#[test]
fn a_flip_that_raises_the_energy_is_accepted_by_a_low_draw() {
    assert!(boltzmann(1.0, 1.0, 0.1));
    assert!(accepts(1, boltzmann(1.0, 1.0, 0.1)));
}

#[test]
fn a_flip_that_keeps_the_energy_goes_by_the_draw() {
    assert!(accepts(0, true));
    assert!(!accepts(0, false));
    assert!(accepts(0, boltzmann(0.0, 1.0, 0.999)));
}

#[test]
fn the_same_draw_gives_the_same_decision() {
    for delta in [-3, 0, 2] {
        for outcome in [false, true] {
            assert_eq!(accepts(delta, outcome), accepts(delta, outcome));
            assert_eq!(accepts(delta, outcome), delta < 0 || outcome);
        }
    }
}

#[test]
fn new_engine_takes_the_lattice_and_the_temperature() {
    let mut lattice = Lattice::from_bools(2, 3, &vec![true, false, false, true]).unwrap();
    lattice.set_field(-2);
    let engine = MCMC::new(lattice.clone(), 7);
    assert_eq!(engine.temperature(), 7);
    assert_eq!(engine.thermal_energy(), i64::from(K_B) * 7);
    assert_eq!(engine.get_lattice().get_spins(), lattice.get_spins());
    assert_eq!(engine.get_lattice().size(), 2);
    assert_eq!(engine.get_lattice().coupling(), 3);
    assert_eq!(engine.get_lattice().field(), -2);
    assert_eq!(MCMC::new(lattice, 2_000_000).temperature(), 2_000_000);
}

#[test]
fn set_temperature_leaves_the_lattice_alone() {
    let mut engine = engine_on(3, 1, Spin::UP);
    engine.set_temperature(7);
    assert_eq!(engine.temperature(), 7);
    assert_eq!(engine.thermal_energy(), i64::from(K_B) * 7);
    assert_eq!(engine.get_lattice().get_spins(), &vec![Spin::UP; 9]);
    engine.set_temperature(i32::MIN);
    assert_eq!(engine.thermal_energy(), i64::from(K_B) * i64::from(i32::MIN));
}

#[test]
fn set_external_field_scales_by_the_magnetic_moment() {
    let mut engine = engine_on(3, 1, Spin::UP);
    engine.set_external_field(4);
    assert_eq!(engine.get_lattice().field(), BOHR_MAGNETON * 4);
    assert_eq!(engine.get_lattice().energy(), -18 - 4 * 9);
    engine.set_external_field(-2);
    assert_eq!(engine.get_lattice().field(), BOHR_MAGNETON * -2);
    assert_eq!(engine.get_lattice().get_spins(), &vec![Spin::UP; 9]);
}

#[test]
fn attempt_flips_when_the_energy_falls() {
    let mut engine = engine_on(4, -1, Spin::UP);
    assert_eq!(engine.get_lattice().energy_diff(1, 1), -8);
    assert!(engine.attempt(1, 1, false));
    assert_eq!(engine.get_lattice().get_spins()[5], Spin::DOWN);
    assert_eq!(engine.get_lattice().energy(), 32 - 8);
}

#[test]
fn attempt_goes_by_the_draw_when_the_energy_rises() {
    let mut engine = engine_on(4, 1, Spin::UP);
    assert_eq!(engine.get_lattice().energy_diff(1, 1), 8);
    assert!(!engine.attempt(1, 1, false));
    assert_eq!(engine.get_lattice().get_spins(), &vec![Spin::UP; 16]);
    assert!(engine.attempt(1, 1, true));
    assert_eq!(engine.get_lattice().get_spins()[5], Spin::DOWN);
    assert_eq!(engine.get_lattice().energy(), -32 + 8);
}

#[test]
fn attempt_takes_the_difference_before_the_flip() {
    let mut engine = engine_on(4, 1, Spin::UP);
    assert!(engine.attempt(2, 2, true));
    // The way back lowers the energy, so no draw is needed.
    assert!(engine.attempt(2, 2, false));
    assert_eq!(engine.get_lattice().get_spins(), &vec![Spin::UP; 16]);
}

#[test]
fn choose_site_stays_on_the_grid() {
    let mut engine = engine_on(3, 1, Spin::UP);
    let mut columns = [false; 3];
    let mut rows = [false; 3];
    for _ in 0..300 {
        let (x, y) = engine.choose_site();
        assert!(x < 3 && y < 3);
        columns[x] = true;
        rows[y] = true;
    }
    assert_eq!(columns, [true; 3]);
    assert_eq!(rows, [true; 3]);
    assert_eq!(engine.get_lattice().get_spins(), &vec![Spin::UP; 9]);
}

#[test]
fn sweep_without_uphill_moves_never_raises_the_energy() {
    let mut engine = MCMC::new(Lattice::with_size(8, 1).unwrap(), 1);
    engine.set_external_field(1);
    let mut energy = engine.get_lattice().energy();
    for _ in 0..10 {
        engine.sweep(&|_delta, _thermal| false);
        let now = engine.get_lattice().energy();
        assert!(now <= energy);
        energy = now;
    }
}

#[test]
fn sweep_leaves_a_ground_state_alone_without_uphill_moves() {
    let mut engine = engine_on(6, 1, Spin::UP);
    engine.sweep(&|_delta, _thermal| false);
    assert_eq!(engine.get_lattice().get_spins(), &vec![Spin::UP; 36]);
}

#[test]
fn sweep_asks_only_for_moves_that_do_not_lower_the_energy() {
    let mut engine = MCMC::new(Lattice::with_size(8, 1).unwrap(), 1);
    engine.set_temperature(5);
    let asked = std::cell::Cell::new(0usize);
    engine.sweep(&|delta, thermal| {
        assert!(delta >= 0);
        assert_eq!(thermal, i64::from(K_B) * 5);
        asked.set(asked.get() + 1);
        true
    });
    assert!(asked.get() <= 64);
}

#[test]
fn sweep_makes_one_proposal_per_site() {
    // With no coupling and no field every difference is zero, so each
    // proposal asks once and flips once.
    let mut engine = engine_on(5, 0, Spin::UP);
    let asked = std::cell::Cell::new(0usize);
    engine.sweep(&|delta, _thermal| {
        assert_eq!(delta, 0);
        asked.set(asked.get() + 1);
        true
    });
    assert_eq!(asked.get(), 25);
    let downs = engine.get_lattice().get_spins().iter().filter(|s| **s == Spin::DOWN).count();
    assert_eq!(downs % 2, 1);
}

#[test]
fn sweep_keeps_the_parameters() {
    let mut engine = MCMC::new(Lattice::with_size(4, -3).unwrap(), 1);
    engine.set_external_field(2);
    engine.set_temperature(9);
    engine.sweep(&|_delta, _thermal| true);
    assert_eq!(engine.get_lattice().size(), 4);
    assert_eq!(engine.get_lattice().coupling(), -3);
    assert_eq!(engine.get_lattice().field(), 2);
    assert_eq!(engine.temperature(), 9);
}

#[test]
fn show_lattice_gives_the_rows_as_text() {
    let mut engine = engine_on(2, 1, Spin::UP);
    assert!(engine.attempt(1, 0, true));
    assert_eq!(engine.show_lattice(), "+-\n++\n");
}

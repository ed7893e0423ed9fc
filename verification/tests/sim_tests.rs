use gray_scott::params::{CAP, DEFAULT_SIZE, HALF_SCALE, SCALE};
use gray_scott::sim::{SimError, Simulator, Species};

fn uniform(n: usize, v: u64) -> Vec<u64> {
    vec![v; n * n]
}

#[test]
fn undersized_grid_is_rejected() {
    assert!(matches!(Simulator::new(0), Err(SimError::InvalidDimensions)));
    assert!(matches!(Simulator::new(1), Err(SimError::InvalidDimensions)));
    assert!(matches!(Simulator::new(2), Err(SimError::InvalidDimensions)));
    assert!(Simulator::new(3).is_ok());
}

#[test]
fn wrong_cell_count_is_rejected() {
    let r = Simulator::from_cells(5, uniform(4, 0), uniform(5, 0));
    assert!(matches!(r, Err(SimError::InvalidDimensions)));
    let r = Simulator::from_cells(5, uniform(5, 0), uniform(4, 0));
    assert!(matches!(r, Err(SimError::InvalidDimensions)));
    let r = Simulator::from_cells(2, uniform(2, 0), uniform(2, 0));
    assert!(matches!(r, Err(SimError::InvalidDimensions)));
}

#[test]
fn cells_come_back_as_stored() {
    let n = 5;
    let a: Vec<u64> = (0..n * n).map(|k| (k as u64) * 1_000).collect();
    let b: Vec<u64> = (0..n * n).map(|k| (k as u64) * 7 + 3).collect();
    let sim = Simulator::from_cells(n, a, b).unwrap();
    assert_eq!(sim.size(), n);
    for r in 0..n {
        for c in 0..n {
            let k = (r * n + c) as u64;
            assert_eq!(sim.get_cell(Species::A, r, c), k * 1_000);
            assert_eq!(sim.get_cell(Species::B, r, c), k * 7 + 3);
        }
    }
}

#[test]
fn random_initialization_is_in_range() {
    let sim = Simulator::new(8).unwrap();
    for r in 0..8 {
        for c in 0..8 {
            let a = sim.get_cell(Species::A, r, c);
            let b = sim.get_cell(Species::B, r, c);
            assert!((HALF_SCALE..SCALE).contains(&a));
            assert!(b < HALF_SCALE);
        }
    }
}

#[test]
fn uniform_saturated_field_is_a_steady_state() {
    let n = 5;
    let mut sim = Simulator::from_cells(n, uniform(n, SCALE), uniform(n, 0)).unwrap();
    for _ in 0..3 {
        sim.step();
        for r in 0..n {
            for c in 0..n {
                assert_eq!(sim.get_cell(Species::A, r, c), SCALE);
                assert_eq!(sim.get_cell(Species::B, r, c), 0);
            }
        }
    }
}

#[test]
fn half_half_grid_steps_to_known_values() {
    let n = 5;
    let mut sim =
        Simulator::from_cells(n, uniform(n, HALF_SCALE), uniform(n, HALF_SCALE)).unwrap();
    sim.step();
    // On a uniform field every Laplacian is zero, so each cell sees only
    // the reaction, feed and kill terms:
    //   a' = 1/2 - 1/8 + 7/100 * 1/2   = 0.410
    //   b' = 1/2 + 1/8 - 132/1000 * 1/2 = 0.559
    for r in 0..n {
        for c in 0..n {
            assert_eq!(sim.get_cell(Species::A, r, c), 410_000);
            assert_eq!(sim.get_cell(Species::B, r, c), 559_000);
        }
    }
}

#[test]
fn spike_diffuses_with_five_point_stencil() {
    let n = 5;
    let mut a = uniform(n, HALF_SCALE);
    a[2 * n + 2] = SCALE;
    let mut sim = Simulator::from_cells(n, a, uniform(n, 0)).unwrap();
    sim.step();
    // Centre (2,2): lap = 4 * 1/2 - 4 * 1 = -2, feed * (1 - 1) = 0:
    //   a' = 1 + 16/100 * (-2) = 0.680
    assert_eq!(sim.get_cell(Species::A, 2, 2), 680_000);
    // Neighbour (1,2): lap = (1/2 + 1 + 1/2 + 1/2) - 4 * 1/2 = 1/2:
    //   a' = 1/2 + 16/100 * 1/2 + 7/100 * 1/2 = 0.615
    assert_eq!(sim.get_cell(Species::A, 1, 2), 615_000);
    // Edge (0,2) is not reached by diffusion (no-flux boundary):
    //   a' = 1/2 + 7/100 * 1/2 = 0.535
    assert_eq!(sim.get_cell(Species::A, 0, 2), 535_000);
    // With B identically zero there is no reaction and nothing to drain.
    for r in 0..n {
        for c in 0..n {
            assert_eq!(sim.get_cell(Species::B, r, c), 0);
        }
    }
}

#[test]
fn far_cells_do_not_affect_a_local_update() {
    // Synchronous update: two fields that agree at a cell and around it
    // give the same post-step value there, whatever the far cells hold.
    let n = 5;
    let mut spiked = uniform(n, HALF_SCALE);
    spiked[2 * n + 2] = SCALE;
    let mut sim_plain =
        Simulator::from_cells(n, uniform(n, HALF_SCALE), uniform(n, 0)).unwrap();
    let mut sim_spiked = Simulator::from_cells(n, spiked, uniform(n, 0)).unwrap();
    sim_plain.step();
    sim_spiked.step();
    assert_eq!(
        sim_plain.get_cell(Species::A, 4, 4),
        sim_spiked.get_cell(Species::A, 4, 4),
    );
}

#[test]
fn intensities_match_exact_values() {
    let n = 3;
    let a = vec![0, 2_000, 500_000, 999_999, SCALE, 2 * SCALE, CAP, 1, 499_999];
    let sim = Simulator::from_cells(n, a, uniform(n, 0)).unwrap();
    let px = sim.read_intensities(Species::A);
    // intensity = round(value * 255), saturated at 255.
    assert_eq!(px, vec![0, 1, 128, 255, 255, 255, 255, 0, 127]);
}

#[test]
fn intensities_are_monotonic_in_the_cell_value() {
    let n = 4;
    let vals: Vec<u64> = (0..(n * n) as u64).map(|k| k * 70_000).collect();
    let sim = Simulator::from_cells(n, vals, uniform(n, 0)).unwrap();
    let px = sim.read_intensities(Species::A);
    for w in px.windows(2) {
        assert!(w[0] <= w[1]);
    }
    assert_eq!(px[0], 0);
    assert_eq!(px[15], 255);
}

#[test]
fn repeated_steps_keep_the_grid_size() {
    let n = 16;
    let mut sim = Simulator::new(n).unwrap();
    for _ in 0..10 {
        sim.step();
        assert_eq!(sim.size(), n);
        assert_eq!(sim.read_intensities(Species::A).len(), n * n);
        assert_eq!(sim.read_intensities(Species::B).len(), n * n);
    }
}

#[test]
fn default_size_simulator_steps() {
    let mut sim = Simulator::new(DEFAULT_SIZE).unwrap();
    sim.step();
    let px = sim.read_intensities(Species::B);
    assert_eq!(px.len(), DEFAULT_SIZE * DEFAULT_SIZE);
}

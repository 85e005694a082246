use genetic_optimizer::arm::Arm;
use genetic_optimizer::genetic::ConfigError;
use genetic_optimizer::genetic::GeneticAlgorithm;
use genetic_optimizer::genetic::RATE_SCALE;
use rand::SeedableRng;

fn make_rng() -> rand::rngs::StdRng {
    rand::rngs::StdRng::seed_from_u64(42)
}

/// The rates of the original configuration `0.1, 0.9, 0.5` in parts per
/// million.
fn make_ga() -> GeneticAlgorithm {
    GeneticAlgorithm::new(10, 100_000, 900_000, 500_000, 100, 2, vec![0, 0], vec![10, 10])
        .unwrap()
}

#[test]
fn test_get_population_size() {
    let ga = make_ga();
    assert_eq!(ga.get_population_size(), 10);
}

#[test]
fn test_get_individuals() {
    let ga = make_ga();
    let mut rng = make_rng();
    let individuals = ga.generate_new_population(&mut rng).unwrap();
    assert_eq!(individuals.len(), 10);
}

#[test]
fn test_get_simulations_used() {
    let ga = make_ga();
    assert_eq!(ga.get_simulations_used(), 0);
}

#[test]
fn test_update_simulations_used() {
    let mut ga = make_ga();
    ga.update_simulations_used(5);
    assert_eq!(ga.get_simulations_used(), 5);
}

#[test]
fn test_budget_reached() {
    let mut ga = make_ga();
    assert_eq!(ga.budget_reached(), false);
    ga.update_simulations_used(100);
    assert_eq!(ga.budget_reached(), true);
}

#[test]
fn test_mutate() {
    // Mutation rate one and span one, over two two-gene arms in [0, 10].
    let ga = GeneticAlgorithm::new(
        2,
        RATE_SCALE,
        900_000,
        RATE_SCALE,
        100,
        2,
        vec![0, 0],
        vec![10, 10],
    )
    .unwrap();
    let mut rng = make_rng();

    let initial_population = vec![Arm::new(&vec![1, 1]), Arm::new(&vec![2, 2])];
    // Candidate perturbed values, as the caller would draw them from a
    // Gaussian around each gene; all differ from the genes they replace.
    let perturbations = vec![vec![5, 7], vec![9, 3]];

    let mutated_population = ga
        .mutate(&mut rng, &initial_population, &perturbations)
        .unwrap();

    for (i, individual) in mutated_population.iter().enumerate() {
        let init_vector = initial_population[i].get_action_vector();
        let mut_vector = individual.get_action_vector();

        for j in 0..2 {
            assert!(mut_vector[j] >= 0);
            assert!(mut_vector[j] <= 10);
        }

        assert_ne!(mut_vector, init_vector); // since mutation rate is 100%
    }
}

#[test]
fn test_crossover() {
    // Crossover rate one over two ten-gene arms: every cut point yields
    // children different from both parents for these vectors.
    let ga = GeneticAlgorithm::new(
        2,
        100_000,
        RATE_SCALE,
        500_000,
        100,
        10,
        vec![0, 0, 0, 0, 0, 0, 0, 0, 0, 0],
        vec![10, 10, 10, 10, 10, 10, 10, 10, 10, 10],
    )
    .unwrap();
    let mut rng = make_rng();

    let initial_population = vec![
        Arm::new(&vec![0, 1, 2, 3, 4, 5, 6, 7, 8, 9]),
        Arm::new(&vec![9, 8, 7, 6, 5, 4, 3, 2, 1, 0]),
    ];

    let crossover_population = ga.crossover(&mut rng, &initial_population).unwrap();

    assert_ne!(
        crossover_population[0].get_action_vector(),
        initial_population[0].get_action_vector()
    );
    assert_ne!(
        crossover_population[1].get_action_vector(),
        initial_population[1].get_action_vector()
    );
}

#[test]
fn test_initial_population_size_and_distinct() {
    let ga = make_ga();
    let mut rng = make_rng();
    let pop = ga.generate_new_population(&mut rng).unwrap();
    assert_eq!(pop.len(), 10);
    for i in 0..pop.len() {
        for j in (i + 1)..pop.len() {
            assert_ne!(pop[i].get_action_vector(), pop[j].get_action_vector());
        }
    }
}

#[test]
fn test_initial_population_in_bounds() {
    let ga = GeneticAlgorithm::new(4, 100_000, 900_000, 500_000, 100, 2, vec![3, 3], vec![4, 4])
        .unwrap();
    let mut rng = make_rng();
    let pop = ga.generate_new_population(&mut rng).unwrap();
    assert_eq!(pop.len(), 4);
    for arm in &pop {
        let v = arm.get_action_vector();
        assert_eq!(v.len(), 2);
        for &g in v.iter() {
            assert!(g >= 3 && g <= 4);
        }
    }
}

#[test]
fn test_generate_reports_exhausted_space() {
    // One distinct point in the space, but two arms requested.
    let ga = GeneticAlgorithm::new(2, 100_000, 900_000, 500_000, 100, 1, vec![5], vec![5])
        .unwrap();
    let mut rng = make_rng();
    let r = ga.generate_new_population(&mut rng);
    assert_eq!(r.unwrap_err(), ConfigError::SearchSpaceExhausted);
}

#[test]
fn test_crossover_rate_zero_is_identity() {
    let ga = GeneticAlgorithm::new(
        4,
        100_000,
        0,
        500_000,
        100,
        3,
        vec![0, 0, 0],
        vec![9, 9, 9],
    )
    .unwrap();
    let mut rng = make_rng();
    let pop = vec![
        Arm::new(&vec![1, 2, 3]),
        Arm::new(&vec![4, 5, 6]),
        Arm::new(&vec![7, 8, 9]),
        Arm::new(&vec![0, 0, 0]),
    ];
    let out = ga.crossover(&mut rng, &pop).unwrap();
    assert_eq!(out.len(), 4);
    for i in 0..4 {
        assert_eq!(out[i].get_action_vector(), pop[i].get_action_vector());
    }
}

#[test]
fn test_crossover_rate_one_keeps_bounds_and_genes() {
    let ga = GeneticAlgorithm::new(
        2,
        100_000,
        RATE_SCALE,
        500_000,
        100,
        4,
        vec![0, 0, 0, 0],
        vec![9, 9, 9, 9],
    )
    .unwrap();
    let mut rng = make_rng();
    let pop = vec![Arm::new(&vec![1, 2, 3, 4]), Arm::new(&vec![5, 6, 7, 8])];
    let out = ga.crossover(&mut rng, &pop).unwrap();
    assert_eq!(out.len(), 2);
    for k in 0..2 {
        let child = out[k].get_action_vector();
        assert_eq!(child.len(), 4);
        for g in 0..4 {
            let a = pop[0].get_action_vector()[g];
            let b = pop[1].get_action_vector()[g];
            // Positional provenance: each gene comes from a parent at the
            // same position, hence stays within the bounds.
            assert!(child[g] == a || child[g] == b);
            assert!(child[g] >= 0 && child[g] <= 9);
        }
    }
    // Children are spliced complements of one another.
    for g in 0..4 {
        let ca = out[0].get_action_vector()[g];
        let cb = out[1].get_action_vector()[g];
        let a = pop[0].get_action_vector()[g];
        let b = pop[1].get_action_vector()[g];
        assert!((ca == a && cb == b) || (ca == b && cb == a));
    }
}

#[test]
fn test_mutate_rate_zero_is_identity() {
    let ga = GeneticAlgorithm::new(2, 0, 900_000, 500_000, 100, 2, vec![0, 0], vec![10, 10])
        .unwrap();
    let mut rng = make_rng();
    let pop = vec![Arm::new(&vec![1, 1]), Arm::new(&vec![2, 2])];
    let perturbations = vec![vec![5, 7], vec![9, 3]];
    let out = ga.mutate(&mut rng, &pop, &perturbations).unwrap();
    assert_eq!(out.len(), 2);
    for i in 0..2 {
        assert_eq!(out[i].get_action_vector(), pop[i].get_action_vector());
    }
}

#[test]
fn test_mutate_drops_duplicates() {
    // Two equal arms pass through unchanged at rate zero: the second is
    // dropped and the output is strictly shorter than the input.
    let ga = GeneticAlgorithm::new(2, 0, 900_000, 500_000, 100, 2, vec![0, 0], vec![10, 10])
        .unwrap();
    let mut rng = make_rng();
    let pop = vec![Arm::new(&vec![3, 4]), Arm::new(&vec![3, 4])];
    let perturbations = vec![vec![5, 7], vec![9, 3]];
    let out = ga.mutate(&mut rng, &pop, &perturbations).unwrap();
    assert_eq!(out.len(), 1);
    assert_eq!(out[0].get_action_vector(), &vec![3, 4]);
}

#[test]
fn test_mutate_clamps_to_bounds() {
    // At rate one every gene takes its injected candidate value clamped:
    // one candidate lands exactly on the upper bound, one far above it and
    // one below the lower bound.
    let ga = GeneticAlgorithm::new(
        2,
        RATE_SCALE,
        900_000,
        RATE_SCALE,
        100,
        2,
        vec![0, 0],
        vec![10, 10],
    )
    .unwrap();
    let mut rng = make_rng();
    let pop = vec![Arm::new(&vec![1, 1]), Arm::new(&vec![2, 2])];
    let perturbations = vec![vec![10, 25], vec![-5, 8]];
    let out = ga.mutate(&mut rng, &pop, &perturbations).unwrap();
    assert_eq!(out.len(), 2);
    assert_eq!(out[0].get_action_vector(), &vec![10, 10]);
    assert_eq!(out[1].get_action_vector(), &vec![0, 8]);
}

#[test]
fn test_mutate_emits_first_occurrences() {
    // At rate one with colliding candidate rows, both arms map to the same
    // image: the first occurrence is emitted, the repeat is dropped.
    let ga = GeneticAlgorithm::new(
        2,
        RATE_SCALE,
        900_000,
        RATE_SCALE,
        100,
        2,
        vec![0, 0],
        vec![10, 10],
    )
    .unwrap();
    let mut rng = make_rng();
    let pop = vec![Arm::new(&vec![1, 1]), Arm::new(&vec![2, 2])];
    let perturbations = vec![vec![5, 5], vec![5, 5]];
    let out = ga.mutate(&mut rng, &pop, &perturbations).unwrap();
    assert_eq!(out.len(), 1);
    assert_eq!(out[0].get_action_vector(), &vec![5, 5]);
}

#[test]
fn test_budget_accounting_boundary() {
    let mut ga = make_ga();
    ga.update_simulations_used(5);
    assert!(!ga.budget_reached());
    ga.update_simulations_used(95);
    assert!(ga.budget_reached());
}

#[test]
fn test_new_rejects_bad_configurations() {
    let ok = |pop: usize, dim: usize, lb: Vec<i32>, ub: Vec<i32>| {
        GeneticAlgorithm::new(pop, 100_000, 900_000, 500_000, 100, dim, lb, ub)
    };
    assert_eq!(
        ok(10, 0, vec![], vec![]).unwrap_err(),
        ConfigError::ZeroDimension
    );
    assert_eq!(
        ok(0, 2, vec![0, 0], vec![10, 10]).unwrap_err(),
        ConfigError::ZeroPopulationSize
    );
    assert_eq!(
        ok(3, 2, vec![0, 0], vec![10, 10]).unwrap_err(),
        ConfigError::OddPopulationSize
    );
    assert_eq!(
        GeneticAlgorithm::new(10, RATE_SCALE + 1, 900_000, 500_000, 100, 2, vec![0, 0], vec![10, 10])
            .unwrap_err(),
        ConfigError::RateOutOfRange
    );
    assert_eq!(
        GeneticAlgorithm::new(10, 100_000, 900_000, 0, 100, 2, vec![0, 0], vec![10, 10])
            .unwrap_err(),
        ConfigError::ZeroMutationSpan
    );
    assert_eq!(
        GeneticAlgorithm::new(10, 100_000, 900_000, 500_000, 0, 2, vec![0, 0], vec![10, 10])
            .unwrap_err(),
        ConfigError::ZeroBudget
    );
    assert_eq!(
        ok(10, 2, vec![0], vec![10, 10]).unwrap_err(),
        ConfigError::BoundsLengthMismatch
    );
    assert_eq!(
        ok(10, 2, vec![0, 11], vec![10, 10]).unwrap_err(),
        ConfigError::BoundsInverted
    );
}

#[test]
fn test_crossover_rejects_bad_inputs() {
    let mut rng = make_rng();
    let ga1 = GeneticAlgorithm::new(2, 100_000, 900_000, 500_000, 100, 1, vec![0], vec![10])
        .unwrap();
    let pop1 = vec![Arm::new(&vec![1]), Arm::new(&vec![2])];
    assert_eq!(
        ga1.crossover(&mut rng, &pop1).unwrap_err(),
        ConfigError::DimensionTooSmallForCrossover
    );

    let ga2 = GeneticAlgorithm::new(4, 100_000, 900_000, 500_000, 100, 2, vec![0, 0], vec![10, 10])
        .unwrap();
    let pop2 = vec![Arm::new(&vec![1, 2]), Arm::new(&vec![3, 4])];
    assert_eq!(
        ga2.crossover(&mut rng, &pop2).unwrap_err(),
        ConfigError::PopulationSizeMismatch
    );

    let pop3 = vec![
        Arm::new(&vec![1, 2]),
        Arm::new(&vec![3]),
        Arm::new(&vec![5, 6]),
        Arm::new(&vec![7, 8]),
    ];
    assert_eq!(
        ga2.crossover(&mut rng, &pop3).unwrap_err(),
        ConfigError::CandidateLengthMismatch
    );
}

#[test]
fn test_mutate_rejects_bad_inputs() {
    let mut rng = make_rng();
    let ga = GeneticAlgorithm::new(2, 100_000, 900_000, 500_000, 100, 2, vec![0, 0], vec![10, 10])
        .unwrap();
    let short_arm_pop = vec![Arm::new(&vec![1]), Arm::new(&vec![2, 3])];
    let perts = vec![vec![0, 0], vec![0, 0]];
    assert_eq!(
        ga.mutate(&mut rng, &short_arm_pop, &perts).unwrap_err(),
        ConfigError::CandidateLengthMismatch
    );

    let pop = vec![Arm::new(&vec![1, 2]), Arm::new(&vec![3, 4])];
    let missing_row = vec![vec![0, 0]];
    assert_eq!(
        ga.mutate(&mut rng, &pop, &missing_row).unwrap_err(),
        ConfigError::PerturbationShapeMismatch
    );
    let short_row = vec![vec![0, 0], vec![0]];
    assert_eq!(
        ga.mutate(&mut rng, &pop, &short_row).unwrap_err(),
        ConfigError::PerturbationShapeMismatch
    );
}

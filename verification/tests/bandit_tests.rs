use bandit_sim::bandit::Bandit;
use bandit_sim::bandit::BanditError;
use bandit_sim::rng::RandomSource;
use bandit_sim::rng::UNIT;
use bandit_sim::solver::Solver;
use bandit_sim::strategy::EpsilonGreedy;
use bandit_sim::strategy::Rat;
use bandit_sim::strategy::Strategy;

#[test]
fn bandit_test() {
    let bandit = Bandit::new(10).unwrap();
    let mut rng = RandomSource::ambient();
    assert_eq!(bandit.k, 10);
    assert_eq!(bandit.probes.len(), 10);
    for i in 0..10 {
        let reward = bandit.step(i, &mut rng).unwrap();
        assert!(reward <= 1);
        println!("pulled arm {}, got reward {}", i, reward);
    }
}

#[test]
fn solver_test() {
    const EPSILON: u32 = 400_000;
    let bandit = Bandit::new(10).unwrap();
    let epsilon_strategy = EpsilonGreedy::new(&bandit, EPSILON).unwrap();
    let mut solver = Solver::new(bandit, epsilon_strategy);
    let mut rng = RandomSource::ambient();
    solver.run(100, &mut rng);

    let data = solver
        .regrets()
        .iter()
        .enumerate()
        .map(|(i, &v)| (i, v))
        .collect::<Vec<(usize, u64)>>();
    data.iter()
        .for_each(|(index, regret)| println!("step:{}, regret:{}", index + 1, regret));
    assert_eq!(solver.regrets().len(), 100);
    assert_eq!(solver.actions().len(), 100);
}

#[test]
fn bandit_construction_properties() {
    let b = Bandit::with_probes(vec![200_000, 500_000, 800_000]).unwrap();
    assert_eq!(b.k, 3);
    assert_eq!(b.best_idx, 2);
    assert_eq!(b.best_probe, 800_000);

    // ties break to the lowest index
    let b2 = Bandit::with_probes(vec![500_000, 300_000, 500_000]).unwrap();
    assert_eq!(b2.best_idx, 0);
    assert_eq!(b2.best_probe, 500_000);

    let b3 = Bandit::new(7).unwrap();
    assert_eq!(b3.k, 7);
    assert_eq!(b3.probes.len(), 7);
    for &p in b3.probes.iter() {
        assert!(p <= UNIT);
        assert!(p <= b3.best_probe);
    }
    assert_eq!(b3.probes[b3.best_idx], b3.best_probe);
}

#[test]
fn construction_errors() {
    assert!(matches!(Bandit::new(0), Err(BanditError::InvalidParameter)));
    assert!(matches!(
        Bandit::with_probes(vec![]),
        Err(BanditError::InvalidParameter)
    ));
    assert!(matches!(
        Bandit::with_probes(vec![500_000, UNIT + 1]),
        Err(BanditError::InvalidParameter)
    ));
    let b = Bandit::new(3).unwrap();
    assert!(matches!(
        EpsilonGreedy::new(&b, UNIT + 1),
        Err(BanditError::InvalidParameter)
    ));
}

#[test]
fn step_out_of_range() {
    let b = Bandit::with_probes(vec![100_000, 900_000]).unwrap();
    let mut rng = RandomSource::ambient();
    assert!(matches!(
        b.step(5, &mut rng),
        Err(BanditError::IndexOutOfRange)
    ));
    assert!(b.step(1, &mut rng).unwrap() <= 1);
}

#[test]
fn run_zero_steps_changes_nothing() {
    let b = Bandit::with_probes(vec![200_000, 500_000, 800_000]).unwrap();
    let s = EpsilonGreedy::new(&b, 100_000).unwrap();
    let mut solver = Solver::new(b, s);
    let mut rng = RandomSource::ambient();

    solver.run(0, &mut rng);
    assert_eq!(solver.actions().len(), 0);
    assert_eq!(solver.regrets().len(), 0);
    assert_eq!(solver.regret(), 0);

    solver.run(5, &mut rng);
    let actions_before = solver.actions().clone();
    let regrets_before = solver.regrets().clone();
    solver.run(0, &mut rng);
    assert_eq!(solver.actions(), &actions_before);
    assert_eq!(solver.regrets(), &regrets_before);
}

#[test]
fn run_lengths_match_steps() {
    let b = Bandit::new(4).unwrap();
    let s = EpsilonGreedy::new(&b, 250_000).unwrap();
    let mut solver = Solver::new(b, s);
    let mut rng = RandomSource::ambient();
    solver.run(37, &mut rng);
    assert_eq!(solver.actions().len(), 37);
    assert_eq!(solver.regrets().len(), 37);
    // regret snapshots never decrease
    for w in solver.regrets().windows(2) {
        assert!(w[0] <= w[1]);
    }
    // a second run accumulates onto the same histories
    solver.run(13, &mut rng);
    assert_eq!(solver.actions().len(), 50);
    assert_eq!(solver.regrets().len(), 50);
}

#[test]
fn replay_runs_are_reproducible() {
    let values: Vec<u32> = (0..200u32).map(|i| (i * 37_501) % (UNIT + 1)).collect();
    let make_solver = || {
        let b = Bandit::with_probes(vec![150_000, 650_000, 420_000, 900_000]).unwrap();
        let s = EpsilonGreedy::new(&b, 300_000).unwrap();
        Solver::new(b, s)
    };
    let mut s1 = make_solver();
    let mut s2 = make_solver();
    let mut r1 = RandomSource::replay(values.clone());
    let mut r2 = RandomSource::replay(values);
    s1.run(50, &mut r1);
    s2.run(50, &mut r2);
    assert_eq!(s1.actions(), s2.actions());
    assert_eq!(s1.regrets(), s2.regrets());
    assert_eq!(s1.regret(), s2.regret());
}

#[test]
fn estimates_track_the_mean() {
    let b = Bandit::with_probes(vec![500_000, 500_000]).unwrap();
    let mut s = EpsilonGreedy::new(&b, 0).unwrap();
    // every arm starts at the optimistic prior 1
    assert_eq!(s.estimate(0), Rat { num: 1, den: 1 });
    assert_eq!(s.estimate(1), Rat { num: 1, den: 1 });
    assert_eq!(s.pull_count(0), 0);

    let rewards = [1u32, 0, 1, 1, 0];
    for &r in rewards.iter() {
        s.update(0, r);
    }
    assert_eq!(s.pull_count(0), 5);
    // mean of 1, 0, 1, 1, 0 is exactly 3/5
    assert_eq!(s.estimate(0), Rat { num: 3, den: 5 });
    // the untouched arm keeps its prior
    assert_eq!(s.estimate(1), Rat { num: 1, den: 1 });

    // the first pull discards the prior
    s.update(1, 0);
    assert_eq!(s.estimate(1), Rat { num: 0, den: 1 });
}

#[test]
fn greedy_scenario_always_picks_first_arm() {
    let b = Bandit::with_probes(vec![200_000, 500_000, 800_000]).unwrap();
    assert_eq!(b.best_idx, 2);
    assert_eq!(b.best_probe, 800_000);
    let s = EpsilonGreedy::new(&b, 0).unwrap();
    let mut solver = Solver::new(b, s);
    // epsilon = 0: each step draws once for selection and once for the
    // reward; a zero draw keeps every reward at 1, and equal estimates
    // tie-break to arm 0 forever.
    let mut rng = RandomSource::replay(vec![0u32; 12]);
    solver.run(3, &mut rng);
    assert_eq!(solver.actions(), &vec![0usize, 0, 0]);
    assert_eq!(solver.regrets(), &vec![600_000u64, 1_200_000, 1_800_000]);
    assert_eq!(solver.regret(), 1_800_000);
}

#[test]
fn explore_picks_the_replayed_index() {
    let b = Bandit::with_probes(vec![100_000, 100_000, 100_000]).unwrap();
    // epsilon = UNIT: every step explores
    let s = EpsilonGreedy::new(&b, UNIT).unwrap();
    let mut solver = Solver::new(b, s);
    // per step: one unit draw (always below epsilon), one index draw,
    // one reward draw; a reward draw of UNIT is never below a probability
    let mut rng = RandomSource::replay(vec![0, 7, UNIT, 0, 2, UNIT]);
    solver.run(2, &mut rng);
    assert_eq!(solver.actions(), &vec![1usize, 2]); // 7 % 3, 2 % 3
    // all probabilities equal the best: the regret of every pull is 0
    assert_eq!(solver.regrets(), &vec![0u64, 0]);
}

#[test]
fn ambient_explore_stays_in_range() {
    let b = Bandit::with_probes(vec![0, 0, 0, 0, 0]).unwrap();
    // epsilon = UNIT: every step draws an exploration index from the
    // process-wide generator
    let s = EpsilonGreedy::new(&b, UNIT).unwrap();
    let mut solver = Solver::new(b, s);
    let mut rng = RandomSource::ambient();
    solver.run(100, &mut rng);
    for &a in solver.actions().iter() {
        assert!(a < 5);
    }
}

#[test]
fn replay_values_above_unit_clamp() {
    let b = Bandit::with_probes(vec![UNIT]).unwrap();
    let mut rng = RandomSource::replay(vec![2 * UNIT]);
    // the oversized draw clamps to UNIT, which is not below the probability
    assert_eq!(b.step(0, &mut rng).unwrap(), 0);
    // an exhausted replay source draws 0, which is below it
    assert_eq!(b.step(0, &mut rng).unwrap(), 1);
}

#[test]
fn select_arm_with_is_deterministic() {
    let b = Bandit::with_probes(vec![300_000, 300_000, 700_000]).unwrap();
    let mut s = EpsilonGreedy::new(&b, 500_000).unwrap();
    // a draw below epsilon explores with the given arm
    assert_eq!(s.select_arm_with(499_999, 2), 2);
    // a draw at or above epsilon exploits; equal priors tie-break to arm 0
    assert_eq!(s.select_arm_with(500_000, 1), 0);
    // after arm 0 falls to mean 0, arm 1 holds the first maximum
    s.update(0, 0);
    assert_eq!(s.select_arm_with(UNIT, 0), 1);
}

#[test]
fn rational_comparisons_are_exact() {
    let third = Rat { num: 1, den: 3 };
    let two_fifths = Rat { num: 2, den: 5 };
    assert!(third.lt(two_fifths));
    assert!(!two_fifths.lt(third));
    assert!(third.le(third));
    assert!(two_fifths.le(Rat { num: 4, den: 10 }));
    assert!(Rat { num: 4, den: 10 }.le(two_fifths));
}

#[test]
fn update_regret_accumulates_the_gap() {
    let b = Bandit::with_probes(vec![200_000, 900_000]).unwrap();
    let s = EpsilonGreedy::new(&b, 0).unwrap();
    let mut solver = Solver::new(b, s);
    solver.update_regret(0);
    solver.update_regret(1);
    assert_eq!(solver.regrets(), &vec![700_000u64, 700_000]);
    assert_eq!(solver.regret(), 700_000);
}

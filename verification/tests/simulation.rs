use rand::RngExt;
use rand::SeedableRng;

use snowfall::cell::{Cell, Snowflake, MAX_HEIGHT};
use snowfall::engine::Snow;
use snowfall::rng::{MinRandom, RandomSource, SeededRandom};

/// A test source that spawns a flake of one fixed kind in every top-row
/// column, every tick.
struct AlwaysSpawn {
    kind: u8,
}

impl RandomSource for AlwaysSpawn {
    fn fall_delay(&mut self) -> u8 {
        1
    }

    fn flake_kind(&mut self) -> u8 {
        self.kind
    }

    fn spawn_flake(&mut self) -> bool {
        true
    }
}

fn count_flakes(s: &Snow) -> usize {
    let mut n: usize = 0;
    for r in 0..s.rows() {
        for c in 0..s.cols() {
            if let Cell::Flake(_, _) = s.get(r, c) {
                n += 1;
            }
        }
    }
    n
}

#[test]
fn create_starts_empty() {
    let s = Snow::create(3, 4);
    assert_eq!(s.rows(), 3);
    assert_eq!(s.cols(), 4);
    for r in 0..3 {
        for c in 0..4 {
            assert_eq!(s.get(r, c), Cell::Empty);
        }
    }
}

#[test]
fn resize_clears_state() {
    let mut s = Snow::create(3, 3);
    s.set(0, 0, Cell::Flake(Snowflake::Type1, 2));
    s.set(1, 1, Cell::Stack(4));
    s.set(2, 2, Cell::Stack(MAX_HEIGHT));
    s.resize(4, 2);
    assert_eq!(s.rows(), 4);
    assert_eq!(s.cols(), 2);
    for r in 0..4 {
        for c in 0..2 {
            assert_eq!(s.get(r, c), Cell::Empty);
        }
    }
}

#[test]
fn landing_turns_eligible_flake_into_seed_pile() {
    let mut s = Snow::create(2, 1);
    s.set(1, 0, Cell::Flake(Snowflake::Type1, 0));
    let mut rng = MinRandom {};
    s.tick(&mut rng);
    assert_eq!(s.get(1, 0), Cell::Stack(1));
}

#[test]
fn landing_counts_down_waiting_flake() {
    let mut s = Snow::create(2, 1);
    s.set(1, 0, Cell::Flake(Snowflake::Type2, 3));
    let mut rng = MinRandom {};
    s.tick(&mut rng);
    assert_eq!(s.get(1, 0), Cell::Flake(Snowflake::Type2, 2));
}

#[test]
fn tie_break_right_wins_over_left() {
    let mut s = Snow::create(2, 3);
    s.set(0, 1, Cell::Flake(Snowflake::Type1, 0));
    s.set(1, 0, Cell::Stack(5));
    s.set(1, 1, Cell::Stack(5));
    s.set(1, 2, Cell::Stack(3));
    let mut rng = MinRandom {};
    s.tick(&mut rng);
    assert_eq!(s.get(0, 1), Cell::Empty);
    assert_eq!(s.get(1, 0), Cell::Stack(5));
    assert_eq!(s.get(1, 1), Cell::Stack(5));
    assert_eq!(s.get(1, 2), Cell::Stack(4));
}

#[test]
fn tie_break_middle_wins_all_ties() {
    let mut s = Snow::create(2, 3);
    s.set(0, 1, Cell::Flake(Snowflake::Type1, 0));
    s.set(1, 0, Cell::Stack(5));
    s.set(1, 1, Cell::Stack(5));
    s.set(1, 2, Cell::Stack(5));
    let mut rng = MinRandom {};
    s.tick(&mut rng);
    assert_eq!(s.get(0, 1), Cell::Empty);
    assert_eq!(s.get(1, 0), Cell::Stack(5));
    assert_eq!(s.get(1, 1), Cell::Stack(6));
    assert_eq!(s.get(1, 2), Cell::Stack(5));
}

#[test]
fn no_neighbor_falls_back_to_middle_pile() {
    let mut s = Snow::create(2, 1);
    s.set(0, 0, Cell::Flake(Snowflake::Type3, 0));
    s.set(1, 0, Cell::Stack(2));
    let mut rng = MinRandom {};
    s.tick(&mut rng);
    assert_eq!(s.get(0, 0), Cell::Empty);
    assert_eq!(s.get(1, 0), Cell::Stack(3));
}

#[test]
fn full_pile_seeds_new_pile_at_source() {
    let mut s = Snow::create(2, 1);
    s.set(0, 0, Cell::Flake(Snowflake::Type1, 0));
    s.set(1, 0, Cell::Stack(MAX_HEIGHT));
    let mut rng = MinRandom {};
    s.tick(&mut rng);
    assert_eq!(s.get(0, 0), Cell::Stack(1));
    assert_eq!(s.get(1, 0), Cell::Stack(MAX_HEIGHT));
}

#[test]
fn move_conserves_the_flake() {
    let mut s = Snow::create(3, 3);
    s.set(0, 1, Cell::Flake(Snowflake::Type2, 0));
    let mut rng = MinRandom {};
    s.tick(&mut rng);
    assert_eq!(s.get(0, 1), Cell::Empty);
    assert_eq!(s.get(1, 1), Cell::Flake(Snowflake::Type2, 1));
    assert_eq!(count_flakes(&s), 1);
}

#[test]
fn lateral_slip_left_before_piling() {
    let mut s = Snow::create(2, 2);
    s.set(0, 1, Cell::Flake(Snowflake::Type1, 0));
    s.set(1, 1, Cell::Stack(1));
    let mut rng = MinRandom {};
    s.tick(&mut rng);
    assert_eq!(s.get(0, 1), Cell::Empty);
    assert_eq!(s.get(1, 0), Cell::Flake(Snowflake::Type1, 1));
    assert_eq!(s.get(1, 1), Cell::Stack(1));
}

#[test]
fn lateral_slip_right_when_left_blocked() {
    let mut s = Snow::create(2, 2);
    s.set(0, 0, Cell::Flake(Snowflake::Type1, 0));
    s.set(1, 0, Cell::Stack(1));
    let mut rng = MinRandom {};
    s.tick(&mut rng);
    assert_eq!(s.get(0, 0), Cell::Empty);
    assert_eq!(s.get(1, 0), Cell::Stack(1));
    assert_eq!(s.get(1, 1), Cell::Flake(Snowflake::Type1, 1));
}

#[test]
fn falling_flake_vanishes_against_flake_below() {
    let mut s = Snow::create(3, 1);
    s.set(0, 0, Cell::Flake(Snowflake::Type1, 0));
    s.set(1, 0, Cell::Flake(Snowflake::Type2, 3));
    let mut rng = MinRandom {};
    s.tick(&mut rng);
    assert_eq!(s.get(0, 0), Cell::Empty);
    assert_eq!(s.get(1, 0), Cell::Flake(Snowflake::Type2, 2));
    assert_eq!(s.get(2, 0), Cell::Empty);
    assert_eq!(count_flakes(&s), 1);
}

#[test]
fn single_flake_full_descent() {
    let mut s = Snow::create(5, 5);
    s.set(0, 2, Cell::Flake(Snowflake::Type1, 0));
    let mut rng = MinRandom {};

    s.tick(&mut rng);
    assert_eq!(s.get(0, 2), Cell::Empty);
    assert_eq!(s.get(1, 2), Cell::Flake(Snowflake::Type1, 1));

    // One tick to count the delay down, one to step a row, until the
    // flake sits on the floor and its last delay has run out.
    for _ in 0..8 {
        s.tick(&mut rng);
    }
    assert_eq!(s.get(4, 2), Cell::Stack(1));
    for r in 0..5 {
        for c in 0..5 {
            if !(r == 4 && c == 2) {
                assert_eq!(s.get(r, c), Cell::Empty);
            }
        }
    }
}

#[test]
fn seeded_spawns_match_reference_stream() {
    let cols: u16 = 13;
    let ticks = 3000;
    let mut s = Snow::create(1, cols);
    let mut rng = SeededRandom::from_seed(7);

    let mut reference = rand::rngs::StdRng::seed_from_u64(7);
    let mut expected: usize = 0;
    let mut observed: usize = 0;

    for _ in 0..ticks {
        s.tick(&mut rng);
        observed += count_flakes(&s);

        for _ in 0..cols {
            if reference.random_ratio(1, 500) {
                let _kind: u8 = reference.random_range(1..=3);
                expected += 1;
            }
        }
    }
    assert_eq!(observed, expected);
}

#[test]
fn spawn_overwrites_whatever_the_top_cell_held() {
    let mut s = Snow::create(1, 3);
    s.set(0, 0, Cell::Stack(5));
    s.set(0, 1, Cell::Flake(Snowflake::Type1, 2));
    let mut rng = AlwaysSpawn { kind: 2 };
    s.tick(&mut rng);
    for c in 0..3 {
        assert_eq!(s.get(0, c), Cell::Flake(Snowflake::Type2, 0));
    }
}

#[test]
fn seeded_source_is_reproducible() {
    let mut a = Snow::create(6, 6);
    let mut b = Snow::create(6, 6);
    let mut rng_a = SeededRandom::from_seed(99);
    let mut rng_b = SeededRandom::from_seed(99);
    let mut spawner = AlwaysSpawn { kind: 3 };
    a.tick(&mut spawner);
    b.tick(&mut spawner);
    for _ in 0..200 {
        a.tick(&mut rng_a);
        b.tick(&mut rng_b);
    }
    for r in 0..6 {
        for c in 0..6 {
            assert_eq!(a.get(r, c), b.get(r, c));
        }
    }
}

use rand::rngs::StdRng;
use rand::Rng;
use rand::SeedableRng;
use roguelike::random::RandomSource;

#[test]
fn same_seed_same_draws() {
    let mut first = RandomSource::seeded(2024);
    let mut second = RandomSource::seeded(2024);
    for _ in 0..100 {
        assert_eq!(first.int_between(-50, 50), second.int_between(-50, 50));
        assert_eq!(first.chance(1, 2), second.chance(1, 2));
    }
}

#[test]
fn different_seeds_differ() {
    let mut first = RandomSource::seeded(1);
    let mut second = RandomSource::seeded(2);
    let a: Vec<i32> = (0..32).map(|_| first.int_between(0, 1_000_000)).collect();
    let b: Vec<i32> = (0..32).map(|_| second.int_between(0, 1_000_000)).collect();
    assert_ne!(a, b);
}

#[test]
fn draws_stay_in_range() {
    let mut source = RandomSource::seeded(3);
    for _ in 0..1000 {
        let drawn = source.int_between(-6, 6);
        assert!(-6 <= drawn && drawn <= 6);
    }
    assert_eq!(source.int_between(5, 5), 5);
    assert_eq!(source.int_between(-3, -3), -3);
    let wide = source.int_between(i32::MIN, i32::MAX);
    assert!(i32::MIN <= wide);
}

#[test]
fn draws_reach_both_ends() {
    let mut source = RandomSource::seeded(4);
    let drawn: Vec<i32> = (0..200).map(|_| source.int_between(10, 12)).collect();
    assert!(drawn.contains(&10));
    assert!(drawn.contains(&11));
    assert!(drawn.contains(&12));
}

#[test]
fn chance_is_certain_at_both_ends() {
    let mut source = RandomSource::seeded(5);
    for _ in 0..200 {
        assert!(!source.chance(0, 100));
        assert!(source.chance(100, 100));
        assert!(source.chance(1, 1));
        assert!(!source.chance(0, 1));
    }
}

#[test]
fn chance_follows_its_probability() {
    let mut source = RandomSource::seeded(6);
    let hits = (0..10_000).filter(|_| source.chance(20, 100)).count();
    assert!(hits > 1_700 && hits < 2_300, "hits {}", hits);
}

#[test]
fn entropy_gives_a_usable_source() {
    match RandomSource::from_entropy() {
        Some(mut source) => {
            let drawn = source.int_between(1, 6);
            assert!(1 <= drawn && drawn <= 6);
        }
        None => (),
    }
}

#[test]
fn a_given_generator_is_drawn_from() {
    let mut given = RandomSource::from_generator(StdRng::seed_from_u64(77));
    let mut seeded = RandomSource::seeded(77);
    for _ in 0..50 {
        assert_eq!(given.int_between(0, 1_000_000), seeded.int_between(0, 1_000_000));
        assert_eq!(given.chance(1, 3), seeded.chance(1, 3));
    }
}

#[test]
fn a_given_generator_goes_on_from_its_state() {
    let mut generator = StdRng::seed_from_u64(78);
    let first: i32 = generator.gen_range(-500..=500);
    let second: bool = generator.gen_ratio(2, 5);
    let mut given = RandomSource::from_generator(generator);
    let mut seeded = RandomSource::seeded(78);
    assert_eq!(seeded.int_between(-500, 500), first);
    assert_eq!(seeded.chance(2, 5), second);
    for _ in 0..50 {
        assert_eq!(given.int_between(-500, 500), seeded.int_between(-500, 500));
    }
}

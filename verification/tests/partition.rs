use roguelike::config::Config;
use roguelike::partition::calculate_split_point;
use roguelike::partition::create_horizontal_sections;
use roguelike::partition::create_sections;
use roguelike::partition::create_sections_rec;
use roguelike::partition::create_vertical_sections;
use roguelike::random::RandomSource;
use roguelike::section::Coordinate;
use roguelike::section::Section;

fn overlap(a: &Section, b: &Section) -> bool {
    a.row < b.row + b.height
        && b.row < a.row + a.height
        && a.column < b.column + b.width
        && b.column < a.column + a.width
}

#[test]
fn section_new_keeps_its_arguments() {
    let section = Section::new(1, 2, 3, 4);
    assert_eq!(section.row, 1);
    assert_eq!(section.column, 2);
    assert_eq!(section.height, 3);
    assert_eq!(section.width, 4);
}

#[test]
fn section_corners() {
    let section = Section::new(2, 3, 15, 40);
    assert_eq!(section.top_right(), Coordinate { row: 2, column: 43 });
    assert_eq!(section.bottom_left(), Coordinate { row: 17, column: 3 });
}

#[test]
fn leaf_test_follows_the_threshold() {
    let config = Config::default();
    assert!(Section::new(0, 0, 15, 19).cannot_split_further(&config));
    assert!(Section::new(0, 0, 16, 20).cannot_split_further(&config));
    assert!(!Section::new(0, 0, 17, 19).cannot_split_further(&config));
    assert!(!Section::new(0, 0, 15, 21).cannot_split_further(&config));
    assert!(!Section::new(0, 0, 28, 79).cannot_split_further(&config));
}

#[test]
fn leaf_test_takes_any_size() {
    let config = Config::default();
    assert!(Section::new(0, 0, 0, 0).cannot_split_further(&config));
    assert!(Section::new(0, 0, 2, 2).cannot_split_further(&config));
    assert!(Section::new(0, 0, -4, -9).cannot_split_further(&config));
    assert!(!Section::new(0, 0, i32::MAX, 1).cannot_split_further(&config));
    assert!(!Section::new(0, 0, 1, i32::MAX).cannot_split_further(&config));
}

#[test]
fn split_point_is_the_midpoint_without_offset() {
    let mut source = RandomSource::seeded(7);
    assert_eq!(calculate_split_point(0, 19, 8, &mut source), 9);
    assert_eq!(calculate_split_point(5, 20, 8, &mut source), 15);
    assert_eq!(calculate_split_point(2, 15, 6, &mut source), 9);
}

#[test]
fn split_point_stays_within_its_offset() {
    for seed in 0..200u64 {
        let mut source = RandomSource::seeded(seed);
        let point = calculate_split_point(0, 28, 6, &mut source);
        assert!(8 <= point && point <= 20, "seed {} gave {}", seed, point);
        let point = calculate_split_point(10, 79, 8, &mut source);
        assert!(19 <= point && point <= 79, "seed {} gave {}", seed, point);
    }
}

#[test]
fn split_point_uses_the_whole_offset() {
    let mut seen = [false; 13];
    for seed in 0..400u64 {
        let mut source = RandomSource::seeded(seed);
        let point = calculate_split_point(0, 28, 6, &mut source);
        seen[(point - 8) as usize] = true;
    }
    assert!(seen.iter().all(|hit| *hit));
}

#[test]
fn vertical_split_leaves_one_column_between() {
    let config = Config::default();
    let mut source = RandomSource::seeded(1);
    let (first, second) = create_vertical_sections(Section::new(0, 0, 10, 19), &config, &mut source);
    assert_eq!(first, Section::new(0, 0, 10, 9));
    assert_eq!(second, Section::new(0, 10, 10, 9));
}

#[test]
fn horizontal_split_leaves_one_row_between() {
    let config = Config::default();
    let mut source = RandomSource::seeded(1);
    let (first, second) =
        create_horizontal_sections(Section::new(2, 3, 15, 40), &config, &mut source);
    assert_eq!(first, Section::new(2, 3, 7, 40));
    assert_eq!(second, Section::new(10, 3, 7, 40));
}

#[test]
fn random_splits_tile_the_section() {
    let config = Config::default();
    for seed in 0..100u64 {
        let mut source = RandomSource::seeded(seed);
        let from = Section::new(0, 0, 28, 79);
        let (first, second) = create_vertical_sections(from, &config, &mut source);
        assert_eq!(first.column, 0);
        assert_eq!(second.column, first.width + 1);
        assert_eq!(first.width + 1 + second.width, 79);
        assert!(first.width > 8 && second.width > 8);
        assert_eq!((first.row, first.height), (0, 28));
        assert_eq!((second.row, second.height), (0, 28));

        let (first, second) = create_horizontal_sections(from, &config, &mut source);
        assert_eq!(first.row, 0);
        assert_eq!(second.row, first.height + 1);
        assert_eq!(first.height + 1 + second.height, 28);
        assert!(first.height > 6 && second.height > 6);
    }
}

#[test]
fn a_leaf_is_appended_as_it_is() {
    let config = Config::default();
    let mut source = RandomSource::seeded(3);
    let kept = Section::new(40, 40, 9, 9);
    let leaf = Section::new(0, 0, 15, 19);
    let sections = create_sections_rec(vec![kept], leaf, &config, &mut source);
    assert_eq!(sections, vec![kept, leaf]);
}

#[test]
fn leaves_are_disjoint_and_inside_the_map() {
    let config = Config::default();
    for seed in 0..100u64 {
        let mut source = RandomSource::seeded(seed);
        let sections = create_sections(80, 29, &config, &mut source);
        assert!(sections.len() >= 2);
        for (i, a) in sections.iter().enumerate() {
            assert!(a.row >= 0 && a.column >= 0);
            assert!(a.row + a.height <= 28 && a.column + a.width <= 79);
            for b in sections.iter().skip(i + 1) {
                assert!(!overlap(a, b), "seed {}: {:?} and {:?}", seed, a, b);
            }
        }
    }
}

#[test]
fn leaves_respect_the_minimum_and_cannot_split() {
    let config = Config::default();
    for seed in 0..100u64 {
        let mut source = RandomSource::seeded(seed);
        let sections = create_sections(80, 29, &config, &mut source);
        for leaf in sections.iter() {
            assert!(leaf.height > config.min_section_height);
            assert!(leaf.width > config.min_section_width);
            assert!(leaf.height >= config.min_room_height + 2);
            assert!(leaf.width >= config.min_room_width + 2);
            assert!(leaf.cannot_split_further(&config));
        }
    }
}

#[test]
fn leaves_and_walls_cover_the_map() {
    let config = Config::default();
    for seed in 0..50u64 {
        let mut source = RandomSource::seeded(seed);
        let sections = create_sections(80, 29, &config, &mut source);
        let cells: i32 = sections.iter().map(|leaf| leaf.height * leaf.width).sum();
        let walls = 28 * 79 - cells;
        assert!(walls > 0);
        assert!(cells > 28 * 79 / 2);
    }
}

#[test]
fn every_cell_is_in_a_leaf_or_beside_one() {
    let config = Config::default();
    for seed in 0..50u64 {
        let mut source = RandomSource::seeded(seed);
        let sections = create_sections(80, 29, &config, &mut source);
        for row in 0..28 {
            for column in 0..79 {
                let holders = sections
                    .iter()
                    .filter(|leaf| {
                        leaf.row <= row
                            && row < leaf.row + leaf.height
                            && leaf.column <= column
                            && column < leaf.column + leaf.width
                    })
                    .count();
                assert!(holders <= 1);
                if holders == 0 {
                    let beside = sections.iter().any(|leaf| {
                        leaf.row - 1 <= row
                            && row <= leaf.row + leaf.height
                            && leaf.column - 1 <= column
                            && column <= leaf.column + leaf.width
                    });
                    assert!(beside, "seed {} at ({}, {})", seed, row, column);
                }
            }
        }
    }
}

#[test]
fn partition_repeats_with_the_seed() {
    let config = Config::default();
    let mut first = RandomSource::seeded(99);
    let mut second = RandomSource::seeded(99);
    assert_eq!(
        create_sections(80, 29, &config, &mut first),
        create_sections(80, 29, &config, &mut second)
    );
}

#[test]
fn rooms_stay_inside_their_section() {
    let config = Config::default();
    let section = Section::new(5, 7, 12, 20);
    for seed in 0..200u64 {
        let mut source = RandomSource::seeded(seed);
        let room = section.generate_subsection(&config, &mut source);
        assert!(room.row >= 6 && room.column >= 8);
        assert!(room.height >= 4 && room.width >= 6);
        assert!(room.row + room.height <= 17);
        assert!(room.column + room.width <= 27);
    }
}

#[test]
fn the_smallest_section_holds_the_smallest_room() {
    let config = Config::default();
    let section = Section::new(0, 0, 6, 8);
    let mut source = RandomSource::seeded(5);
    let room = section.generate_subsection(&config, &mut source);
    assert_eq!(room.row, 1);
    assert_eq!(room.column, 1);
    assert!(room.height == 4 || room.height == 5);
    assert!(room.width == 6 || room.width == 7);
}

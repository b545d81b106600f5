//! The space partitioner: a section is cut in two, again and again, until
//! no part can be cut further. Only the leaves are kept.

use crate::config::cannot_split;
use crate::config::lemma_accepted_is_consistent;
use crate::config::Config;
use crate::random::after_int;
use crate::random::drawn_int;
use crate::random::RandomSource;
use crate::section::lemma_apart_inherited;
use crate::section::lemma_apart_share_no_cell;
use crate::section::Section;
use vstd::prelude::*;

verus! {

/// How far a cut may move off the middle of a length of `size`.
pub open spec fn split_offset(size: int, min_size: int) -> int {
    ((size - 3) - 2 * min_size) / 2
}

/// The coordinate at which a length of `size` from `start` on is cut in
/// `state`, and the state afterwards: the middle, moved by a draw from
/// `-offset..=offset` unless the offset is zero.
pub open spec fn split_point_step(state: Seq<u8>, start: int, size: int, min_size: int) -> (
    int,
    Seq<u8>,
) {
    let midpoint = size / 2 + start;
    let offset = split_offset(size, min_size);
    if offset == 0 {
        (midpoint, state)
    } else {
        (midpoint + drawn_int(state, -offset, offset), after_int(state, -offset, offset))
    }
}

/// The two parts of `section` left and right of the wall at `column`.
pub open spec fn vertical_halves(section: Section, column: int) -> (Section, Section) {
    (
        Section {
            row: section.row,
            column: section.column,
            height: section.height,
            width: (column - section.column) as i32,
        },
        Section {
            row: section.row,
            column: (column + 1) as i32,
            height: section.height,
            width: (section.column + section.width - column - 1) as i32,
        },
    )
}

/// The two parts of `section` above and below the wall at `row`.
pub open spec fn horizontal_halves(section: Section, row: int) -> (Section, Section) {
    (
        Section {
            row: section.row,
            column: section.column,
            height: (row - section.row) as i32,
            width: section.width,
        },
        Section {
            row: (row + 1) as i32,
            column: section.column,
            height: (section.row + section.height - row - 1) as i32,
            width: section.width,
        },
    )
}

/// The two parts into which `section` is cut in `state`, and the state
/// afterwards.
pub open spec fn halves_step(state: Seq<u8>, section: Section, config: Config) -> (
    (Section, Section),
    Seq<u8>,
) {
    if section.splits_vertically(config) {
        let cut = split_point_step(
            state,
            section.column as int,
            section.width as int,
            config.min_section_width as int,
        );
        (vertical_halves(section, cut.0), cut.1)
    } else {
        let cut = split_point_step(
            state,
            section.row as int,
            section.height as int,
            config.min_section_height as int,
        );
        (horizontal_halves(section, cut.0), cut.1)
    }
}

/// The leaves into which `section` falls apart in `state`, first part
/// before second, and the state after all the cuts.
pub open spec fn leaves_step(state: Seq<u8>, section: Section, config: Config) -> (
    Seq<Section>,
    Seq<u8>,
)
    decreases section.height + section.width,
    when config.consistent() && section.roomy(config)
    via leaves_step_terminates
{
    if section.is_leaf(config) {
        (seq![section], state)
    } else {
        let cut = halves_step(state, section, config);
        let first = leaves_step(cut.1, cut.0.0, config);
        let second = leaves_step(first.1, cut.0.1, config);
        (first.0 + second.0, second.1)
    }
}

#[via_fn]
proof fn leaves_step_terminates(state: Seq<u8>, section: Section, config: Config) {
    if !section.is_leaf(config) {
        lemma_halves_fit(state, section, config);
    }
}

/// The largest grid section: everything but the last row and column.
pub open spec fn root_section(width: int, height: int) -> Section {
    Section { row: 0, column: 0, height: (height - 1) as i32, width: (width - 1) as i32 }
}

/// A cut leaves both parts above the minimum size, with exactly one line
/// between them.
pub proof fn lemma_split_point_bounds(state: Seq<u8>, start: int, size: int, min_size: int)
    requires
        0 <= min_size,
        size - 3 >= 2 * min_size,
    ensures
        start + min_size + 1 <= split_point_step(state, start, size, min_size).0,
        split_point_step(state, start, size, min_size).0 + min_size + 2 <= start + size,
{
}

/// Where a section above the minimum size is cut, both parts are again
/// above the minimum size, lie inside the section, are apart, leave exactly
/// one line of the section between them, and are smaller than it.
pub proof fn lemma_halves_fit(state: Seq<u8>, section: Section, config: Config)
    requires
        config.consistent(),
        section.roomy(config),
        !section.is_leaf(config),
    ensures
        ({
            let halves = halves_step(state, section, config).0;
            &&& halves.0.roomy(config)
            &&& halves.1.roomy(config)
            &&& halves.0.within(section)
            &&& halves.1.within(section)
            &&& halves.0.apart(halves.1)
            &&& halves.0.height + halves.0.width < section.height + section.width
            &&& halves.1.height + halves.1.width < section.height + section.width
            &&& (section.splits_vertically(config) ==> halves.1.column == halves.0.column
                + halves.0.width + 1 && halves.0.row == halves.1.row && halves.0.height
                == halves.1.height)
            &&& (!section.splits_vertically(config) ==> halves.1.row == halves.0.row
                + halves.0.height + 1 && halves.0.column == halves.1.column && halves.0.width
                == halves.1.width)
        }),
{
    if section.splits_vertically(config) {
        lemma_split_point_bounds(
            state,
            section.column as int,
            section.width as int,
            config.min_section_width as int,
        );
    } else {
        lemma_split_point_bounds(
            state,
            section.row as int,
            section.height as int,
            config.min_section_height as int,
        );
    }
}

/// Every leaf lies inside the section it came from, is above the minimum
/// section size, and cannot be split further.
pub proof fn lemma_leaves_fit(state: Seq<u8>, section: Section, config: Config)
    requires
        config.consistent(),
        section.roomy(config),
    ensures
        leaves_step(state, section, config).0.len() >= 1,
        forall|i: int|
            0 <= i < leaves_step(state, section, config).0.len() ==> {
                let leaf = #[trigger] leaves_step(state, section, config).0[i];
                &&& leaf.within(section)
                &&& leaf.roomy(config)
                &&& leaf.is_leaf(config)
            },
    decreases section.height + section.width,
{
    if !section.is_leaf(config) {
        lemma_halves_fit(state, section, config);
        let cut = halves_step(state, section, config);
        let first = leaves_step(cut.1, cut.0.0, config);
        lemma_leaves_fit(cut.1, cut.0.0, config);
        lemma_leaves_fit(first.1, cut.0.1, config);
        assert forall|i: int| 0 <= i < leaves_step(state, section, config).0.len() implies {
            let leaf = #[trigger] leaves_step(state, section, config).0[i];
            &&& leaf.within(section)
            &&& leaf.roomy(config)
            &&& leaf.is_leaf(config)
        } by {}
    }
}

/// Any two leaves of a section are apart.
pub proof fn lemma_leaves_apart(state: Seq<u8>, section: Section, config: Config)
    requires
        config.consistent(),
        section.roomy(config),
    ensures
        forall|i: int, j: int|
            0 <= i < j < leaves_step(state, section, config).0.len() ==> (
            #[trigger] leaves_step(state, section, config).0[i]).apart(
                #[trigger] leaves_step(state, section, config).0[j],
            ),
    decreases section.height + section.width,
{
    if !section.is_leaf(config) {
        lemma_halves_fit(state, section, config);
        let cut = halves_step(state, section, config);
        let first = leaves_step(cut.1, cut.0.0, config);
        lemma_leaves_fit(cut.1, cut.0.0, config);
        lemma_leaves_fit(first.1, cut.0.1, config);
        lemma_leaves_apart(cut.1, cut.0.0, config);
        lemma_leaves_apart(first.1, cut.0.1, config);
    }
}

/// No cell lies in two leaves of a section.
pub proof fn lemma_leaves_share_no_cell(
    state: Seq<u8>,
    section: Section,
    config: Config,
    i: int,
    j: int,
    row: int,
    column: int,
)
    requires
        config.consistent(),
        section.roomy(config),
        0 <= i < leaves_step(state, section, config).0.len(),
        0 <= j < leaves_step(state, section, config).0.len(),
        i != j,
    ensures
        !(leaves_step(state, section, config).0[i].contains(row, column) && leaves_step(
            state,
            section,
            config,
        ).0[j].contains(row, column)),
{
    lemma_leaves_apart(state, section, config);
    let all = leaves_step(state, section, config).0;
    if i < j {
        lemma_apart_share_no_cell(all[i], all[j]);
    } else {
        lemma_apart_share_no_cell(all[j], all[i]);
    }
}

/// `target` is one of the sections that arise while `section` is
/// partitioned in `state`, `section` itself included, and `target_state` is
/// the state in which the partitioner comes to it.
pub open spec fn arises_in(
    state: Seq<u8>,
    section: Section,
    config: Config,
    target_state: Seq<u8>,
    target: Section,
) -> bool
    decreases section.height + section.width,
    when config.consistent() && section.roomy(config)
    via arises_in_terminates
{
    (target == section && target_state == state) || (!section.is_leaf(config) && {
        let cut = halves_step(state, section, config);
        let first = leaves_step(cut.1, cut.0.0, config);
        arises_in(cut.1, cut.0.0, config, target_state, target) || arises_in(
            first.1,
            cut.0.1,
            config,
            target_state,
            target,
        )
    })
}

#[via_fn]
proof fn arises_in_terminates(
    state: Seq<u8>,
    section: Section,
    config: Config,
    target_state: Seq<u8>,
    target: Section,
) {
    if !section.is_leaf(config) {
        lemma_halves_fit(state, section, config);
    }
}

/// The cell lies on the wall that the cut of `section` in `state` leaves
/// between its two parts.
pub open spec fn on_the_wall(
    state: Seq<u8>,
    section: Section,
    config: Config,
    row: int,
    column: int,
) -> bool {
    let halves = halves_step(state, section, config).0;
    &&& !section.is_leaf(config)
    &&& section.contains(row, column)
    &&& !halves.0.contains(row, column)
    &&& !halves.1.contains(row, column)
}

/// The wall of a cut is one line thick: a cell of the cut section is on
/// the wall exactly where it is on the line of the cut.
pub proof fn lemma_wall_is_one_line(
    state: Seq<u8>,
    section: Section,
    config: Config,
    row: int,
    column: int,
)
    requires
        config.consistent(),
        section.roomy(config),
        !section.is_leaf(config),
        section.contains(row, column),
    ensures
        ({
            let halves = halves_step(state, section, config).0;
            on_the_wall(state, section, config, row, column) <==> (if section.splits_vertically(
                config,
            ) {
                column == halves.0.column + halves.0.width
            } else {
                row == halves.0.row + halves.0.height
            })
        }),
{
    lemma_halves_fit(state, section, config);
}

/// A section that arises in a partition lies inside the partitioned
/// section and is above the minimum size, and every leaf of the partition
/// is apart from it or inside one of its two parts. So no leaf holds a cell
/// of the wall between the two parts.
pub proof fn lemma_leaves_off_the_wall(
    state: Seq<u8>,
    section: Section,
    config: Config,
    target_state: Seq<u8>,
    target: Section,
)
    requires
        config.consistent(),
        section.roomy(config),
        arises_in(state, section, config, target_state, target),
    ensures
        target.within(section),
        target.roomy(config),
        !target.is_leaf(config) ==> forall|i: int|
            0 <= i < leaves_step(state, section, config).0.len() ==> {
                let leaf = #[trigger] leaves_step(state, section, config).0[i];
                let halves = halves_step(target_state, target, config).0;
                ||| leaf.apart(target)
                ||| leaf.within(halves.0)
                ||| leaf.within(halves.1)
            },
        forall|i: int, row: int, column: int|
            #![trigger leaves_step(state, section, config).0[i].contains(row, column)]
            0 <= i < leaves_step(state, section, config).0.len() && on_the_wall(
                target_state,
                target,
                config,
                row,
                column,
            ) ==> !leaves_step(state, section, config).0[i].contains(row, column),
    decreases section.height + section.width,
{
    let all = leaves_step(state, section, config).0;
    if !section.is_leaf(config) {
        lemma_halves_fit(state, section, config);
        let cut = halves_step(state, section, config);
        let first = leaves_step(cut.1, cut.0.0, config);
        lemma_leaves_fit(cut.1, cut.0.0, config);
        lemma_leaves_fit(first.1, cut.0.1, config);
        let split = first.0.len() as int;
        if target == section && target_state == state {
            assert forall|i: int| 0 <= i < all.len() implies {
                let leaf = #[trigger] all[i];
                ||| leaf.apart(target)
                ||| leaf.within(cut.0.0)
                ||| leaf.within(cut.0.1)
            } by {}
        } else if arises_in(cut.1, cut.0.0, config, target_state, target) {
            lemma_leaves_off_the_wall(cut.1, cut.0.0, config, target_state, target);
            if !target.is_leaf(config) {
                let halves = halves_step(target_state, target, config).0;
                assert forall|i: int| 0 <= i < all.len() implies {
                    let leaf = #[trigger] all[i];
                    ||| leaf.apart(target)
                    ||| leaf.within(halves.0)
                    ||| leaf.within(halves.1)
                } by {
                    if i >= split {
                        lemma_apart_inherited(target, all[i], cut.0.0, cut.0.1);
                    }
                }
            }
        } else {
            lemma_leaves_off_the_wall(first.1, cut.0.1, config, target_state, target);
            if !target.is_leaf(config) {
                let halves = halves_step(target_state, target, config).0;
                assert forall|i: int| 0 <= i < all.len() implies {
                    let leaf = #[trigger] all[i];
                    ||| leaf.apart(target)
                    ||| leaf.within(halves.0)
                    ||| leaf.within(halves.1)
                } by {
                    if i < split {
                        lemma_apart_inherited(all[i], target, cut.0.0, cut.0.1);
                    }
                }
            }
        }
    }
}

/// The cell lies in one of the sections.
pub open spec fn in_some_section(sections: Seq<Section>, row: int, column: int) -> bool {
    exists|i: int| 0 <= i < sections.len() && (#[trigger] sections[i]).contains(row, column)
}

/// The cell lies on the wall of one of the cuts made while `section` is
/// partitioned in `state`.
pub open spec fn on_some_wall(
    state: Seq<u8>,
    section: Section,
    config: Config,
    row: int,
    column: int,
) -> bool {
    exists|target_state: Seq<u8>, target: Section|
        #[trigger] arises_in(state, section, config, target_state, target) && on_the_wall(
            target_state,
            target,
            config,
            row,
            column,
        )
}

/// The leaves and the walls between them tile the partitioned section:
/// each of its cells lies in a leaf or on the wall of a cut.
pub proof fn lemma_partition_tiles(
    state: Seq<u8>,
    section: Section,
    config: Config,
    row: int,
    column: int,
)
    requires
        config.consistent(),
        section.roomy(config),
        section.contains(row, column),
    ensures
        in_some_section(leaves_step(state, section, config).0, row, column) || on_some_wall(
            state,
            section,
            config,
            row,
            column,
        ),
    decreases section.height + section.width,
{
    let all = leaves_step(state, section, config).0;
    if section.is_leaf(config) {
        assert(all[0].contains(row, column));
    } else {
        lemma_halves_fit(state, section, config);
        let cut = halves_step(state, section, config);
        let first = leaves_step(cut.1, cut.0.0, config);
        let second = leaves_step(first.1, cut.0.1, config);
        if cut.0.0.contains(row, column) {
            lemma_partition_tiles(cut.1, cut.0.0, config, row, column);
            if in_some_section(first.0, row, column) {
                let i = choose|i: int|
                    0 <= i < first.0.len() && (#[trigger] first.0[i]).contains(row, column);
                assert(all[i].contains(row, column));
            } else {
                let (target_state, target) = choose|target_state: Seq<u8>, target: Section|
                    #[trigger] arises_in(cut.1, cut.0.0, config, target_state, target)
                        && on_the_wall(target_state, target, config, row, column);
                assert(arises_in(state, section, config, target_state, target));
            }
        } else if cut.0.1.contains(row, column) {
            lemma_partition_tiles(first.1, cut.0.1, config, row, column);
            if in_some_section(second.0, row, column) {
                let i = choose|i: int|
                    0 <= i < second.0.len() && (#[trigger] second.0[i]).contains(row, column);
                assert(all[first.0.len() + i].contains(row, column));
            } else {
                let (target_state, target) = choose|target_state: Seq<u8>, target: Section|
                    #[trigger] arises_in(first.1, cut.0.1, config, target_state, target)
                        && on_the_wall(target_state, target, config, row, column);
                assert(arises_in(state, section, config, target_state, target));
            }
        } else {
            assert(arises_in(state, section, config, state, section));
        }
    }
}

/// Picks the coordinate at which a length of `size` from `start_point` on
/// is cut.
pub fn calculate_split_point(
    start_point: i32,
    size: i32,
    min_size: i32,
    source: &mut RandomSource,
) -> (point: i32)
    requires
        0 <= min_size,
        0 <= start_point,
        start_point + size <= i32::MAX,
        size - 3 >= 2 * min_size,
    ensures
        (point as int, final(source)@) == split_point_step(
            old(source)@,
            start_point as int,
            size as int,
            min_size as int,
        ),
        start_point + min_size + 1 <= point,
        point + min_size + 2 <= start_point + size,
{
    let midpoint = (size / 2) + start_point;
    let offset = ((size - 3) - (min_size * 2)) / 2;

    if offset == 0 {
        midpoint
    } else {
        midpoint + source.int_between(-offset, offset)
    }
}

/// Cuts a section in two with a vertical wall.
pub fn create_vertical_sections(
    from_section: Section,
    config: &Config,
    source: &mut RandomSource,
) -> (halves: (Section, Section))
    requires
        from_section.bounded(),
        0 <= config.min_section_width,
        from_section.width - 3 >= 2 * config.min_section_width,
    ensures
        ({
            let cut = split_point_step(
                old(source)@,
                from_section.column as int,
                from_section.width as int,
                config.min_section_width as int,
            );
            &&& halves == vertical_halves(from_section, cut.0)
            &&& final(source)@ == cut.1
        }),
        halves.1.column == halves.0.column + halves.0.width + 1,
        halves.0.width > config.min_section_width,
        halves.1.width > config.min_section_width,
{
    let column = calculate_split_point(
        from_section.column,
        from_section.width,
        config.min_section_width,
        source,
    );

    let first_section = Section::new(
        from_section.row,
        from_section.column,
        from_section.height,
        column - from_section.column,
    );
    let second_section = Section::new(
        from_section.row,
        column + 1,
        from_section.height,
        from_section.top_right().column - column - 1,
    );

    (first_section, second_section)
}

/// Cuts a section in two with a horizontal wall.
pub fn create_horizontal_sections(
    from_section: Section,
    config: &Config,
    source: &mut RandomSource,
) -> (halves: (Section, Section))
    requires
        from_section.bounded(),
        0 <= config.min_section_height,
        from_section.height - 3 >= 2 * config.min_section_height,
    ensures
        ({
            let cut = split_point_step(
                old(source)@,
                from_section.row as int,
                from_section.height as int,
                config.min_section_height as int,
            );
            &&& halves == horizontal_halves(from_section, cut.0)
            &&& final(source)@ == cut.1
        }),
        halves.1.row == halves.0.row + halves.0.height + 1,
        halves.0.height > config.min_section_height,
        halves.1.height > config.min_section_height,
{
    let row = calculate_split_point(
        from_section.row,
        from_section.height,
        config.min_section_height,
        source,
    );

    let first_section = Section::new(
        from_section.row,
        from_section.column,
        row - from_section.row,
        from_section.width,
    );

    let second_section = Section::new(
        row + 1,
        from_section.column,
        from_section.bottom_left().row - row - 1,
        from_section.width,
    );

    (first_section, second_section)
}

/// Appends the leaves of `from_section` to `sections`.
pub fn create_sections_rec(
    sections: Vec<Section>,
    from_section: Section,
    config: &Config,
    source: &mut RandomSource,
) -> (all: Vec<Section>)
    requires
        config.consistent(),
        from_section.roomy(*config),
    ensures
        all@ == sections@ + leaves_step(old(source)@, from_section, *config).0,
        final(source)@ == leaves_step(old(source)@, from_section, *config).1,
    decreases from_section.height + from_section.width,
{
    let mut sections = sections;
    let cannot_split_horizontally = (from_section.height - 3) / 2 <= config.min_section_height;
    let cannot_split_vertically = (from_section.width - 3) / 2 <= config.min_section_width;

    if cannot_split_horizontally && cannot_split_vertically {
        sections.push(from_section);
        return sections;
    }
    let ghost state = source@;
    proof {
        lemma_halves_fit(state, from_section, *config);
    }

    let (first_new_section, second_new_section) = if cannot_split_horizontally
        || from_section.width - from_section.height > from_section.height {
        create_vertical_sections(from_section, config, source)
    } else {
        create_horizontal_sections(from_section, config, source)
    };

    let partial = create_sections_rec(sections, first_new_section, config, source);
    let all = create_sections_rec(partial, second_new_section, config, source);
    all
}

/// Partitions a grid of the given size into leaf sections. Each leaf lies
/// inside the grid without its last row and column, is above the minimum
/// section size and cannot be split further; no two leaves overlap.
pub fn create_sections(width: i32, height: i32, config: &Config, source: &mut RandomSource) -> (
    sections: Vec<Section>
)
    requires
        config.accepts(width as int, height as int),
    ensures
        sections@ == leaves_step(
            old(source)@,
            root_section(width as int, height as int),
            *config,
        ).0,
        final(source)@ == leaves_step(
            old(source)@,
            root_section(width as int, height as int),
            *config,
        ).1,
        forall|i: int|
            0 <= i < sections.len() ==> {
                let leaf = #[trigger] sections[i];
                &&& leaf.within(root_section(width as int, height as int))
                &&& leaf.roomy(*config)
                &&& leaf.is_leaf(*config)
            },
        forall|i: int, j: int|
            0 <= i < j < sections.len() ==> (#[trigger] sections[i]).apart(#[trigger] sections[j]),
{
    proof {
        lemma_accepted_is_consistent(*config, width as int, height as int);
        lemma_leaves_fit(source@, root_section(width as int, height as int), *config);
        lemma_leaves_apart(source@, root_section(width as int, height as int), *config);
    }
    let sections: Vec<Section> = Vec::new();

    let first_section = Section::new(0, 0, height - 1, width - 1);

    let all = create_sections_rec(sections, first_section, config, source);
    all
}

} // verus!

//! What holds of every generated grid, whatever the random stream gave.

use crate::config::lemma_accepted_is_consistent;
use crate::config::Config;
use crate::config::Probability;
use crate::dungeon::carve_room_step;
use crate::dungeon::carve_row_step;
use crate::dungeon::carve_section_step;
use crate::dungeon::carve_sections_step;
use crate::dungeon::generated;
use crate::dungeon::generated_sections;
use crate::dungeon::is_open;
use crate::dungeon::open_cell;
use crate::dungeon::rectangular;
use crate::dungeon::rock_grid;
use crate::dungeon::starting_state;
use crate::dungeon::SpaceType;
use crate::partition::arises_in;
use crate::partition::leaves_step;
use crate::partition::lemma_leaves_off_the_wall;
use crate::partition::on_the_wall;
use crate::partition::lemma_leaves_fit;
use crate::partition::lemma_leaves_share_no_cell;
use crate::partition::root_section;
use crate::random::after_bool;
use crate::random::drawn_bool;
use crate::section::lemma_room_inside;
use crate::section::Section;
use vstd::prelude::*;

verus! {

/// The two grids have the same number of rows, and row by row the same
/// number of cells.
pub open spec fn same_shape(before: Seq<Seq<SpaceType>>, after: Seq<Seq<SpaceType>>) -> bool {
    &&& after.len() == before.len()
    &&& forall|row: int| 0 <= row < before.len() ==> (#[trigger] after[row]).len() == before[row].len()
}

/// `after` is `before` with some cells opened, all of them in the rows
/// from `top` up to `bottom` and the columns from `left` up to `right`.
pub open spec fn carved_in(
    before: Seq<Seq<SpaceType>>,
    after: Seq<Seq<SpaceType>>,
    top: int,
    bottom: int,
    left: int,
    right: int,
) -> bool {
    &&& same_shape(before, after)
    &&& forall|row: int, column: int|
        0 <= row < before.len() && 0 <= column < before[row].len() ==> #[trigger] after[row][column]
            == before[row][column] || (after[row][column] == SpaceType::Open && top <= row < bottom
            && left <= column < right)
}

/// The first and last row and the first and last column of the grid are
/// rock.
pub open spec fn walled(grid: Seq<Seq<SpaceType>>, width: int, height: int) -> bool {
    forall|row: int, column: int|
        0 <= row < height && 0 <= column < width && (row == 0 || row == height - 1 || column == 0
            || column == width - 1) ==> #[trigger] grid[row][column] == SpaceType::Rock
}

/// The cell lies in the interior of one of the sections.
pub open spec fn in_some_interior(sections: Seq<Section>, row: int, column: int) -> bool {
    exists|i: int| 0 <= i < sections.len() && (#[trigger] sections[i]).interior_contains(row, column)
}

/// `after` is `before` with some cells opened, each of them in the
/// interior of one of the sections.
pub open spec fn carved_inside(
    before: Seq<Seq<SpaceType>>,
    after: Seq<Seq<SpaceType>>,
    sections: Seq<Section>,
) -> bool {
    &&& same_shape(before, after)
    &&& forall|row: int, column: int|
        0 <= row < before.len() && 0 <= column < before[row].len() ==> #[trigger] after[row][column]
            == before[row][column] || (after[row][column] == SpaceType::Open && in_some_interior(
            sections,
            row,
            column,
        ))
}

/// Carving part of a row opens cells of that part only.
pub proof fn lemma_carve_row_frame(
    state: Seq<u8>,
    grid: Seq<Seq<SpaceType>>,
    row: int,
    column: int,
    end: int,
    skip: Probability,
)
    requires
        0 <= row < grid.len(),
        0 <= column,
        end <= grid[row].len(),
    ensures
        carved_in(
            grid,
            carve_row_step(state, grid, row, column, end, skip).0,
            row,
            row + 1,
            column,
            end,
        ),
    decreases end - column,
{
    if column < end {
        let skipped = drawn_bool(state, skip.numerator as int, skip.denominator as int);
        let next = after_bool(state, skip.numerator as int, skip.denominator as int);
        let carved = if skipped {
            grid
        } else {
            open_cell(grid, row, column)
        };
        lemma_carve_row_frame(next, carved, row, column + 1, end, skip);
    }
}

/// Carving a room from one of its rows on opens cells of those rows and of
/// the room's columns only.
pub proof fn lemma_carve_room_frame(
    state: Seq<u8>,
    grid: Seq<Seq<SpaceType>>,
    room: Section,
    row: int,
    skip: Probability,
)
    requires
        0 <= row,
        0 <= room.column,
        room.row + room.height <= grid.len(),
        forall|r: int| 0 <= r < grid.len() ==> room.column + room.width <= (#[trigger] grid[r]).len(),
    ensures
        carved_in(
            grid,
            carve_room_step(state, grid, room, row, skip).0,
            row,
            room.row + room.height,
            room.column as int,
            room.column + room.width,
        ),
    decreases room.row + room.height - row,
{
    if row < room.row + room.height {
        let carved = carve_row_step(
            state,
            grid,
            row,
            room.column as int,
            room.column + room.width,
            skip,
        );
        lemma_carve_row_frame(state, grid, row, room.column as int, room.column + room.width, skip);
        lemma_carve_room_frame(carved.1, carved.0, room, row + 1, skip);
    }
}

/// Dealing with a section opens cells of the section's interior only.
pub proof fn lemma_carve_section_frame(
    state: Seq<u8>,
    grid: Seq<Seq<SpaceType>>,
    section: Section,
    config: Config,
    width: int,
    height: int,
)
    requires
        config.consistent(),
        section.roomy(config),
        rectangular(grid, width, height),
        section.row + section.height <= height,
        section.column + section.width <= width,
    ensures
        carved_in(
            grid,
            carve_section_step(state, grid, section, config).0,
            section.row + 1,
            section.row + section.height,
            section.column + 1,
            section.column + section.width,
        ),
{
    let skip = config.skip_room_probability;
    let skipped = drawn_bool(state, skip.numerator as int, skip.denominator as int);
    let next = after_bool(state, skip.numerator as int, skip.denominator as int);
    if !skipped {
        lemma_room_inside(section, next, config);
        let room = section.room_step(next, config);
        lemma_carve_room_frame(
            room.1,
            grid,
            room.0,
            room.0.row as int,
            config.skip_cell_probability,
        );
    }
}

/// Dealing with a list of sections opens cells of their interiors only.
pub proof fn lemma_carve_sections_frame(
    state: Seq<u8>,
    grid: Seq<Seq<SpaceType>>,
    sections: Seq<Section>,
    from: int,
    config: Config,
    width: int,
    height: int,
)
    requires
        config.consistent(),
        rectangular(grid, width, height),
        0 <= from,
        forall|k: int|
            0 <= k < sections.len() ==> {
                let section = #[trigger] sections[k];
                &&& section.roomy(config)
                &&& section.row + section.height <= height
                &&& section.column + section.width <= width
            },
    ensures
        carved_inside(grid, carve_sections_step(state, grid, sections, from, config).0, sections),
    decreases sections.len() - from,
{
    if from < sections.len() {
        let section = sections[from];
        let carved = carve_section_step(state, grid, section, config);
        lemma_carve_section_frame(state, grid, section, config, width, height);
        lemma_carve_sections_frame(carved.1, carved.0, sections, from + 1, config, width, height);
    }
}

/// A generated grid has the size asked for, and each of its open cells
/// lies in the interior of a leaf section.
pub proof fn lemma_generated_carved_inside(state: Seq<u8>, width: int, height: int, config: Config)
    requires
        config.accepts(width, height),
        width <= i32::MAX,
        height <= i32::MAX,
    ensures
        rectangular(generated(state, width, height, config).0, width, height),
        carved_inside(
            rock_grid(width, height),
            generated(state, width, height, config).0,
            generated_sections(state, width, height, config),
        ),
{
    lemma_accepted_is_consistent(config, width, height);
    let root = root_section(width, height);
    let leaves = leaves_step(state, root, config);
    lemma_leaves_fit(state, root, config);
    let rock = rock_grid(width, height);
    lemma_carve_sections_frame(leaves.1, rock, leaves.0, 0, config, width, height);
}

/// The border of a generated grid is rock: its first and last row and its
/// first and last column.
pub proof fn lemma_border_is_rock(state: Seq<u8>, width: int, height: int, config: Config)
    requires
        config.accepts(width, height),
        width <= i32::MAX,
        height <= i32::MAX,
    ensures
        walled(generated(state, width, height, config).0, width, height),
{
    lemma_accepted_is_consistent(config, width, height);
    lemma_generated_carved_inside(state, width, height, config);
    let root = root_section(width, height);
    lemma_leaves_fit(state, root, config);
}

/// Every open cell of a generated grid lies in the interior of exactly one
/// leaf section, and so neither on the border nor on the wall between two
/// sections.
pub proof fn lemma_open_cells_contained(
    state: Seq<u8>,
    width: int,
    height: int,
    config: Config,
    row: int,
    column: int,
)
    requires
        config.accepts(width, height),
        width <= i32::MAX,
        height <= i32::MAX,
        is_open(generated(state, width, height, config).0, row, column),
    ensures
        in_some_interior(generated_sections(state, width, height, config), row, column),
        forall|i: int, j: int|
            0 <= i < generated_sections(state, width, height, config).len() && 0 <= j
                < generated_sections(state, width, height, config).len() && (
            #[trigger] generated_sections(state, width, height, config)[i]).contains(row, column)
                && (#[trigger] generated_sections(state, width, height, config)[j]).contains(
                row,
                column,
            ) ==> i == j,
        0 < row < height - 1,
        0 < column < width - 1,
{
    lemma_accepted_is_consistent(config, width, height);
    lemma_generated_carved_inside(state, width, height, config);
    let root = root_section(width, height);
    let leaves = generated_sections(state, width, height, config);
    lemma_leaves_fit(state, root, config);
    assert forall|i: int, j: int|
        0 <= i < leaves.len() && 0 <= j < leaves.len() && (#[trigger] leaves[i]).contains(
            row,
            column,
        ) && (#[trigger] leaves[j]).contains(row, column) implies i == j by {
        if i != j {
            lemma_leaves_share_no_cell(state, root, config, i, j, row, column);
        }
    }
}

/// The wall between the two parts of any section that was cut on the way
/// to a generated grid is rock.
pub proof fn lemma_walls_between_sections_are_rock(
    state: Seq<u8>,
    width: int,
    height: int,
    config: Config,
    target_state: Seq<u8>,
    target: Section,
    row: int,
    column: int,
)
    requires
        config.accepts(width, height),
        width <= i32::MAX,
        height <= i32::MAX,
        arises_in(state, root_section(width, height), config, target_state, target),
        on_the_wall(target_state, target, config, row, column),
    ensures
        0 <= row < height,
        0 <= column < width,
        generated(state, width, height, config).0[row][column] == SpaceType::Rock,
{
    lemma_accepted_is_consistent(config, width, height);
    lemma_generated_carved_inside(state, width, height, config);
    let root = root_section(width, height);
    lemma_leaves_off_the_wall(state, root, config, target_state, target);
}

/// With a seed in the configuration, the grid depends on the seed, the
/// size and the configuration alone: whatever stream is handed in, the same
/// grid comes out.
pub proof fn lemma_seeded_generation_repeats(
    first: Seq<u8>,
    second: Seq<u8>,
    width: int,
    height: int,
    config: Config,
)
    requires
        config.random_seed is Some,
    ensures
        generated(starting_state(config, first), width, height, config) == generated(
            starting_state(config, second),
            width,
            height,
            config,
        ),
{
}

/// Where every room is skipped, carving changes nothing.
pub proof fn lemma_skipping_every_room_keeps_grid(
    state: Seq<u8>,
    grid: Seq<Seq<SpaceType>>,
    sections: Seq<Section>,
    from: int,
    config: Config,
)
    requires
        config.skip_room_probability.numerator == config.skip_room_probability.denominator,
    ensures
        carve_sections_step(state, grid, sections, from, config).0 == grid,
    decreases sections.len() - from,
{
    if 0 <= from < sections.len() {
        let carved = carve_section_step(state, grid, sections[from], config);
        lemma_skipping_every_room_keeps_grid(carved.1, carved.0, sections, from + 1, config);
    }
}

/// Where the probability of skipping a room is one, the generated grid is
/// rock everywhere.
pub proof fn lemma_no_rooms_when_always_skipped(
    state: Seq<u8>,
    width: int,
    height: int,
    config: Config,
)
    requires
        config.skip_room_probability.numerator == config.skip_room_probability.denominator,
    ensures
        generated(state, width, height, config).0 == rock_grid(width, height),
{
    let leaves = leaves_step(state, root_section(width, height), config);
    lemma_skipping_every_room_keeps_grid(leaves.1, rock_grid(width, height), leaves.0, 0, config);
}

/// `after` is `before` with every cell of the given rows and columns
/// opened, and no other cell changed.
pub open spec fn opened_exactly(
    before: Seq<Seq<SpaceType>>,
    after: Seq<Seq<SpaceType>>,
    top: int,
    bottom: int,
    left: int,
    right: int,
) -> bool {
    &&& same_shape(before, after)
    &&& forall|row: int, column: int|
        0 <= row < before.len() && 0 <= column < before[row].len() ==> #[trigger] after[row][column]
            == (if top <= row < bottom && left <= column < right {
            SpaceType::Open
        } else {
            before[row][column]
        })
}

/// The room that a section gets in `state`: none where the trial for
/// skipping the room succeeds.
pub open spec fn room_of(state: Seq<u8>, section: Section, config: Config) -> Option<Section> {
    let skip = config.skip_room_probability;
    if drawn_bool(state, skip.numerator as int, skip.denominator as int) {
        None
    } else {
        Some(
            section.room_step(
                after_bool(state, skip.numerator as int, skip.denominator as int),
                config,
            ).0,
        )
    }
}

/// The rooms of the sections from index `from` on, in order, as carving
/// from `state` draws them.
pub open spec fn rooms_step(
    state: Seq<u8>,
    grid: Seq<Seq<SpaceType>>,
    sections: Seq<Section>,
    from: int,
    config: Config,
) -> Seq<Option<Section>>
    decreases sections.len() - from,
{
    if from < 0 || from >= sections.len() {
        Seq::empty()
    } else {
        let carved = carve_section_step(state, grid, sections[from], config);
        seq![room_of(state, sections[from], config)] + rooms_step(
            carved.1,
            carved.0,
            sections,
            from + 1,
            config,
        )
    }
}

/// The rooms of the leaf sections of a generated grid, one entry for each
/// leaf.
pub open spec fn generated_rooms(state: Seq<u8>, width: int, height: int, config: Config) -> Seq<
    Option<Section>,
> {
    let leaves = leaves_step(state, root_section(width, height), config);
    rooms_step(leaves.1, rock_grid(width, height), leaves.0, 0, config)
}

/// The cell lies in one of the rooms.
pub open spec fn in_some_room(rooms: Seq<Option<Section>>, row: int, column: int) -> bool {
    exists|k: int|
        0 <= k < rooms.len() && (#[trigger] rooms[k]) is Some && rooms[k]->Some_0.contains(
            row,
            column,
        )
}

proof fn lemma_in_some_room_split(
    first: Option<Section>,
    rest: Seq<Option<Section>>,
    row: int,
    column: int,
)
    ensures
        in_some_room(seq![first] + rest, row, column) <==> (first is Some
            && first->Some_0.contains(row, column)) || in_some_room(rest, row, column),
{
    let all = seq![first] + rest;
    if first is Some && first->Some_0.contains(row, column) {
        assert(all[0] == first);
    }
    if in_some_room(rest, row, column) {
        let k = choose|k: int|
            0 <= k < rest.len() && (#[trigger] rest[k]) is Some && rest[k]->Some_0.contains(
                row,
                column,
            );
        assert(all[k + 1] == rest[k]);
    }
}

/// Where no cell is ever skipped, carving part of a row opens all of it.
pub proof fn lemma_carve_row_solid(
    state: Seq<u8>,
    grid: Seq<Seq<SpaceType>>,
    row: int,
    column: int,
    end: int,
    skip: Probability,
)
    requires
        0 <= row < grid.len(),
        0 <= column,
        end <= grid[row].len(),
        skip.numerator == 0,
        skip.denominator != 0,
    ensures
        opened_exactly(
            grid,
            carve_row_step(state, grid, row, column, end, skip).0,
            row,
            row + 1,
            column,
            end,
        ),
    decreases end - column,
{
    if column < end {
        let next = after_bool(state, skip.numerator as int, skip.denominator as int);
        let carved = open_cell(grid, row, column);
        lemma_carve_row_solid(next, carved, row, column + 1, end, skip);
    }
}

/// Where no cell is ever skipped, carving a room from one of its rows on
/// opens every cell of those rows in the room's columns.
pub proof fn lemma_carve_room_solid(
    state: Seq<u8>,
    grid: Seq<Seq<SpaceType>>,
    room: Section,
    row: int,
    skip: Probability,
)
    requires
        0 <= row,
        0 <= room.column,
        room.row + room.height <= grid.len(),
        forall|r: int| 0 <= r < grid.len() ==> room.column + room.width <= (#[trigger] grid[r]).len(),
        skip.numerator == 0,
        skip.denominator != 0,
    ensures
        opened_exactly(
            grid,
            carve_room_step(state, grid, room, row, skip).0,
            row,
            room.row + room.height,
            room.column as int,
            room.column + room.width,
        ),
    decreases room.row + room.height - row,
{
    if row < room.row + room.height {
        let carved = carve_row_step(
            state,
            grid,
            row,
            room.column as int,
            room.column + room.width,
            skip,
        );
        lemma_carve_row_solid(state, grid, row, room.column as int, room.column + room.width, skip);
        lemma_carve_room_solid(carved.1, carved.0, room, row + 1, skip);
    }
}

/// Where no cell is ever skipped, dealing with a list of sections opens
/// the cells of their rooms, all of them and no others. There is one entry
/// for each section; a room lies in the interior of its section and has at
/// least the minimum room size; and where no room is ever skipped either,
/// every section has its room.
pub proof fn lemma_carve_sections_solid(
    state: Seq<u8>,
    grid: Seq<Seq<SpaceType>>,
    sections: Seq<Section>,
    from: int,
    config: Config,
    width: int,
    height: int,
)
    requires
        config.consistent(),
        config.skip_cell_probability.numerator == 0,
        rectangular(grid, width, height),
        0 <= from <= sections.len(),
        forall|k: int|
            0 <= k < sections.len() ==> {
                let section = #[trigger] sections[k];
                &&& section.roomy(config)
                &&& section.row + section.height <= height
                &&& section.column + section.width <= width
            },
    ensures
        rooms_step(state, grid, sections, from, config).len() == sections.len() - from,
        forall|i: int|
            0 <= i < sections.len() - from ==> (#[trigger] rooms_step(
                state,
                grid,
                sections,
                from,
                config,
            )[i] matches Some(room) ==> room.within_interior(sections[from + i]) && room.height
                >= config.min_room_height && room.width >= config.min_room_width),
        config.skip_room_probability.numerator == 0 ==> forall|i: int|
            0 <= i < sections.len() - from ==> (#[trigger] rooms_step(
                state,
                grid,
                sections,
                from,
                config,
            )[i]) is Some,
        same_shape(grid, carve_sections_step(state, grid, sections, from, config).0),
        forall|row: int, column: int|
            0 <= row < height && 0 <= column < width ==> ((#[trigger] carve_sections_step(
                state,
                grid,
                sections,
                from,
                config,
            ).0[row][column] == SpaceType::Open) <==> grid[row][column] == SpaceType::Open
                || in_some_room(rooms_step(state, grid, sections, from, config), row, column)),
    decreases sections.len() - from,
{
    let rooms = rooms_step(state, grid, sections, from, config);
    let result = carve_sections_step(state, grid, sections, from, config).0;
    if from < sections.len() {
        let section = sections[from];
        let skip = config.skip_room_probability;
        let next = after_bool(state, skip.numerator as int, skip.denominator as int);
        let carved = carve_section_step(state, grid, section, config);
        let first = room_of(state, section, config);
        let rest = rooms_step(carved.1, carved.0, sections, from + 1, config);
        lemma_carve_section_frame(state, grid, section, config, width, height);
        if first is Some {
            lemma_room_inside(section, next, config);
            let room = section.room_step(next, config);
            lemma_carve_room_solid(
                room.1,
                grid,
                room.0,
                room.0.row as int,
                config.skip_cell_probability,
            );
        }
        lemma_carve_sections_solid(carved.1, carved.0, sections, from + 1, config, width, height);
        assert forall|r: int, c: int| 0 <= r < height && 0 <= c < width implies ((
        #[trigger] result[r][c] == SpaceType::Open) <==> grid[r][c] == SpaceType::Open
            || in_some_room(rooms, r, c)) by {
            lemma_in_some_room_split(first, rest, r, c);
        }
    }
}

/// With both probabilities of skipping at zero, every leaf section of a
/// generated grid has a room, inside its interior and of at least the
/// minimum room size, and the open cells of the grid are exactly the cells
/// of these rooms: each room is a solid rectangle.
pub proof fn lemma_solid_rooms_when_nothing_skipped(
    state: Seq<u8>,
    width: int,
    height: int,
    config: Config,
)
    requires
        config.accepts(width, height),
        width <= i32::MAX,
        height <= i32::MAX,
        config.skip_room_probability.numerator == 0,
        config.skip_cell_probability.numerator == 0,
    ensures
        generated_rooms(state, width, height, config).len() == generated_sections(
            state,
            width,
            height,
            config,
        ).len(),
        forall|i: int|
            0 <= i < generated_sections(state, width, height, config).len() ==> {
                let room = #[trigger] generated_rooms(state, width, height, config)[i];
                &&& room is Some
                &&& room->Some_0.within_interior(
                    generated_sections(state, width, height, config)[i],
                )
                &&& room->Some_0.height >= config.min_room_height
                &&& room->Some_0.width >= config.min_room_width
            },
        forall|row: int, column: int|
            0 <= row < height && 0 <= column < width ==> ((#[trigger] generated(
                state,
                width,
                height,
                config,
            ).0[row][column] == SpaceType::Open) <==> in_some_room(
                generated_rooms(state, width, height, config),
                row,
                column,
            )),
{
    lemma_accepted_is_consistent(config, width, height);
    let root = root_section(width, height);
    let leaves = leaves_step(state, root, config);
    lemma_leaves_fit(state, root, config);
    let rock = rock_grid(width, height);
    lemma_carve_sections_solid(leaves.1, rock, leaves.0, 0, config, width, height);
    let rooms = generated_rooms(state, width, height, config);
    assert forall|i: int| 0 <= i < leaves.0.len() implies {
        let room = #[trigger] rooms[i];
        &&& room is Some
        &&& room->Some_0.within_interior(leaves.0[i])
        &&& room->Some_0.height >= config.min_room_height
        &&& room->Some_0.width >= config.min_room_width
    } by {}
}

} // verus!

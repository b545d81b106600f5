//! The grid writer: a grid of rock into which the rooms of the leaf
//! sections are carved.

use crate::config::lemma_accepted_is_consistent;
use crate::config::Config;
use crate::config::ConfigError;
use crate::config::Probability;
use crate::invariants::carved_inside;
use crate::invariants::lemma_border_is_rock;
use crate::invariants::lemma_generated_carved_inside;
use crate::invariants::walled;
use crate::partition::create_sections;
use crate::partition::leaves_step;
use crate::partition::lemma_leaves_fit;
use crate::partition::root_section;
use crate::random::after_bool;
use crate::random::drawn_bool;
use crate::random::seeded_state;
use crate::random::RandomSource;
use crate::section::Section;
use vstd::prelude::*;

verus! {

/// Width of the map that `Dungeon::new` generates.
pub const MAP_WIDTH: i32 = 80;

/// Height of the map that `Dungeon::new` generates.
pub const MAP_HEIGHT: i32 = 29;

/// What a position of the map is made of.
#[derive(Clone, Copy, Debug, PartialEq, Eq, Structural)]
pub enum SpaceType {
    Rock,
    Open,
}

impl SpaceType {
    /// The character that stands for the space on screen.
    pub open spec fn glyph(self) -> char {
        match self {
            SpaceType::Rock => '#',
            SpaceType::Open => ' ',
        }
    }
}

impl From<SpaceType> for char {
    fn from(space_type: SpaceType) -> (c: char) {
        match space_type {
            SpaceType::Rock => '#',
            SpaceType::Open => ' ',
        }
    }
}

impl vstd::std_specs::convert::FromSpecImpl<SpaceType> for char {
    open spec fn obeys_from_spec() -> bool {
        true
    }

    open spec fn from_spec(space_type: SpaceType) -> char {
        space_type.glyph()
    }
}

/// One position of the map.
#[derive(Clone, Copy, Debug, PartialEq, Eq, Structural)]
pub struct Space {
    space_type: SpaceType,
}

impl View for Space {
    type V = SpaceType;

    closed spec fn view(&self) -> SpaceType {
        self.space_type
    }
}

impl Space {
    pub fn new(space_type: SpaceType) -> (space: Space)
        ensures
            space@ == space_type,
    {
        Space { space_type: space_type }
    }

    pub fn space_type(&self) -> (space_type: SpaceType)
        ensures
            space_type == self@,
    {
        self.space_type
    }

    pub fn character(&self) -> (c: char)
        ensures
            c == self@.glyph(),
    {
        self.space_type.into()
    }
}

/// The grid that a map of rows stands for.
pub open spec fn grid_of(map: Seq<Vec<Space>>) -> Seq<Seq<SpaceType>> {
    Seq::new(
        map.len(),
        |row: int| Seq::new(map[row]@.len(), |column: int| map[row]@[column]@),
    )
}

/// A grid of `height` rows of `width` cells.
pub open spec fn rectangular(grid: Seq<Seq<SpaceType>>, width: int, height: int) -> bool {
    &&& grid.len() == height
    &&& forall|row: int| 0 <= row < height ==> (#[trigger] grid[row]).len() == width
}

/// The number of columns of a grid: the length of its first row, and zero
/// for a grid without rows.
pub open spec fn width_of(grid: Seq<Seq<SpaceType>>) -> int {
    if grid.len() > 0 {
        grid[0].len() as int
    } else {
        0
    }
}

/// What holds of a dungeon's grid as long as it lives: all rows have the
/// same length, the border is rock, and every position can be addressed
/// on a screen.
pub open spec fn well_formed(grid: Seq<Seq<SpaceType>>) -> bool {
    &&& grid.len() <= i32::MAX
    &&& width_of(grid) <= i32::MAX
    &&& rectangular(grid, width_of(grid), grid.len() as int)
    &&& walled(grid, width_of(grid), grid.len() as int)
}

/// The grid of the given size that is rock everywhere.
pub open spec fn rock_grid(width: int, height: int) -> Seq<Seq<SpaceType>> {
    Seq::new(height as nat, |row: int| Seq::new(width as nat, |column: int| SpaceType::Rock))
}

/// The cell is on the grid and open.
pub open spec fn is_open(grid: Seq<Seq<SpaceType>>, row: int, column: int) -> bool {
    &&& 0 <= row < grid.len()
    &&& 0 <= column < grid[row].len()
    &&& grid[row][column] == SpaceType::Open
}

/// The grid with one more cell opened.
pub open spec fn open_cell(grid: Seq<Seq<SpaceType>>, row: int, column: int) -> Seq<
    Seq<SpaceType>,
> {
    grid.update(row, grid[row].update(column, SpaceType::Open))
}

/// Carves the cells of `row` from `column` up to `end`, left to right: each
/// cell is opened unless its trial, which succeeds with probability `skip`,
/// leaves it as it is.
pub open spec fn carve_row_step(
    state: Seq<u8>,
    grid: Seq<Seq<SpaceType>>,
    row: int,
    column: int,
    end: int,
    skip: Probability,
) -> (Seq<Seq<SpaceType>>, Seq<u8>)
    decreases end - column,
{
    if column >= end {
        (grid, state)
    } else {
        let skipped = drawn_bool(state, skip.numerator as int, skip.denominator as int);
        let next = after_bool(state, skip.numerator as int, skip.denominator as int);
        let carved = if skipped {
            grid
        } else {
            open_cell(grid, row, column)
        };
        carve_row_step(next, carved, row, column + 1, end, skip)
    }
}

/// Carves the rows of `room` from `row` on, top to bottom.
pub open spec fn carve_room_step(
    state: Seq<u8>,
    grid: Seq<Seq<SpaceType>>,
    room: Section,
    row: int,
    skip: Probability,
) -> (Seq<Seq<SpaceType>>, Seq<u8>)
    decreases room.row + room.height - row,
{
    if row >= room.row + room.height {
        (grid, state)
    } else {
        let carved = carve_row_step(
            state,
            grid,
            row,
            room.column as int,
            room.column + room.width,
            skip,
        );
        carve_room_step(carved.1, carved.0, room, row + 1, skip)
    }
}

/// Deals with one leaf section: a trial that succeeds with the probability
/// of skipping a room leaves the grid alone; otherwise a room is drawn and
/// carved.
pub open spec fn carve_section_step(
    state: Seq<u8>,
    grid: Seq<Seq<SpaceType>>,
    section: Section,
    config: Config,
) -> (Seq<Seq<SpaceType>>, Seq<u8>) {
    let skip = config.skip_room_probability;
    let skipped = drawn_bool(state, skip.numerator as int, skip.denominator as int);
    let next = after_bool(state, skip.numerator as int, skip.denominator as int);
    if skipped {
        (grid, next)
    } else {
        let room = section.room_step(next, config);
        carve_room_step(room.1, grid, room.0, room.0.row as int, config.skip_cell_probability)
    }
}

/// Deals with the sections from index `from` on, in order.
pub open spec fn carve_sections_step(
    state: Seq<u8>,
    grid: Seq<Seq<SpaceType>>,
    sections: Seq<Section>,
    from: int,
    config: Config,
) -> (Seq<Seq<SpaceType>>, Seq<u8>)
    decreases sections.len() - from,
{
    if from < 0 || from >= sections.len() {
        (grid, state)
    } else {
        let carved = carve_section_step(state, grid, sections[from], config);
        carve_sections_step(carved.1, carved.0, sections, from + 1, config)
    }
}

/// The leaf sections of a grid of the given size, generated from `state`.
pub open spec fn generated_sections(state: Seq<u8>, width: int, height: int, config: Config) -> Seq<
    Section,
> {
    leaves_step(state, root_section(width, height), config).0
}

/// The grid of the given size generated from `state`, and the state that
/// generation leaves behind: the grid is partitioned, then the leaves are
/// carved in order into a grid of rock.
pub open spec fn generated(state: Seq<u8>, width: int, height: int, config: Config) -> (
    Seq<Seq<SpaceType>>,
    Seq<u8>,
) {
    let leaves = leaves_step(state, root_section(width, height), config);
    carve_sections_step(leaves.1, rock_grid(width, height), leaves.0, 0, config)
}

/// The state that generation starts from: that of the configured seed, or
/// else that of the stream handed in.
pub open spec fn starting_state(config: Config, state: Seq<u8>) -> Seq<u8> {
    match config.random_seed {
        Some(seed) => seeded_state(seed),
        None => state,
    }
}

proof fn lemma_grid_after_set(
    before: Seq<Vec<Space>>,
    after: Seq<Vec<Space>>,
    row: int,
    column: int,
    space: Space,
)
    requires
        0 <= row < before.len(),
        0 <= column < before[row].len(),
        after.len() == before.len(),
        after[row]@ == before[row]@.update(column, space),
        forall|other: int| 0 <= other < before.len() && other != row ==> after[other] == before[other],
        space@ == SpaceType::Open,
    ensures
        grid_of(after) == open_cell(grid_of(before), row, column),
{
    let left = grid_of(after);
    let right = open_cell(grid_of(before), row, column);
    assert forall|r: int| 0 <= r < left.len() implies left[r] == right[r] by {}
}

fn rock_row(width: i32) -> (row: Vec<Space>)
    requires
        0 <= width,
    ensures
        row.len() == width,
        forall|column: int| 0 <= column < width ==> (#[trigger] row[column])@ == SpaceType::Rock,
{
    let mut row: Vec<Space> = Vec::new();
    let mut x: i32 = 0;
    while x < width
        invariant
            0 <= x <= width,
            row.len() == x,
            forall|column: int| 0 <= column < x ==> (#[trigger] row[column])@ == SpaceType::Rock,
        decreases width - x,
    {
        row.push(Space::new(SpaceType::Rock));
        x += 1;
    }
    row
}

fn rock_map(width: i32, height: i32) -> (map: Vec<Vec<Space>>)
    requires
        0 <= width,
        0 <= height,
    ensures
        grid_of(map@) == rock_grid(width as int, height as int),
        map.len() == height,
        forall|row: int| 0 <= row < height ==> (#[trigger] map[row]).len() == width,
{
    let mut map: Vec<Vec<Space>> = Vec::new();
    let mut y: i32 = 0;
    while y < height
        invariant
            0 <= y <= height,
            0 <= width,
            map.len() == y,
            forall|row: int|
                0 <= row < y ==> {
                    &&& (#[trigger] map[row]).len() == width
                    &&& forall|column: int|
                        0 <= column < width ==> (#[trigger] map[row][column])@ == SpaceType::Rock
                },
        decreases height - y,
    {
        map.push(rock_row(width));
        y += 1;
    }
    proof {
        let left = grid_of(map@);
        let right = rock_grid(width as int, height as int);
        assert forall|row: int| 0 <= row < left.len() implies left[row] == right[row] by {}
    }
    map
}

fn carve_row(
    map: &mut Vec<Vec<Space>>,
    y: i32,
    from: i32,
    to: i32,
    skip: Probability,
    source: &mut RandomSource,
)
    requires
        skip.valid(),
        0 <= y < old(map).len(),
        0 <= from <= to <= old(map)[y as int].len(),
    ensures
        (grid_of(final(map)@), final(source)@) == carve_row_step(
            old(source)@,
            grid_of(old(map)@),
            y as int,
            from as int,
            to as int,
            skip,
        ),
        final(map).len() == old(map).len(),
        forall|row: int|
            0 <= row < old(map).len() ==> (#[trigger] final(map)[row]).len() == old(map)[row].len(),
{
    let ghost grid0 = grid_of(map@);
    let ghost state0 = source@;
    let ghost map0 = map@;
    let mut x = from;
    while x < to
        invariant
            skip.valid(),
            from <= x <= to,
            0 <= y < map.len(),
            0 <= from,
            map.len() == map0.len(),
            forall|row: int| 0 <= row < map0.len() ==> (#[trigger] map[row]).len() == map0[row].len(),
            to <= map0[y as int].len(),
            carve_row_step(source@, grid_of(map@), y as int, x as int, to as int, skip)
                == carve_row_step(state0, grid0, y as int, from as int, to as int, skip),
        decreases to - x,
    {
        let skipped = source.chance(skip.numerator, skip.denominator);
        if !skipped {
            let ghost before = map@;
            map[y as usize][x as usize] = Space::new(SpaceType::Open);
            proof {
                lemma_grid_after_set(
                    before,
                    map@,
                    y as int,
                    x as int,
                    Space { space_type: SpaceType::Open },
                );
            }
        }
        x += 1;
    }
}

fn carve_room(
    map: &mut Vec<Vec<Space>>,
    room: Section,
    skip: Probability,
    source: &mut RandomSource,
)
    requires
        skip.valid(),
        room.bounded(),
        room.row + room.height <= old(map).len(),
        forall|row: int|
            0 <= row < old(map).len() ==> room.column + room.width <= (#[trigger] old(
                map,
            )[row]).len(),
    ensures
        (grid_of(final(map)@), final(source)@) == carve_room_step(
            old(source)@,
            grid_of(old(map)@),
            room,
            room.row as int,
            skip,
        ),
        final(map).len() == old(map).len(),
        forall|row: int|
            0 <= row < old(map).len() ==> (#[trigger] final(map)[row]).len() == old(map)[row].len(),
{
    let ghost grid0 = grid_of(map@);
    let ghost state0 = source@;
    let ghost map0 = map@;
    let mut y = room.row;
    while y < room.row + room.height
        invariant
            skip.valid(),
            room.bounded(),
            room.row <= y <= room.row + room.height,
            room.row + room.height <= map0.len(),
            map.len() == map0.len(),
            forall|row: int| 0 <= row < map0.len() ==> (#[trigger] map[row]).len() == map0[row].len(),
            forall|row: int|
                0 <= row < map0.len() ==> room.column + room.width <= (#[trigger] map0[row]).len(),
            carve_room_step(source@, grid_of(map@), room, y as int, skip) == carve_room_step(
                state0,
                grid0,
                room,
                room.row as int,
                skip,
            ),
        decreases room.row + room.height - y,
    {
        carve_row(map, y, room.column, room.column + room.width, skip, source);
        y += 1;
    }
}

/// The generated map.
pub struct Dungeon {
    map: Vec<Vec<Space>>,
}

impl View for Dungeon {
    type V = Seq<Seq<SpaceType>>;

    closed spec fn view(&self) -> Seq<Seq<SpaceType>> {
        grid_of(self.map@)
    }
}

impl Dungeon {
    #[verifier::type_invariant]
    closed spec fn sound(self) -> bool {
        well_formed(grid_of(self.map@))
    }

    /// Generates the map of 29 rows and 80 columns with the standard
    /// configuration, drawing from `source`.
    pub fn new(source: &mut RandomSource) -> (dungeon: Dungeon)
        ensures
            (dungeon@, final(source)@) == generated(
                old(source)@,
                MAP_WIDTH as int,
                MAP_HEIGHT as int,
                Config::standard(),
            ),
            rectangular(dungeon@, MAP_WIDTH as int, MAP_HEIGHT as int),
            walled(dungeon@, MAP_WIDTH as int, MAP_HEIGHT as int),
            carved_inside(
                rock_grid(MAP_WIDTH as int, MAP_HEIGHT as int),
                dungeon@,
                generated_sections(
                    old(source)@,
                    MAP_WIDTH as int,
                    MAP_HEIGHT as int,
                    Config::standard(),
                ),
            ),
    {
        let config = Config::default();
        proof {
            lemma_generated_carved_inside(
                source@,
                MAP_WIDTH as int,
                MAP_HEIGHT as int,
                config,
            );
            lemma_border_is_rock(source@, MAP_WIDTH as int, MAP_HEIGHT as int, config);
        }
        Dungeon::build(MAP_WIDTH, MAP_HEIGHT, &config, source)
    }

    /// Generates a map of the given size, or says why the configuration
    /// does not fit it. Where the configuration holds a seed, the map
    /// depends on the seed alone and `source` is left untouched; otherwise
    /// the map is drawn from `source`. The map has the size asked for, its
    /// border is rock, and every open cell lies in the interior of a leaf
    /// section.
    pub fn generate(width: i32, height: i32, config: &Config, source: &mut RandomSource) -> (made:
        Result<Dungeon, ConfigError>)
        ensures
            match config.error_on(width as int, height as int) {
                Some(error) => made == Err::<Dungeon, ConfigError>(error) && final(source)@ == old(
                    source,
                )@,
                None => made is Ok && (made->Ok_0)@ == generated(
                    starting_state(*config, old(source)@),
                    width as int,
                    height as int,
                    *config,
                ).0 && final(source)@ == (if config.random_seed is Some {
                    old(source)@
                } else {
                    generated(old(source)@, width as int, height as int, *config).1
                }),
            },
            made matches Ok(dungeon) ==> {
                &&& rectangular(dungeon@, width as int, height as int)
                &&& walled(dungeon@, width as int, height as int)
                &&& carved_inside(
                    rock_grid(width as int, height as int),
                    dungeon@,
                    generated_sections(
                        starting_state(*config, old(source)@),
                        width as int,
                        height as int,
                        *config,
                    ),
                )
            },
    {
        proof {
            if config.accepts(width as int, height as int) {
                let start = starting_state(*config, source@);
                lemma_generated_carved_inside(start, width as int, height as int, *config);
                lemma_border_is_rock(start, width as int, height as int, *config);
            }
        }
        match config.validate(width, height) {
            Err(error) => {
                return Err(error);
            },
            Ok(_) => {},
        }
        match config.random_seed {
            Some(seed) => {
                let mut seeded = RandomSource::seeded(seed);
                Ok(Dungeon::build(width, height, config, &mut seeded))
            },
            None => Ok(Dungeon::build(width, height, config, source)),
        }
    }

    fn build(width: i32, height: i32, config: &Config, source: &mut RandomSource) -> (dungeon:
        Dungeon)
        requires
            config.accepts(width as int, height as int),
        ensures
            (dungeon@, final(source)@) == generated(
                old(source)@,
                width as int,
                height as int,
                *config,
            ),
    {
        proof {
            lemma_accepted_is_consistent(*config, width as int, height as int);
            lemma_leaves_fit(old(source)@, root_section(width as int, height as int), *config);
        }
        let mut map = rock_map(width, height);
        let sections = create_sections(width, height, config, source);
        let ghost grid0 = grid_of(map@);
        let ghost state0 = source@;

        let mut i: usize = 0;
        while i < sections.len()
            invariant
                0 <= i <= sections.len(),
                config.consistent(),
                0 <= width,
                0 <= height,
                map.len() == height,
                forall|row: int| 0 <= row < height ==> (#[trigger] map[row]).len() == width,
                forall|k: int|
                    0 <= k < sections.len() ==> {
                        let leaf = #[trigger] sections[k];
                        &&& leaf.within(root_section(width as int, height as int))
                        &&& leaf.roomy(*config)
                    },
                carve_sections_step(source@, grid_of(map@), sections@, i as int, *config)
                    == carve_sections_step(state0, grid0, sections@, 0, *config),
            decreases sections.len() - i,
        {
            let section = sections[i];
            let skip = config.skip_room_probability;
            let skipped = source.chance(skip.numerator, skip.denominator);
            if !skipped {
                let room = section.generate_subsection(config, source);
                carve_room(&mut map, room, config.skip_cell_probability, source);
            }
            i += 1;
        }
        proof {
            lemma_generated_carved_inside(
                old(source)@,
                width as int,
                height as int,
                *config,
            );
            lemma_border_is_rock(old(source)@, width as int, height as int, *config);
        }
        Dungeon { map }
    }

    /// The number of rows.
    pub fn height(&self) -> (height: usize)
        ensures
            height == self@.len(),
            well_formed(self@),
    {
        proof {
            use_type_invariant(self);
        }
        self.map.len()
    }

    /// The number of columns.
    pub fn width(&self) -> (width: usize)
        ensures
            width == width_of(self@),
            well_formed(self@),
    {
        proof {
            use_type_invariant(self);
        }
        if self.map.len() > 0 {
            self.map[0].len()
        } else {
            0
        }
    }

    /// The space at a position, or `None` off the map.
    pub fn space(&self, row: usize, column: usize) -> (space: Option<Space>)
        ensures
            well_formed(self@),
            space is Some <==> row < self@.len() && column < width_of(self@),
            space matches Some(found) ==> found@ == self@[row as int][column as int],
    {
        proof {
            use_type_invariant(self);
            if row < self@.len() {
                assert(self@[row as int].len() == width_of(self@));
            }
        }
        if row < self.map.len() && column < self.map[row].len() {
            Some(self.map[row][column])
        } else {
            None
        }
    }

    /// The rows of the map, top to bottom, each from left to right.
    pub fn map(&self) -> (rows: &Vec<Vec<Space>>)
        ensures
            grid_of(rows@) == self@,
            well_formed(self@),
    {
        proof {
            use_type_invariant(self);
        }
        &self.map
    }
}

} // verus!

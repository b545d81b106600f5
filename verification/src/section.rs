//! Rectangles of the map: the sections of the partition and the rooms carved
//! into them.

use crate::config::cannot_split;
use crate::config::Config;
use crate::random::after_int;
use crate::random::drawn_int;
use crate::random::RandomSource;
use vstd::prelude::*;

verus! {

/// A position on the map.
#[derive(Clone, Copy, Debug, PartialEq, Eq, Structural)]
pub struct Coordinate {
    pub row: i32,
    pub column: i32,
}

/// A rectangle of the map: `height` rows from `row` on, `width` columns from
/// `column` on. Its first row and first column stay rock, so that rooms of
/// neighbouring sections never touch.
#[derive(Clone, Copy, Debug, PartialEq, Eq, Structural)]
pub struct Section {
    pub row: i32,
    pub column: i32,
    pub height: i32,
    pub width: i32,
}

impl Section {
    /// The cell lies in the rectangle.
    pub open spec fn contains(self, row: int, column: int) -> bool {
        &&& self.row <= row < self.row + self.height
        &&& self.column <= column < self.column + self.width
    }

    /// The cell lies in the rectangle, but not in its first row or column:
    /// the part of a section that a room may occupy.
    pub open spec fn interior_contains(self, row: int, column: int) -> bool {
        &&& self.row < row < self.row + self.height
        &&& self.column < column < self.column + self.width
    }

    /// The rectangle lies inside `outer`.
    pub open spec fn within(self, outer: Section) -> bool {
        &&& outer.row <= self.row
        &&& self.row + self.height <= outer.row + outer.height
        &&& outer.column <= self.column
        &&& self.column + self.width <= outer.column + outer.width
    }

    /// The rectangle lies inside the interior of `outer`.
    pub open spec fn within_interior(self, outer: Section) -> bool {
        &&& outer.row < self.row
        &&& self.row + self.height <= outer.row + outer.height
        &&& outer.column < self.column
        &&& self.column + self.width <= outer.column + outer.width
    }

    /// The two rectangles are separated along one axis.
    pub open spec fn apart(self, other: Section) -> bool {
        ||| self.row + self.height <= other.row
        ||| other.row + other.height <= self.row
        ||| self.column + self.width <= other.column
        ||| other.column + other.width <= self.column
    }

    /// The rectangle starts at a non-negative position, is not of negative
    /// size, and its far edges are representable.
    pub open spec fn bounded(self) -> bool {
        &&& 0 <= self.row
        &&& 0 <= self.column
        &&& 0 <= self.height
        &&& 0 <= self.width
        &&& self.row + self.height <= i32::MAX
        &&& self.column + self.width <= i32::MAX
    }

    /// The section is above the minimum section size on both axes.
    pub open spec fn roomy(self, config: Config) -> bool {
        &&& self.bounded()
        &&& self.height > config.min_section_height
        &&& self.width > config.min_section_width
    }

    /// The section cannot be split along either axis.
    pub open spec fn is_leaf(self, config: Config) -> bool {
        &&& cannot_split(self.height as int, config.min_section_height as int)
        &&& cannot_split(self.width as int, config.min_section_width as int)
    }

    /// Where the section is split, the cut is vertical: it has to be, or the
    /// section is more than twice as wide as it is high.
    pub open spec fn splits_vertically(self, config: Config) -> bool {
        ||| cannot_split(self.height as int, config.min_section_height as int)
        ||| self.width > 2 * self.height
    }

    /// The room drawn for this section in `state`, and the state after the
    /// four draws: row, column, height and width, in that order.
    pub open spec fn room_step(self, state: Seq<u8>, config: Config) -> (Section, Seq<u8>) {
        let row_low = self.row + 1;
        let row_high = self.row + self.height - 1 - config.min_room_height;
        let row = drawn_int(state, row_low, row_high);
        let state1 = after_int(state, row_low, row_high);
        let column_low = self.column + 1;
        let column_high = self.column + self.width - 1 - config.min_room_width;
        let column = drawn_int(state1, column_low, column_high);
        let state2 = after_int(state1, column_low, column_high);
        let height_high = self.row + self.height - row;
        let height = drawn_int(state2, config.min_room_height as int, height_high);
        let state3 = after_int(state2, config.min_room_height as int, height_high);
        let width_high = self.column + self.width - column;
        let width = drawn_int(state3, config.min_room_width as int, width_high);
        let state4 = after_int(state3, config.min_room_width as int, width_high);
        (
            Section {
                row: row as i32,
                column: column as i32,
                height: height as i32,
                width: width as i32,
            },
            state4,
        )
    }

    pub fn new(row: i32, column: i32, height: i32, width: i32) -> (section: Section)
        ensures
            section == (Section { row, column, height, width }),
    {
        Section { row, column, height, width }
    }

    /// The corner just past the last column of the first row.
    pub fn top_right(&self) -> (corner: Coordinate)
        requires
            self.column + self.width <= i32::MAX,
            self.column + self.width >= i32::MIN,
        ensures
            corner.row == self.row,
            corner.column == self.column + self.width,
    {
        Coordinate { row: self.row, column: self.column + self.width }
    }

    /// The corner just past the last row of the first column.
    pub fn bottom_left(&self) -> (corner: Coordinate)
        requires
            self.row + self.height <= i32::MAX,
            self.row + self.height >= i32::MIN,
        ensures
            corner.row == self.row + self.height,
            corner.column == self.column,
    {
        Coordinate { row: self.row + self.height, column: self.column }
    }

    /// The leaf test: no further split is possible.
    pub fn cannot_split_further(&self, config: &Config) -> (leaf: bool)
        ensures
            leaf == self.is_leaf(*config),
    {
        let spare_height = self.height as i64 - 3 - 2 * (config.min_section_height as i64);
        let spare_width = self.width as i64 - 3 - 2 * (config.min_section_width as i64);
        spare_height < 2 && spare_width < 2
    }

    /// Draws a room inside the section: at least the minimum room size, off
    /// the section's first row and column, and not past its far edges.
    pub fn generate_subsection(&self, config: &Config, source: &mut RandomSource) -> (room:
        Section)
        requires
            self.bounded(),
            1 <= config.min_room_height,
            1 <= config.min_room_width,
            self.height >= config.min_room_height + 2,
            self.width >= config.min_room_width + 2,
        ensures
            (room, final(source)@) == self.room_step(old(source)@, *config),
            room.within_interior(*self),
            room.height >= config.min_room_height,
            room.width >= config.min_room_width,
    {
        let min_row = self.row + 1;
        let max_row = self.row + self.height - 1 - config.min_room_height;
        let min_column = self.column + 1;
        let max_column = self.column + self.width - 1 - config.min_room_width;

        let row = source.int_between(min_row, max_row);
        let column = source.int_between(min_column, max_column);
        let height = source.int_between(config.min_room_height, self.row + self.height - row);
        let width = source.int_between(config.min_room_width, self.column + self.width - column);

        Section::new(row, column, height, width)
    }
}

/// Rectangles that are apart have no cell in common.
pub proof fn lemma_apart_share_no_cell(a: Section, b: Section)
    requires
        a.apart(b),
    ensures
        forall|row: int, column: int| !(a.contains(row, column) && b.contains(row, column)),
{
}

/// Rectangles inside rectangles that are apart are apart themselves.
pub proof fn lemma_apart_inherited(a: Section, b: Section, outer_a: Section, outer_b: Section)
    requires
        a.within(outer_a),
        b.within(outer_b),
        outer_a.apart(outer_b),
        0 <= a.height,
        0 <= a.width,
        0 <= b.height,
        0 <= b.width,
    ensures
        a.apart(b),
{
}

/// The room of a section lies in the section's interior and has at least
/// the minimum room size, whatever the state of the stream.
pub proof fn lemma_room_inside(section: Section, state: Seq<u8>, config: Config)
    requires
        section.bounded(),
        1 <= config.min_room_height,
        1 <= config.min_room_width,
        section.height >= config.min_room_height + 2,
        section.width >= config.min_room_width + 2,
    ensures
        section.room_step(state, config).0.within_interior(section),
        section.room_step(state, config).0.height >= config.min_room_height,
        section.room_step(state, config).0.width >= config.min_room_width,
{
}

} // verus!

//! The options of a generation run and the rules that make them usable.

use vstd::prelude::*;

verus! {

/// Smallest height of a room, unless configured otherwise.
pub const MIN_ROOM_HEIGHT: i32 = 4;

/// Smallest width of a room, unless configured otherwise.
pub const MIN_ROOM_WIDTH: i32 = 6;

/// Smallest height that a split may leave to a section, unless configured
/// otherwise.
pub const MIN_SECTION_HEIGHT: i32 = 6;

/// Smallest width that a split may leave to a section, unless configured
/// otherwise.
pub const MIN_SECTION_WIDTH: i32 = 8;

/// A probability, written as a fraction of two integers.
#[derive(Clone, Copy, Debug, PartialEq, Eq, Structural)]
pub struct Probability {
    pub numerator: u32,
    pub denominator: u32,
}

impl Probability {
    /// A fraction between zero and one.
    pub open spec fn valid(self) -> bool {
        0 < self.denominator && self.numerator <= self.denominator
    }

    pub fn new(numerator: u32, denominator: u32) -> (p: Probability)
        ensures
            p.numerator == numerator,
            p.denominator == denominator,
    {
        Probability { numerator, denominator }
    }

    /// `value` chances in a hundred.
    pub fn percent(value: u32) -> (p: Probability)
        ensures
            p.numerator == value,
            p.denominator == 100,
    {
        Probability { numerator: value, denominator: 100 }
    }

    pub fn is_valid(&self) -> (ok: bool)
        ensures
            ok == self.valid(),
    {
        0 < self.denominator && self.numerator <= self.denominator
    }
}

/// Why a configuration cannot be used on a grid.
#[derive(Clone, Copy, Debug, PartialEq, Eq, Structural)]
pub enum ConfigError {
    /// A probability is not a fraction between zero and one.
    InvalidProbability,
    /// A minimum room size is below one cell.
    EmptyRoom,
    /// The smallest section cannot hold the smallest room and its wall.
    RoomExceedsSection,
    /// The grid is too small to be split along both axes.
    GridTooSmall,
    /// The minimum section width is more than the balance rule can keep
    /// splittable.
    UnbalancedSections,
}

impl ConfigError {
    /// The message of each error.
    pub open spec fn text(self) -> Seq<char> {
        match self {
            ConfigError::InvalidProbability => "a probability must be a fraction between 0 and 1"@,
            ConfigError::EmptyRoom => "the minimum room size must be at least one cell"@,
            ConfigError::RoomExceedsSection =>
                "the minimum section size must exceed the minimum room size"@,
            ConfigError::GridTooSmall =>
                "the grid is too small for the minimum section size"@,
            ConfigError::UnbalancedSections =>
                "the minimum section width is too large for the minimum section height"@,
        }
    }

    pub fn description(&self) -> (message: &'static str)
        ensures
            message@ == self.text(),
    {
        match self {
            ConfigError::InvalidProbability => "a probability must be a fraction between 0 and 1",
            ConfigError::EmptyRoom => "the minimum room size must be at least one cell",
            ConfigError::RoomExceedsSection =>
                "the minimum section size must exceed the minimum room size",
            ConfigError::GridTooSmall => "the grid is too small for the minimum section size",
            ConfigError::UnbalancedSections =>
                "the minimum section width is too large for the minimum section height",
        }
    }
}

/// The options of a generation run.
#[derive(Clone, Copy, Debug, PartialEq, Eq)]
pub struct Config {
    /// A section is split only where both halves stay above this height.
    pub min_section_height: i32,
    /// A section is split only where both halves stay above this width.
    pub min_section_width: i32,
    /// No room is lower than this.
    pub min_room_height: i32,
    /// No room is narrower than this.
    pub min_room_width: i32,
    /// The chance that a leaf section gets no room.
    pub skip_room_probability: Probability,
    /// The chance that a cell of a room stays rock.
    pub skip_cell_probability: Probability,
    /// Where set, generation draws from a fresh stream made from this seed.
    pub random_seed: Option<u64>,
}

/// A length of `size` cannot be split into two parts above `min_size`.
pub open spec fn cannot_split(size: int, min_size: int) -> bool {
    (size - 3) / 2 <= min_size
}

impl Config {
    /// The configuration used where none is given: sections of at least 6 by
    /// 8, rooms of at least 4 by 6, one room in five left out, one cell in
    /// twenty left as rock, and no seed.
    pub open spec fn standard() -> Config {
        Config {
            min_section_height: 6,
            min_section_width: 8,
            min_room_height: 4,
            min_room_width: 6,
            skip_room_probability: Probability { numerator: 20, denominator: 100 },
            skip_cell_probability: Probability { numerator: 5, denominator: 100 },
            random_seed: None,
        }
    }

    /// The sizes and probabilities are consistent with one another.
    pub open spec fn consistent(self) -> bool {
        &&& self.skip_room_probability.valid()
        &&& self.skip_cell_probability.valid()
        &&& 1 <= self.min_room_height
        &&& 1 <= self.min_room_width
        &&& self.min_room_height < self.min_section_height
        &&& self.min_room_width < self.min_section_width
        &&& self.min_section_width <= 2 * self.min_section_height + 3
    }

    /// The first rule that the configuration breaks on a grid of the given
    /// size, if any.
    pub open spec fn error_on(self, width: int, height: int) -> Option<ConfigError> {
        if !self.skip_room_probability.valid() || !self.skip_cell_probability.valid() {
            Some(ConfigError::InvalidProbability)
        } else if self.min_room_height < 1 || self.min_room_width < 1 {
            Some(ConfigError::EmptyRoom)
        } else if self.min_section_height <= self.min_room_height || self.min_section_width
            <= self.min_room_width {
            Some(ConfigError::RoomExceedsSection)
        } else if cannot_split(height - 1, self.min_section_height as int) || cannot_split(
            width - 1,
            self.min_section_width as int,
        ) {
            Some(ConfigError::GridTooSmall)
        } else if self.min_section_width > 2 * self.min_section_height + 3 {
            Some(ConfigError::UnbalancedSections)
        } else {
            None
        }
    }

    /// The configuration can generate a grid of the given size.
    pub open spec fn accepts(self, width: int, height: int) -> bool {
        self.error_on(width, height) is None
    }

    /// Checks the configuration against a grid of the given size.
    pub fn validate(&self, width: i32, height: i32) -> (checked: Result<(), ConfigError>)
        ensures
            checked == match self.error_on(width as int, height as int) {
                Some(error) => Err::<(), ConfigError>(error),
                None => Ok::<(), ConfigError>(()),
            },
    {
        if !self.skip_room_probability.is_valid() || !self.skip_cell_probability.is_valid() {
            return Err(ConfigError::InvalidProbability);
        }
        if self.min_room_height < 1 || self.min_room_width < 1 {
            return Err(ConfigError::EmptyRoom);
        }
        if self.min_section_height <= self.min_room_height || self.min_section_width
            <= self.min_room_width {
            return Err(ConfigError::RoomExceedsSection);
        }
        if height < 4 || width < 4 {
            return Err(ConfigError::GridTooSmall);
        }
        if (height - 4) / 2 <= self.min_section_height || (width - 4) / 2
            <= self.min_section_width {
            return Err(ConfigError::GridTooSmall);
        }
        if self.min_section_width - 3 > 2 * self.min_section_height {
            return Err(ConfigError::UnbalancedSections);
        }
        Ok(())
    }
}

impl Default for Config {
    fn default() -> (config: Config)
        ensures
            config == Config::standard(),
    {
        Config {
            min_section_height: MIN_SECTION_HEIGHT,
            min_section_width: MIN_SECTION_WIDTH,
            min_room_height: MIN_ROOM_HEIGHT,
            min_room_width: MIN_ROOM_WIDTH,
            skip_room_probability: Probability::percent(20),
            skip_cell_probability: Probability::percent(5),
            random_seed: None,
        }
    }
}

/// A configuration that passes validation is consistent, and the grid it
/// was checked against can be split along both axes.
pub proof fn lemma_accepted_is_consistent(config: Config, width: int, height: int)
    requires
        config.accepts(width, height),
    ensures
        config.consistent(),
        !cannot_split(height - 1, config.min_section_height as int),
        !cannot_split(width - 1, config.min_section_width as int),
        height >= 2 * config.min_section_height + 6,
        width >= 2 * config.min_section_width + 6,
{
}

} // verus!

//! Where text goes on the board: each screen is a list of placements, which
//! the terminal shows in order.

use crate::dungeon::grid_of;
use crate::dungeon::Dungeon;
use crate::dungeon::SpaceType;
use crate::keymaps::Keymap;
use vstd::prelude::*;
use vstd::string::StrSliceExecFns;
use vstd::string::StringExecFns;

verus! {

pub const MAX_WIDTH: i32 = 80;

pub const MAX_HEIGHT: i32 = 30;

pub const MAX_X: i32 = MAX_WIDTH - 1;

pub const MAX_Y: i32 = MAX_HEIGHT - 1;

/// A text and the position of its first character.
pub struct Placement {
    pub row: i32,
    pub column: i32,
    pub content: String,
}

/// A placement, as plain values.
pub struct PlacementText {
    pub row: int,
    pub column: int,
    pub content: Seq<char>,
}

impl View for Placement {
    type V = PlacementText;

    open spec fn view(&self) -> PlacementText {
        PlacementText { row: self.row as int, column: self.column as int, content: self.content@ }
    }
}

/// The placements of a list, as plain values.
pub open spec fn shown(lines: Seq<Placement>) -> Seq<PlacementText> {
    lines.map_values(|line: Placement| line@)
}

/// The column at which a text of `length` characters starts when centred
/// on the board: half of what the board has left, rounded towards zero,
/// and so negative for a text wider than the board.
pub open spec fn centered_start(length: int) -> int {
    if length <= MAX_WIDTH {
        (MAX_WIDTH - length) / 2
    } else {
        -((length - MAX_WIDTH) / 2)
    }
}

/// A text centred on a row.
pub open spec fn centered(row: int, content: Seq<char>) -> PlacementText {
    PlacementText { row, column: centered_start(content.len() as int), content }
}

/// `count` times the same character.
pub open spec fn repeated(character: char, count: int) -> Seq<char> {
    Seq::new(count as nat, |i: int| character)
}

/// A `#` at both ends of each of the first `rows` rows, top to bottom.
pub open spec fn side_walls(rows: int) -> Seq<PlacementText>
    decreases rows,
{
    if rows <= 0 {
        Seq::empty()
    } else {
        side_walls(rows - 1) + seq![
            PlacementText { row: rows - 1, column: 0, content: seq!['#'] },
            PlacementText { row: rows - 1, column: MAX_X as int, content: seq!['#'] },
        ]
    }
}

/// The line that tells how to go on from the welcome screen.
pub open spec fn getting_started_text() -> Seq<char> {
    "Press "@ + Keymap::Start.key_text() + " to start a game, "@ + Keymap::Help.key_text()
        + " to see the rules or "@ + Keymap::Quit.key_text() + " to quit."@
}

/// The welcome screen: a wall of `#` all around, and three centred lines.
pub open spec fn welcome_text() -> Seq<PlacementText> {
    seq![
        PlacementText { row: 0, column: 0, content: repeated('#', MAX_WIDTH as int) },
        centered(13, "Welcome to the Rogue Like Game!"@),
        centered(14, "Created by Luke Shay - https://www.lukeshay.com/"@),
        centered(16, getting_started_text()),
        PlacementText { row: MAX_Y as int, column: 0, content: repeated('#', MAX_WIDTH as int) },
    ] + side_walls(MAX_HEIGHT as int)
}

/// The keymaps that the help screen lists, in order.
pub open spec fn listed_keymaps() -> Seq<Keymap> {
    seq![
        Keymap::Quit,
        Keymap::Help,
        Keymap::Start,
        Keymap::Up,
        Keymap::Down,
        Keymap::Left,
        Keymap::Right,
    ]
}

/// The help screen: a title, a line of help, a separator, and below the
/// second title one line for each listed keymap.
pub open spec fn help_screen_text() -> Seq<PlacementText> {
    seq![
        centered(0, "Help"@),
        PlacementText {
            row: 2,
            column: 2,
            content: "Here is some help information. Not sure when to put here."@,
        },
        PlacementText { row: 4, column: 0, content: repeated('-', MAX_WIDTH as int) },
        centered(5, "Keymaps"@),
    ] + Seq::new(
        listed_keymaps().len(),
        |i: int| PlacementText { row: 7 + i, column: 2, content: listed_keymaps()[i].help_text() },
    )
}

/// The first `count` cells of a row of the grid, each as one character at
/// its own position.
pub open spec fn row_text(cells: Seq<SpaceType>, row: int, count: int) -> Seq<PlacementText>
    decreases count,
{
    if count <= 0 {
        Seq::empty()
    } else {
        row_text(cells, row, count - 1).push(
            PlacementText { row, column: count - 1, content: seq![cells[count - 1].glyph()] },
        )
    }
}

/// The first `count` rows of the grid, cell by cell in row-major order.
pub open spec fn grid_text(grid: Seq<Seq<SpaceType>>, count: int) -> Seq<PlacementText>
    decreases count,
{
    if count <= 0 {
        Seq::empty()
    } else {
        grid_text(grid, count - 1) + row_text(
            grid[count - 1],
            count - 1,
            grid[count - 1].len() as int,
        )
    }
}

/// `char::to_string`: the string that holds the one character.
#[verifier::external_body]
fn char_to_string(character: char) -> (text: String)
    ensures
        text@ == seq![character],
{
    character.to_string()
}

proof fn lemma_shown_push(lines: Seq<Placement>, line: Placement)
    ensures
        shown(lines.push(line)) == shown(lines).push(line@),
{
}

/// The column at which `content` starts when centred on the board.
pub fn get_center_x_start_point(content: &str) -> (start: i32)
    requires
        content@.len() <= i32::MAX,
    ensures
        start == centered_start(content@.len() as int),
{
    let length = content.unicode_len();
    (MAX_WIDTH - length as i32) / 2
}

/// A line made of one character, `count` times.
fn line_of(character: char, count: i32) -> (line: String)
    requires
        0 <= count,
    ensures
        line@ == repeated(character, count as int),
{
    let piece = char_to_string(character);
    let mut line = String::new();
    let mut i: i32 = 0;
    while i < count
        invariant
            0 <= i <= count,
            piece@ == seq![character],
            line@ == repeated(character, i as int),
        decreases count - i,
    {
        line.append(piece.as_str());
        i += 1;
    }
    line
}

fn centered_line(row: i32, content: String) -> (line: Placement)
    requires
        content@.len() <= i32::MAX,
    ensures
        line@ == centered(row as int, content@),
{
    let column = get_center_x_start_point(content.as_str());
    Placement { row, column, content }
}

fn getting_started_message() -> (message: String)
    ensures
        message@ == getting_started_text(),
        message@.len() <= 200,
{
    let start = Keymap::Start.key();
    let help = Keymap::Help.key();
    let quit = Keymap::Quit.key();
    proof {
        reveal_strlit("Press ");
        reveal_strlit(" to start a game, ");
        reveal_strlit(" to see the rules or ");
        reveal_strlit(" to quit.");
        reveal_strlit("n");
        reveal_strlit("?");
        reveal_strlit("q");
    }
    let mut message = "Press ".to_string();
    message.append(start.as_str());
    message.append(" to start a game, ");
    message.append(help.as_str());
    message.append(" to see the rules or ");
    message.append(quit.as_str());
    message.append(" to quit.");
    message
}

/// The placements of the welcome screen.
pub fn welcome_screen() -> (lines: Vec<Placement>)
    ensures
        shown(lines@) == welcome_text(),
{
    let welcome_message = "Welcome to the Rogue Like Game!";
    let created_by_message = "Created by Luke Shay - https://www.lukeshay.com/";
    let getting_started = getting_started_message();
    proof {
        reveal_strlit("Welcome to the Rogue Like Game!");
        reveal_strlit("Created by Luke Shay - https://www.lukeshay.com/");
    }

    let mut lines: Vec<Placement> = Vec::new();
    lines.push(Placement { row: 0, column: 0, content: line_of('#', MAX_WIDTH) });
    lines.push(centered_line(13, welcome_message.to_string()));
    lines.push(centered_line(14, created_by_message.to_string()));
    lines.push(centered_line(16, getting_started));
    lines.push(Placement { row: MAX_Y, column: 0, content: line_of('#', MAX_WIDTH) });
    let ghost head = shown(lines@);

    let mut n: i32 = 0;
    while n <= MAX_Y
        invariant
            0 <= n <= MAX_Y + 1,
            shown(lines@) == head + side_walls(n as int),
        decreases MAX_Y + 1 - n,
    {
        let ghost before = lines@;
        lines.push(Placement { row: n, column: 0, content: char_to_string('#') });
        proof {
            lemma_shown_push(before, lines@[lines@.len() - 1]);
        }
        let ghost between = lines@;
        lines.push(Placement { row: n, column: MAX_X, content: char_to_string('#') });
        proof {
            lemma_shown_push(between, lines@[lines@.len() - 1]);
        }
        n += 1;
    }
    lines
}

/// The placements of the help screen.
pub fn help_screen() -> (lines: Vec<Placement>)
    ensures
        shown(lines@) == help_screen_text(),
{
    let help_title = "Help";
    let keymaps_title = "Keymaps";
    proof {
        reveal_strlit("Help");
        reveal_strlit("Keymaps");
    }

    let mut lines: Vec<Placement> = Vec::new();
    lines.push(centered_line(0, help_title.to_string()));
    lines.push(
        Placement {
            row: 2,
            column: 2,
            content: "Here is some help information. Not sure when to put here.".to_string(),
        },
    );
    lines.push(Placement { row: 4, column: 0, content: line_of('-', MAX_WIDTH) });
    lines.push(centered_line(5, keymaps_title.to_string()));
    let ghost head = shown(lines@);

    let keymaps = vec![
        Keymap::Quit,
        Keymap::Help,
        Keymap::Start,
        Keymap::Up,
        Keymap::Down,
        Keymap::Left,
        Keymap::Right,
    ];

    let mut i: usize = 0;
    while i < keymaps.len()
        invariant
            0 <= i <= keymaps.len(),
            keymaps@ == listed_keymaps(),
            shown(lines@) == head + Seq::new(
                i as nat,
                |k: int|
                    PlacementText {
                        row: 7 + k,
                        column: 2,
                        content: listed_keymaps()[k].help_text(),
                    },
            ),
        decreases keymaps.len() - i,
    {
        let ghost before = lines@;
        let row: i32 = 7 + i as i32;
        lines.push(Placement { row, column: 2, content: keymaps[i].help_message() });
        proof {
            lemma_shown_push(before, lines@[lines@.len() - 1]);
        }
        i += 1;
    }
    lines
}

/// The placements that draw a dungeon: one character for each space, row
/// by row.
pub fn dungeon_screen(dungeon: &Dungeon) -> (lines: Vec<Placement>)
    ensures
        shown(lines@) == grid_text(dungeon@, dungeon@.len() as int),
{
    let map = dungeon.map();
    let mut lines: Vec<Placement> = Vec::new();
    let mut y: usize = 0;
    while y < map.len()
        invariant
            0 <= y <= map.len(),
            grid_of(map@) == dungeon@,
            dungeon@.len() <= i32::MAX,
            forall|row: int|
                0 <= row < dungeon@.len() ==> (#[trigger] dungeon@[row]).len() <= i32::MAX,
            shown(lines@) == grid_text(dungeon@, y as int),
        decreases map.len() - y,
    {
        let cells = &map[y];
        let ghost head = shown(lines@);
        let ghost cells_text = dungeon@[y as int];
        let mut x: usize = 0;
        while x < cells.len()
            invariant
                0 <= x <= cells.len(),
                y < map.len(),
                y <= i32::MAX,
                cells.len() <= i32::MAX,
                cells_text.len() == cells.len(),
                forall|k: int| 0 <= k < cells.len() ==> cells_text[k] == (#[trigger] cells[k])@,
                shown(lines@) == head + row_text(cells_text, y as int, x as int),
            decreases cells.len() - x,
        {
            let ghost before = lines@;
            let content = char_to_string(cells[x].character());
            lines.push(Placement { row: y as i32, column: x as i32, content });
            proof {
                lemma_shown_push(before, lines@[lines@.len() - 1]);
            }
            x += 1;
        }
        y += 1;
    }
    lines
}

} // verus!

use pancurses::Input;
use roguelike::board::dungeon_screen;
use roguelike::board::get_center_x_start_point;
use roguelike::board::help_screen;
use roguelike::board::welcome_screen;
use roguelike::config::Config;
use roguelike::dungeon::Dungeon;
use roguelike::keymaps::Keymap;
use roguelike::keymaps::KeymapBinding;
use roguelike::random::RandomSource;
use roguelike::screens::next_screen;
use roguelike::screens::Action;
use roguelike::screens::Screen;

const ALL_KEYMAPS: [Keymap; 8] = [
    Keymap::Quit,
    Keymap::Help,
    Keymap::Start,
    Keymap::Up,
    Keymap::Down,
    Keymap::Left,
    Keymap::Right,
    Keymap::Unknown,
];

#[test]
fn binding_keeps_its_texts() {
    let binding = KeymapBinding::new("x", "Does a thing.");
    assert_eq!(binding.character(), "x");
    assert_eq!(binding.description(), "Does a thing.");
    assert_eq!(binding.alt_character(), None);

    let binding = KeymapBinding::new_with_alt("y", "Does another.", "F1");
    assert_eq!(binding.character(), "y");
    assert_eq!(binding.description(), "Does another.");
    assert_eq!(binding.alt_character(), Some("F1"));
}

#[test]
fn typed_characters_map_to_keymaps() {
    assert_eq!(Keymap::from_input(Input::Character('q')), Keymap::Quit);
    assert_eq!(Keymap::from_input(Input::Character('?')), Keymap::Help);
    assert_eq!(Keymap::from_input(Input::Character('n')), Keymap::Start);
    assert_eq!(Keymap::from_input(Input::Character('k')), Keymap::Up);
    assert_eq!(Keymap::from_input(Input::Character('j')), Keymap::Down);
    assert_eq!(Keymap::from_input(Input::Character('h')), Keymap::Left);
    assert_eq!(Keymap::from_input(Input::Character('l')), Keymap::Right);
    assert_eq!(Keymap::from_input(Input::Character('Q')), Keymap::Unknown);
    assert_eq!(Keymap::from_input(Input::Character(' ')), Keymap::Unknown);
}

#[test]
fn other_inputs_are_unknown() {
    assert_eq!(Keymap::from_input(Input::KeyUp), Keymap::Unknown);
    assert_eq!(Keymap::from_input(Input::KeyDown), Keymap::Unknown);
    assert_eq!(Keymap::from_input(Input::KeyResize), Keymap::Unknown);
    assert_eq!(Keymap::from_input(Input::Unknown(113)), Keymap::Unknown);
}

#[test]
fn characters_map_to_keymaps() {
    assert_eq!(Keymap::from_character(Some('q')), Keymap::Quit);
    assert_eq!(Keymap::from_character(Some('l')), Keymap::Right);
    assert_eq!(Keymap::from_character(Some('x')), Keymap::Unknown);
    assert_eq!(Keymap::from_character(None), Keymap::Unknown);
}

#[test]
fn bindings_of_the_keymaps() {
    let quit = Keymap::Quit.binding();
    assert_eq!(quit.character(), "q");
    assert_eq!(quit.description(), "Quits the game.");
    assert_eq!(quit.alt_character(), None);

    let help = Keymap::Help.binding();
    assert_eq!(help.character(), "?");
    assert_eq!(help.description(), "Brings up rules and keymaps.");

    let start = Keymap::Start.binding();
    assert_eq!(start.character(), "n");
    assert_eq!(start.description(), "Starts a new game.");

    let up = Keymap::Up.binding();
    assert_eq!(up.character(), "k");
    assert_eq!(up.description(), "Moves cursor up.");
    assert_eq!(up.alt_character(), Some("Up-Arrow"));

    let down = Keymap::Down.binding();
    assert_eq!(down.character(), "j");
    assert_eq!(down.description(), "Moves cursor down.");
    assert_eq!(down.alt_character(), Some("Down-Arrow"));

    let left = Keymap::Left.binding();
    assert_eq!(left.character(), "h");
    assert_eq!(left.description(), "Moves cursor left.");
    assert_eq!(left.alt_character(), Some("Left-Arrow"));

    let right = Keymap::Right.binding();
    assert_eq!(right.character(), "l");
    assert_eq!(right.description(), "Moves cursor right.");
    assert_eq!(right.alt_character(), Some("Right-Arrow"));

    let unknown = Keymap::Unknown.binding();
    assert_eq!(unknown.character(), "");
    assert_eq!(unknown.description(), "");
    assert_eq!(unknown.alt_character(), None);
}

#[test]
fn keys_name_their_alternative() {
    assert_eq!(Keymap::Quit.key(), "q");
    assert_eq!(Keymap::Help.key(), "?");
    assert_eq!(Keymap::Start.key(), "n");
    assert_eq!(Keymap::Up.key(), "k (Alt: Up-Arrow)");
    assert_eq!(Keymap::Down.key(), "j (Alt: Down-Arrow)");
    assert_eq!(Keymap::Left.key(), "h (Alt: Left-Arrow)");
    assert_eq!(Keymap::Right.key(), "l (Alt: Right-Arrow)");
    assert_eq!(Keymap::Unknown.key(), "");
}

#[test]
fn help_messages_describe_the_keys() {
    assert_eq!(Keymap::Quit.help_message(), "q    Quits the game.");
    assert_eq!(Keymap::Help.help_message(), "?    Brings up rules and keymaps.");
    assert_eq!(Keymap::Start.help_message(), "n    Starts a new game.");
    assert_eq!(Keymap::Up.help_message(), "k    Moves cursor up. (Alt: Up-Arrow)");
    assert_eq!(Keymap::Down.help_message(), "j    Moves cursor down. (Alt: Down-Arrow)");
    assert_eq!(Keymap::Left.help_message(), "h    Moves cursor left. (Alt: Left-Arrow)");
    assert_eq!(Keymap::Right.help_message(), "l    Moves cursor right. (Alt: Right-Arrow)");
    assert_eq!(Keymap::Unknown.help_message(), "    ");
}

#[test]
fn quitting_keeps_the_screen() {
    for screen in [Screen::Welcome, Screen::Help, Screen::Dungeon] {
        assert_eq!(next_screen(screen, Keymap::Quit), (screen, Action::Quit));
    }
}

#[test]
fn help_toggles_with_the_welcome_screen() {
    assert_eq!(next_screen(Screen::Welcome, Keymap::Help), (Screen::Help, Action::ShowHelp));
    assert_eq!(next_screen(Screen::Help, Keymap::Help), (Screen::Welcome, Action::ShowWelcome));
    assert_eq!(next_screen(Screen::Dungeon, Keymap::Help), (Screen::Welcome, Action::ShowWelcome));
}

#[test]
fn start_shows_the_dungeon() {
    assert_eq!(
        next_screen(Screen::Welcome, Keymap::Start),
        (Screen::Dungeon, Action::ShowDungeon { regenerate: false })
    );
    assert_eq!(
        next_screen(Screen::Help, Keymap::Start),
        (Screen::Dungeon, Action::ShowDungeon { regenerate: false })
    );
    assert_eq!(
        next_screen(Screen::Dungeon, Keymap::Start),
        (Screen::Dungeon, Action::ShowDungeon { regenerate: true })
    );
}

#[test]
fn other_keys_are_ignored() {
    for screen in [Screen::Welcome, Screen::Help, Screen::Dungeon] {
        for keymap in ALL_KEYMAPS.iter().skip(3) {
            assert_eq!(next_screen(screen, *keymap), (screen, Action::Ignore));
        }
    }
}

#[test]
fn centred_text_starts_at_half_the_rest() {
    assert_eq!(get_center_x_start_point("Help"), 38);
    assert_eq!(get_center_x_start_point("Keymaps"), 36);
    assert_eq!(get_center_x_start_point(""), 40);
    assert_eq!(get_center_x_start_point(&"x".repeat(79)), 0);
    assert_eq!(get_center_x_start_point(&"x".repeat(80)), 0);
    assert_eq!(get_center_x_start_point(&"x".repeat(81)), 0);
    assert_eq!(get_center_x_start_point(&"x".repeat(82)), -1);
    assert_eq!(get_center_x_start_point(&"x".repeat(83)), -1);
    assert_eq!(get_center_x_start_point("äöü"), 38);
}

#[test]
fn welcome_screen_layout() {
    let lines = welcome_screen();
    assert_eq!(lines.len(), 65);
    assert_eq!((lines[0].row, lines[0].column), (0, 0));
    assert_eq!(lines[0].content, "#".repeat(80));
    assert_eq!((lines[1].row, lines[1].column), (13, 24));
    assert_eq!(lines[1].content, "Welcome to the Rogue Like Game!");
    assert_eq!((lines[2].row, lines[2].column), (14, 16));
    assert_eq!(lines[2].content, "Created by Luke Shay - https://www.lukeshay.com/");
    assert_eq!((lines[3].row, lines[3].column), (16, 11));
    assert_eq!(
        lines[3].content,
        "Press n to start a game, ? to see the rules or q to quit."
    );
    assert_eq!((lines[4].row, lines[4].column), (29, 0));
    assert_eq!(lines[4].content, "#".repeat(80));
    for n in 0..30usize {
        let left = &lines[5 + 2 * n];
        let right = &lines[6 + 2 * n];
        assert_eq!((left.row, left.column, left.content.as_str()), (n as i32, 0, "#"));
        assert_eq!((right.row, right.column, right.content.as_str()), (n as i32, 79, "#"));
    }
}

#[test]
fn help_screen_layout() {
    let lines = help_screen();
    assert_eq!(lines.len(), 11);
    assert_eq!((lines[0].row, lines[0].column, lines[0].content.as_str()), (0, 38, "Help"));
    assert_eq!((lines[1].row, lines[1].column), (2, 2));
    assert_eq!(
        lines[1].content,
        "Here is some help information. Not sure when to put here."
    );
    assert_eq!((lines[2].row, lines[2].column), (4, 0));
    assert_eq!(lines[2].content, "-".repeat(80));
    assert_eq!((lines[3].row, lines[3].column, lines[3].content.as_str()), (5, 36, "Keymaps"));
    for (i, keymap) in ALL_KEYMAPS.iter().take(7).enumerate() {
        let line = &lines[4 + i];
        assert_eq!((line.row, line.column), (7 + i as i32, 2));
        assert_eq!(line.content, keymap.help_message());
    }
    assert_eq!(lines[7].content, "k    Moves cursor up. (Alt: Up-Arrow)");
}

#[test]
fn dungeon_screen_draws_every_space() {
    let mut config = Config::default();
    config.random_seed = Some(31);
    let mut source = RandomSource::seeded(0);
    let dungeon = Dungeon::generate(80, 29, &config, &mut source)
        .unwrap_or_else(|error| panic!("unexpected error: {:?}", error));
    let lines = dungeon_screen(&dungeon);
    assert_eq!(lines.len(), 29 * 80);
    let mut open = 0;
    for (k, line) in lines.iter().enumerate() {
        assert_eq!(line.row as usize, k / 80);
        assert_eq!(line.column as usize, k % 80);
        let expected = dungeon.map()[k / 80][k % 80].character().to_string();
        assert_eq!(line.content, expected);
        if line.content == " " {
            open += 1;
        }
    }
    assert!(open > 0);
    assert_eq!(lines[0].content, "#");
}

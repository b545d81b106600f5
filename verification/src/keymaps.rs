//! The keys of the game and what they are bound to.

use pancurses::Input;
use vstd::prelude::*;
use vstd::string::StringExecFns;

verus! {

/// A key press or terminal event as `pancurses` reports it, carried
/// through as an opaque value.
#[verifier::external_type_specification]
#[verifier::external_body]
pub struct ExInput(Input);

/// The character that an input carries: `Some` for `Input::Character`,
/// `None` for every other variant.
pub uninterp spec fn typed_character(input: Input) -> Option<char>;

/// Tells `Input::Character` from the other variants of `pancurses::Input`
/// and hands its character out.
#[verifier::external_body]
fn character_of(input: Input) -> (character: Option<char>)
    ensures
        character == typed_character(input),
{
    match input {
        Input::Character(character) => Some(character),
        _ => None,
    }
}

/// What a binding says, as text.
pub struct BindingText {
    pub character: Seq<char>,
    pub description: Seq<char>,
    pub alt_character: Option<Seq<char>>,
}

/// A key, what it does, and the other key that does the same, if any.
pub struct KeymapBinding {
    character: String,
    description: String,
    alt_character: Option<String>,
}

impl View for KeymapBinding {
    type V = BindingText;

    closed spec fn view(&self) -> BindingText {
        BindingText {
            character: self.character@,
            description: self.description@,
            alt_character: match self.alt_character {
                Some(alt) => Some(alt@),
                None => None,
            },
        }
    }
}

impl KeymapBinding {
    pub fn new(character: &str, description: &str) -> (binding: KeymapBinding)
        ensures
            binding@ == (BindingText {
                character: character@,
                description: description@,
                alt_character: None,
            }),
    {
        KeymapBinding {
            character: character.to_string(),
            description: description.to_string(),
            alt_character: None,
        }
    }

    pub fn new_with_alt(character: &str, description: &str, alt_character: &str) -> (binding:
        KeymapBinding)
        ensures
            binding@ == (BindingText {
                character: character@,
                description: description@,
                alt_character: Some(alt_character@),
            }),
    {
        KeymapBinding {
            character: character.to_string(),
            description: description.to_string(),
            alt_character: Some(alt_character.to_string()),
        }
    }

    pub fn character(&self) -> (character: &str)
        ensures
            character@ == self@.character,
    {
        self.character.as_str()
    }

    pub fn description(&self) -> (description: &str)
        ensures
            description@ == self@.description,
    {
        self.description.as_str()
    }

    pub fn alt_character(&self) -> (alt_character: Option<&str>)
        ensures
            alt_character is Some <==> self@.alt_character is Some,
            alt_character matches Some(alt) ==> Some(alt@) == self@.alt_character,
    {
        match &self.alt_character {
            Some(alt) => Some(alt.as_str()),
            None => None,
        }
    }
}

/// What a key press asks for.
#[derive(Clone, Copy, Debug, PartialEq, Eq, Structural)]
pub enum Keymap {
    Quit,
    Help,
    Start,
    Up,
    Down,
    Left,
    Right,
    Unknown,
}

/// The note that names the other key of a binding, and nothing where
/// there is none.
pub open spec fn alt_note(alt_character: Option<Seq<char>>) -> Seq<char> {
    match alt_character {
        Some(alt) => " (Alt: "@ + alt + ")"@,
        None => Seq::empty(),
    }
}

impl Keymap {
    /// The keymap of a typed character, or of anything else (`None`).
    pub open spec fn of_character(character: Option<char>) -> Keymap {
        match character {
            Some(c) => if c == 'q' {
                Keymap::Quit
            } else if c == '?' {
                Keymap::Help
            } else if c == 'n' {
                Keymap::Start
            } else if c == 'k' {
                Keymap::Up
            } else if c == 'j' {
                Keymap::Down
            } else if c == 'h' {
                Keymap::Left
            } else if c == 'l' {
                Keymap::Right
            } else {
                Keymap::Unknown
            },
            None => Keymap::Unknown,
        }
    }

    /// The binding of each keymap.
    pub open spec fn binding_text(self) -> BindingText {
        match self {
            Keymap::Quit => BindingText {
                character: "q"@,
                description: "Quits the game."@,
                alt_character: None,
            },
            Keymap::Help => BindingText {
                character: "?"@,
                description: "Brings up rules and keymaps."@,
                alt_character: None,
            },
            Keymap::Start => BindingText {
                character: "n"@,
                description: "Starts a new game."@,
                alt_character: None,
            },
            Keymap::Up => BindingText {
                character: "k"@,
                description: "Moves cursor up."@,
                alt_character: Some("Up-Arrow"@),
            },
            Keymap::Down => BindingText {
                character: "j"@,
                description: "Moves cursor down."@,
                alt_character: Some("Down-Arrow"@),
            },
            Keymap::Left => BindingText {
                character: "h"@,
                description: "Moves cursor left."@,
                alt_character: Some("Left-Arrow"@),
            },
            Keymap::Right => BindingText {
                character: "l"@,
                description: "Moves cursor right."@,
                alt_character: Some("Right-Arrow"@),
            },
            Keymap::Unknown => BindingText {
                character: ""@,
                description: ""@,
                alt_character: None,
            },
        }
    }

    /// The key of the binding, with the note on its other key.
    pub open spec fn key_text(self) -> Seq<char> {
        self.binding_text().character + alt_note(self.binding_text().alt_character)
    }

    /// The key, four spaces, the description, and the note on the other
    /// key.
    pub open spec fn help_text(self) -> Seq<char> {
        self.binding_text().character + "    "@ + self.binding_text().description + alt_note(
            self.binding_text().alt_character,
        )
    }

    /// The keymap of a typed character; `Unknown` for any other character
    /// and for no character.
    pub fn from_character(character: Option<char>) -> (keymap: Keymap)
        ensures
            keymap == Keymap::of_character(character),
    {
        match character {
            Some('q') => Keymap::Quit,
            Some('?') => Keymap::Help,
            Some('n') => Keymap::Start,
            Some('k') => Keymap::Up,
            Some('j') => Keymap::Down,
            Some('h') => Keymap::Left,
            Some('l') => Keymap::Right,
            _ => Keymap::Unknown,
        }
    }

    /// The keymap of an input: that of its character where it is a typed
    /// character, `Unknown` otherwise.
    pub fn from_input(input: Input) -> (keymap: Keymap)
        ensures
            keymap == Keymap::of_character(typed_character(input)),
    {
        Keymap::from_character(character_of(input))
    }

    pub fn binding(&self) -> (binding: KeymapBinding)
        ensures
            binding@ == self.binding_text(),
    {
        match self {
            Self::Quit => KeymapBinding::new("q", "Quits the game."),
            Self::Help => KeymapBinding::new("?", "Brings up rules and keymaps."),
            Self::Start => KeymapBinding::new("n", "Starts a new game."),
            Self::Up => KeymapBinding::new_with_alt("k", "Moves cursor up.", "Up-Arrow"),
            Self::Down => KeymapBinding::new_with_alt("j", "Moves cursor down.", "Down-Arrow"),
            Self::Left => KeymapBinding::new_with_alt("h", "Moves cursor left.", "Left-Arrow"),
            Self::Right => KeymapBinding::new_with_alt("l", "Moves cursor right.", "Right-Arrow"),
            Self::Unknown => KeymapBinding::new("", ""),
        }
    }

    pub fn key(&self) -> (message: String)
        ensures
            message@ == self.key_text(),
    {
        let binding = self.binding();
        let mut message = binding.character.clone();

        match &binding.alt_character {
            Some(character) => {
                message.append(" (Alt: ");
                message.append(character.as_str());
                message.append(")");
            },
            None => {},
        }

        message
    }

    pub fn help_message(&self) -> (message: String)
        ensures
            message@ == self.help_text(),
    {
        let binding = self.binding();
        let mut message = binding.character.clone();
        message.append("    ");
        message.append(binding.description.as_str());

        match &binding.alt_character {
            Some(character) => {
                message.append(" (Alt: ");
                message.append(character.as_str());
                message.append(")");
            },
            None => {},
        }

        message
    }
}

} // verus!

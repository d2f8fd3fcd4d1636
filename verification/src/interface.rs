//! What the user can type: commands, squares and kinds of pieces.

use vstd::prelude::*;
use vstd::string::StrSliceExecFns;
use crate::board::chesspiece::ChessPieceType;
use crate::board::layout::BoardCoordinates;

verus! {

/// Why a text was not understood.
#[derive(PartialEq, Eq, Structural, Debug, Clone, Copy)]
pub enum InputError {
    /// A square takes two characters and the text has fewer.
    TooShort,
    /// The first character is none of the column letters `A` to `H`.
    InvalidLetter(char),
    /// The second character is none of the digits `1` to `9`.
    InvalidDigit(char),
    /// Letter and digit name no square of the board.
    InvalidCoordinates,
    /// The first character names no kind of piece.
    InvalidChessPiece,
    /// The text starts with none of the commands.
    NotACommand,
    /// The text is no command, no square and no kind of piece.
    UnknownInput,
}

/// Anything that the user can type.
#[derive(PartialEq, Eq, Structural, Debug, Clone, Copy)]
pub enum GeneralInput {
    Command(CommandInput),
    Coordinates(BoardCoordinates),
    ChessPieceType(ChessPieceType),
}

/// The commands.
#[derive(PartialEq, Eq, Structural, Debug, Clone, Copy)]
pub enum CommandInput {
    Exit,
    Score,
    Back,
}

/// The column that a letter names: `A` the leftmost, `H` the rightmost.
pub open spec fn letter_column(letter: char) -> Option<int> {
    if letter == 'A' {
        Some(0)
    } else if letter == 'B' {
        Some(1)
    } else if letter == 'C' {
        Some(2)
    } else if letter == 'D' {
        Some(3)
    } else if letter == 'E' {
        Some(4)
    } else if letter == 'F' {
        Some(5)
    } else if letter == 'G' {
        Some(6)
    } else if letter == 'H' {
        Some(7)
    } else {
        None
    }
}

/// The number that a decimal digit stands for.
pub open spec fn digit_value(digit: char) -> Option<int> {
    if digit == '0' {
        Some(0)
    } else if digit == '1' {
        Some(1)
    } else if digit == '2' {
        Some(2)
    } else if digit == '3' {
        Some(3)
    } else if digit == '4' {
        Some(4)
    } else if digit == '5' {
        Some(5)
    } else if digit == '6' {
        Some(6)
    } else if digit == '7' {
        Some(7)
    } else if digit == '8' {
        Some(8)
    } else if digit == '9' {
        Some(9)
    } else {
        None
    }
}

/// The square that a text names by its first two characters: a column
/// letter, then the number of the row, counted from 1. What follows them
/// is not looked at.
pub open spec fn parsed_coordinates(text: Seq<char>) -> Result<BoardCoordinates, InputError> {
    if text.len() < 2 {
        Err(InputError::TooShort)
    } else {
        match letter_column(text[0]) {
            None => Err(InputError::InvalidLetter(text[0])),
            Some(col) => match digit_value(text[1]) {
                None => Err(InputError::InvalidDigit(text[1])),
                Some(number) => if number == 0 {
                    Err(InputError::InvalidDigit(text[1]))
                } else if number > 8 {
                    Err(InputError::InvalidCoordinates)
                } else {
                    Ok(BoardCoordinates::of_index((number - 1) * 8 + col))
                },
            },
        }
    }
}

/// The kind of piece that a letter names.
pub open spec fn letter_piece(letter: char) -> Option<ChessPieceType> {
    if letter == 'P' {
        Some(ChessPieceType::Pawn)
    } else if letter == 'B' {
        Some(ChessPieceType::Bishop)
    } else if letter == 'N' {
        Some(ChessPieceType::Knight)
    } else if letter == 'R' {
        Some(ChessPieceType::Rook)
    } else if letter == 'Q' {
        Some(ChessPieceType::Queen)
    } else if letter == 'K' {
        Some(ChessPieceType::King)
    } else {
        None
    }
}

/// The kind of piece that a text names by its first character.
pub open spec fn parsed_piece_type(text: Seq<char>) -> Result<ChessPieceType, InputError> {
    if text.len() >= 1 && letter_piece(text[0]) is Some {
        Ok(letter_piece(text[0])->0)
    } else {
        Err(InputError::InvalidChessPiece)
    }
}

/// `text` starts with the letters of `small`, each in small or in capital
/// writing; `capital` is `small` in capitals.
pub open spec fn starts_with_word(text: Seq<char>, small: Seq<char>, capital: Seq<char>) -> bool {
    &&& text.len() >= small.len()
    &&& forall|i: int|
        0 <= i < small.len() ==> #[trigger] text[i] == small[i] || text[i] == capital[i]
}

/// The command that a text starts with, whatever the case of its letters.
pub open spec fn parsed_command(text: Seq<char>) -> Result<CommandInput, InputError> {
    if starts_with_word(text, seq!['e', 'x', 'i', 't'], seq!['E', 'X', 'I', 'T']) {
        Ok(CommandInput::Exit)
    } else if starts_with_word(
        text,
        seq!['s', 'c', 'o', 'r', 'e'],
        seq!['S', 'C', 'O', 'R', 'E'],
    ) {
        Ok(CommandInput::Score)
    } else if starts_with_word(text, seq!['b', 'a', 'c', 'k'], seq!['B', 'A', 'C', 'K']) {
        Ok(CommandInput::Back)
    } else {
        Err(InputError::NotACommand)
    }
}

/// What a text means: a command if it starts with one, else a square if its
/// first two characters name one, else a kind of piece if its first
/// character names one.
pub open spec fn parsed_input(text: Seq<char>) -> Result<GeneralInput, InputError> {
    if parsed_command(text) is Ok {
        Ok(GeneralInput::Command(parsed_command(text)->Ok_0))
    } else if parsed_coordinates(text) is Ok {
        Ok(GeneralInput::Coordinates(parsed_coordinates(text)->Ok_0))
    } else if parsed_piece_type(text) is Ok {
        Ok(GeneralInput::ChessPieceType(parsed_piece_type(text)->Ok_0))
    } else {
        Err(InputError::UnknownInput)
    }
}

/// Tells whether `text` starts with the letters of `small`, in small or in
/// capital writing.
fn starts_with(text: &str, small: &str, capital: &str) -> (found: bool)
    requires
        small@.len() == capital@.len(),
    ensures
        found == starts_with_word(text@, small@, capital@),
{
    let length = small.unicode_len();
    if text.unicode_len() < length {
        return false;
    }
    let mut i: usize = 0;
    while i < length
        invariant
            i <= length,
            length == small@.len(),
            length == capital@.len(),
            length <= text@.len(),
            forall|j: int| 0 <= j < i ==> #[trigger] text@[j] == small@[j] || text@[j] == capital@[j],
        decreases length - i,
    {
        let c = text.get_char(i);
        if c != small.get_char(i) && c != capital.get_char(i) {
            return false;
        }
        i += 1;
    }
    true
}

impl CommandInput {
    /// Reads a command: see `parsed_command`.
    pub fn parse(s: &str) -> (command: Result<CommandInput, InputError>)
        ensures
            command == parsed_command(s@),
    {
        proof {
            reveal_strlit("exit");
            reveal_strlit("EXIT");
            reveal_strlit("score");
            reveal_strlit("SCORE");
            reveal_strlit("back");
            reveal_strlit("BACK");
        }
        if starts_with(s, "exit", "EXIT") {
            Ok(CommandInput::Exit)
        } else if starts_with(s, "score", "SCORE") {
            Ok(CommandInput::Score)
        } else if starts_with(s, "back", "BACK") {
            Ok(CommandInput::Back)
        } else {
            Err(InputError::NotACommand)
        }
    }
}

impl core::str::FromStr for CommandInput {
    type Err = InputError;

    fn from_str(s: &str) -> (command: Result<Self, Self::Err>)
        ensures
            command == parsed_command(s@),
    {
        CommandInput::parse(s)
    }
}

/// The column that `letter` names, if it names one.
fn column_of(letter: char) -> (col: Option<u32>)
    ensures
        col is Some <==> letter_column(letter) is Some,
        col matches Some(c) ==> letter_column(letter) == Some(c as int),
{
    if letter == 'A' {
        Some(0)
    } else if letter == 'B' {
        Some(1)
    } else if letter == 'C' {
        Some(2)
    } else if letter == 'D' {
        Some(3)
    } else if letter == 'E' {
        Some(4)
    } else if letter == 'F' {
        Some(5)
    } else if letter == 'G' {
        Some(6)
    } else if letter == 'H' {
        Some(7)
    } else {
        None
    }
}

/// The number that `digit` stands for, if it is a decimal digit.
fn value_of_digit(digit: char) -> (value: Option<u32>)
    ensures
        value is Some <==> digit_value(digit) is Some,
        value matches Some(v) ==> digit_value(digit) == Some(v as int),
{
    if digit == '0' {
        Some(0)
    } else if digit == '1' {
        Some(1)
    } else if digit == '2' {
        Some(2)
    } else if digit == '3' {
        Some(3)
    } else if digit == '4' {
        Some(4)
    } else if digit == '5' {
        Some(5)
    } else if digit == '6' {
        Some(6)
    } else if digit == '7' {
        Some(7)
    } else if digit == '8' {
        Some(8)
    } else if digit == '9' {
        Some(9)
    } else {
        None
    }
}

impl BoardCoordinates {
    /// Reads a square: see `parsed_coordinates`.
    pub fn parse(s: &str) -> (square: Result<BoardCoordinates, InputError>)
        ensures
            square == parsed_coordinates(s@),
    {
        if s.unicode_len() < 2 {
            return Err(InputError::TooShort);
        }
        let letter = s.get_char(0);
        let y = match column_of(letter) {
            Some(y) => y,
            None => {
                return Err(InputError::InvalidLetter(letter));
            },
        };
        let digit = s.get_char(1);
        let x = match value_of_digit(digit) {
            Some(number) => {
                if number == 0 {
                    return Err(InputError::InvalidDigit(digit));
                }
                number - 1
            },
            None => {
                return Err(InputError::InvalidDigit(digit));
            },
        };
        match BoardCoordinates::from_coordinates(x, y) {
            Some(coordinates) => Ok(coordinates),
            None => Err(InputError::InvalidCoordinates),
        }
    }
}

impl core::str::FromStr for BoardCoordinates {
    type Err = InputError;

    fn from_str(s: &str) -> (square: Result<Self, Self::Err>)
        ensures
            square == parsed_coordinates(s@),
    {
        BoardCoordinates::parse(s)
    }
}

impl ChessPieceType {
    /// Reads a kind of piece: see `parsed_piece_type`.
    pub fn parse(s: &str) -> (piece_type: Result<ChessPieceType, InputError>)
        ensures
            piece_type == parsed_piece_type(s@),
    {
        if s.unicode_len() < 1 {
            return Err(InputError::InvalidChessPiece);
        }
        let letter = s.get_char(0);
        if letter == 'P' {
            Ok(ChessPieceType::Pawn)
        } else if letter == 'B' {
            Ok(ChessPieceType::Bishop)
        } else if letter == 'N' {
            Ok(ChessPieceType::Knight)
        } else if letter == 'R' {
            Ok(ChessPieceType::Rook)
        } else if letter == 'Q' {
            Ok(ChessPieceType::Queen)
        } else if letter == 'K' {
            Ok(ChessPieceType::King)
        } else {
            Err(InputError::InvalidChessPiece)
        }
    }

    /// The letter that stands for this kind of piece.
    pub fn symbol(&self) -> (letter: char)
        ensures
            letter_piece(letter) == Some(*self),
    {
        match self {
            ChessPieceType::Pawn => 'P',
            ChessPieceType::Bishop => 'B',
            ChessPieceType::Knight => 'N',
            ChessPieceType::Rook => 'R',
            ChessPieceType::Queen => 'Q',
            ChessPieceType::King => 'K',
        }
    }
}

impl core::str::FromStr for ChessPieceType {
    type Err = InputError;

    fn from_str(s: &str) -> (piece_type: Result<Self, Self::Err>)
        ensures
            piece_type == parsed_piece_type(s@),
    {
        ChessPieceType::parse(s)
    }
}

impl GeneralInput {
    /// Reads what the user typed: see `parsed_input`.
    pub fn parse(s: &str) -> (input: Result<GeneralInput, InputError>)
        ensures
            input == parsed_input(s@),
    {
        if let Ok(command) = CommandInput::parse(s) {
            Ok(GeneralInput::Command(command))
        } else if let Ok(coordinates) = BoardCoordinates::parse(s) {
            Ok(GeneralInput::Coordinates(coordinates))
        } else if let Ok(chess_piece) = ChessPieceType::parse(s) {
            Ok(GeneralInput::ChessPieceType(chess_piece))
        } else {
            Err(InputError::UnknownInput)
        }
    }
}

impl core::str::FromStr for GeneralInput {
    type Err = InputError;

    fn from_str(s: &str) -> (input: Result<Self, Self::Err>)
        ensures
            input == parsed_input(s@),
    {
        GeneralInput::parse(s)
    }
}

impl From<CommandInput> for GeneralInput {
    fn from(command: CommandInput) -> (input: GeneralInput) {
        GeneralInput::Command(command)
    }
}

impl vstd::std_specs::convert::FromSpecImpl<CommandInput> for GeneralInput {
    open spec fn obeys_from_spec() -> bool {
        true
    }

    open spec fn from_spec(command: CommandInput) -> GeneralInput {
        GeneralInput::Command(command)
    }
}

} // verus!

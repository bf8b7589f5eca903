//! The character set of the Apple II text screen, into which `dfb` encodes
//! its strings.

use crate::ast::{Location, LocationView};
use crate::error::{AssemblerError, AssemblerErrorView};
use vstd::prelude::*;
use vstd::string::{StringExecFns, StrSliceExecFns};

verus! {

/// The characters of a string, in order.
pub fn chars_of(text: &str) -> (chars: Vec<char>)
    ensures
        chars@ == text@,
{
    let mut chars: Vec<char> = Vec::new();
    for c in it: text.chars()
        invariant
            it.seq() == text@,
            chars@ == it.seq().take(it.index() as int),
    {
        chars.push(c);
        assert(chars@ =~= it.seq().take(it.index() + 1));
    }
    assert(chars@ =~= text@);
    chars
}

/// How the screen shows a character.
#[derive(Clone, Copy, Debug, PartialEq, Eq, Structural)]
pub enum AppleCharacterMode {
    Normal,
    Flashing,
    Inverse,
}

/// The screen code of a character in the normal mode. Letters have one
/// code in both cases; a character that the screen lacks has none.
pub open spec fn apple_code(character: char) -> Option<u8> {
    let code = character as u32;
    if 0x20 <= code <= 0x5f {
        Some((code + 0x80) as u8)
    } else if 0x61 <= code <= 0x7a {
        Some((code + 0x60) as u8)
    } else {
        None
    }
}

/// What a mode takes off the normal code of a character.
pub open spec fn mode_offset(mode: AppleCharacterMode, code: u8) -> u8 {
    match mode {
        AppleCharacterMode::Normal => 0x00,
        AppleCharacterMode::Flashing => if code >= 0xc0 {
            0x80
        } else {
            0x40
        },
        AppleCharacterMode::Inverse => if code >= 0xc0 {
            0xc0
        } else {
            0x80
        },
    }
}

fn lookup(character: char) -> (code: Option<u8>)
    ensures
        code == apple_code(character),
{
    let code = character as u32;
    if 0x20 <= code && code <= 0x5f {
        Some((code + 0x80) as u8)
    } else if 0x61 <= code && code <= 0x7a {
        Some((code + 0x60) as u8)
    } else {
        None
    }
}

/// A byte of screen memory.
#[derive(Clone, Copy, Debug, PartialEq, Eq, Structural)]
pub struct AppleCharacter(pub u8);

impl vstd::std_specs::convert::FromSpecImpl<char> for AppleCharacter {
    open spec fn obeys_from_spec() -> bool {
        true
    }

    open spec fn from_spec(character: char) -> AppleCharacter {
        AppleCharacter(
            match apple_code(character) {
                Some(code) => code,
                None => 0xe0,
            },
        )
    }
}

impl From<char> for AppleCharacter {
    /// The normal screen code of a character; `0xe0` for one that the
    /// screen lacks.
    fn from(character: char) -> (screen: AppleCharacter) {
        AppleCharacter(
            match lookup(character) {
                Some(code) => code,
                None => 0xe0,
            },
        )
    }
}

/// The bytes of screen characters.
pub open spec fn apple_bytes(characters: Seq<AppleCharacter>) -> Seq<u8> {
    Seq::new(characters.len(), |i: int| characters[i].0)
}

/// The error for a backslash that starts no escape sequence.
pub open spec fn invalid_escape_error(location: LocationView) -> AssemblerErrorView {
    AssemblerErrorView {
        message: "Invalid escape sequence"@,
        labels: seq![(location, None)],
        help: Some("Valid escape sequences are `\\n`, `\\f`, `\\i`, '\\0', '\\'"@),
    }
}

/// The error for a character that the screen lacks: it points at the
/// character, which lies `index` characters into the string literal.
pub open spec fn invalid_character_error(
    character: char,
    index: int,
    location: LocationView,
) -> AssemblerErrorView {
    AssemblerErrorView {
        message: "Character `"@ + seq![character] + "` is invalid"@,
        labels: seq![
            (
                LocationView {
                    span: ((location.span.start + index + 1) as usize)..((location.span.start
                        + index + 2) as usize),
                    file_name: location.file_name,
                },
                None,
            ),
        ],
        help: None,
    }
}

/// The byte that shows a character in a mode; none for a character that the
/// screen lacks.
pub open spec fn screen_byte(character: char, mode: AppleCharacterMode) -> Option<u8> {
    match apple_code(character) {
        Some(code) => Some((code - mode_offset(mode, code)) as u8),
        None => None,
    }
}

/// The screen bytes of the characters from `index` on, in `mode`. A
/// backslash starts an escape sequence: `\n`, `\f` and `\i` switch to the
/// normal, the flashing and the inverse mode, `\0` is a zero byte, and `\"`
/// and `\\` are the quote and the backslash themselves.
pub open spec fn encode_from(
    characters: Seq<char>,
    index: int,
    mode: AppleCharacterMode,
    location: LocationView,
) -> Result<Seq<u8>, AssemblerErrorView>
    decreases characters.len() - index,
{
    if index < 0 || index >= characters.len() {
        Ok(Seq::empty())
    } else if characters[index] == '\\' {
        if index + 1 >= characters.len() {
            Err(invalid_escape_error(location))
        } else {
            let escape = characters[index + 1];
            if escape == '"' || escape == '\\' {
                match screen_byte(escape, mode) {
                    Some(byte) => prepend(
                        seq![byte],
                        encode_from(characters, index + 2, mode, location),
                    ),
                    None => Err(invalid_character_error(escape, index, location)),
                }
            } else if escape == 'n' {
                encode_from(characters, index + 2, AppleCharacterMode::Normal, location)
            } else if escape == 'f' {
                encode_from(characters, index + 2, AppleCharacterMode::Flashing, location)
            } else if escape == 'i' {
                encode_from(characters, index + 2, AppleCharacterMode::Inverse, location)
            } else if escape == '0' {
                prepend(seq![0u8], encode_from(characters, index + 2, mode, location))
            } else {
                Err(invalid_escape_error(location))
            }
        }
    } else {
        match screen_byte(characters[index], mode) {
            Some(byte) => prepend(seq![byte], encode_from(characters, index + 1, mode, location)),
            None => Err(invalid_character_error(characters[index], index, location)),
        }
    }
}

/// Bytes before the bytes of a result; an error stays what it is.
pub open spec fn prepend(
    before: Seq<u8>,
    rest: Result<Seq<u8>, AssemblerErrorView>,
) -> Result<Seq<u8>, AssemblerErrorView> {
    match rest {
        Ok(bytes) => Ok(before + bytes),
        Err(error) => Err(error),
    }
}

proof fn lemma_prepend_twice(
    first: Seq<u8>,
    second: Seq<u8>,
    rest: Result<Seq<u8>, AssemblerErrorView>,
)
    ensures
        prepend(first, prepend(second, rest)) == prepend(first + second, rest),
{
    match rest {
        Ok(bytes) => {
            assert(first + (second + bytes) =~= (first + second) + bytes);
        },
        Err(_) => {},
    }
}

/// The screen bytes of a string, or the error in it.
pub open spec fn apple_encoding(
    characters: Seq<char>,
    location: LocationView,
) -> Result<Seq<u8>, AssemblerErrorView> {
    encode_from(characters, 0, AppleCharacterMode::Normal, location)
}

fn invalid_escape(location: &Location) -> (error: AssemblerError)
    ensures
        error.deep_view() == invalid_escape_error(location.deep_view()),
{
    AssemblerError::located(
        String::from_str("Invalid escape sequence"),
        location,
        None,
        Some(String::from_str("Valid escape sequences are `\\n`, `\\f`, `\\i`, '\\0', '\\'")),
    )
}

fn invalid_character(string: &String, index: usize, location: &Location) -> (error:
    AssemblerError)
    requires
        index < string@.len(),
        location.span.start + index + 2 <= usize::MAX,
    ensures
        error.deep_view() == invalid_character_error(
            string@[index as int],
            index as int,
            location.deep_view(),
        ),
{
    let mut message = String::from_str("Character `");
    message.append(string.as_str().substring_char(index, index + 1));
    message.append("` is invalid");
    assert(string@.subrange(index as int, index + 1) =~= seq![string@[index as int]]);
    AssemblerError::at(
        message,
        location.span.start + index + 1,
        location.span.start + index + 2,
        &location.file_name,
        None,
        None,
    )
}

/// Encodes a string literal for the screen. `string_location` is where the
/// literal stands in the source; errors point there or at a character in it.
pub fn apple_string(string: &String, string_location: Location) -> (result: Result<
    Vec<AppleCharacter>,
    AssemblerError,
>)
    requires
        string_location.span.start + string@.len() + 2 <= usize::MAX,
    ensures
        match result {
            Ok(characters) => apple_encoding(string@, string_location.deep_view()) == Ok::<
                Seq<u8>,
                AssemblerErrorView,
            >(apple_bytes(characters@)),
            Err(error) => apple_encoding(string@, string_location.deep_view()) == Err::<
                Seq<u8>,
                AssemblerErrorView,
            >(error.deep_view()),
        },
{
    let characters = chars_of(string.as_str());
    let ghost location = string_location.deep_view();
    let mut mode = AppleCharacterMode::Normal;
    let mut bytes: Vec<AppleCharacter> = Vec::new();
    let mut index: usize = 0;
    assert(apple_bytes(bytes@) =~= Seq::empty());
    while index < characters.len()
        invariant
            index <= characters.len(),
            characters@ == string@,
            location == string_location.deep_view(),
            string_location.span.start + string@.len() + 2 <= usize::MAX,
            apple_encoding(string@, location) == prepend(
                apple_bytes(bytes@),
                encode_from(characters@, index as int, mode, location),
            ),
        decreases characters.len() - index,
    {
        let ghost before = apple_bytes(bytes@);
        let at = index;
        let mut character = characters[index];
        index += 1;
        if character == '\\' {
            if index >= characters.len() {
                return Err(invalid_escape(&string_location));
            }
            let escape = characters[index];
            index += 1;
            if escape == '"' || escape == '\\' {
                character = escape;
            } else if escape == 'n' {
                mode = AppleCharacterMode::Normal;
                continue ;
            } else if escape == 'f' {
                mode = AppleCharacterMode::Flashing;
                continue ;
            } else if escape == 'i' {
                mode = AppleCharacterMode::Inverse;
                continue ;
            } else if escape == '0' {
                bytes.push(AppleCharacter(0x00));
                assert(apple_bytes(bytes@) =~= before + seq![0u8]);
                proof {
                    lemma_prepend_twice(
                        before,
                        seq![0u8],
                        encode_from(characters@, index as int, mode, location),
                    );
                }
                continue ;
            } else {
                return Err(invalid_escape(&string_location));
            }
        }
        match lookup(character) {
            Some(code) => {
                let offset: u8 = match mode {
                    AppleCharacterMode::Normal => 0x00,
                    AppleCharacterMode::Flashing => if code >= 0xc0 {
                        0x80
                    } else {
                        0x40
                    },
                    AppleCharacterMode::Inverse => if code >= 0xc0 {
                        0xc0
                    } else {
                        0x80
                    },
                };
                bytes.push(AppleCharacter(code - offset));
                assert(apple_bytes(bytes@) =~= before + seq![(code - offset) as u8]);
                proof {
                    lemma_prepend_twice(
                        before,
                        seq![(code - offset) as u8],
                        encode_from(characters@, index as int, mode, location),
                    );
                }
            },
            None => {
                return Err(invalid_character(string, at, &string_location));
            },
        }
    }
    assert(apple_bytes(bytes@) + Seq::<u8>::empty() =~= apple_bytes(bytes@));
    Ok(bytes)
}

} // verus!

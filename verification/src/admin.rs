//! The operator's commands: what a line of words asks for, and what is
//! wrong with a line that asks for nothing.

use crate::codec::all_digits;
use crate::codec::is_digit;
use crate::codec::lemma_digit_value;
use crate::codec::same_text;
use crate::codec::to_chars;
use crate::codec::value;
use vstd::prelude::*;

verus! {

/// What the operator asks for.
#[derive(Clone, Copy, Debug, PartialEq, Eq, Structural)]
pub enum Command {
    /// Show the list of commands.
    Help,
    /// Put the entity `id` on the block `(x, y)`.
    Teleport { id: u64, x: u64, y: u64 },
    /// List the connected players.
    ListPlayers,
}

/// What is wrong with a line of words.
#[derive(Clone, Copy, Debug, PartialEq, Eq, Structural)]
pub enum CommandError {
    /// The first word names no command.
    UnknownCommand,
    /// The command does not take so many words.
    WrongArgumentCount,
    /// The word at this place, counted from 1 with the command's name, is
    /// no number.
    NotANumber(u8),
    /// The command does not know the option.
    UnknownOption,
}

/// The number that `text` writes: an optional plus sign, then one decimal
/// digit or more, that make a number of 64 bits.
pub open spec fn number_of(text: Seq<char>) -> Option<u64> {
    let digits = if text.len() > 0 && text[0] == '+' {
        text.subrange(1, text.len() as int)
    } else {
        text
    };
    if digits.len() > 0 && all_digits(digits) && value(digits) <= u64::MAX {
        Some(value(digits) as u64)
    } else {
        None
    }
}

/// What the words of a line ask for. The first word is the command's name.
pub open spec fn command_of(words: Seq<Seq<char>>) -> Result<Command, CommandError> {
    if words.len() == 0 {
        Err(CommandError::UnknownCommand)
    } else if words[0] == "help"@ {
        Ok(Command::Help)
    } else if words[0] == "tp"@ {
        if words.len() != 4 {
            Err(CommandError::WrongArgumentCount)
        } else {
            match number_of(words[1]) {
                None => Err(CommandError::NotANumber(2)),
                Some(id) => match number_of(words[2]) {
                    None => Err(CommandError::NotANumber(3)),
                    Some(x) => match number_of(words[3]) {
                        None => Err(CommandError::NotANumber(4)),
                        Some(y) => Ok(Command::Teleport { id, x, y }),
                    },
                },
            }
        }
    } else if words[0] == "list_entities"@ {
        if words.len() != 2 {
            Err(CommandError::WrongArgumentCount)
        } else if words[1] == "players"@ {
            Ok(Command::ListPlayers)
        } else {
            Err(CommandError::UnknownOption)
        }
    } else {
        Err(CommandError::UnknownCommand)
    }
}

/// The texts of a run of words.
pub open spec fn texts(words: Seq<String>) -> Seq<Seq<char>> {
    words.map_values(|w: String| w@)
}

/// Digits read so far never write more than the whole does.
proof fn lemma_value_grows(digits: Seq<char>, i: int)
    requires
        all_digits(digits),
        0 <= i <= digits.len(),
    ensures
        value(digits.take(i)) <= value(digits),
    decreases digits.len() - i,
{
    if i < digits.len() {
        lemma_value_grows(digits, i + 1);
        assert(digits.take(i + 1).drop_last() =~= digits.take(i));
        lemma_digit_value(digits[i]);
        assert(digits.take(i + 1).last() == digits[i]);
    } else {
        assert(digits.take(i) =~= digits);
    }
}

/// Reads the number that `text` writes.
pub fn parse_number(text: &str) -> (r: Option<u64>)
    ensures
        r == number_of(text@),
{
    let chars = to_chars(text);
    let len = chars.len();
    let start: usize = if len > 0 && chars[0] == '+' {
        1
    } else {
        0
    };
    let ghost digits = if start == 1 {
        text@.subrange(1, len as int)
    } else {
        text@
    };
    assert(digits =~= chars@.subrange(start as int, len as int));
    if start == len {
        return None;
    }
    let mut total: u64 = 0;
    let mut i: usize = start;
    while i < len
        invariant
            start <= i <= len,
            start < len,
            len == chars@.len(),
            chars@ == text@,
            start == 0 || start == 1,
            start == 1 <==> text@.len() > 0 && text@[0] == '+',
            digits == if start == 1 {
                text@.subrange(1, len as int)
            } else {
                text@
            },
            digits == chars@.subrange(start as int, len as int),
            all_digits(digits.take(i - start)),
            total == value(digits.take(i - start)),
        decreases len - i,
    {
        let c = chars[i];
        proof {
            assert(digits[i - start] == c);
            assert(digits.take(i - start + 1).drop_last() =~= digits.take(i - start));
            assert(digits.take(i - start + 1).last() == c);
        }
        if !(c >= '0' && c <= '9') {
            assert(!all_digits(digits)) by {
                assert(!is_digit(digits[i - start]));
            }
            return None;
        }
        let d = (c as u32 - '0' as u32) as u64;
        proof {
            assert forall|k: int| 0 <= k < i - start + 1 implies is_digit(
                #[trigger] digits.take(i - start + 1)[k],
            ) by {
                if k < i - start {
                    assert(digits.take(i - start + 1)[k] == digits.take(i - start)[k]);
                }
            }
            if total > (u64::MAX - d) / 10 {
                assert(value(digits.take(i - start + 1)) > u64::MAX);
                if all_digits(digits) {
                    lemma_value_grows(digits, i - start + 1);
                }
            }
        }
        if total > (u64::MAX - d) / 10 {
            return None;
        }
        total = total * 10 + d;
        i += 1;
    }
    assert(digits.take(len - start) =~= digits);
    Some(total)
}

/// Reads what the words of a line ask for.
pub fn parse_command(words: &Vec<String>) -> (r: Result<Command, CommandError>)
    ensures
        r == command_of(texts(words@)),
{
    if words.len() == 0 {
        return Err(CommandError::UnknownCommand);
    }
    let name = words[0].as_str();
    assert(texts(words@)[0] == words@[0]@);
    if same_text(name, "help") {
        Ok(Command::Help)
    } else if same_text(name, "tp") {
        if words.len() != 4 {
            return Err(CommandError::WrongArgumentCount);
        }
        assert(texts(words@)[1] == words@[1]@);
        assert(texts(words@)[2] == words@[2]@);
        assert(texts(words@)[3] == words@[3]@);
        let id = match parse_number(words[1].as_str()) {
            Some(id) => id,
            None => {
                return Err(CommandError::NotANumber(2));
            },
        };
        let x = match parse_number(words[2].as_str()) {
            Some(x) => x,
            None => {
                return Err(CommandError::NotANumber(3));
            },
        };
        let y = match parse_number(words[3].as_str()) {
            Some(y) => y,
            None => {
                return Err(CommandError::NotANumber(4));
            },
        };
        Ok(Command::Teleport { id, x, y })
    } else if same_text(name, "list_entities") {
        if words.len() != 2 {
            return Err(CommandError::WrongArgumentCount);
        }
        assert(texts(words@)[1] == words@[1]@);
        if same_text(words[1].as_str(), "players") {
            Ok(Command::ListPlayers)
        } else {
            Err(CommandError::UnknownOption)
        }
    } else {
        Err(CommandError::UnknownCommand)
    }
}

} // verus!

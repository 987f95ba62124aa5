//! Reading what a player has typed. Every function here looks at one line;
//! whoever talks to the player asks again when a line is turned down.

use vstd::prelude::*;
use vstd::string::StrSliceExecFns;

verus! {

/// What is left of `line` when the white space at both its ends is taken
/// away.
pub uninterp spec fn trimmed(line: Seq<char>) -> Seq<char>;

/// `str::trim` of the standard library: the slice of `line` without leading
/// and trailing white space, white space being what Unicode calls so. The
/// contract only gives that slice its name.
#[verifier::external_body]
pub(crate) fn trim(line: &str) -> (text: &str)
    ensures
        text@ == trimmed(line@),
{
    line.trim()
}

/// Whether `text` is the one letter `lower` or the one letter `upper`.
pub open spec fn is_letter(text: Seq<char>, lower: char, upper: char) -> bool {
    text.len() == 1 && (text[0] == lower || text[0] == upper)
}

/// Tell whether `line` is the one letter `lower` or the one letter `upper`.
pub fn reads_letter(line: &str, lower: char, upper: char) -> (found: bool)
    ensures
        found == is_letter(line@, lower, upper),
{
    if line.unicode_len() == 1 {
        let letter = line.get_char(0);
        letter == lower || letter == upper
    } else {
        false
    }
}

/// A value that a player can type in.
pub trait FromInput: Sized {
    /// The value that `text` stands for, if it stands for one.
    spec fn parsed(text: Seq<char>) -> Option<Self>;

    /// Read a value from the whole of `line`.
    fn from_str(line: &str) -> (value: Result<Self, ()>)
        ensures
            value == match Self::parsed(line@) {
                Some(value) => Ok::<Self, ()>(value),
                None => Err(()),
            },
    ;
}

/// The answer to a question that can be answered with yes or no.
#[derive(Debug, PartialEq, Eq, Clone, Copy, Structural)]
pub enum Answer {
    Yes,
    No,
}

impl Answer {
    pub fn yes(&self) -> (yes: bool)
        ensures
            yes == (*self == Answer::Yes),
    {
        *self == Answer::Yes
    }

    pub fn no(&self) -> (no: bool)
        ensures
            no == (*self == Answer::No),
    {
        *self == Answer::No
    }
}

impl Default for Answer {
    fn default() -> (answer: Answer)
        ensures
            answer == Answer::Yes,
    {
        Answer::Yes
    }
}

impl FromInput for Answer {
    open spec fn parsed(text: Seq<char>) -> Option<Answer> {
        if is_letter(text, 'y', 'Y') {
            Some(Answer::Yes)
        } else if is_letter(text, 'n', 'N') {
            Some(Answer::No)
        } else {
            None
        }
    }

    fn from_str(line: &str) -> (value: Result<Answer, ()>) {
        if reads_letter(line, 'y', 'Y') {
            Ok(Answer::Yes)
        } else if reads_letter(line, 'n', 'N') {
            Ok(Answer::No)
        } else {
            Err(())
        }
    }
}

impl From<Answer> for bool {
    fn from(answer: Answer) -> (yes: bool) {
        match answer {
            Answer::Yes => true,
            Answer::No => false,
        }
    }
}

impl vstd::std_specs::convert::FromSpecImpl<Answer> for bool {
    open spec fn obeys_from_spec() -> bool {
        true
    }

    open spec fn from_spec(answer: Answer) -> bool {
        answer == Answer::Yes
    }
}

/// What becomes of `text` when a value is wanted: the value that it stands
/// for, or else `error_msg`.
pub open spec fn reading<T: FromInput>(text: Seq<char>, error_msg: &'static str) -> Result<
    T,
    &'static str,
> {
    match T::parsed(text) {
        Some(value) => Ok(value),
        None => Err(error_msg),
    }
}

/// What becomes of `text` when nothing stands for `default`.
pub open spec fn reading_or_default<T: FromInput>(
    text: Seq<char>,
    default: T,
    error_msg: &'static str,
) -> Result<T, &'static str> {
    if text.len() == 0 {
        Ok(default)
    } else {
        reading(text, error_msg)
    }
}

/// Read a value from the whole of `text`. A text that stands for no value is
/// answered with `error_msg`.
pub fn read_value<T: FromInput>(text: &str, error_msg: &'static str) -> (reply: Result<
    T,
    &'static str,
>)
    ensures
        reply == reading::<T>(text@, error_msg),
{
    match T::from_str(text) {
        Ok(value) => Ok(value),
        Err(_) => Err(error_msg),
    }
}

/// Read a value as [`read_value`] does, but take the empty text for
/// `default`.
pub fn read_value_or_default<T: FromInput>(
    text: &str,
    default: T,
    error_msg: &'static str,
) -> (reply: Result<T, &'static str>)
    ensures
        reply == reading_or_default(text@, default, error_msg),
{
    if text.is_empty() {
        return Ok(default);
    }
    read_value(text, error_msg)
}

/// Read a value as [`read_value`] does and hold it against `valid`. A value
/// that `valid` turns down is answered with `validation_msg`.
pub fn read_value_validated<T: FromInput, VF: Fn(&T) -> bool>(
    text: &str,
    error_msg: &'static str,
    valid: VF,
    validation_msg: &'static str,
) -> (reply: Result<T, &'static str>)
    requires
        forall|value: T| call_requires(valid, (&value,)),
    ensures
        match T::parsed(text@) {
            Some(value) => {
                ||| reply == Ok::<T, &'static str>(value) && call_ensures(valid, (&value,), true)
                ||| reply == Err::<T, &'static str>(validation_msg) && call_ensures(
                    valid,
                    (&value,),
                    false,
                )
            },
            None => reply == Err::<T, &'static str>(error_msg),
        },
{
    match read_value::<T>(text, error_msg) {
        Ok(input) => {
            if valid(&input) {
                Ok(input)
            } else {
                Err(validation_msg)
            }
        },
        Err(message) => Err(message),
    }
}

/// Read a value from `line` without the white space around it.
pub fn ask_value<T: FromInput>(line: &str, error_msg: &'static str) -> (reply: Result<
    T,
    &'static str,
>)
    ensures
        reply == reading::<T>(trimmed(line@), error_msg),
{
    read_value(trim(line), error_msg)
}

/// Read a value from `line` without the white space around it; a line of
/// nothing but white space stands for `default`.
pub fn ask_value_or_default<T: FromInput>(
    line: &str,
    default: T,
    error_msg: &'static str,
) -> (reply: Result<T, &'static str>)
    ensures
        reply == reading_or_default(trimmed(line@), default, error_msg),
{
    read_value_or_default(trim(line), default, error_msg)
}

/// Read the answer to a yes-or-no question; an empty line means yes.
pub fn ask_yes_no(line: &str, error_msg: &'static str) -> (reply: Result<Answer, &'static str>)
    ensures
        reply == reading_or_default(trimmed(line@), Answer::Yes, error_msg),
{
    ask_value_or_default(line, Answer::default(), error_msg)
}

/// Read a value from `line` without the white space around it and hold it
/// against `valid`.
pub fn ask_value_validated<T: FromInput, VF: Fn(&T) -> bool>(
    line: &str,
    error_msg: &'static str,
    valid: VF,
    validation_msg: &'static str,
) -> (reply: Result<T, &'static str>)
    requires
        forall|value: T| call_requires(valid, (&value,)),
    ensures
        match T::parsed(trimmed(line@)) {
            Some(value) => {
                ||| reply == Ok::<T, &'static str>(value) && call_ensures(valid, (&value,), true)
                ||| reply == Err::<T, &'static str>(validation_msg) && call_ensures(
                    valid,
                    (&value,),
                    false,
                )
            },
            None => reply == Err::<T, &'static str>(error_msg),
        },
{
    read_value_validated(trim(line), error_msg, valid, validation_msg)
}

} // verus!

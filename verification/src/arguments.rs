//! The command line as a sequence of options and values, read by `lexopt`.

use vstd::prelude::*;

#[allow(unused_imports)]
use crate::error::texts;

verus! {

/// The argument reader of the `lexopt` crate.
#[verifier::external_type_specification]
#[verifier::external_body]
pub struct ExParser(lexopt::Parser);

/// The error type of the `lexopt` crate.
#[verifier::external_type_specification]
#[verifier::external_body]
pub struct ExLexoptError(lexopt::Error);

/// Where a reader stands.
pub enum ReaderState {
    /// Between two arguments.
    Open,
    /// Behind a long option that came with a value of its own, as `--name=value`.
    Attached { value: Seq<char> },
    /// Inside an argument of short options.
    Cluster,
    /// Behind the argument `--`, where no argument is an option any more.
    Literal,
}

/// The arguments that `p` has not read yet, as text.
pub uninterp spec fn unread(p: lexopt::Parser) -> Seq<Seq<char>>;

/// Where `p` stands.
pub uninterp spec fn reader_state(p: lexopt::Parser) -> ReaderState;

/// One item of a command line.
#[derive(Debug)]
pub enum Argument {
    /// A short option, as `-h`.
    Short { letter: char },
    /// A long option without its two dashes, as `help` for `--help`.
    Long { name: String },
    /// Anything else.
    Value { text: String },
}

/// `Argument` with its texts as sequences of characters.
pub enum ArgumentModel {
    Short { letter: char },
    Long { name: Seq<char> },
    Value { text: Seq<char> },
}

impl View for Argument {
    type V = ArgumentModel;

    open spec fn view(&self) -> ArgumentModel {
        match *self {
            Argument::Short { letter } => ArgumentModel::Short { letter },
            Argument::Long { name } => ArgumentModel::Long { name: name@ },
            Argument::Value { text } => ArgumentModel::Value { text: text@ },
        }
    }
}

/// Whether `arg` has the shape of an option: a dash and something behind it.
pub open spec fn is_option(arg: Seq<char>) -> bool {
    arg.len() > 1 && arg[0] == '-'
}

/// Whether `arg` has the shape of a long option: two dashes in front.
pub open spec fn is_long(arg: Seq<char>) -> bool {
    arg.len() > 1 && arg[0] == '-' && arg[1] == '-'
}

/// How many characters of `s` stand before its first `c`; all of them where it has
/// none.
pub open spec fn length_before(s: Seq<char>, c: char) -> nat
    decreases s.len(),
{
    if s.len() == 0 || s[0] == c {
        0
    } else {
        1 + length_before(s.drop_first(), c)
    }
}

/// The characters of `s` before a `c` are all of them where it has no `c`, and those
/// in front of a `c` that is put behind it.
pub(crate) proof fn lemma_length_before(s: Seq<char>, c: char, tail: Seq<char>)
    requires
        !s.contains(c),
    ensures
        length_before(s, c) == s.len(),
        length_before(s.push(c) + tail, c) == s.len(),
    decreases s.len(),
{
    if s.len() > 0 {
        let rest = s.drop_first();
        assert(s[0] != c);
        assert forall|i: int| 0 <= i < rest.len() implies rest[i] != c by {
            assert(s[i + 1] != c);
        }
        lemma_length_before(rest, c, tail);
        assert((s.push(c) + tail).drop_first() == rest.push(c) + tail);
    }
}

/// The name in a long option: what stands between its dashes and its first equals
/// sign.
pub open spec fn long_name(arg: Seq<char>) -> Seq<char> {
    arg.subrange(2, length_before(arg, '=') as int)
}

/// The value in a long option: what stands behind its first equals sign.
pub open spec fn attached_value(arg: Seq<char>) -> Option<Seq<char>> {
    let n = length_before(arg, '=') as int;
    if n < arg.len() {
        Some(arg.skip(n + 1))
    } else {
        None
    }
}

/// What a reader takes from the front of `args`, what it leaves, and where it then
/// stands.
pub open spec fn reading(args: Seq<Seq<char>>, literal: bool) -> (
    Option<ArgumentModel>,
    Seq<Seq<char>>,
    ReaderState,
)
    decreases args.len(),
{
    if args.len() == 0 {
        (
            None,
            args,
            if literal {
                ReaderState::Literal
            } else {
                ReaderState::Open
            },
        )
    } else if literal {
        (Some(ArgumentModel::Value { text: args[0] }), args.drop_first(), ReaderState::Literal)
    } else if args[0] == seq!['-', '-'] {
        reading(args.drop_first(), true)
    } else if is_long(args[0]) {
        (
            Some(ArgumentModel::Long { name: long_name(args[0]) }),
            args.drop_first(),
            match attached_value(args[0]) {
                Some(value) => ReaderState::Attached { value },
                None => ReaderState::Open,
            },
        )
    } else if is_option(args[0]) {
        (
            Some(ArgumentModel::Short { letter: args[0][1] }),
            args.drop_first(),
            ReaderState::Cluster,
        )
    } else {
        (Some(ArgumentModel::Value { text: args[0] }), args.drop_first(), ReaderState::Open)
    }
}

/// What the reader `p` takes next, what it leaves, and where it then stands, if it
/// now stands between two arguments or behind `--`.
pub open spec fn next_reading(p: lexopt::Parser) -> (
    Option<ArgumentModel>,
    Seq<Seq<char>>,
    ReaderState,
) {
    reading(unread(p), reader_state(p) == ReaderState::Literal)
}

/// The item that was read, if any, with its text as a sequence of characters.
pub open spec fn item_model(item: Option<Argument>) -> Option<ArgumentModel> {
    match item {
        Some(arg) => Some(arg@),
        None => None,
    }
}

/// Calls `lexopt::Parser::from_args`: the reader has read nothing yet of the
/// arguments it is given, the first of which is not taken for the program's name.
#[verifier::external_body]
pub(crate) fn reader_of(args: Vec<String>) -> (r: lexopt::Parser)
    ensures
        unread(r) == texts(args@),
        reader_state(r) == ReaderState::Open,
{
    lexopt::Parser::from_args(args)
}

/// Calls `lexopt::Parser::next` on a reader that stands between two arguments or
/// behind `--`, where the call does not fail. An argument `--` is skipped and makes
/// all that follow values; one that starts with two dashes is a long option, whose
/// name ends at the first equals sign; one that starts with a dash and goes on is
/// read up to its first short option; any other is a value. Invalid Unicode, which
/// no argument held as a `String` contains, would come out as replacement
/// characters.
#[verifier::external_body]
pub(crate) fn next_argument(p: &mut lexopt::Parser) -> (r: Result<Option<Argument>, lexopt::Error>)
    requires
        reader_state(*old(p)) == ReaderState::Open || reader_state(*old(p)) == ReaderState::Literal,
    ensures
        r matches Ok(item) && item_model(item) == next_reading(*old(p)).0,
        unread(*final(p)) == next_reading(*old(p)).1,
        reader_state(*final(p)) == next_reading(*old(p)).2,
{
    match p.next()? {
        None => Ok(None),
        Some(lexopt::Arg::Short(letter)) => Ok(Some(Argument::Short { letter })),
        Some(lexopt::Arg::Long(name)) => Ok(Some(Argument::Long { name: name.to_owned() })),
        Some(lexopt::Arg::Value(text)) => Ok(
            Some(Argument::Value { text: text.to_string_lossy().into_owned() }),
        ),
    }
}

/// Calls `lexopt::Parser::value` on a reader that stands behind a long option. The
/// value is the one that came with the option, else the next argument, whatever it
/// looks like; the call fails exactly where there is neither.
#[verifier::external_body]
pub(crate) fn option_value(p: &mut lexopt::Parser) -> (r: Result<String, lexopt::Error>)
    requires
        reader_state(*old(p)) == ReaderState::Open || reader_state(*old(p)) is Attached,
    ensures
        reader_state(*final(p)) == ReaderState::Open,
        match reader_state(*old(p)) {
            ReaderState::Attached { value } => {
                &&& r matches Ok(text)
                &&& text@ == value
                &&& unread(*final(p)) == unread(*old(p))
            },
            _ => if unread(*old(p)).len() > 0 {
                &&& r matches Ok(text)
                &&& text@ == unread(*old(p))[0]
                &&& unread(*final(p)) == unread(*old(p)).drop_first()
            } else {
                &&& r is Err
                &&& unread(*final(p)) == unread(*old(p))
            },
        },
{
    Ok(p.value()?.to_string_lossy().into_owned())
}

} // verus!

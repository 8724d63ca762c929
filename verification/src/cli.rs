//! The command line of the probe: its options, its subcommands and its help.

use vstd::pervasive::unreached;
use vstd::prelude::*;
use vstd::string::*;

use crate::arguments::{next_argument, option_value, reader_of, Argument};
#[allow(unused_imports)]
use crate::arguments::{
    attached_value, is_long, is_option, lemma_length_before, long_name, reader_state, reading,
    unread, ArgumentModel, ReaderState,
};
use crate::defaults::BenchDefaults;
#[allow(unused_imports)]
use crate::defaults::DefaultsModel;
use crate::error::ProbeError;
#[allow(unused_imports)]
use crate::error::{texts, ErrorModel};
use crate::numeral::parse_int;
#[allow(unused_imports)]
use crate::numeral::{law_int_is_in_range, read_int};
use crate::text::{chars_of, same_text};

verus! {

/// What the command line says, with defaults where it says nothing.
#[derive(Debug)]
pub struct CliArgs {
    pub command: String,
    pub uma: u32,
    pub friend: u32,
    pub seed: u64,
    pub build: String,
    pub deck: Option<String>,
    pub label: String,
    pub turn: i32,
    pub search_n: Option<usize>,
    pub rounds: usize,
    pub search_seed: u64,
    pub runs: usize,
}

/// `CliArgs` with its texts as sequences of characters.
#[verifier::ext_equal]
pub struct CliModel {
    pub command: Seq<char>,
    pub uma: u32,
    pub friend: u32,
    pub seed: u64,
    pub build: Seq<char>,
    pub deck: Option<Seq<char>>,
    pub label: Seq<char>,
    pub turn: i32,
    pub search_n: Option<usize>,
    pub rounds: usize,
    pub search_seed: u64,
    pub runs: usize,
}

/// The characters of an optional string.
pub open spec fn optional_text(s: Option<String>) -> Option<Seq<char>> {
    match s {
        Some(text) => Some(text@),
        None => None,
    }
}

impl View for CliArgs {
    type V = CliModel;

    open spec fn view(&self) -> CliModel {
        CliModel {
            command: self.command@,
            uma: self.uma,
            friend: self.friend,
            seed: self.seed,
            build: self.build@,
            deck: optional_text(self.deck),
            label: self.label@,
            turn: self.turn,
            search_n: self.search_n,
            rounds: self.rounds,
            search_seed: self.search_seed,
            runs: self.runs,
        }
    }
}

/// The settings of an empty command line.
pub open spec fn initial(defaults: DefaultsModel) -> CliModel {
    CliModel {
        command: Seq::empty(),
        uma: defaults.uma,
        friend: defaults.friend,
        seed: defaults.seed,
        build: "speed"@,
        deck: None,
        label: Seq::empty(),
        turn: 60,
        search_n: None,
        rounds: 1,
        search_seed: 61444,
        runs: 100,
    }
}

/// The long options.
#[derive(Clone, Copy, Debug, PartialEq, Eq, Structural)]
pub enum CliOption {
    Uma,
    Friend,
    Seed,
    Build,
    Deck,
    Label,
    Turn,
    SearchN,
    Rounds,
    SearchSeed,
    Runs,
    Help,
}

/// The option with the given name.
pub open spec fn option_named(name: Seq<char>) -> Option<CliOption> {
    if name == "uma"@ {
        Some(CliOption::Uma)
    } else if name == "friend"@ {
        Some(CliOption::Friend)
    } else if name == "seed"@ {
        Some(CliOption::Seed)
    } else if name == "build"@ {
        Some(CliOption::Build)
    } else if name == "deck"@ {
        Some(CliOption::Deck)
    } else if name == "label"@ {
        Some(CliOption::Label)
    } else if name == "turn"@ {
        Some(CliOption::Turn)
    } else if name == "search-n"@ {
        Some(CliOption::SearchN)
    } else if name == "rounds"@ {
        Some(CliOption::Rounds)
    } else if name == "search-seed"@ {
        Some(CliOption::SearchSeed)
    } else if name == "runs"@ {
        Some(CliOption::Runs)
    } else if name == "help"@ {
        Some(CliOption::Help)
    } else {
        None
    }
}

/// The integer between `lo` and `hi` that is the value of the option `name`.
pub open spec fn option_int(name: Seq<char>, value: Seq<char>, lo: int, hi: int) -> Result<
    int,
    ErrorModel,
> {
    match read_int(value, lo, hi) {
        Ok(v) => Ok(v),
        Err(fault) => Err(ErrorModel::BadValue { option: name, fault }),
    }
}

/// `acc` after the option `name` has been given `value`. The help option takes no
/// value.
pub open spec fn with_option(
    acc: CliModel,
    option: CliOption,
    name: Seq<char>,
    value: Seq<char>,
) -> Result<CliModel, ErrorModel> {
    match option {
        CliOption::Uma => match option_int(name, value, 0, u32::MAX as int) {
            Ok(v) => Ok(CliModel { uma: v as u32, ..acc }),
            Err(e) => Err(e),
        },
        CliOption::Friend => match option_int(name, value, 0, u32::MAX as int) {
            Ok(v) => Ok(CliModel { friend: v as u32, ..acc }),
            Err(e) => Err(e),
        },
        CliOption::Seed => match option_int(name, value, 0, u64::MAX as int) {
            Ok(v) => Ok(CliModel { seed: v as u64, ..acc }),
            Err(e) => Err(e),
        },
        CliOption::Build => Ok(CliModel { build: value, ..acc }),
        CliOption::Deck => Ok(CliModel { deck: Some(value), ..acc }),
        CliOption::Label => Ok(CliModel { label: value, ..acc }),
        CliOption::Turn => match option_int(name, value, i32::MIN as int, i32::MAX as int) {
            Ok(v) => Ok(CliModel { turn: v as i32, ..acc }),
            Err(e) => Err(e),
        },
        CliOption::SearchN => match option_int(name, value, 0, usize::MAX as int) {
            Ok(v) => Ok(CliModel { search_n: Some(v as usize), ..acc }),
            Err(e) => Err(e),
        },
        CliOption::Rounds => match option_int(name, value, 0, usize::MAX as int) {
            Ok(v) => Ok(CliModel { rounds: v as usize, ..acc }),
            Err(e) => Err(e),
        },
        CliOption::SearchSeed => match option_int(name, value, 0, u64::MAX as int) {
            Ok(v) => Ok(CliModel { search_seed: v as u64, ..acc }),
            Err(e) => Err(e),
        },
        CliOption::Runs => match option_int(name, value, 0, usize::MAX as int) {
            Ok(v) => Ok(CliModel { runs: v as usize, ..acc }),
            Err(e) => Err(e),
        },
        CliOption::Help => Ok(acc),
    }
}

/// What the arguments `args` make of the settings `acc`: the settings, nothing
/// where they ask for help, or what is wrong with them. With `literal`, none of the
/// arguments is an option.
pub open spec fn scan(args: Seq<Seq<char>>, literal: bool, acc: CliModel) -> Result<
    Option<CliModel>,
    ErrorModel,
>
    decreases args.len(),
{
    if args.len() == 0 {
        Ok(Some(acc))
    } else {
        let arg = args[0];
        let rest = args.drop_first();
        if !literal && arg == seq!['-', '-'] {
            scan(rest, true, acc)
        } else if literal || !is_option(arg) {
            if acc.command.len() == 0 {
                scan(rest, literal, CliModel { command: arg, ..acc })
            } else {
                Err(ErrorModel::ExtraArgument { text: arg })
            }
        } else if !is_long(arg) {
            if arg[1] == 'h' {
                Ok(None)
            } else {
                Err(ErrorModel::UnknownShort { letter: arg[1] })
            }
        } else {
            let name = long_name(arg);
            match option_named(name) {
                None => Err(ErrorModel::UnknownLong { name }),
                Some(CliOption::Help) => Ok(None),
                Some(option) => match attached_value(arg) {
                    Some(value) => match with_option(acc, option, name, value) {
                        Ok(next) => scan(rest, false, next),
                        Err(e) => Err(e),
                    },
                    None => if rest.len() == 0 {
                        Err(ErrorModel::MissingValue { option: name })
                    } else {
                        match with_option(acc, option, name, rest[0]) {
                            Ok(next) => scan(rest.drop_first(), false, next),
                            Err(e) => Err(e),
                        }
                    },
                },
            }
        }
    }
}

/// Finds the option with the given name.
pub fn find_option(name: &str) -> (r: Option<CliOption>)
    ensures
        r == option_named(name@),
{
    if same_text(name, "uma") {
        Some(CliOption::Uma)
    } else if same_text(name, "friend") {
        Some(CliOption::Friend)
    } else if same_text(name, "seed") {
        Some(CliOption::Seed)
    } else if same_text(name, "build") {
        Some(CliOption::Build)
    } else if same_text(name, "deck") {
        Some(CliOption::Deck)
    } else if same_text(name, "label") {
        Some(CliOption::Label)
    } else if same_text(name, "turn") {
        Some(CliOption::Turn)
    } else if same_text(name, "search-n") {
        Some(CliOption::SearchN)
    } else if same_text(name, "rounds") {
        Some(CliOption::Rounds)
    } else if same_text(name, "search-seed") {
        Some(CliOption::SearchSeed)
    } else if same_text(name, "runs") {
        Some(CliOption::Runs)
    } else if same_text(name, "help") {
        Some(CliOption::Help)
    } else {
        None
    }
}

/// Reads the value of the option `name` as an integer between `lo` and `hi`.
pub fn parse_value(name: &str, value: &str, lo: i64, hi: u64) -> (r: Result<i128, ProbeError>)
    requires
        lo <= 0,
    ensures
        match r {
            Ok(v) => option_int(name@, value@, lo as int, hi as int) == Ok::<int, ErrorModel>(
                v as int,
            ) && lo <= v <= hi,
            Err(e) => option_int(name@, value@, lo as int, hi as int) == Err::<int, ErrorModel>(
                e@,
            ),
        },
{
    let chars = chars_of(value);
    match parse_int(chars.as_slice(), lo, hi) {
        Ok(v) => Ok(v),
        Err(fault) => Err(ProbeError::BadValue { option: name.to_owned(), fault }),
    }
}

/// Gives the option `name` the value `value`. On a value that does not suit the
/// option the settings stay as they are.
pub fn set_option(
    args: &mut CliArgs,
    option: CliOption,
    name: &str,
    value: String,
) -> (r: Result<(), ProbeError>)
    ensures
        match r {
            Ok(_) => with_option(old(args)@, option, name@, value@) == Ok::<CliModel, ErrorModel>(
                final(args)@,
            ),
            Err(e) => with_option(old(args)@, option, name@, value@) == Err::<CliModel, ErrorModel>(
                e@,
            ) && final(args)@ == old(args)@,
        },
{
    match option {
        CliOption::Uma => match parse_value(name, value.as_str(), 0, u32::MAX as u64) {
            Ok(v) => {
                args.uma = v as u32;
            },
            Err(e) => {
                return Err(e);
            },
        },
        CliOption::Friend => match parse_value(name, value.as_str(), 0, u32::MAX as u64) {
            Ok(v) => {
                args.friend = v as u32;
            },
            Err(e) => {
                return Err(e);
            },
        },
        CliOption::Seed => match parse_value(name, value.as_str(), 0, u64::MAX) {
            Ok(v) => {
                args.seed = v as u64;
            },
            Err(e) => {
                return Err(e);
            },
        },
        CliOption::Build => {
            args.build = value;
        },
        CliOption::Deck => {
            args.deck = Some(value);
        },
        CliOption::Label => {
            args.label = value;
        },
        CliOption::Turn => match parse_value(
            name,
            value.as_str(),
            i32::MIN as i64,
            i32::MAX as u64,
        ) {
            Ok(v) => {
                args.turn = v as i32;
            },
            Err(e) => {
                return Err(e);
            },
        },
        CliOption::SearchN => match parse_value(name, value.as_str(), 0, usize::MAX as u64) {
            Ok(v) => {
                args.search_n = Some(v as usize);
            },
            Err(e) => {
                return Err(e);
            },
        },
        CliOption::Rounds => match parse_value(name, value.as_str(), 0, usize::MAX as u64) {
            Ok(v) => {
                args.rounds = v as usize;
            },
            Err(e) => {
                return Err(e);
            },
        },
        CliOption::SearchSeed => match parse_value(name, value.as_str(), 0, u64::MAX) {
            Ok(v) => {
                args.search_seed = v as u64;
            },
            Err(e) => {
                return Err(e);
            },
        },
        CliOption::Runs => match parse_value(name, value.as_str(), 0, usize::MAX as u64) {
            Ok(v) => {
                args.runs = v as usize;
            },
            Err(e) => {
                return Err(e);
            },
        },
        CliOption::Help => {},
    }
    Ok(())
}

/// What a command line asks for.
#[derive(Debug)]
pub enum Request {
    /// The help text.
    Help,
    /// A run with these settings.
    Run { args: CliArgs },
}

/// What a result of `parse_args` stands for.
pub open spec fn request_model(r: Result<Request, ProbeError>) -> Result<
    Option<CliModel>,
    ErrorModel,
> {
    match r {
        Ok(Request::Help) => Ok(None),
        Ok(Request::Run { args }) => Ok(Some(args@)),
        Err(e) => Err(e@),
    }
}

/// What a reader takes from the front of arguments is what decides how they are read.
#[verifier::spinoff_prover]
proof fn lemma_scan_step(args: Seq<Seq<char>>, literal: bool, acc: CliModel)
    ensures
        ({
            let (item, rest, state) = reading(args, literal);
            let behind = state == ReaderState::Literal;
            &&& item is Some ==> rest.len() < args.len()
            &&& match item {
                None => scan(args, literal, acc) == Ok::<Option<CliModel>, ErrorModel>(Some(acc)),
                Some(ArgumentModel::Value { text }) => {
                    &&& state == ReaderState::Open || behind
                    &&& acc.command.len() == 0 ==> scan(args, literal, acc) == scan(
                        rest,
                        behind,
                        CliModel { command: text, ..acc },
                    )
                    &&& acc.command.len() > 0 ==> scan(args, literal, acc) == Err::<
                        Option<CliModel>,
                        ErrorModel,
                    >(ErrorModel::ExtraArgument { text })
                },
                Some(ArgumentModel::Short { letter }) => scan(args, literal, acc) == (if letter
                    == 'h' {
                    Ok::<Option<CliModel>, ErrorModel>(None)
                } else {
                    Err(ErrorModel::UnknownShort { letter })
                }),
                Some(ArgumentModel::Long { name }) => match option_named(name) {
                    None => scan(args, literal, acc) == Err::<Option<CliModel>, ErrorModel>(
                        ErrorModel::UnknownLong { name },
                    ),
                    Some(CliOption::Help) => scan(args, literal, acc) == Ok::<
                        Option<CliModel>,
                        ErrorModel,
                    >(None),
                    Some(option) => match state {
                        ReaderState::Attached { value } => scan(args, literal, acc) == (
                        match with_option(acc, option, name, value) {
                            Ok(next) => scan(rest, false, next),
                            Err(e) => Err(e),
                        }),
                        ReaderState::Open => scan(args, literal, acc) == (if rest.len() == 0 {
                            Err::<Option<CliModel>, ErrorModel>(
                                ErrorModel::MissingValue { option: name },
                            )
                        } else {
                            match with_option(acc, option, name, rest[0]) {
                                Ok(next) => scan(rest.drop_first(), false, next),
                                Err(e) => Err(e),
                            }
                        }),
                        _ => false,
                    },
                },
            }
        }),
    decreases args.len(),
{
    if args.len() > 0 && !literal && args[0] == seq!['-', '-'] {
        lemma_scan_step(args.drop_first(), true, acc);
    }
}

/// Reads the arguments behind the program's name.
pub fn parse_args(args: Vec<String>, defaults: &BenchDefaults) -> (r: Result<Request, ProbeError>)
    ensures
        request_model(r) == scan(texts(args@), false, initial(defaults@)),
{
    let ghost whole = scan(texts(args@), false, initial(defaults@));
    let mut found = CliArgs {
        command: String::new(),
        uma: defaults.uma,
        friend: defaults.friend,
        seed: defaults.seed,
        build: "speed".to_owned(),
        deck: None,
        label: String::new(),
        turn: 60,
        search_n: None,
        rounds: 1,
        search_seed: 61444,
        runs: 100,
    };
    assert(found@ =~= initial(defaults@));
    let mut reader = reader_of(args);
    loop
        invariant
            whole == scan(texts(args@), false, initial(defaults@)),
            reader_state(reader) == ReaderState::Open || reader_state(reader)
                == ReaderState::Literal,
            scan(unread(reader), reader_state(reader) == ReaderState::Literal, found@) == whole,
        decreases unread(reader).len(),
    {
        let ghost acc = found@;
        proof {
            lemma_scan_step(unread(reader), reader_state(reader) == ReaderState::Literal, acc);
        }
        let item = match next_argument(&mut reader) {
            Ok(item) => item,
            Err(_) => unreached(),
        };
        match item {
            None => {
                return Ok(Request::Run { args: found });
            },
            Some(Argument::Value { text }) => {
                if !found.command.as_str().is_empty() {
                    return Err(ProbeError::ExtraArgument { text });
                }
                found.command = text;
                assert(found@ =~= (CliModel { command: text@, ..acc }));
            },
            Some(Argument::Short { letter }) => {
                if letter == 'h' {
                    return Ok(Request::Help);
                }
                return Err(ProbeError::UnknownShort { letter });
            },
            Some(Argument::Long { name }) => {
                match find_option(name.as_str()) {
                    None => {
                        return Err(ProbeError::UnknownLong { name });
                    },
                    Some(CliOption::Help) => {
                        return Ok(Request::Help);
                    },
                    Some(option) => {
                        let value = match option_value(&mut reader) {
                            Ok(value) => value,
                            Err(_) => {
                                return Err(ProbeError::MissingValue { option: name });
                            },
                        };
                        match set_option(&mut found, option, name.as_str(), value) {
                            Ok(_) => {},
                            Err(e) => {
                                return Err(e);
                            },
                        }
                    },
                }
            },
        }
    }
}

/// Whether the arguments behind `args` are taken literally, where `args` are read
/// without complaint.
pub open spec fn literal_after(args: Seq<Seq<char>>, literal: bool) -> bool
    decreases args.len(),
{
    if args.len() == 0 || literal {
        literal
    } else if args[0] == seq!['-', '-'] {
        true
    } else if is_long(args[0]) && attached_value(args[0]) is None && args.len() > 1 {
        literal_after(args.skip(2), false)
    } else {
        literal_after(args.drop_first(), false)
    }
}

/// Arguments are read from left to right: what `front` makes of the settings is
/// what `back` starts from.
pub proof fn law_arguments_are_read_in_order(
    front: Seq<Seq<char>>,
    back: Seq<Seq<char>>,
    literal: bool,
    acc: CliModel,
    middle: CliModel,
)
    requires
        scan(front, literal, acc) == Ok::<Option<CliModel>, ErrorModel>(Some(middle)),
    ensures
        scan(front + back, literal, acc) == scan(back, literal_after(front, literal), middle),
    decreases front.len(),
{
    let all = front + back;
    if front.len() == 0 {
        assert(all == back);
    } else {
        let arg = front[0];
        let rest = front.drop_first();
        assert(all[0] == arg);
        assert(all.drop_first() == rest + back);
        if !literal && arg == seq!['-', '-'] {
            law_arguments_are_read_in_order(rest, back, true, acc, middle);
        } else if literal || !is_option(arg) {
            law_arguments_are_read_in_order(
                rest,
                back,
                literal,
                CliModel { command: arg, ..acc },
                middle,
            );
        } else {
            let name = long_name(arg);
            let option = option_named(name)->Some_0;
            match attached_value(arg) {
                Some(value) => {
                    let next = with_option(acc, option, name, value)->Ok_0;
                    law_arguments_are_read_in_order(rest, back, false, next, middle);
                },
                None => {
                    let next = with_option(acc, option, name, rest[0])->Ok_0;
                    assert((rest + back)[0] == rest[0]);
                    assert((rest + back).drop_first() == rest.drop_first() + back);
                    assert(front.skip(2) == rest.drop_first());
                    law_arguments_are_read_in_order(rest.drop_first(), back, false, next, middle);
                },
            }
        }
    }
}

/// The long option `name` as an argument of its own.
pub open spec fn separate(name: Seq<char>) -> Seq<char> {
    seq!['-', '-'] + name
}

/// The long option `name` and its value in one argument.
pub open spec fn attached(name: Seq<char>, value: Seq<char>) -> Seq<char> {
    separate(name).push('=') + value
}

/// A long option without an equals sign in its name is taken apart into its name,
/// with no value or with the value put behind the sign.
proof fn lemma_long_option(name: Seq<char>, value: Seq<char>)
    requires
        name.len() > 0,
        !name.contains('='),
    ensures
        is_long(separate(name)),
        separate(name) != seq!['-', '-'],
        long_name(separate(name)) == name,
        attached_value(separate(name)) is None,
        is_long(attached(name, value)),
        attached(name, value) != seq!['-', '-'],
        long_name(attached(name, value)) == name,
        attached_value(attached(name, value)) == Some(value),
{
    let one = separate(name);
    assert forall|i: int| 0 <= i < one.len() implies one[i] != '=' by {
        if i >= 2 {
            assert(one[i] == name[i - 2]);
        }
    }
    lemma_length_before(one, '=', value);
    assert(seq!['-', '-'].len() == 2);
    assert(long_name(one) =~= name);
    assert(long_name(attached(name, value)) =~= name);
    assert(attached(name, value).skip(one.len() as int + 1) =~= value);
}

/// `--name=value` and `--name value` mean the same.
pub proof fn law_attached_value_is_separate_value(
    name: Seq<char>,
    value: Seq<char>,
    rest: Seq<Seq<char>>,
    acc: CliModel,
)
    requires
        name.len() > 0,
        !name.contains('='),
    ensures
        scan(seq![attached(name, value)] + rest, false, acc) == scan(
            seq![separate(name), value] + rest,
            false,
            acc,
        ),
{
    lemma_long_option(name, value);
    let one = seq![attached(name, value)] + rest;
    let two = seq![separate(name), value] + rest;
    assert(one[0] == attached(name, value));
    assert(one.drop_first() == rest);
    assert(two[0] == separate(name));
    assert(two.drop_first()[0] == value);
    assert(two.drop_first().drop_first() == rest);
}

/// The options have names, and none has an equals sign in it.
proof fn lemma_option_names(name: Seq<char>)
    requires
        option_named(name) is Some,
    ensures
        name.len() > 0,
        !name.contains('='),
{
    reveal_strlit("uma");
    reveal_strlit("friend");
    reveal_strlit("seed");
    reveal_strlit("build");
    reveal_strlit("deck");
    reveal_strlit("label");
    reveal_strlit("turn");
    reveal_strlit("search-n");
    reveal_strlit("rounds");
    reveal_strlit("search-seed");
    reveal_strlit("runs");
    reveal_strlit("help");
}

/// An option at the end of a command line gives its setting the value that comes
/// with it, whatever the setting was, and leaves the other settings as they were.
pub proof fn law_last_option_wins(
    args: Seq<Seq<char>>,
    acc: CliModel,
    settings: CliModel,
    name: Seq<char>,
    value: Seq<char>,
)
    requires
        scan(args, false, acc) == Ok::<Option<CliModel>, ErrorModel>(Some(settings)),
        !literal_after(args, false),
        option_named(name) is Some,
        option_named(name) != Some(CliOption::Help),
    ensures
        scan(args + seq![separate(name), value], false, acc) == (match with_option(
            settings,
            option_named(name)->Some_0,
            name,
            value,
        ) {
            Ok(next) => Ok::<Option<CliModel>, ErrorModel>(Some(next)),
            Err(e) => Err(e),
        }),
{
    let back = seq![separate(name), value];
    lemma_option_names(name);
    reveal_with_fuel(scan, 2);
    law_arguments_are_read_in_order(args, back, false, acc, settings);
    lemma_long_option(name, value);
    assert(back[0] == separate(name));
    assert(back.drop_first()[0] == value);
    assert(back.drop_first().drop_first() == Seq::<Seq<char>>::empty());
}

/// Each option goes by its own name, and by no other.
pub proof fn law_options_have_their_names()
    ensures
        option_named("uma"@) == Some(CliOption::Uma),
        option_named("friend"@) == Some(CliOption::Friend),
        option_named("seed"@) == Some(CliOption::Seed),
        option_named("build"@) == Some(CliOption::Build),
        option_named("deck"@) == Some(CliOption::Deck),
        option_named("label"@) == Some(CliOption::Label),
        option_named("turn"@) == Some(CliOption::Turn),
        option_named("search-n"@) == Some(CliOption::SearchN),
        option_named("rounds"@) == Some(CliOption::Rounds),
        option_named("search-seed"@) == Some(CliOption::SearchSeed),
        option_named("runs"@) == Some(CliOption::Runs),
        option_named("help"@) == Some(CliOption::Help),
        forall|a: Seq<char>, b: Seq<char>|
            #![trigger option_named(a), option_named(b)]
            option_named(a) is Some && option_named(a) == option_named(b) ==> a == b,
{
    reveal_strlit("uma");
    reveal_strlit("friend");
    reveal_strlit("seed");
    reveal_strlit("build");
    reveal_strlit("deck");
    reveal_strlit("label");
    reveal_strlit("turn");
    reveal_strlit("search-n");
    reveal_strlit("rounds");
    reveal_strlit("search-seed");
    reveal_strlit("runs");
    reveal_strlit("help");
    assert("uma"@.len() == 3);
    assert("seed"@[0] == 's' && "seed"@.len() == 4);
    assert("deck"@[0] == 'd' && "deck"@.len() == 4);
    assert("turn"@[0] == 't' && "turn"@.len() == 4);
    assert("runs"@[0] == 'r' && "runs"@.len() == 4);
    assert("help"@[0] == 'h' && "help"@.len() == 4);
    assert("build"@[0] == 'b' && "build"@.len() == 5);
    assert("label"@[0] == 'l' && "label"@.len() == 5);
    assert("friend"@[0] == 'f' && "friend"@.len() == 6);
    assert("rounds"@[0] == 'r' && "rounds"@.len() == 6);
    assert("search-n"@.len() == 8);
    assert("search-seed"@.len() == 11);
}

/// Options that set different things may change places.
pub proof fn law_different_options_commute(
    acc: CliModel,
    one: CliOption,
    one_name: Seq<char>,
    one_value: Seq<char>,
    two: CliOption,
    two_name: Seq<char>,
    two_value: Seq<char>,
)
    requires
        one != two,
        with_option(acc, one, one_name, one_value) is Ok,
        with_option(acc, two, two_name, two_value) is Ok,
    ensures
        with_option(
            with_option(acc, one, one_name, one_value)->Ok_0,
            two,
            two_name,
            two_value,
        ) == with_option(
            with_option(acc, two, two_name, two_value)->Ok_0,
            one,
            one_name,
            one_value,
        ),
{
}

/// A request for help is granted whatever follows it, as long as nothing in front
/// of it is wrong.
pub proof fn law_help_ends_the_reading(
    args: Seq<Seq<char>>,
    acc: CliModel,
    settings: CliModel,
    rest: Seq<Seq<char>>,
)
    requires
        scan(args, false, acc) == Ok::<Option<CliModel>, ErrorModel>(Some(settings)),
        !literal_after(args, false),
    ensures
        scan(args + (seq!["--help"@] + rest), false, acc) == Ok::<Option<CliModel>, ErrorModel>(
            None,
        ),
        scan(args + (seq!["-h"@] + rest), false, acc) == Ok::<Option<CliModel>, ErrorModel>(None),
{
    reveal_strlit("--help");
    reveal_strlit("-h");
    reveal_strlit("help");
    assert("--help"@ =~= separate("help"@));
    assert(option_named("help"@) == Some(CliOption::Help)) by {
        reveal_strlit("uma");
        reveal_strlit("friend");
        reveal_strlit("seed");
        reveal_strlit("build");
        reveal_strlit("deck");
        reveal_strlit("label");
        reveal_strlit("turn");
        reveal_strlit("search-n");
        reveal_strlit("rounds");
        reveal_strlit("search-seed");
        reveal_strlit("runs");
        assert("help"@[0] == 'h');
        assert("seed"@[0] == 's');
        assert("deck"@[0] == 'd');
        assert("turn"@[0] == 't');
        assert("runs"@[0] == 'r');
    }
    lemma_long_option("help"@, Seq::empty());
    let long = seq!["--help"@] + rest;
    let short = seq!["-h"@] + rest;
    law_arguments_are_read_in_order(args, long, false, acc, settings);
    law_arguments_are_read_in_order(args, short, false, acc, settings);
    assert(long[0] == "--help"@);
    assert(short[0] == "-h"@);
    assert("-h"@[1] == 'h');
}

/// Whether `a` and `b` agree in every setting but that of `option`, and in the
/// command.
pub open spec fn agree_but(a: CliModel, b: CliModel, option: CliOption) -> bool {
    &&& a.command == b.command
    &&& option == CliOption::Uma || a.uma == b.uma
    &&& option == CliOption::Friend || a.friend == b.friend
    &&& option == CliOption::Seed || a.seed == b.seed
    &&& option == CliOption::Build || a.build == b.build
    &&& option == CliOption::Deck || a.deck == b.deck
    &&& option == CliOption::Label || a.label == b.label
    &&& option == CliOption::Turn || a.turn == b.turn
    &&& option == CliOption::SearchN || a.search_n == b.search_n
    &&& option == CliOption::Rounds || a.rounds == b.rounds
    &&& option == CliOption::SearchSeed || a.search_seed == b.search_seed
    &&& option == CliOption::Runs || a.runs == b.runs
}

/// An option leaves every other setting alone.
pub proof fn law_option_changes_its_own_setting_only(
    acc: CliModel,
    option: CliOption,
    name: Seq<char>,
    value: Seq<char>,
)
    ensures
        with_option(acc, option, name, value) matches Ok(next) ==> agree_but(acc, next, option),
{
}

/// An option that takes a number gives its setting the number that its value denotes,
/// exactly where the value denotes a number of the type of the setting; else it is
/// refused with the reason and its name.
pub proof fn law_number_option_takes_the_number(
    acc: CliModel,
    option: CliOption,
    name: Seq<char>,
    value: Seq<char>,
)
    ensures
        match option {
            CliOption::Uma => match read_int(value, 0, 0xFFFF_FFFF) {
                Ok(v) => with_option(acc, option, name, value) matches Ok(next) && next.uma == v,
                Err(fault) => with_option(acc, option, name, value) == Err::<CliModel, ErrorModel>(
                    ErrorModel::BadValue { option: name, fault },
                ),
            },
            CliOption::Friend => match read_int(value, 0, 0xFFFF_FFFF) {
                Ok(v) => with_option(acc, option, name, value) matches Ok(next) && next.friend == v,
                Err(fault) => with_option(acc, option, name, value) == Err::<CliModel, ErrorModel>(
                    ErrorModel::BadValue { option: name, fault },
                ),
            },
            CliOption::Seed => match read_int(value, 0, 0xFFFF_FFFF_FFFF_FFFF) {
                Ok(v) => with_option(acc, option, name, value) matches Ok(next) && next.seed == v,
                Err(fault) => with_option(acc, option, name, value) == Err::<CliModel, ErrorModel>(
                    ErrorModel::BadValue { option: name, fault },
                ),
            },
            CliOption::Turn => match read_int(value, -0x8000_0000, 0x7FFF_FFFF) {
                Ok(v) => with_option(acc, option, name, value) matches Ok(next) && next.turn == v,
                Err(fault) => with_option(acc, option, name, value) == Err::<CliModel, ErrorModel>(
                    ErrorModel::BadValue { option: name, fault },
                ),
            },
            CliOption::SearchN => match read_int(value, 0, usize::MAX as int) {
                Ok(v) => {
                    &&& with_option(acc, option, name, value) matches Ok(next)
                    &&& next.search_n matches Some(n)
                    &&& n == v
                },
                Err(fault) => with_option(acc, option, name, value) == Err::<CliModel, ErrorModel>(
                    ErrorModel::BadValue { option: name, fault },
                ),
            },
            CliOption::Rounds => match read_int(value, 0, usize::MAX as int) {
                Ok(v) => with_option(acc, option, name, value) matches Ok(next) && next.rounds == v,
                Err(fault) => with_option(acc, option, name, value) == Err::<CliModel, ErrorModel>(
                    ErrorModel::BadValue { option: name, fault },
                ),
            },
            CliOption::SearchSeed => match read_int(value, 0, 0xFFFF_FFFF_FFFF_FFFF) {
                Ok(v) => with_option(acc, option, name, value) matches Ok(next)
                    && next.search_seed == v,
                Err(fault) => with_option(acc, option, name, value) == Err::<CliModel, ErrorModel>(
                    ErrorModel::BadValue { option: name, fault },
                ),
            },
            CliOption::Runs => match read_int(value, 0, usize::MAX as int) {
                Ok(v) => with_option(acc, option, name, value) matches Ok(next) && next.runs == v,
                Err(fault) => with_option(acc, option, name, value) == Err::<CliModel, ErrorModel>(
                    ErrorModel::BadValue { option: name, fault },
                ),
            },
            _ => true,
        },
{
    law_int_is_in_range(value, 0, 0xFFFF_FFFF);
    law_int_is_in_range(value, 0, 0xFFFF_FFFF_FFFF_FFFF);
    law_int_is_in_range(value, -0x8000_0000, 0x7FFF_FFFF);
    law_int_is_in_range(value, 0, usize::MAX as int);
}

/// An option that takes a text gives its setting that text, whatever it is; the help
/// option gives none.
pub proof fn law_text_option_takes_the_text(acc: CliModel, name: Seq<char>, value: Seq<char>)
    ensures
        with_option(acc, CliOption::Help, name, value) == Ok::<CliModel, ErrorModel>(acc),
        with_option(acc, CliOption::Build, name, value) matches Ok(next) && next.build == value,
        with_option(acc, CliOption::Deck, name, value) matches Ok(next) && next.deck == Some(value),
        with_option(acc, CliOption::Label, name, value) matches Ok(next) && next.label == value,
{
}

/// An empty command line names no subcommand and keeps the defaults: those of the
/// configuration, and the fixed ones.
pub proof fn law_empty_command_line(defaults: DefaultsModel)
    ensures
        scan(Seq::empty(), false, initial(defaults)) matches Ok(Some(settings)) && {
            &&& settings.command == Seq::<char>::empty()
            &&& settings.uma == defaults.uma
            &&& settings.friend == defaults.friend
            &&& settings.seed == defaults.seed
            &&& settings.build == "speed"@
            &&& settings.deck is None
            &&& settings.label == Seq::<char>::empty()
            &&& settings.turn == 60
            &&& settings.search_n is None
            &&& settings.rounds == 1
            &&& settings.search_seed == 61444
            &&& settings.runs == 100
        },
{
}

/// The first positional argument names the subcommand, a further one is refused, and
/// neither changes a setting. An argument is positional where it does not start with a
/// dash, is a dash alone, or stands behind `--`.
pub proof fn law_positional_argument_names_the_command(
    arg: Seq<char>,
    rest: Seq<Seq<char>>,
    acc: CliModel,
)
    ensures
        arg.len() < 2 || arg[0] != '-' ==> scan(seq![arg] + rest, false, acc) == (if acc.command.len()
            == 0 {
            scan(rest, false, CliModel { command: arg, ..acc })
        } else {
            Err(ErrorModel::ExtraArgument { text: arg })
        }),
        scan(seq![arg] + rest, true, acc) == (if acc.command.len() == 0 {
            scan(rest, true, CliModel { command: arg, ..acc })
        } else {
            Err(ErrorModel::ExtraArgument { text: arg })
        }),
        scan(seq![seq!['-', '-']] + rest, false, acc) == scan(rest, true, acc),
{
    let all = seq![arg] + rest;
    assert(all[0] == arg);
    assert(all.drop_first() == rest);
    let dashes = seq![seq!['-', '-']] + rest;
    assert(dashes[0] == seq!['-', '-']);
    assert(dashes.drop_first() == rest);
    if arg.len() < 2 {
        assert(arg != seq!['-', '-']) by {
            assert(seq!['-', '-'].len() == 2);
        }
    }
}

/// A long option takes the argument behind it, whatever it looks like, as its value,
/// and the rest is read with the setting so given; an unknown option is refused, and so
/// are a value that does not suit and an option at the end without one.
pub proof fn law_long_option_takes_the_next_argument(
    name: Seq<char>,
    value: Seq<char>,
    rest: Seq<Seq<char>>,
    acc: CliModel,
)
    requires
        name.len() > 0,
        !name.contains('='),
    ensures
        option_named(name) is None ==> scan(seq![separate(name), value] + rest, false, acc) == Err::<
            Option<CliModel>,
            ErrorModel,
        >(ErrorModel::UnknownLong { name }),
        option_named(name) is None ==> scan(seq![separate(name)], false, acc) == Err::<
            Option<CliModel>,
            ErrorModel,
        >(ErrorModel::UnknownLong { name }),
        option_named(name) is Some && option_named(name) != Some(CliOption::Help) ==> {
            &&& scan(seq![separate(name)], false, acc) == Err::<Option<CliModel>, ErrorModel>(
                ErrorModel::MissingValue { option: name },
            )
            &&& scan(seq![separate(name), value] + rest, false, acc) == (match with_option(
                acc,
                option_named(name)->Some_0,
                name,
                value,
            ) {
                Ok(next) => scan(rest, false, next),
                Err(e) => Err(e),
            })
        },
{
    lemma_long_option(name, value);
    let two = seq![separate(name), value] + rest;
    assert(two[0] == separate(name));
    assert(two.drop_first()[0] == value);
    assert(two.drop_first().drop_first() == rest);
    let one = seq![separate(name)];
    assert(one[0] == separate(name));
    assert(one.drop_first().len() == 0);
}

/// An argument of short options asks for help where the first is `h`, and is refused
/// with its first letter otherwise, whatever follows.
pub proof fn law_short_option_is_help_or_refused(
    letter: char,
    tail: Seq<char>,
    rest: Seq<Seq<char>>,
    acc: CliModel,
)
    requires
        letter != '-',
    ensures
        scan(seq![seq!['-', letter] + tail] + rest, false, acc) == (if letter == 'h' {
            Ok::<Option<CliModel>, ErrorModel>(None)
        } else {
            Err(ErrorModel::UnknownShort { letter })
        }),
{
    let arg = seq!['-', letter] + tail;
    let all = seq![arg] + rest;
    assert(all[0] == arg);
    assert(arg[0] == '-' && arg[1] == letter);
    assert(seq!['-', '-'][1] == '-');
}

/// What is wrong stays wrong, and help stays granted, whatever arguments follow; the
/// one exception is the value that an option at the end was missing.
pub proof fn law_first_complaint_stands(
    front: Seq<Seq<char>>,
    back: Seq<Seq<char>>,
    literal: bool,
    acc: CliModel,
)
    ensures
        scan(front, literal, acc) == Ok::<Option<CliModel>, ErrorModel>(None) ==> scan(
            front + back,
            literal,
            acc,
        ) == scan(front, literal, acc),
        (scan(front, literal, acc) matches Err(e) && !(e is MissingValue)) ==> scan(
            front + back,
            literal,
            acc,
        ) == scan(front, literal, acc),
    decreases front.len(),
{
    if front.len() > 0 {
        let all = front + back;
        let arg = front[0];
        let rest = front.drop_first();
        assert(all[0] == arg);
        assert(all.drop_first() == rest + back);
        if !literal && arg == seq!['-', '-'] {
            law_first_complaint_stands(rest, back, true, acc);
        } else if literal || !is_option(arg) {
            law_first_complaint_stands(rest, back, literal, CliModel { command: arg, ..acc });
        } else if is_long(arg) && option_named(long_name(arg)) is Some {
            let name = long_name(arg);
            let option = option_named(name)->Some_0;
            match attached_value(arg) {
                Some(value) => {
                    let next = with_option(acc, option, name, value)->Ok_0;
                    law_first_complaint_stands(rest, back, false, next);
                },
                None => {
                    if rest.len() > 0 {
                        let next = with_option(acc, option, name, rest[0])->Ok_0;
                        assert((rest + back)[0] == rest[0]);
                        assert((rest + back).drop_first() == rest.drop_first() + back);
                        law_first_complaint_stands(rest.drop_first(), back, false, next);
                    }
                },
            }
        }
    }
}

/// The model of the settings holds every setting as it is.
pub proof fn law_settings_model_is_faithful(args: CliArgs)
    ensures
        args@.command == args.command@,
        args@.uma == args.uma,
        args@.friend == args.friend,
        args@.seed == args.seed,
        args@.build == args.build@,
        args.deck is None ==> args@.deck is None,
        args.deck is Some ==> args@.deck == Some(args.deck->Some_0@),
        args@.label == args.label@,
        args@.turn == args.turn,
        args@.search_n == args.search_n,
        args@.rounds == args.rounds,
        args@.search_seed == args.search_seed,
        args@.runs == args.runs,
{
}

} // verus!

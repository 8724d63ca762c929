//! The two subcommands and their options.

use vstd::prelude::*;

use crate::cli::CliArgs;
#[allow(unused_imports)]
use crate::cli::{
    initial, law_last_option_wins, law_options_have_their_names, literal_after, option_named,
    optional_text, scan, separate, with_option, CliModel, CliOption,
};
use crate::defaults::BenchDefaults;
#[allow(unused_imports)]
use crate::defaults::DefaultsModel;
use crate::error::ProbeError;
#[allow(unused_imports)]
use crate::error::ErrorModel;
#[allow(unused_imports)]
use crate::numeral::law_decimal_is_read_back;
use crate::text::same_text;
#[allow(unused_imports)]
use crate::text::signed_decimal;

verus! {

/// Options of the subcommand `root`: the time of a search at a fixed training root.
#[derive(Debug)]
pub struct RootOpts {
    pub uma: u32,
    pub friend: u32,
    pub blue_count: [i32; 5],
    pub extra_count: [i32; 6],
    pub seed: u64,
    pub build: String,
    pub deck: Option<String>,
    pub turn: i32,
    pub rounds: usize,
    pub search_seed: u64,
    pub label: String,
}

/// Options of the subcommand `whole`: the time of whole games.
#[derive(Debug)]
pub struct WholeOpts {
    pub uma: u32,
    pub friend: u32,
    pub blue_count: [i32; 5],
    pub extra_count: [i32; 6],
    pub seed: u64,
    pub build: String,
    pub deck: Option<String>,
    pub runs: usize,
    pub label: String,
}

/// A subcommand with its options.
#[derive(Debug)]
pub enum Command {
    Root(RootOpts),
    Whole(WholeOpts),
}

/// `RootOpts` with its texts and arrays as sequences.
pub struct RootModel {
    pub uma: u32,
    pub friend: u32,
    pub blue_count: Seq<i32>,
    pub extra_count: Seq<i32>,
    pub seed: u64,
    pub build: Seq<char>,
    pub deck: Option<Seq<char>>,
    pub turn: i32,
    pub rounds: usize,
    pub search_seed: u64,
    pub label: Seq<char>,
}

/// `WholeOpts` with its texts and arrays as sequences.
pub struct WholeModel {
    pub uma: u32,
    pub friend: u32,
    pub blue_count: Seq<i32>,
    pub extra_count: Seq<i32>,
    pub seed: u64,
    pub build: Seq<char>,
    pub deck: Option<Seq<char>>,
    pub runs: usize,
    pub label: Seq<char>,
}

/// `Command` with the options in sequences.
pub enum CommandModel {
    Root(RootModel),
    Whole(WholeModel),
}

impl View for RootOpts {
    type V = RootModel;

    open spec fn view(&self) -> RootModel {
        RootModel {
            uma: self.uma,
            friend: self.friend,
            blue_count: self.blue_count@,
            extra_count: self.extra_count@,
            seed: self.seed,
            build: self.build@,
            deck: optional_text(self.deck),
            turn: self.turn,
            rounds: self.rounds,
            search_seed: self.search_seed,
            label: self.label@,
        }
    }
}

impl View for WholeOpts {
    type V = WholeModel;

    open spec fn view(&self) -> WholeModel {
        WholeModel {
            uma: self.uma,
            friend: self.friend,
            blue_count: self.blue_count@,
            extra_count: self.extra_count@,
            seed: self.seed,
            build: self.build@,
            deck: optional_text(self.deck),
            runs: self.runs,
            label: self.label@,
        }
    }
}

impl View for Command {
    type V = CommandModel;

    open spec fn view(&self) -> CommandModel {
        match *self {
            Command::Root(opts) => CommandModel::Root(opts@),
            Command::Whole(opts) => CommandModel::Whole(opts@),
        }
    }
}

/// The subcommand that the settings name. The inheritance comes from the defaults
/// alone; all else comes from the settings.
pub open spec fn command_of(args: CliModel, defaults: DefaultsModel) -> Result<
    CommandModel,
    ErrorModel,
> {
    if args.command == "root"@ {
        Ok(
            CommandModel::Root(
                RootModel {
                    uma: args.uma,
                    friend: args.friend,
                    blue_count: defaults.blue_count,
                    extra_count: defaults.extra_count,
                    seed: args.seed,
                    build: args.build,
                    deck: args.deck,
                    turn: args.turn,
                    rounds: args.rounds,
                    search_seed: args.search_seed,
                    label: args.label,
                },
            ),
        )
    } else if args.command == "whole"@ {
        Ok(
            CommandModel::Whole(
                WholeModel {
                    uma: args.uma,
                    friend: args.friend,
                    blue_count: defaults.blue_count,
                    extra_count: defaults.extra_count,
                    seed: args.seed,
                    build: args.build,
                    deck: args.deck,
                    runs: args.runs,
                    label: args.label,
                },
            ),
        )
    } else {
        Err(ErrorModel::UnknownCommand { name: args.command })
    }
}

/// Turns the settings of a command line into the subcommand they name.
pub fn select_command(args: CliArgs, defaults: &BenchDefaults) -> (r: Result<Command, ProbeError>)
    ensures
        match r {
            Ok(command) => command_of(args@, defaults@) == Ok::<CommandModel, ErrorModel>(command@),
            Err(e) => command_of(args@, defaults@) == Err::<CommandModel, ErrorModel>(e@),
        },
        r matches Ok(Command::Root(opts)) ==> {
            &&& args.command@ == "root"@
            &&& opts.uma == args.uma && opts.friend == args.friend && opts.seed == args.seed
            &&& opts.blue_count@ == defaults.blue_count@
            &&& opts.extra_count@ == defaults.extra_count@
            &&& opts.build@ == args.build@ && opts.label@ == args.label@
            &&& opts.deck == args.deck
            &&& opts.turn == args.turn && opts.rounds == args.rounds
            &&& opts.search_seed == args.search_seed
        },
        r matches Ok(Command::Whole(opts)) ==> {
            &&& args.command@ == "whole"@
            &&& opts.uma == args.uma && opts.friend == args.friend && opts.seed == args.seed
            &&& opts.blue_count@ == defaults.blue_count@
            &&& opts.extra_count@ == defaults.extra_count@
            &&& opts.build@ == args.build@ && opts.label@ == args.label@
            &&& opts.deck == args.deck
            &&& opts.runs == args.runs
        },
        r is Err <==> args.command@ != "root"@ && args.command@ != "whole"@,
{
    proof {
        reveal_strlit("root");
        reveal_strlit("whole");
        assert("root"@[0] == 'r');
        assert("whole"@[0] == 'w');
    }
    if same_text(args.command.as_str(), "root") {
        Ok(
            Command::Root(
                RootOpts {
                    uma: args.uma,
                    friend: args.friend,
                    blue_count: defaults.blue_count,
                    extra_count: defaults.extra_count,
                    seed: args.seed,
                    build: args.build,
                    deck: args.deck,
                    turn: args.turn,
                    rounds: args.rounds,
                    search_seed: args.search_seed,
                    label: args.label,
                },
            ),
        )
    } else if same_text(args.command.as_str(), "whole") {
        Ok(
            Command::Whole(
                WholeOpts {
                    uma: args.uma,
                    friend: args.friend,
                    blue_count: defaults.blue_count,
                    extra_count: defaults.extra_count,
                    seed: args.seed,
                    build: args.build,
                    deck: args.deck,
                    runs: args.runs,
                    label: args.label,
                },
            ),
        )
    } else {
        Err(ProbeError::UnknownCommand { name: args.command })
    }
}

/// A command line of nothing but a subcommand runs it with the defaults: the
/// trainee, friend card, inheritance and seed of the configuration, the build
/// `speed`, no custom deck, no label, and for `root` turn 60, one round and the search
/// seed 61444, for `whole` a hundred games.
pub proof fn law_bare_command_runs_the_defaults(defaults: DefaultsModel)
    ensures
        ({
            let settings = scan(seq!["root"@], false, initial(defaults));
            &&& settings is Ok
            &&& settings->Ok_0 is Some
            &&& command_of(settings->Ok_0->Some_0, defaults) == Ok::<CommandModel, ErrorModel>(
                CommandModel::Root(
                    RootModel {
                        uma: defaults.uma,
                        friend: defaults.friend,
                        blue_count: defaults.blue_count,
                        extra_count: defaults.extra_count,
                        seed: defaults.seed,
                        build: "speed"@,
                        deck: None,
                        turn: 60,
                        rounds: 1,
                        search_seed: 61444,
                        label: Seq::empty(),
                    },
                ),
            )
        }),
        ({
            let settings = scan(seq!["whole"@], false, initial(defaults));
            &&& settings is Ok
            &&& settings->Ok_0 is Some
            &&& command_of(settings->Ok_0->Some_0, defaults) == Ok::<CommandModel, ErrorModel>(
                CommandModel::Whole(
                    WholeModel {
                        uma: defaults.uma,
                        friend: defaults.friend,
                        blue_count: defaults.blue_count,
                        extra_count: defaults.extra_count,
                        seed: defaults.seed,
                        build: "speed"@,
                        deck: None,
                        runs: 100,
                        label: Seq::empty(),
                    },
                ),
            )
        }),
{
    reveal_strlit("root");
    reveal_strlit("whole");
    reveal_with_fuel(scan, 2);
    assert("root"@[0] == 'r');
    assert("whole"@[0] == 'w');
    assert(seq!["root"@].drop_first() == Seq::<Seq<char>>::empty());
    assert(seq!["whole"@].drop_first() == Seq::<Seq<char>>::empty());
}

/// The options of a subcommand carry the settings over: the command line that names
/// `root` gets `root` options, the one that names `whole` gets `whole` options, each
/// with the value of every setting it has, and any other gets neither.
pub proof fn law_settings_are_carried_over(args: CliModel, defaults: DefaultsModel)
    ensures
        command_of(args, defaults) matches Ok(CommandModel::Root(opts)) ==> {
            &&& args.command == "root"@
            &&& opts.uma == args.uma
            &&& opts.friend == args.friend
            &&& opts.blue_count == defaults.blue_count
            &&& opts.extra_count == defaults.extra_count
            &&& opts.seed == args.seed
            &&& opts.build == args.build
            &&& opts.deck == args.deck
            &&& opts.turn == args.turn
            &&& opts.rounds == args.rounds
            &&& opts.search_seed == args.search_seed
            &&& opts.label == args.label
        },
        command_of(args, defaults) matches Ok(CommandModel::Whole(opts)) ==> {
            &&& args.command == "whole"@
            &&& opts.uma == args.uma
            &&& opts.friend == args.friend
            &&& opts.blue_count == defaults.blue_count
            &&& opts.extra_count == defaults.extra_count
            &&& opts.seed == args.seed
            &&& opts.build == args.build
            &&& opts.deck == args.deck
            &&& opts.runs == args.runs
            &&& opts.label == args.label
        },
        command_of(args, defaults) matches Err(e) ==> {
            &&& e == (ErrorModel::UnknownCommand { name: args.command })
            &&& args.command != "root"@
            &&& args.command != "whole"@
        },
{
}

/// `root --rounds n` runs n rounds, for every n, and likewise every other option of
/// `root` that takes a number gives the options that number.
pub proof fn law_root_numbers_reach_the_options(
    defaults: DefaultsModel,
    uma: u32,
    friend: u32,
    seed: u64,
    turn: i32,
    rounds: usize,
    search_seed: u64,
)
    ensures
        command_line_root(defaults, "uma"@, uma as int).uma == uma,
        command_line_root(defaults, "friend"@, friend as int).friend == friend,
        command_line_root(defaults, "seed"@, seed as int).seed == seed,
        command_line_root(defaults, "turn"@, turn as int).turn == turn,
        command_line_root(defaults, "rounds"@, rounds as int).rounds == rounds,
        command_line_root(defaults, "search-seed"@, search_seed as int).search_seed == search_seed,
{
    law_options_have_their_names();
    lemma_root_number(defaults, "uma"@, uma as int);
    lemma_root_number(defaults, "friend"@, friend as int);
    lemma_root_number(defaults, "seed"@, seed as int);
    lemma_root_number(defaults, "turn"@, turn as int);
    lemma_root_number(defaults, "rounds"@, rounds as int);
    lemma_root_number(defaults, "search-seed"@, search_seed as int);
    law_decimal_is_read_back(uma as int, 0, u32::MAX as int);
    law_decimal_is_read_back(friend as int, 0, u32::MAX as int);
    law_decimal_is_read_back(seed as int, 0, u64::MAX as int);
    law_decimal_is_read_back(turn as int, i32::MIN as int, i32::MAX as int);
    law_decimal_is_read_back(rounds as int, 0, usize::MAX as int);
    law_decimal_is_read_back(search_seed as int, 0, u64::MAX as int);
}

/// The options that `root --name value` leads to.
pub open spec fn command_line_root(
    defaults: DefaultsModel,
    name: Seq<char>,
    value: int,
) -> RootModel {
    let line = seq!["root"@, separate(name), signed_decimal(value)];
    let settings = scan(line, false, initial(defaults))->Ok_0->Some_0;
    command_of(settings, defaults)->Ok_0->Root_0
}

/// What `root --name value` is read as.
proof fn lemma_root_number(defaults: DefaultsModel, name: Seq<char>, value: int)
    requires
        option_named(name) is Some,
        option_named(name) != Some(CliOption::Help),
    ensures
        ({
            let settings = CliModel { command: "root"@, ..initial(defaults) };
            let text = signed_decimal(value);
            let next = with_option(settings, option_named(name)->Some_0, name, text);
            next is Ok ==> command_line_root(defaults, name, value) == command_of(
                next->Ok_0,
                defaults,
            )->Ok_0->Root_0
        }),
{
    let text = signed_decimal(value);
    let acc = initial(defaults);
    let settings = CliModel { command: "root"@, ..acc };
    let first = seq!["root"@];
    assert(seq!["root"@, separate(name), text] =~= first + seq![separate(name), text]);
    assert(scan(first, false, acc) == Ok::<Option<CliModel>, ErrorModel>(Some(settings))
        && !literal_after(first, false)) by {
        reveal_strlit("root");
        reveal_with_fuel(scan, 2);
        reveal_with_fuel(literal_after, 2);
        assert("root"@[0] == 'r');
        assert(first.drop_first() == Seq::<Seq<char>>::empty());
    }
    law_last_option_wins(first, acc, settings, name, text);
}

/// The options that `whole --name value` leads to.
pub open spec fn command_line_whole(
    defaults: DefaultsModel,
    name: Seq<char>,
    value: Seq<char>,
) -> WholeModel {
    let line = seq!["whole"@, separate(name), value];
    let settings = scan(line, false, initial(defaults))->Ok_0->Some_0;
    command_of(settings, defaults)->Ok_0->Whole_0
}

/// `whole --runs n` plays n games, for every n, and likewise every other option of
/// `whole` gives the options its value, be it a number or a text.
pub proof fn law_whole_values_reach_the_options(
    defaults: DefaultsModel,
    uma: u32,
    friend: u32,
    seed: u64,
    runs: usize,
    text: Seq<char>,
)
    ensures
        command_line_whole(defaults, "uma"@, signed_decimal(uma as int)).uma == uma,
        command_line_whole(defaults, "friend"@, signed_decimal(friend as int)).friend == friend,
        command_line_whole(defaults, "seed"@, signed_decimal(seed as int)).seed == seed,
        command_line_whole(defaults, "runs"@, signed_decimal(runs as int)).runs == runs,
        command_line_whole(defaults, "build"@, text).build == text,
        command_line_whole(defaults, "deck"@, text).deck == Some(text),
        command_line_whole(defaults, "label"@, text).label == text,
{
    reveal_strlit("root");
    reveal_strlit("whole");
    assert("root"@[0] == 'r');
    assert("whole"@[0] == 'w');
    law_options_have_their_names();
    lemma_whole_value(defaults, "uma"@, signed_decimal(uma as int));
    lemma_whole_value(defaults, "friend"@, signed_decimal(friend as int));
    lemma_whole_value(defaults, "seed"@, signed_decimal(seed as int));
    lemma_whole_value(defaults, "runs"@, signed_decimal(runs as int));
    lemma_whole_value(defaults, "build"@, text);
    lemma_whole_value(defaults, "deck"@, text);
    lemma_whole_value(defaults, "label"@, text);
    law_decimal_is_read_back(uma as int, 0, u32::MAX as int);
    law_decimal_is_read_back(friend as int, 0, u32::MAX as int);
    law_decimal_is_read_back(seed as int, 0, u64::MAX as int);
    law_decimal_is_read_back(runs as int, 0, usize::MAX as int);
}

/// What `whole --name value` is read as.
proof fn lemma_whole_value(defaults: DefaultsModel, name: Seq<char>, text: Seq<char>)
    requires
        option_named(name) is Some,
        option_named(name) != Some(CliOption::Help),
    ensures
        ({
            let settings = CliModel { command: "whole"@, ..initial(defaults) };
            let next = with_option(settings, option_named(name)->Some_0, name, text);
            next is Ok ==> command_line_whole(defaults, name, text) == command_of(
                next->Ok_0,
                defaults,
            )->Ok_0->Whole_0
        }),
{
    let acc = initial(defaults);
    let settings = CliModel { command: "whole"@, ..acc };
    let first = seq!["whole"@];
    assert(seq!["whole"@, separate(name), text] =~= first + seq![separate(name), text]);
    assert(scan(first, false, acc) == Ok::<Option<CliModel>, ErrorModel>(Some(settings))
        && !literal_after(first, false)) by {
        reveal_strlit("whole");
        reveal_with_fuel(scan, 2);
        reveal_with_fuel(literal_after, 2);
        assert("whole"@[0] == 'w');
        assert(first.drop_first() == Seq::<Seq<char>>::empty());
    }
    law_last_option_wins(first, acc, settings, name, text);
}

/// The inheritance comes from the defaults, whatever the command line says.
pub proof fn law_inheritance_comes_from_the_defaults(args: CliModel, defaults: DefaultsModel)
    ensures
        match command_of(args, defaults) {
            Ok(CommandModel::Root(opts)) => opts.blue_count == defaults.blue_count
                && opts.extra_count == defaults.extra_count,
            Ok(CommandModel::Whole(opts)) => opts.blue_count == defaults.blue_count
                && opts.extra_count == defaults.extra_count,
            Err(e) => e == (ErrorModel::UnknownCommand { name: args.command }),
        },
{
}

/// The models of the options hold every option as it is.
pub proof fn law_option_models_are_faithful(root: RootOpts, whole: WholeOpts)
    ensures
        root@.uma == root.uma && root@.friend == root.friend && root@.seed == root.seed,
        root@.blue_count == root.blue_count@ && root@.extra_count == root.extra_count@,
        root@.build == root.build@ && root@.label == root.label@,
        root.deck is None ==> root@.deck is None,
        root.deck is Some ==> root@.deck == Some(root.deck->Some_0@),
        root@.turn == root.turn && root@.rounds == root.rounds,
        root@.search_seed == root.search_seed,
        whole@.uma == whole.uma && whole@.friend == whole.friend && whole@.seed == whole.seed,
        whole@.blue_count == whole.blue_count@ && whole@.extra_count == whole.extra_count@,
        whole@.build == whole.build@ && whole@.label == whole.label@,
        whole.deck is None ==> whole@.deck is None,
        whole.deck is Some ==> whole@.deck == Some(whole.deck->Some_0@),
        whole@.runs == whole.runs,
        Command::Root(root)@ == CommandModel::Root(root@),
        Command::Whole(whole)@ == CommandModel::Whole(whole@),
{
}

} // verus!

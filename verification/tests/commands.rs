use perf_probe::cli::{find_option, parse_args, parse_value, set_option, CliArgs, CliOption, Request};
use perf_probe::command::{select_command, Command};
use perf_probe::defaults::BenchDefaults;
use perf_probe::error::ProbeError;
use perf_probe::help::help_text;
use perf_probe::numeral::IntFault;

fn read(args: &[&str]) -> Result<Request, ProbeError> {
    let list: Vec<String> = args.iter().map(|s| s.to_string()).collect();
    parse_args(list, &BenchDefaults::default())
}

fn settings(args: &[&str]) -> CliArgs {
    match read(args) {
        Ok(Request::Run { args }) => args,
        other => panic!("{other:?}"),
    }
}

fn failure(args: &[&str]) -> ProbeError {
    match read(args) {
        Err(e) => e,
        other => panic!("{other:?}"),
    }
}

#[test]
fn empty_command_line_keeps_the_defaults() {
    let s = settings(&[]);
    assert_eq!(s.command, "");
    assert_eq!((s.uma, s.friend, s.seed), (102601, 303054, 61444));
    assert_eq!(s.build, "speed");
    assert_eq!(s.deck, None);
    assert_eq!(s.label, "");
    assert_eq!((s.turn, s.search_n, s.rounds, s.search_seed, s.runs), (60, None, 1, 61444, 100));
}

#[test]
fn root_with_turn_and_rounds() {
    let s = settings(&["root", "--turn", "60", "--rounds", "3"]);
    assert_eq!(s.command, "root");
    assert_eq!((s.turn, s.rounds), (60, 3));
}

#[test]
fn whole_with_runs() {
    let s = settings(&["whole", "--runs", "100"]);
    assert_eq!(s.command, "whole");
    assert_eq!(s.runs, 100);
}

#[test]
fn every_option_sets_its_own_setting() {
    let s = settings(&[
        "--uma", "1", "--friend", "2", "--seed", "3", "--build", "power", "--deck", "1,2,3,4,5",
        "--label", "v1.2", "--turn", "-4", "--search-n", "5", "--rounds", "6", "--search-seed", "7",
        "--runs", "8", "root",
    ]);
    assert_eq!(s.command, "root");
    assert_eq!((s.uma, s.friend, s.seed), (1, 2, 3));
    assert_eq!((s.build.as_str(), s.deck.as_deref(), s.label.as_str()), ("power", Some("1,2,3,4,5"), "v1.2"));
    assert_eq!((s.turn, s.search_n, s.rounds, s.search_seed, s.runs), (-4, Some(5), 6, 7, 8));
}

#[test]
fn attached_and_separate_values_mean_the_same() {
    let a = settings(&["--turn=32", "--label=a=b", "--deck="]);
    let b = settings(&["--turn", "32", "--label", "a=b", "--deck", ""]);
    assert_eq!((a.turn, a.label, a.deck), (b.turn, b.label, b.deck));
    assert_eq!(a.turn, 32);
}

#[test]
fn last_option_wins_and_order_does_not_matter() {
    assert_eq!(settings(&["--turn", "1", "--turn", "2"]).turn, 2);
    let a = settings(&["--turn", "1", "--runs", "2"]);
    let b = settings(&["--runs", "2", "--turn", "1"]);
    assert_eq!((a.turn, a.runs), (b.turn, b.runs));
}

#[test]
fn values_may_look_like_options() {
    let s = settings(&["--label", "--help", "--build", "--"]);
    assert_eq!((s.label.as_str(), s.build.as_str()), ("--help", "--"));
}

#[test]
fn double_dash_ends_the_options() {
    let s = settings(&["--turn", "5", "--", "--turn"]);
    assert_eq!(s.command, "--turn");
    assert_eq!(s.turn, 5);
    assert_eq!(settings(&["--"]).command, "");
    assert_eq!(settings(&["-"]).command, "-");
}

#[test]
fn empty_positional_argument_leaves_room_for_another() {
    assert_eq!(settings(&["", "root"]).command, "root");
}

#[test]
fn help_is_granted_whatever_follows() {
    for line in [
        &["--help"][..],
        &["-h"],
        &["-hx"],
        &["root", "--help", "--nonsense"],
        &["--help=x"],
        &["--turn", "1", "-h", "a", "b", "c"],
    ] {
        assert!(matches!(read(line), Ok(Request::Help)), "{line:?}");
    }
    assert!(matches!(read(&["--nonsense", "--help"]), Err(_)));
    assert_eq!(settings(&["--", "--help"]).command, "--help");
}

#[test]
fn extra_positional_argument_is_refused() {
    let e = failure(&["root", "whole"]);
    assert!(matches!(&e, ProbeError::ExtraArgument { text } if text == "whole"));
    assert_eq!(e.message(), "多余的位置参数: \"whole\"（用法: perf_probe <root|whole> ...）");
    let e = failure(&["root", "a\"b'c"]);
    let shown = format!("{:?}", lexopt::Arg::Value("a\"b'c".into()));
    let inner = shown.strip_prefix("Value(").unwrap().strip_suffix(")").unwrap();
    assert_eq!(e.message(), format!("多余的位置参数: {inner}（用法: perf_probe <root|whole> ...）"));
}

#[test]
fn unknown_options_are_refused() {
    let e = failure(&["--turns", "5"]);
    assert!(matches!(&e, ProbeError::UnknownLong { name } if name == "turns"));
    assert_eq!(e.message(), "未知参数: Long(\"turns\")（--help 查看用法）");
    assert!(matches!(failure(&["--turns=5"]), ProbeError::UnknownLong { name } if name == "turns"));
    assert!(matches!(failure(&["--=5"]), ProbeError::UnknownLong { name } if name == ""));
    let e = failure(&["--a'b\"c"]);
    assert_eq!(
        e.message(),
        format!("未知参数: {:?}（--help 查看用法）", lexopt::Arg::Long("a'b\"c"))
    );
    let e = failure(&["-'"]);
    assert_eq!(
        e.message(),
        format!("未知参数: {:?}（--help 查看用法）", lexopt::Arg::Short('\''))
    );
    let e = failure(&["-x"]);
    assert!(matches!(&e, ProbeError::UnknownShort { letter: 'x' }));
    assert_eq!(e.message(), "未知参数: Short('x')（--help 查看用法）");
    assert!(matches!(failure(&["-5"]), ProbeError::UnknownShort { letter: '5' }));
    assert!(matches!(failure(&["-\u{8bad}h"]), ProbeError::UnknownShort { letter: '训' }));
    assert!(matches!(failure(&["-=h"]), ProbeError::UnknownShort { letter: '=' }));
}

#[test]
fn missing_values_are_refused() {
    let e = failure(&["root", "--uma"]);
    assert!(matches!(&e, ProbeError::MissingValue { option } if option == "uma"));
    assert_eq!(e.message(), "missing argument for option '--uma'");
}

#[test]
fn bad_values_are_refused() {
    let e = failure(&["--uma", "abc"]);
    assert_eq!(e.message(), "--uma: invalid digit found in string");
    for (line, wanted) in [
        (["--uma", "4294967296"], IntFault::TooLarge),
        (["--friend", ""], IntFault::Empty),
        (["--seed", "-1"], IntFault::InvalidDigit),
        (["--seed", "18446744073709551616"], IntFault::TooLarge),
        (["--turn", "-2147483649"], IntFault::TooSmall),
        (["--search-n", "x"], IntFault::InvalidDigit),
        (["--rounds", "1.5"], IntFault::InvalidDigit),
        (["--search-seed", " 1"], IntFault::InvalidDigit),
        (["--runs", "-"], IntFault::InvalidDigit),
    ] {
        match failure(&line) {
            ProbeError::BadValue { option, fault } => {
                assert_eq!(format!("--{option}"), line[0]);
                assert_eq!(fault, wanted, "{line:?}");
            }
            other => panic!("{other:?}"),
        }
    }
    assert_eq!(settings(&["--seed", "18446744073709551615"]).seed, u64::MAX);
}

#[test]
fn failed_setting_leaves_the_rest_alone() {
    let mut s = settings(&["root", "--turn", "3"]);
    assert!(set_option(&mut s, CliOption::Turn, "turn", "x".to_string()).is_err());
    assert_eq!((s.turn, s.command.as_str()), (3, "root"));
    assert!(set_option(&mut s, CliOption::Turn, "turn", "4".to_string()).is_ok());
    assert_eq!(s.turn, 4);
    assert_eq!(find_option("search-seed"), Some(CliOption::SearchSeed));
    assert_eq!(find_option("Search-Seed"), None);
    assert_eq!(parse_value("uma", "12", 0, 12).unwrap(), 12);
    assert!(parse_value("uma", "13", 0, 12).is_err());
}

#[test]
fn root_command_gets_its_options() {
    let defaults = BenchDefaults { blue_count: [1, 2, 3, 4, 5], ..BenchDefaults::default() };
    let s = settings(&["root", "--uma", "7", "--turn", "32", "--search-seed", "9", "--label", "x"]);
    match select_command(s, &defaults) {
        Ok(Command::Root(o)) => {
            assert_eq!((o.uma, o.friend, o.seed), (7, 303054, 61444));
            assert_eq!(o.blue_count, [1, 2, 3, 4, 5]);
            assert_eq!(o.extra_count, [10, 10, 20, 20, 20, 40]);
            assert_eq!((o.turn, o.rounds, o.search_seed), (32, 1, 9));
            assert_eq!((o.build.as_str(), o.deck, o.label.as_str()), ("speed", None, "x"));
        }
        other => panic!("{other:?}"),
    }
}

#[test]
fn whole_command_gets_its_options() {
    let s = settings(&["whole", "--runs", "5", "--deck", "1,2,3,4,5", "--seed", "2"]);
    match select_command(s, &BenchDefaults::default()) {
        Ok(Command::Whole(o)) => {
            assert_eq!((o.uma, o.friend, o.seed, o.runs), (102601, 303054, 2, 5));
            assert_eq!(o.blue_count, [15, 0, 0, 0, 3]);
            assert_eq!(o.deck.as_deref(), Some("1,2,3,4,5"));
        }
        other => panic!("{other:?}"),
    }
}

#[test]
fn other_commands_are_refused() {
    for name in ["", "Root", "probe"] {
        let mut s = settings(&[]);
        s.command = name.to_string();
        let e = select_command(s, &BenchDefaults::default()).unwrap_err();
        assert_eq!(e.message(), format!("未知子命令: {name:?}（可用 root / whole，--help 查看用法）"));
    }
}

#[test]
fn help_names_every_option() {
    let text = help_text();
    assert!(text.starts_with("用法: perf_probe <root|whole> [选项]\n\n  root   固定 Train 根搜索耗时"));
    assert!(text.ends_with("\n\n  --help, -h         显示本帮助"));
    for name in [
        "uma", "friend", "seed", "build", "deck", "label", "turn", "search-n", "rounds", "search-seed",
        "runs", "help",
    ] {
        assert!(find_option(name).is_some());
        assert!(text.contains(&format!("\n  --{name}")), "{name}");
    }
}

use perf_probe::command::{RootOpts, WholeOpts};
use perf_probe::error::ProbeError;
use perf_probe::numeral::IntFault;
use perf_probe::report::{
    root_info_line, root_median_line, root_position_line, root_round_line, whole_line, RootPosition,
    ScoreSummary, TimeSummary,
};
use perf_probe::search::SearchFigures;

fn root(label: &str) -> RootOpts {
    RootOpts {
        uma: 102601,
        friend: 303054,
        blue_count: [15, 0, 0, 0, 3],
        extra_count: [10, 10, 20, 20, 20, 40],
        seed: 61444,
        build: "speed".to_string(),
        deck: None,
        turn: 60,
        rounds: 3,
        search_seed: 61444,
        label: label.to_string(),
    }
}

fn figures() -> SearchFigures {
    SearchFigures {
        searched: 9216,
        best: 4,
        best_mean: format!("{:.3}", 31234.5f64),
        elapsed_ms: format!("{:.3}", 812.0f64),
    }
}

fn position(score: &str) -> RootPosition {
    RootPosition {
        turn: 60,
        candidates: 9,
        score: score.to_string(),
        group_size: "128".to_string(),
        expected_stdev: "2200".to_string(),
    }
}

fn times() -> TimeSummary {
    TimeSummary {
        mean: "2.000".to_string(),
        median: "1.500".to_string(),
        min: "1.000".to_string(),
        max: "4.000".to_string(),
        std: "0.250".to_string(),
    }
}

#[test]
fn info_line() {
    assert_eq!(
        root_info_line(&root("v1"), 1024, &[1, 2, 3, 4, 5, 303054]),
        "INFO label=v1 uma=102601 turn=60 search_n=1024 rounds=3 seed=61444 search_seed=61444 \
         deck=[1, 2, 3, 4, 5, 303054]"
    );
}

#[test]
fn position_line() {
    assert_eq!(
        root_position_line(&position("-12")),
        "INFO  根局面: turn=60 stage=Train 候选 9 个 score=-12 | group_size=128 expected_stdev=2200"
    );
}

#[test]
fn round_line() {
    assert_eq!(
        root_round_line(&root("v1"), &position("20311"), 0, &figures()),
        "ROOT label=v1 turn=60 round=1 candidates=9 searched=9216 best=4 best_mean=31234.500 \
         root_score=20311 elapsed_ms=812.000"
    );
    assert!(root_round_line(&root(""), &position("0"), 2, &figures()).starts_with("ROOT label= turn=60 round=3 "));
}

#[test]
fn median_line() {
    assert_eq!(
        root_median_line(&root("v1"), &times()),
        "ROOT_MEDIAN label=v1 turn=60 rounds=3 median_ms=1.500 mean_ms=2.000 min_ms=1.000 \
         max_ms=4.000 std_ms=0.250"
    );
}

#[test]
fn line_about_whole_games() {
    let opts = WholeOpts {
        uma: 1,
        friend: 2,
        blue_count: [0; 5],
        extra_count: [0; 6],
        seed: 3,
        build: "speed".to_string(),
        deck: None,
        runs: 100,
        label: "v1".to_string(),
    };
    let scores = ScoreSummary {
        mean: "25000.5".to_string(),
        min: "21000".to_string(),
        max: "29000".to_string(),
    };
    assert_eq!(
        whole_line(&opts, &times(), &scores),
        "WHOLE label=v1 runs=100 mean_ms=2.000 median_ms=1.500 min_ms=1.000 max_ms=4.000 \
         std_ms=0.250 score_mean=25000.5 score_min=21000 score_max=29000"
    );
}

#[test]
fn lines_fall_apart_at_their_blanks() {
    let line = root_round_line(&root("v1"), &position("1"), 0, &figures());
    let words: Vec<&str> = line.split(' ').collect();
    assert_eq!(words.len(), 10);
    assert_eq!(words[0], "ROOT");
    assert_eq!(words[1].split_once('='), Some(("label", "v1")));
    assert_eq!(words[9].split_once('='), Some(("elapsed_ms", "812.000")));
    assert!(!line.contains('\n'));
}

#[test]
fn messages_of_deck_failures() {
    let e = ProbeError::DeckSize { found: 4, text: "1,2,3,4".to_string() };
    assert_eq!(
        e.message(),
        "--deck 需要 5 个支援卡 idrank（友人可省略）或 6 个含友人，收到 4 个: 1,2,3,4"
    );
    let e = ProbeError::DeckEntry { fault: IntFault::InvalidDigit };
    assert_eq!(e.message(), "invalid digit found in string");
}

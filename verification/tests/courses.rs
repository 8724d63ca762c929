use perf_probe::command::{RootOpts, WholeOpts};
use perf_probe::report::{RootPosition, ScoreSummary, TimeSummary};
use perf_probe::root_run::{cmd_root, search_rng, RootAction, RootEvent, RootStage};
use perf_probe::search::SearchFigures;
use perf_probe::whole_run::{cmd_whole, WholeAction, WholeEvent, WholeStage};
use rand::rngs::StdRng;
use rand::SeedableRng;

fn times(base: u32) -> TimeSummary {
    TimeSummary {
        mean: format!("{base}.1"),
        median: format!("{base}.2"),
        min: format!("{base}.3"),
        max: format!("{base}.4"),
        std: format!("{base}.5"),
    }
}

/// What a run does, shows and comes to.
struct Course<A> {
    actions: Vec<A>,
    lines: Vec<String>,
    success: bool,
}

fn root_opts(rounds: usize) -> RootOpts {
    RootOpts {
        uma: 1,
        friend: 2,
        blue_count: [0; 5],
        extra_count: [0; 6],
        seed: 3,
        build: "speed".to_string(),
        deck: None,
        turn: 60,
        rounds,
        search_seed: 4,
        label: "v".to_string(),
    }
}

/// Runs `root` with searches that take `time`; `fails` says which action fails.
fn root_course(rounds: usize, time: u32, fails: Option<RootAction>) -> Course<RootAction> {
    let opts = root_opts(rounds);
    let mut actions = Vec::new();
    let mut lines = Vec::new();
    let mut stage = RootStage::Begin;
    let mut event = RootEvent::Started;
    loop {
        let step = cmd_root(&opts, 8, stage, event);
        lines.extend(step.line);
        stage = step.stage;
        match step.action {
            RootAction::Finish => return Course { actions, lines, success: true },
            RootAction::Fail => return Course { actions, lines, success: false },
            _ => actions.push(step.action),
        }
        event = if Some(step.action) == fails {
            RootEvent::Failed
        } else {
            match step.action {
                RootAction::ChooseDeck => RootEvent::DeckReady { deck: [1, 2, 3, 4, 5, 6] },
                RootAction::Walk => RootEvent::Reached {
                    root: RootPosition {
                        turn: 60,
                        candidates: 7,
                        score: "99".to_string(),
                        group_size: "16".to_string(),
                        expected_stdev: "2.5".to_string(),
                    },
                },
                RootAction::Search { round } => RootEvent::Searched {
                    figures: SearchFigures {
                        searched: 10 + round as u64,
                        best: round,
                        best_mean: "5.000".to_string(),
                        elapsed_ms: format!("{time}.000"),
                    },
                },
                _ => RootEvent::Summarized { times: times(time) },
            }
        };
    }
}

const INFO: &str =
    "INFO label=v uma=1 turn=60 search_n=8 rounds=2 seed=3 search_seed=4 deck=[1, 2, 3, 4, 5, 6]";
const POSITION: &str =
    "INFO  根局面: turn=60 stage=Train 候选 7 个 score=99 | group_size=16 expected_stdev=2.5";
const FIRST: &str = "ROOT label=v turn=60 round=1 candidates=7 searched=10 best=0 best_mean=5.000 \
                     root_score=99 elapsed_ms=3.000";
const SECOND: &str = "ROOT label=v turn=60 round=2 candidates=7 searched=11 best=1 best_mean=5.000 \
                      root_score=99 elapsed_ms=3.000";
const MEDIAN: &str = "ROOT_MEDIAN label=v turn=60 rounds=2 median_ms=3.2 mean_ms=3.1 min_ms=3.3 \
                      max_ms=3.4 std_ms=3.5";

#[test]
fn root_shows_every_round_and_sums_up_several() {
    let course = root_course(2, 3, None);
    assert!(course.success);
    assert_eq!(course.lines, [INFO, POSITION, FIRST, SECOND, MEDIAN]);
    assert_eq!(
        course.actions,
        [
            RootAction::ChooseDeck,
            RootAction::Walk,
            RootAction::Search { round: 0 },
            RootAction::Search { round: 1 },
            RootAction::Summarize,
        ]
    );
}

#[test]
fn root_of_one_round_or_none_has_no_summary() {
    let course = root_course(1, 3, None);
    assert!(course.success);
    assert_eq!(course.lines.len(), 3);
    assert_eq!(course.lines[2], FIRST);
    let course = root_course(0, 3, None);
    assert!(course.success);
    assert_eq!(course.lines.len(), 2);
}

#[test]
fn root_shows_nothing_behind_a_failure() {
    let course = root_course(2, 3, Some(RootAction::ChooseDeck));
    assert!(!course.success && course.lines.is_empty());
    let course = root_course(2, 3, Some(RootAction::Walk));
    assert!(!course.success);
    assert_eq!(course.lines, [INFO]);
    let course = root_course(2, 3, Some(RootAction::Search { round: 0 }));
    assert!(!course.success);
    assert_eq!(course.lines, [INFO, POSITION]);
    let course = root_course(2, 3, Some(RootAction::Search { round: 1 }));
    assert!(!course.success);
    assert_eq!(course.lines, [INFO, POSITION, FIRST]);
    assert_eq!(course.actions.len(), 4);
}

#[test]
fn root_repeats_itself_but_for_the_times() {
    let one = root_course(2, 3, None);
    let two = root_course(2, 8, None);
    assert_eq!(one.lines.len(), two.lines.len());
    for (a, b) in one.lines.iter().zip(&two.lines) {
        for (x, y) in a.split(' ').zip(b.split(' ')) {
            assert!(x == y || x.split_once('=').unwrap().0.ends_with("_ms"), "{x} {y}");
        }
    }
}

#[test]
fn rounds_search_with_the_search_seed_plus_the_round() {
    let opts = root_opts(3);
    for round in 0..3 {
        assert!(search_rng(&opts, round) == StdRng::seed_from_u64(4 + round as u64));
    }
    assert!(search_rng(&opts, 0) != search_rng(&opts, 1));
}

#[test]
fn unexpected_events_count_as_failures() {
    let opts = WholeOpts {
        uma: 1,
        friend: 2,
        blue_count: [0; 5],
        extra_count: [0; 6],
        seed: 3,
        build: "speed".to_string(),
        deck: None,
        runs: 2,
        label: "v".to_string(),
    };
    let step = cmd_whole(&opts, WholeStage::Games { done: 2 }, WholeEvent::Played);
    assert!(step.action == WholeAction::Fail && step.line.is_none());
    let step = cmd_whole(&opts, WholeStage::Begin, WholeEvent::Played);
    assert!(step.action == WholeAction::Fail && step.stage == WholeStage::End);
}

/// Runs `whole`; `fails` says which action fails.
fn whole_course(runs: usize, label: &str, fails: Option<WholeAction>) -> Course<WholeAction> {
    let opts = WholeOpts {
        uma: 1,
        friend: 2,
        blue_count: [0; 5],
        extra_count: [0; 6],
        seed: 3,
        build: "speed".to_string(),
        deck: None,
        runs,
        label: label.to_string(),
    };
    let mut actions = Vec::new();
    let mut lines = Vec::new();
    let mut stage = WholeStage::Begin;
    let mut event = WholeEvent::Started;
    loop {
        let step = cmd_whole(&opts, stage, event);
        lines.extend(step.line);
        stage = step.stage;
        match step.action {
            WholeAction::Finish => return Course { actions, lines, success: true },
            WholeAction::Fail => return Course { actions, lines, success: false },
            _ => actions.push(step.action),
        }
        event = if Some(step.action) == fails {
            WholeEvent::Failed
        } else {
            match step.action {
                WholeAction::ChooseDeck => WholeEvent::DeckReady,
                WholeAction::Play { .. } => WholeEvent::Played,
                _ => WholeEvent::Summarized {
                    times: times(4),
                    scores: ScoreSummary {
                        mean: "7.5".to_string(),
                        min: "5".to_string(),
                        max: "9".to_string(),
                    },
                },
            }
        };
    }
}

#[test]
fn whole_plays_every_game_and_shows_one_line() {
    let course = whole_course(2, "v", None);
    assert!(course.success);
    assert_eq!(
        course.actions,
        [
            WholeAction::ChooseDeck,
            WholeAction::Play { index: 0 },
            WholeAction::Play { index: 1 },
            WholeAction::Summarize,
        ]
    );
    assert_eq!(
        course.lines,
        ["WHOLE label=v runs=2 mean_ms=4.1 median_ms=4.2 min_ms=4.3 max_ms=4.4 std_ms=4.5 \
          score_mean=7.5 score_min=5 score_max=9"]
    );
    let course = whole_course(0, "v", None);
    assert_eq!(course.actions, [WholeAction::ChooseDeck, WholeAction::Summarize]);
    assert_eq!(course.lines.len(), 1);
    let other = whole_course(2, "w", None);
    assert_eq!(other.lines[0].replace("label=w", "label=v"), whole_course(2, "v", None).lines[0]);
}

#[test]
fn whole_shows_nothing_behind_a_failure() {
    for fails in [
        WholeAction::ChooseDeck,
        WholeAction::Play { index: 0 },
        WholeAction::Play { index: 1 },
    ] {
        let course = whole_course(2, "v", Some(fails));
        assert!(!course.success && course.lines.is_empty());
        assert_eq!(course.actions.last(), Some(&fails));
    }
}

use perf_probe::advance::{advance_to_train_root, AdvanceAction, AdvanceEvent, Stage};
use perf_probe::defaults::{
    default_blue, default_extra, default_friend, default_seed, default_uma, load_bench_defaults,
    BenchDefaults, ConfigFields, ConfigSource,
};
use perf_probe::search::{
    round_rng, round_seed, search_figures, search_limits, SearchLimits, SearchOutcome,
};
use rand::rngs::StdRng;
use rand::SeedableRng;

/// Walks through the given positions: turn, whether it is a training decision, and
/// the number of actions.
fn walk(target: i32, game: &[(i32, bool, usize)]) -> Result<usize, String> {
    let mut steps = 0;
    let mut moved = 0;
    let mut played = 0;
    let mut event = AdvanceEvent::Started;
    loop {
        let (count, action) = advance_to_train_root(target, steps, event);
        steps = count;
        event = match action {
            AdvanceAction::PlayStage => {
                played += 1;
                AdvanceEvent::StagePlayed
            }
            AdvanceAction::Move => {
                if moved < game.len() {
                    let (turn, train, _) = game[moved];
                    moved += 1;
                    let stage = if train {
                        Stage::Train
                    } else {
                        Stage::Other { name: "Event".to_string() }
                    };
                    AdvanceEvent::Moved { turn, stage }
                } else {
                    AdvanceEvent::Ended
                }
            }
            AdvanceAction::CountActions => AdvanceEvent::Counted { actions: game[moved - 1].2 },
            AdvanceAction::Search => {
                assert_eq!(played, moved);
                return Ok(moved - 1);
            }
            AdvanceAction::Fail { error } => return Err(error.message()),
        };
    }
}

#[test]
fn walk_reaches_the_first_training_root() {
    let game = [(1, true, 3), (2, false, 0), (2, true, 1), (2, true, 4), (2, true, 5), (3, true, 2)];
    assert_eq!(walk(2, &game), Ok(3));
    assert_eq!(walk(1, &game), Ok(0));
    assert_eq!(walk(2, &game[..4]), Ok(3));
}

#[test]
fn walk_gives_up_behind_the_turn() {
    let game = [(1, true, 3), (2, true, 1), (3, true, 5), (2, true, 5)];
    assert_eq!(
        walk(2, &game),
        Err("回合越过目标（target=2，当前 turn=3 stage=Train）——该回合不是训练决策点".to_string())
    );
    assert_eq!(
        walk(0, &[(4, false, 0)]),
        Err("回合越过目标（target=0，当前 turn=4 stage=Event）——该回合不是训练决策点".to_string())
    );
}

#[test]
fn walk_gives_up_at_the_end_of_the_game() {
    let wanted = Err("推进到终局仍未遇到 turn=-5 的 Train 决策点（候选需 >1）".to_string());
    assert_eq!(walk(-5, &[]), wanted);
    assert_eq!(walk(-5, &[(-6, true, 9), (-5, true, 1), (-5, false, 9)]), wanted);
}

#[test]
fn walk_gives_up_at_the_step_limit() {
    let mut game = vec![(1, false, 0); 999];
    game.push((60, true, 2));
    assert_eq!(walk(60, &game), Ok(999));
    game.insert(0, (1, false, 0));
    assert_eq!(
        walk(60, &game),
        Err("推进超过 1000 步仍未到达目标训练根（turn=60）".to_string())
    );
    game.pop();
    assert_eq!(
        walk(60, &game),
        Err("推进到终局仍未遇到 turn=60 的 Train 决策点（候选需 >1）".to_string())
    );
    game.push((61, false, 0));
    assert_eq!(
        walk(60, &game),
        Err("推进超过 1000 步仍未到达目标训练根（turn=60）".to_string())
    );
}

#[test]
fn builtin_defaults_are_fixed() {
    assert_eq!(default_uma(), 102601);
    assert_eq!(default_friend(), 303054);
    assert_eq!(default_blue(), [15, 0, 0, 0, 3]);
    assert_eq!(default_extra(), [10, 10, 20, 20, 20, 40]);
    assert_eq!(default_seed(), 61444);
    let d = BenchDefaults::default();
    assert_eq!((d.uma, d.friend, d.seed), (102601, 303054, 61444));
    assert_eq!(d.blue_count, [15, 0, 0, 0, 3]);
    assert_eq!(d.extra_count, [10, 10, 20, 20, 20, 40]);
}

#[test]
fn named_fields_replace_the_builtin_values() {
    let fields = ConfigFields {
        uma: Some(1),
        friend: None,
        blue_count: None,
        extra_count: Some([1, 2, 3, 4, 5, 6]),
        seed: None,
    };
    let loaded = load_bench_defaults(&ConfigSource::Read { fields }, "p");
    assert_eq!((loaded.defaults.uma, loaded.defaults.friend), (1, 303054));
    assert_eq!(loaded.defaults.blue_count, [15, 0, 0, 0, 3]);
    assert_eq!(loaded.defaults.extra_count, [1, 2, 3, 4, 5, 6]);
    assert_eq!(loaded.defaults.seed, 61444);
    assert_eq!(loaded.warning, None);
}

#[test]
fn absent_empty_and_malformed_files_lead_to_the_builtin_values() {
    let nothing = ConfigFields {
        uma: None,
        friend: None,
        blue_count: None,
        extra_count: None,
        seed: None,
    };
    let warning = "警告: bench_config.toml 解析失败（/w/bench_config.toml），使用内置默认值";
    for (source, wanted) in [
        (ConfigSource::Absent, None),
        (ConfigSource::Read { fields: nothing }, None),
        (ConfigSource::Malformed, Some(warning)),
    ] {
        let loaded = load_bench_defaults(&source, "/w/bench_config.toml");
        assert_eq!((loaded.defaults.uma, loaded.defaults.seed), (102601, 61444));
        assert_eq!(loaded.warning.as_deref(), wanted);
    }
}

#[test]
fn round_seeds_count_up_and_wrap() {
    assert_eq!(round_seed(61444, 0), 61444);
    assert_eq!(round_seed(61444, 2), 61446);
    assert_eq!(round_seed(u64::MAX, 2), 1);
    assert_ne!(round_seed(7, 3), round_seed(7, 4));
}

#[test]
fn round_generators_come_from_their_seeds() {
    assert!(round_rng(61444, 2) == StdRng::seed_from_u64(61446));
    assert!(round_rng(61445, 1) == StdRng::seed_from_u64(61446));
    assert!(round_rng(61444, 0) != StdRng::seed_from_u64(61445));
}

#[test]
fn command_line_size_replaces_the_configured_one() {
    assert_eq!(search_limits(Some(5), 100), SearchLimits { search_n: 5, max_depth: 0 });
    assert_eq!(search_limits(None, 100), SearchLimits { search_n: 100, max_depth: 0 });
}

fn outcome(counts: Vec<u64>) -> SearchOutcome {
    SearchOutcome {
        counts,
        best: 1,
        best_mean: "12.500".to_string(),
        elapsed_ms: "3.250".to_string(),
    }
}

#[test]
fn played_games_are_added_up() {
    let figures = search_figures(outcome(vec![10, 20, 12])).unwrap();
    assert_eq!((figures.searched, figures.best), (42, 1));
    assert_eq!((figures.best_mean.as_str(), figures.elapsed_ms.as_str()), ("12.500", "3.250"));
    assert_eq!(search_figures(outcome(vec![])).unwrap().searched, 0);
    assert_eq!(search_figures(outcome(vec![u64::MAX])).unwrap().searched, u64::MAX);
    assert!(search_figures(outcome(vec![u64::MAX, 0, 1])).is_none());
}

//! The course of the subcommand `whole`: what is done in which order, what is shown,
//! and what a failure leads to.

use vstd::prelude::*;

#[allow(unused_imports)]
use crate::cli::optional_text;
use crate::command::WholeOpts;
#[allow(unused_imports)]
use crate::command::WholeModel;
#[allow(unused_imports)]
use crate::report::{
    is_time_key, law_whole_fields_tell_the_games, line_of, line_words, tells, tells_number,
    whole_fields,
};
use crate::report::{whole_line, ScoreSummary, TimeSummary};
#[allow(unused_imports)]
use crate::text::join;

verus! {

/// How far the subcommand `whole` has come.
#[derive(Clone, Copy, Debug, PartialEq, Eq, Structural)]
pub enum WholeStage {
    /// Nothing has been done.
    Begin,
    /// The deck is being chosen.
    Deck,
    /// Games are being played; `done` of them are over.
    Games { done: usize },
    /// The times and scores of all games are being summed up.
    Summary,
    /// The run is over.
    End,
}

/// What just happened in the subcommand `whole`.
#[derive(Debug)]
pub enum WholeEvent {
    /// The run was started.
    Started,
    /// The deck was chosen.
    DeckReady,
    /// A game was played.
    Played,
    /// The times and scores of all games were summed up.
    Summarized { times: TimeSummary, scores: ScoreSummary },
    /// What was to be done failed.
    Failed,
}

/// What the subcommand `whole` does next.
#[derive(Clone, Copy, Debug, PartialEq, Eq, Structural)]
pub enum WholeAction {
    /// Choose the deck.
    ChooseDeck,
    /// Play the game with this index.
    Play { index: usize },
    /// Sum up the times and scores of all games.
    Summarize,
    /// Stop: all has been done.
    Finish,
    /// Stop: something failed.
    Fail,
}

/// A step of the subcommand `whole`: how far it has then come, the line to show, if
/// any, and what to do after that.
#[derive(Debug)]
pub struct WholeMove {
    pub stage: WholeStage,
    pub line: Option<String>,
    pub action: WholeAction,
}

/// `WholeMove` with its line as a sequence of characters.
pub struct WholeMoveModel {
    pub stage: WholeStage,
    pub line: Option<Seq<char>>,
    pub action: WholeAction,
}

/// The stage and the action once `done` games are over: the next game, else the
/// summary.
pub open spec fn after_games(runs: usize, done: usize) -> (WholeStage, WholeAction) {
    if done < runs {
        (WholeStage::Games { done }, WholeAction::Play { index: done })
    } else {
        (WholeStage::Summary, WholeAction::Summarize)
    }
}

/// The line about all games.
pub open spec fn whole_wording(opts: WholeModel, times: TimeSummary, scores: ScoreSummary) -> Seq<
    char,
> {
    line_of("WHOLE"@, whole_fields(opts, times, scores))
}

/// The step that `event` leads to. A failure, and an event that the stage does not
/// wait for, end the run without a line.
pub open spec fn whole_move(opts: WholeModel, stage: WholeStage, event: WholeEvent) -> WholeMoveModel {
    match (stage, event) {
        (WholeStage::Begin, WholeEvent::Started) => WholeMoveModel {
            stage: WholeStage::Deck,
            line: None,
            action: WholeAction::ChooseDeck,
        },
        (WholeStage::Deck, WholeEvent::DeckReady) => WholeMoveModel {
            stage: after_games(opts.runs, 0).0,
            line: None,
            action: after_games(opts.runs, 0).1,
        },
        (WholeStage::Games { done }, WholeEvent::Played) => if done < opts.runs {
            WholeMoveModel {
                stage: after_games(opts.runs, (done + 1) as usize).0,
                line: None,
                action: after_games(opts.runs, (done + 1) as usize).1,
            }
        } else {
            WholeMoveModel { stage: WholeStage::End, line: None, action: WholeAction::Fail }
        },
        (WholeStage::Summary, WholeEvent::Summarized { times, scores }) => WholeMoveModel {
            stage: WholeStage::End,
            line: Some(whole_wording(opts, times, scores)),
            action: WholeAction::Finish,
        },
        _ => WholeMoveModel { stage: WholeStage::End, line: None, action: WholeAction::Fail },
    }
}

/// Whether `stage` waits for `event` in a run of `runs` games.
pub open spec fn awaited(runs: usize, stage: WholeStage, event: WholeEvent) -> bool {
    ||| stage is Begin && event is Started
    ||| stage is Deck && event is DeckReady
    ||| (stage matches WholeStage::Games { done } && done < runs && event is Played)
    ||| stage is Summary && event is Summarized
}

/// Decides the stage and the action once `done` games are over.
fn next_game(runs: usize, done: usize) -> (r: (WholeStage, WholeAction))
    ensures
        r == after_games(runs, done),
{
    if done < runs {
        (WholeStage::Games { done }, WholeAction::Play { index: done })
    } else {
        (WholeStage::Summary, WholeAction::Summarize)
    }
}

/// Decides the next step of the subcommand `whole`: it chooses the deck, plays its
/// games, sums them up and shows the summary. A failure ends it without a line. An
/// event that `stage` does not wait for counts as a failure.
pub fn cmd_whole(opts: &WholeOpts, stage: WholeStage, event: WholeEvent) -> (r: WholeMove)
    ensures
        ({
            let next = whole_move(opts@, stage, event);
            &&& r.stage == next.stage
            &&& optional_text(r.line) == next.line
            &&& r.action == next.action
        }),
        r.action is Fail <==> !awaited(opts.runs, stage, event),
        r.line is Some <==> stage is Summary && event is Summarized,
        r.action matches WholeAction::Play { index } ==> index < opts.runs,
{
    match (stage, event) {
        (WholeStage::Begin, WholeEvent::Started) => WholeMove {
            stage: WholeStage::Deck,
            line: None,
            action: WholeAction::ChooseDeck,
        },
        (WholeStage::Deck, WholeEvent::DeckReady) => {
            let (stage, action) = next_game(opts.runs, 0);
            WholeMove { stage, line: None, action }
        },
        (WholeStage::Games { done }, WholeEvent::Played) => {
            if done < opts.runs {
                let (stage, action) = next_game(opts.runs, done + 1);
                WholeMove { stage, line: None, action }
            } else {
                WholeMove { stage: WholeStage::End, line: None, action: WholeAction::Fail }
            }
        },
        (WholeStage::Summary, WholeEvent::Summarized { times, scores }) => WholeMove {
            stage: WholeStage::End,
            line: Some(whole_line(opts, &times, &scores)),
            action: WholeAction::Finish,
        },
        _ => WholeMove { stage: WholeStage::End, line: None, action: WholeAction::Fail },
    }
}

/// What comes of the actions of a `whole` run: whether the deck is chosen and each
/// game played, and the summaries.
pub struct WholeAnswers {
    pub deck: bool,
    pub games: spec_fn(int) -> bool,
    pub times: TimeSummary,
    pub scores: ScoreSummary,
}

/// The event that an action leads to.
pub open spec fn whole_answer(answers: WholeAnswers, action: WholeAction) -> WholeEvent {
    match action {
        WholeAction::ChooseDeck => if answers.deck {
            WholeEvent::DeckReady
        } else {
            WholeEvent::Failed
        },
        WholeAction::Play { index } => if (answers.games)(index as int) {
            WholeEvent::Played
        } else {
            WholeEvent::Failed
        },
        WholeAction::Summarize => WholeEvent::Summarized {
            times: answers.times,
            scores: answers.scores,
        },
        _ => WholeEvent::Failed,
    }
}

/// What a run does and shows, and whether it succeeds.
pub struct WholeRun {
    pub actions: Seq<WholeAction>,
    pub lines: Seq<Seq<char>>,
    pub success: bool,
}

/// How many steps may lie between a stage and the end.
pub open spec fn whole_rank(runs: usize, stage: WholeStage) -> int {
    match stage {
        WholeStage::Begin => runs + 4,
        WholeStage::Deck => runs + 3,
        WholeStage::Games { done } => if done < runs {
            runs - done + 2
        } else {
            2
        },
        WholeStage::Summary => 1,
        WholeStage::End => 0,
    }
}

/// What a run does and shows from `action` on, if each action is carried out and
/// what comes of it is handed to the next step.
pub open spec fn whole_run_from(
    opts: WholeModel,
    answers: WholeAnswers,
    stage: WholeStage,
    action: WholeAction,
) -> WholeRun
    decreases
            whole_rank(opts.runs, stage),
            (if action is Finish || action is Fail {
                0int
            } else {
                1int
            }),
{
    if action is Finish || action is Fail {
        WholeRun { actions: Seq::empty(), lines: Seq::empty(), success: action is Finish }
    } else {
        let next = whole_move(opts, stage, whole_answer(answers, action));
        let rest = whole_run_from(opts, answers, next.stage, next.action);
        WholeRun {
            actions: seq![action] + rest.actions,
            lines: (match next.line {
                Some(text) => seq![text],
                None => Seq::empty(),
            }) + rest.lines,
            success: rest.success,
        }
    }
}

/// What a run does and shows.
pub open spec fn whole_run(opts: WholeModel, answers: WholeAnswers) -> WholeRun {
    let first = whole_move(opts, WholeStage::Begin, WholeEvent::Started);
    whole_run_from(opts, answers, first.stage, first.action)
}

/// The games from the one with index `from` up to `to`.
pub open spec fn game_actions(from: int, to: int) -> Seq<WholeAction> {
    Seq::new((to - from) as nat, |i: int| WholeAction::Play { index: (from + i) as usize })
}

/// Whether `k` is the first game that fails, or the number of games where none does.
pub open spec fn played_up_to(opts: WholeModel, answers: WholeAnswers, k: int) -> bool {
    &&& 0 <= k <= opts.runs
    &&& forall|j: int| 0 <= j < k ==> #[trigger] (answers.games)(j)
    &&& k == opts.runs || !(answers.games)(k)
}

/// The games of a run from the one with index `done` on.
proof fn lemma_games_from(opts: WholeModel, answers: WholeAnswers, done: usize, k: int)
    requires
        played_up_to(opts, answers, k),
        done <= k,
    ensures
        ({
            let at = after_games(opts.runs, done);
            let run = whole_run_from(opts, answers, at.0, at.1);
            if k < opts.runs {
                &&& !run.success
                &&& run.lines == Seq::<Seq<char>>::empty()
                &&& run.actions == game_actions(done as int, k + 1)
            } else {
                &&& run.success
                &&& run.lines == seq![whole_wording(opts, answers.times, answers.scores)]
                &&& run.actions == game_actions(done as int, k).push(WholeAction::Summarize)
            }
        }),
    decreases k - done,
{
    let at = after_games(opts.runs, done);
    let run = whole_run_from(opts, answers, at.0, at.1);
    if done < k {
        assert((answers.games)(done as int));
        lemma_games_from(opts, answers, (done + 1) as usize, k);
        let act = seq![WholeAction::Play { index: done }];
        assert(game_actions(done as int, k) =~= act + game_actions(done + 1, k));
        assert(game_actions(done as int, k + 1) =~= act + game_actions(done + 1, k + 1));
    } else {
        let next = whole_move(opts, at.0, whole_answer(answers, at.1));
        let rest = whole_run_from(opts, answers, next.stage, next.action);
        assert(rest.actions == Seq::<WholeAction>::empty());
    }
}

/// A run whose deck cannot be chosen plays nothing, shows nothing and fails.
pub proof fn law_whole_without_deck_shows_nothing(opts: WholeModel, answers: WholeAnswers)
    requires
        !answers.deck,
    ensures
        whole_run(opts, answers).lines == Seq::<Seq<char>>::empty(),
        whole_run(opts, answers).actions == seq![WholeAction::ChooseDeck],
        !whole_run(opts, answers).success,
{
    reveal_with_fuel(whole_run_from, 2);
}

/// A run plays each of its games once and in order, and then sums them up and shows
/// one line. A game that fails ends the run without a line.
pub proof fn law_whole_plays_every_game(opts: WholeModel, answers: WholeAnswers, k: int)
    requires
        answers.deck,
        played_up_to(opts, answers, k),
    ensures
        ({
            let run = whole_run(opts, answers);
            let start = seq![WholeAction::ChooseDeck];
            if k < opts.runs {
                &&& !run.success
                &&& run.lines == Seq::<Seq<char>>::empty()
                &&& run.actions == start + game_actions(0, k + 1)
            } else {
                &&& run.success
                &&& run.lines == seq![whole_wording(opts, answers.times, answers.scores)]
                &&& run.actions == start + game_actions(0, opts.runs as int)
                    + seq![WholeAction::Summarize]
            }
        }),
{
    lemma_games_from(opts, answers, 0, k);
    let at = after_games(opts.runs, 0);
    let rest = whole_run_from(opts, answers, at.0, at.1);
    let run = whole_run(opts, answers);
    assert(run.actions =~= seq![WholeAction::ChooseDeck] + rest.actions);
    assert(run.lines =~= rest.lines);
}

/// Some game is the first that fails, or none fails.
pub proof fn law_games_stop_somewhere(opts: WholeModel, answers: WholeAnswers)
    ensures
        exists|k: int| played_up_to(opts, answers, k),
{
    lemma_games_stop_from(opts, answers, 0);
}

proof fn lemma_games_stop_from(opts: WholeModel, answers: WholeAnswers, k: int)
    requires
        0 <= k <= opts.runs,
        forall|j: int| 0 <= j < k ==> #[trigger] (answers.games)(j),
    ensures
        exists|i: int| played_up_to(opts, answers, i),
    decreases opts.runs - k,
{
    if k == opts.runs || !(answers.games)(k) {
        assert(played_up_to(opts, answers, k));
    } else {
        lemma_games_stop_from(opts, answers, k + 1);
    }
}

/// Where the simulator repeats itself, so does the probe: two runs whose options
/// differ at most in the label, and whose actions come to the same but for the time
/// they take, do the same things and succeed or fail alike; where they succeed, the
/// one line of each holds the same fields but for the label and the times.
pub proof fn law_whole_repeats_itself(
    opts: WholeModel,
    label: Seq<char>,
    a: WholeAnswers,
    b: WholeAnswers,
)
    requires
        a.deck == b.deck,
        forall|j: int| #[trigger] (a.games)(j) == (b.games)(j),
        a.scores.mean@ == b.scores.mean@,
        a.scores.min@ == b.scores.min@,
        a.scores.max@ == b.scores.max@,
    ensures
        ({
            let other = WholeModel { label, ..opts };
            let one = whole_run(opts, a);
            let two = whole_run(other, b);
            let fields = whole_fields(opts, a.times, a.scores);
            let others = whole_fields(other, b.times, b.scores);
            &&& one.success == two.success
            &&& one.actions == two.actions
            &&& one.success ==> one.lines == seq![line_of("WHOLE"@, fields)]
            &&& one.success ==> two.lines == seq![line_of("WHOLE"@, others)]
            &&& !one.success ==> one.lines == two.lines
            &&& fields.len() == others.len()
            &&& forall|j: int|
                0 <= j < fields.len() ==> (#[trigger] fields[j]).0 == others[j].0 && (fields[j].1
                    == others[j].1 || fields[j].0 == "label"@ || is_time_key(fields[j].0))
        }),
{
    let other = WholeModel { label, ..opts };
    if !a.deck {
        law_whole_without_deck_shows_nothing(opts, a);
        law_whole_without_deck_shows_nothing(other, b);
    } else {
        law_games_stop_somewhere(opts, a);
        let k = choose|k: int| played_up_to(opts, a, k);
        assert((a.games)(k) == (b.games)(k));
        assert forall|j: int| 0 <= j < k implies #[trigger] (b.games)(j) by {
            assert((a.games)(j));
        }
        assert(played_up_to(other, b, k));
        law_whole_plays_every_game(opts, a, k);
        law_whole_plays_every_game(other, b, k);
    }
}

/// An event that a stage does not wait for, a failure among them, ends a run without a
/// line, and no other does.
pub proof fn law_unexpected_event_ends_the_run(
    opts: WholeModel,
    stage: WholeStage,
    event: WholeEvent,
)
    ensures
        ({
            let next = whole_move(opts, stage, event);
            &&& next.action is Fail <==> !awaited(opts.runs, stage, event)
            &&& next.action is Fail ==> next.stage is End && next.line is None
            &&& event is Failed ==> next.action is Fail
            &&& stage is End ==> next.action is Fail
        }),
{
}

/// The line of a run whose games are all played, one word after the other: it tells the
/// number of games and the figures of their times and scores.
pub proof fn law_whole_line_tells_the_games(opts: WholeModel, answers: WholeAnswers)
    requires
        answers.deck,
        played_up_to(opts, answers, opts.runs as int),
    ensures
        ({
            let lines = whole_run(opts, answers).lines;
            let times = answers.times;
            let scores = answers.scores;
            &&& lines.len() == 1
            &&& exists|words: Seq<Seq<char>>|
                #![trigger words.len()]
                lines[0] == join(words, seq![' ']) && words.len() == 11 && words[0] == "WHOLE"@ && tells(
                    words[1],
                    "label"@,
                    opts.label,
                ) && tells_number(words[2], "runs"@, opts.runs as int) && tells(
                    words[3],
                    "mean_ms"@,
                    times.mean@,
                ) && tells(words[4], "median_ms"@, times.median@) && tells(
                    words[5],
                    "min_ms"@,
                    times.min@,
                ) && tells(words[6], "max_ms"@, times.max@) && tells(
                    words[7],
                    "std_ms"@,
                    times.std@,
                ) && tells(words[8], "score_mean"@, scores.mean@) && tells(
                    words[9],
                    "score_min"@,
                    scores.min@,
                ) && tells(words[10], "score_max"@, scores.max@)
        }),
{
    let words = line_words("WHOLE"@, whole_fields(opts, answers.times, answers.scores));
    law_whole_plays_every_game(opts, answers, opts.runs as int);
    law_whole_fields_tell_the_games(opts, answers.times, answers.scores);
    assert(words.len() == 11);
}

} // verus!

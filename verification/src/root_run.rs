//! The course of the subcommand `root`: what is done in which order, what is shown,
//! and what a failure leads to.

use vstd::prelude::*;

#[allow(unused_imports)]
use crate::cli::optional_text;
use crate::command::RootOpts;
#[allow(unused_imports)]
use crate::command::RootModel;
use crate::report::{
    root_info_line, root_median_line, root_position_line, root_round_line, RootPosition, TimeSummary,
};
#[allow(unused_imports)]
use crate::report::{
    info_fields, is_time_key, law_info_fields_tell_the_options, law_median_fields_tell_the_rounds,
    law_round_fields_tell_the_search, law_round_line_is_read_back, line_of, line_words, lists_deck,
    median_fields, position_wording, round_fields, tells, tells_number, value_in,
};
use crate::search::{round_rng, SearchFigures};
#[allow(unused_imports)]
use crate::search::{law_rounds_have_distinct_seeds, round_seed_of, seeded};
#[allow(unused_imports)]
use crate::text::{decimal, join, split};

use rand::rngs::StdRng;

verus! {

/// How far the subcommand `root` has come.
#[derive(Debug)]
pub enum RootStage {
    /// Nothing has been done.
    Begin,
    /// The deck is being chosen.
    Deck,
    /// The game is on its way to the root.
    Walk,
    /// The root is being searched; `done` rounds are over.
    Rounds { done: usize, root: RootPosition },
    /// The times of all rounds are being summed up.
    Summary,
    /// The run is over.
    End,
}

/// What just happened in the subcommand `root`.
#[derive(Debug)]
pub enum RootEvent {
    /// The run was started.
    Started,
    /// The deck was chosen.
    DeckReady { deck: [u32; 6] },
    /// The game came to the root.
    Reached { root: RootPosition },
    /// The root was searched.
    Searched { figures: SearchFigures },
    /// The times of all rounds were summed up.
    Summarized { times: TimeSummary },
    /// What was to be done failed.
    Failed,
}

/// What the subcommand `root` does next.
#[derive(Clone, Copy, Debug, PartialEq, Eq, Structural)]
pub enum RootAction {
    /// Choose the deck.
    ChooseDeck,
    /// Play a game to the root.
    Walk,
    /// Search the root in the round with this index.
    Search { round: usize },
    /// Sum up the times of all rounds.
    Summarize,
    /// Stop: all has been done.
    Finish,
    /// Stop: something failed.
    Fail,
}

/// A step of the subcommand `root`: how far it has then come, the line to show, if
/// any, and what to do after that.
#[derive(Debug)]
pub struct RootMove {
    pub stage: RootStage,
    pub line: Option<String>,
    pub action: RootAction,
}

/// `RootMove` with its line as a sequence of characters.
pub struct RootMoveModel {
    pub stage: RootStage,
    pub line: Option<Seq<char>>,
    pub action: RootAction,
}

/// The stage and the action once `done` rounds are over: the next round, else the
/// summary where there is more than one round, else the end.
pub open spec fn after_rounds(rounds: usize, done: usize, root: RootPosition) -> (
    RootStage,
    RootAction,
) {
    if done < rounds {
        (RootStage::Rounds { done, root }, RootAction::Search { round: done })
    } else if rounds > 1 {
        (RootStage::Summary, RootAction::Summarize)
    } else {
        (RootStage::End, RootAction::Finish)
    }
}

/// The line that opens a run.
pub open spec fn info_wording(opts: RootModel, search_n: nat, deck: Seq<u32>) -> Seq<char> {
    line_of("INFO"@, info_fields(opts, search_n, deck))
}

/// The line about one search.
pub open spec fn round_wording(
    opts: RootModel,
    root: RootPosition,
    round: nat,
    figures: SearchFigures,
) -> Seq<char> {
    line_of("ROOT"@, round_fields(opts, root, round, figures))
}

/// The line about all searches.
pub open spec fn median_wording(opts: RootModel, times: TimeSummary) -> Seq<char> {
    line_of("ROOT_MEDIAN"@, median_fields(opts, times))
}

/// The step that `event` leads to. A failure, and an event that the stage does not
/// wait for, end the run without a further line.
pub open spec fn root_move(
    opts: RootModel,
    search_n: nat,
    stage: RootStage,
    event: RootEvent,
) -> RootMoveModel {
    match (stage, event) {
        (RootStage::Begin, RootEvent::Started) => RootMoveModel {
            stage: RootStage::Deck,
            line: None,
            action: RootAction::ChooseDeck,
        },
        (RootStage::Deck, RootEvent::DeckReady { deck }) => RootMoveModel {
            stage: RootStage::Walk,
            line: Some(info_wording(opts, search_n, deck@)),
            action: RootAction::Walk,
        },
        (RootStage::Walk, RootEvent::Reached { root }) => RootMoveModel {
            stage: after_rounds(opts.rounds, 0, root).0,
            line: Some(position_wording(root)),
            action: after_rounds(opts.rounds, 0, root).1,
        },
        (RootStage::Rounds { done, root }, RootEvent::Searched { figures }) => if done
            < opts.rounds {
            RootMoveModel {
                stage: after_rounds(opts.rounds, (done + 1) as usize, root).0,
                line: Some(round_wording(opts, root, done as nat, figures)),
                action: after_rounds(opts.rounds, (done + 1) as usize, root).1,
            }
        } else {
            RootMoveModel { stage: RootStage::End, line: None, action: RootAction::Fail }
        },
        (RootStage::Summary, RootEvent::Summarized { times }) => RootMoveModel {
            stage: RootStage::End,
            line: Some(median_wording(opts, times)),
            action: RootAction::Finish,
        },
        _ => RootMoveModel { stage: RootStage::End, line: None, action: RootAction::Fail },
    }
}

/// Whether `stage` waits for `event` in a run of `rounds` rounds.
pub open spec fn awaited(rounds: usize, stage: RootStage, event: RootEvent) -> bool {
    ||| stage is Begin && event is Started
    ||| stage is Deck && event is DeckReady
    ||| stage is Walk && event is Reached
    ||| (stage matches RootStage::Rounds { done, root } && done < rounds && event is Searched)
    ||| stage is Summary && event is Summarized
}

/// Decides the stage and the action once `done` rounds are over.
fn next_round(rounds: usize, done: usize, root: RootPosition) -> (r: (RootStage, RootAction))
    ensures
        r == after_rounds(rounds, done, root),
{
    if done < rounds {
        (RootStage::Rounds { done, root }, RootAction::Search { round: done })
    } else if rounds > 1 {
        (RootStage::Summary, RootAction::Summarize)
    } else {
        (RootStage::End, RootAction::Finish)
    }
}

/// Decides the next step of the subcommand `root`: it chooses the deck, shows the
/// options, plays a game to the root, shows the root, searches it and shows the
/// figures round by round, and sums up where there was more than one round. A
/// failure ends it without a further line. An event that `stage` does not wait for
/// counts as a failure.
pub fn cmd_root(opts: &RootOpts, search_n: usize, stage: RootStage, event: RootEvent) -> (r:
    RootMove)
    ensures
        ({
            let next = root_move(opts@, search_n as nat, stage, event);
            &&& r.stage == next.stage
            &&& optional_text(r.line) == next.line
            &&& r.action == next.action
        }),
        r.action is Fail <==> !awaited(opts.rounds, stage, event),
        r.line is Some <==> awaited(opts.rounds, stage, event) && !(event is Started),
        r.action matches RootAction::Search { round } ==> round < opts.rounds,
{
    match (stage, event) {
        (RootStage::Begin, RootEvent::Started) => RootMove {
            stage: RootStage::Deck,
            line: None,
            action: RootAction::ChooseDeck,
        },
        (RootStage::Deck, RootEvent::DeckReady { deck }) => RootMove {
            stage: RootStage::Walk,
            line: Some(root_info_line(opts, search_n, &deck)),
            action: RootAction::Walk,
        },
        (RootStage::Walk, RootEvent::Reached { root }) => {
            let line = root_position_line(&root);
            let (stage, action) = next_round(opts.rounds, 0, root);
            RootMove { stage, line: Some(line), action }
        },
        (RootStage::Rounds { done, root }, RootEvent::Searched { figures }) => {
            if done < opts.rounds {
                let line = root_round_line(opts, &root, done, &figures);
                let (stage, action) = next_round(opts.rounds, done + 1, root);
                RootMove { stage, line: Some(line), action }
            } else {
                RootMove { stage: RootStage::End, line: None, action: RootAction::Fail }
            }
        },
        (RootStage::Summary, RootEvent::Summarized { times }) => RootMove {
            stage: RootStage::End,
            line: Some(root_median_line(opts, &times)),
            action: RootAction::Finish,
        },
        _ => RootMove { stage: RootStage::End, line: None, action: RootAction::Fail },
    }
}

/// The generator for the search in the round with index `round` of a run: seeded with
/// the search seed of the run plus the index.
pub fn search_rng(opts: &RootOpts, round: usize) -> (r: StdRng)
    ensures
        r == seeded(round_seed_of(opts.search_seed, round as u64)),
{
    round_rng(opts.search_seed, round as u64)
}

/// No two rounds of a run search with the same seed.
pub proof fn law_rounds_search_with_distinct_seeds(opts: RootModel, round: usize, other: usize)
    requires
        round < opts.rounds,
        other < opts.rounds,
        round != other,
    ensures
        round_seed_of(opts.search_seed, round as u64) != round_seed_of(
            opts.search_seed,
            other as u64,
        ),
{
    law_rounds_have_distinct_seeds(opts.search_seed, round as u64, other as u64);
}

/// What comes of the actions of a `root` run: the deck, the root, the search in each
/// round, `None` where one fails, and the summary of the times.
pub struct RootAnswers {
    pub deck: Option<[u32; 6]>,
    pub root: Option<RootPosition>,
    pub searches: spec_fn(int) -> Option<SearchFigures>,
    pub times: TimeSummary,
}

/// The event that an action leads to.
pub open spec fn root_answer(answers: RootAnswers, action: RootAction) -> RootEvent {
    match action {
        RootAction::ChooseDeck => match answers.deck {
            Some(deck) => RootEvent::DeckReady { deck },
            None => RootEvent::Failed,
        },
        RootAction::Walk => match answers.root {
            Some(root) => RootEvent::Reached { root },
            None => RootEvent::Failed,
        },
        RootAction::Search { round } => match (answers.searches)(round as int) {
            Some(figures) => RootEvent::Searched { figures },
            None => RootEvent::Failed,
        },
        RootAction::Summarize => RootEvent::Summarized { times: answers.times },
        _ => RootEvent::Failed,
    }
}

/// What a run does and shows, and whether it succeeds.
pub struct RootRun {
    pub actions: Seq<RootAction>,
    pub lines: Seq<Seq<char>>,
    pub success: bool,
}

/// How many steps may lie between a stage and the end.
pub open spec fn root_rank(rounds: usize, stage: RootStage) -> int {
    match stage {
        RootStage::Begin => rounds + 5,
        RootStage::Deck => rounds + 4,
        RootStage::Walk => rounds + 3,
        RootStage::Rounds { done, root } => if done < rounds {
            rounds - done + 2
        } else {
            2
        },
        RootStage::Summary => 1,
        RootStage::End => 0,
    }
}

/// A line to show, if any, as a sequence of lines.
pub open spec fn shown(line: Option<Seq<char>>) -> Seq<Seq<char>> {
    match line {
        Some(text) => seq![text],
        None => Seq::empty(),
    }
}

/// What a run does and shows from `action` on, if each action is carried out and
/// what comes of it is handed to the next step.
pub open spec fn root_run_from(
    opts: RootModel,
    search_n: nat,
    answers: RootAnswers,
    stage: RootStage,
    action: RootAction,
) -> RootRun
    decreases
            root_rank(opts.rounds, stage),
            (if action is Finish || action is Fail {
                0int
            } else {
                1int
            }),
{
    if action is Finish || action is Fail {
        RootRun { actions: Seq::empty(), lines: Seq::empty(), success: action is Finish }
    } else {
        let next = root_move(opts, search_n, stage, root_answer(answers, action));
        let rest = root_run_from(opts, search_n, answers, next.stage, next.action);
        RootRun {
            actions: seq![action] + rest.actions,
            lines: shown(next.line) + rest.lines,
            success: rest.success,
        }
    }
}

/// What a run does and shows.
pub open spec fn root_run(opts: RootModel, search_n: nat, answers: RootAnswers) -> RootRun {
    let first = root_move(opts, search_n, RootStage::Begin, RootEvent::Started);
    root_run_from(opts, search_n, answers, first.stage, first.action)
}

/// The lines about the searches in the rounds from `from` up to `to`.
pub open spec fn round_lines(
    opts: RootModel,
    answers: RootAnswers,
    root: RootPosition,
    from: int,
    to: int,
) -> Seq<Seq<char>> {
    Seq::new(
        (to - from) as nat,
        |i: int|
            round_wording(
                opts,
                root,
                (from + i) as nat,
                (answers.searches)(from + i)->Some_0,
            ),
    )
}

/// The searches of the rounds from `from` up to `to`.
pub open spec fn round_actions(from: int, to: int) -> Seq<RootAction> {
    Seq::new((to - from) as nat, |i: int| RootAction::Search { round: (from + i) as usize })
}

/// Whether `k` is the first round whose search fails, or the number of rounds where
/// none does.
pub open spec fn searched_up_to(opts: RootModel, answers: RootAnswers, k: int) -> bool {
    &&& 0 <= k <= opts.rounds
    &&& forall|j: int| 0 <= j < k ==> (#[trigger] (answers.searches)(j)) is Some
    &&& k == opts.rounds || (answers.searches)(k) is None
}

/// What a run does from an action on is that action and what follows it.
proof fn lemma_root_step(
    opts: RootModel,
    search_n: nat,
    answers: RootAnswers,
    stage: RootStage,
    action: RootAction,
    next: RootMoveModel,
)
    requires
        !(action is Finish) && !(action is Fail),
        next == root_move(opts, search_n, stage, root_answer(answers, action)),
    ensures
        ({
            let run = root_run_from(opts, search_n, answers, stage, action);
            let rest = root_run_from(opts, search_n, answers, next.stage, next.action);
            &&& run.actions == seq![action] + rest.actions
            &&& run.lines == shown(next.line) + rest.lines
            &&& run.success == rest.success
        }),
{
}

/// A run that has nothing more to do does and shows nothing.
proof fn lemma_root_stop(
    opts: RootModel,
    search_n: nat,
    answers: RootAnswers,
    stage: RootStage,
    action: RootAction,
)
    requires
        action is Finish || action is Fail,
    ensures
        root_run_from(opts, search_n, answers, stage, action) == (RootRun {
            actions: Seq::empty(),
            lines: Seq::empty(),
            success: action is Finish,
        }),
{
}

/// What a run does and shows from the round with index `done` on, if the searches
/// come as far as `k`.
spec fn rest_of_run(
    opts: RootModel,
    answers: RootAnswers,
    root: RootPosition,
    done: int,
    k: int,
) -> RootRun {
    if k < opts.rounds {
        RootRun {
            actions: round_actions(done, k + 1),
            lines: round_lines(opts, answers, root, done, k),
            success: false,
        }
    } else if opts.rounds > 1 {
        RootRun {
            actions: round_actions(done, k).push(RootAction::Summarize),
            lines: round_lines(opts, answers, root, done, k).push(
                median_wording(opts, answers.times),
            ),
            success: true,
        }
    } else {
        RootRun {
            actions: round_actions(done, k),
            lines: round_lines(opts, answers, root, done, k),
            success: true,
        }
    }
}

/// One round more in front.
proof fn lemma_rest_of_run(
    opts: RootModel,
    answers: RootAnswers,
    root: RootPosition,
    done: int,
    k: int,
)
    requires
        0 <= done < k <= opts.rounds,
    ensures
        ({
            let run = rest_of_run(opts, answers, root, done, k);
            let rest = rest_of_run(opts, answers, root, done + 1, k);
            let figures = (answers.searches)(done)->Some_0;
            &&& run.actions == seq![RootAction::Search { round: done as usize }] + rest.actions
            &&& run.lines == seq![round_wording(opts, root, done as nat, figures)]
                + rest.lines
            &&& run.success == rest.success
        }),
{
    let figures = (answers.searches)(done)->Some_0;
    let first = seq![round_wording(opts, root, done as nat, figures)];
    assert(round_lines(opts, answers, root, done, k) =~= first + round_lines(
        opts,
        answers,
        root,
        done + 1,
        k,
    ));
    let act = seq![RootAction::Search { round: done as usize }];
    assert(round_actions(done, k) =~= act + round_actions(done + 1, k));
    assert(round_actions(done, k + 1) =~= act + round_actions(done + 1, k + 1));
    let run = rest_of_run(opts, answers, root, done, k);
    let rest = rest_of_run(opts, answers, root, done + 1, k);
    assert(run.actions =~= act + rest.actions);
    assert(run.lines =~= first + rest.lines);
}

/// The rounds of a run from the one with index `done` on.
proof fn lemma_rounds_from(
    opts: RootModel,
    search_n: nat,
    answers: RootAnswers,
    root: RootPosition,
    done: usize,
    k: int,
)
    requires
        searched_up_to(opts, answers, k),
        done <= k,
    ensures
        ({
            let at = after_rounds(opts.rounds, done, root);
            let run = root_run_from(opts, search_n, answers, at.0, at.1);
            let wanted = rest_of_run(opts, answers, root, done as int, k);
            &&& run.actions == wanted.actions
            &&& run.lines == wanted.lines
            &&& run.success == wanted.success
        }),
    decreases k - done,
{
    let at = after_rounds(opts.rounds, done, root);
    let wanted = rest_of_run(opts, answers, root, done as int, k);
    if done < k {
        assert((answers.searches)(done as int) is Some);
        let next = root_move(opts, search_n, at.0, root_answer(answers, at.1));
        lemma_root_step(opts, search_n, answers, at.0, at.1, next);
        lemma_rounds_from(opts, search_n, answers, root, (done + 1) as usize, k);
        lemma_rest_of_run(opts, answers, root, done as int, k);
    } else if k < opts.rounds {
        let next = root_move(opts, search_n, at.0, root_answer(answers, at.1));
        lemma_root_step(opts, search_n, answers, at.0, at.1, next);
        lemma_root_stop(opts, search_n, answers, next.stage, next.action);
        let run = root_run_from(opts, search_n, answers, at.0, at.1);
        assert(run.actions =~= wanted.actions);
        assert(run.lines =~= wanted.lines);
    } else if opts.rounds > 1 {
        let next = root_move(opts, search_n, at.0, root_answer(answers, at.1));
        lemma_root_step(opts, search_n, answers, at.0, at.1, next);
        lemma_root_stop(opts, search_n, answers, next.stage, next.action);
        let run = root_run_from(opts, search_n, answers, at.0, at.1);
        assert(run.actions =~= wanted.actions);
        assert(run.lines =~= wanted.lines);
    } else {
        lemma_root_stop(opts, search_n, answers, at.0, at.1);
        let run = root_run_from(opts, search_n, answers, at.0, at.1);
        assert(run.actions =~= wanted.actions);
        assert(run.lines =~= wanted.lines);
    }
}

/// A run whose deck cannot be chosen shows nothing and fails.
pub proof fn law_root_without_deck_shows_nothing(
    opts: RootModel,
    search_n: nat,
    answers: RootAnswers,
)
    requires
        answers.deck is None,
    ensures
        root_run(opts, search_n, answers).lines == Seq::<Seq<char>>::empty(),
        root_run(opts, search_n, answers).actions == seq![RootAction::ChooseDeck],
        !root_run(opts, search_n, answers).success,
{
    reveal_with_fuel(root_run_from, 2);
}

/// A run whose game does not come to the root shows the opening line and fails.
pub proof fn law_root_without_root_shows_the_opening(
    opts: RootModel,
    search_n: nat,
    answers: RootAnswers,
)
    requires
        answers.deck is Some,
        answers.root is None,
    ensures
        root_run(opts, search_n, answers).lines == seq![
            info_wording(opts, search_n, answers.deck->Some_0@),
        ],
        root_run(opts, search_n, answers).actions == seq![RootAction::ChooseDeck, RootAction::Walk],
        !root_run(opts, search_n, answers).success,
{
    reveal_with_fuel(root_run_from, 3);
}

/// A run that comes to the root shows the opening line, the line about the root and
/// the lines of the rounds, each searched once and in order, up to the first whose
/// search fails. Where none fails, the run succeeds, and shows the summary at the end
/// exactly where there is more than one round; where one fails, the run fails and
/// shows nothing more.
#[verifier::spinoff_prover]
pub proof fn law_root_shows_every_round(
    opts: RootModel,
    search_n: nat,
    answers: RootAnswers,
    k: int,
)
    requires
        answers.deck is Some,
        answers.root is Some,
        searched_up_to(opts, answers, k),
    ensures
        ({
            let run = root_run(opts, search_n, answers);
            let opening = seq![
                info_wording(opts, search_n, answers.deck->Some_0@),
                position_wording(answers.root->Some_0),
            ];
            let rounds = round_lines(opts, answers, answers.root->Some_0, 0, k);
            let start = seq![RootAction::ChooseDeck, RootAction::Walk];
            if k < opts.rounds {
                &&& !run.success
                &&& run.lines == opening + rounds
                &&& run.actions == start + round_actions(0, k + 1)
            } else {
                &&& run.success
                &&& run.lines == opening + rounds + (if opts.rounds > 1 {
                    seq![median_wording(opts, answers.times)]
                } else {
                    Seq::empty()
                })
                &&& run.actions == start + round_actions(0, k) + (if opts.rounds > 1 {
                    seq![RootAction::Summarize]
                } else {
                    Seq::empty()
                })
            }
        }),
{
    let root = answers.root->Some_0;
    lemma_opening(opts, search_n, answers);
    lemma_rounds_from(opts, search_n, answers, root, 0, k);
    let opening = seq![
        info_wording(opts, search_n, answers.deck->Some_0@),
        position_wording(root),
    ];
    let start = seq![RootAction::ChooseDeck, RootAction::Walk];
    lemma_append_push(
        opening,
        round_lines(opts, answers, root, 0, k),
        median_wording(opts, answers.times),
    );
    lemma_append_push(start, round_actions(0, k), RootAction::Summarize);
}

/// Items appended one by one or together.
proof fn lemma_append_push<T>(front: Seq<T>, middle: Seq<T>, last: T)
    ensures
        front + middle.push(last) == front + middle + seq![last],
        front + middle == front + middle + Seq::empty(),
{
    assert(front + middle.push(last) =~= front + middle + seq![last]);
    assert(front + middle =~= front + middle + Seq::empty());
}

/// The two steps in front of the rounds of a run that comes to the root.
#[verifier::spinoff_prover]
proof fn lemma_opening(opts: RootModel, search_n: nat, answers: RootAnswers)
    requires
        answers.deck is Some,
        answers.root is Some,
    ensures
        ({
            let root = answers.root->Some_0;
            let at = after_rounds(opts.rounds, 0, root);
            let run = root_run(opts, search_n, answers);
            let rest = root_run_from(opts, search_n, answers, at.0, at.1);
            &&& run.lines == seq![
                info_wording(opts, search_n, answers.deck->Some_0@),
                position_wording(root),
            ] + rest.lines
            &&& run.actions == seq![RootAction::ChooseDeck, RootAction::Walk] + rest.actions
            &&& run.success == rest.success
        }),
{
    let root = answers.root->Some_0;
    let deck = answers.deck->Some_0;
    let at = after_rounds(opts.rounds, 0, root);
    let rest = root_run_from(opts, search_n, answers, at.0, at.1);
    let first = root_move(opts, search_n, RootStage::Deck, RootEvent::DeckReady { deck });
    lemma_root_step(opts, search_n, answers, RootStage::Deck, RootAction::ChooseDeck, first);
    let second = root_move(opts, search_n, RootStage::Walk, RootEvent::Reached { root });
    lemma_root_step(opts, search_n, answers, RootStage::Walk, RootAction::Walk, second);
    lemma_two_in_front(
        info_wording(opts, search_n, deck@),
        position_wording(root),
        rest.lines,
    );
    lemma_two_in_front(RootAction::ChooseDeck, RootAction::Walk, rest.actions);
}

/// Two items put in front one by one or together.
proof fn lemma_two_in_front<T>(one: T, two: T, rest: Seq<T>)
    ensures
        seq![one] + (seq![two] + rest) == seq![one, two] + rest,
{
    assert(seq![one] + (seq![two] + rest) =~= seq![one, two] + rest);
}

/// Some round is the first whose search fails, or none fails.
pub proof fn law_searches_stop_somewhere(opts: RootModel, answers: RootAnswers)
    ensures
        exists|k: int| searched_up_to(opts, answers, k),
{
    lemma_searches_from(opts, answers, 0);
}

proof fn lemma_searches_from(opts: RootModel, answers: RootAnswers, k: int)
    requires
        0 <= k <= opts.rounds,
        forall|j: int| 0 <= j < k ==> (#[trigger] (answers.searches)(j)) is Some,
    ensures
        exists|i: int| searched_up_to(opts, answers, i),
    decreases opts.rounds - k,
{
    if k == opts.rounds || (answers.searches)(k) is None {
        assert(searched_up_to(opts, answers, k));
    } else {
        lemma_searches_from(opts, answers, k + 1);
    }
}

/// Whether two roots are shown alike.
pub open spec fn same_root(a: RootPosition, b: RootPosition) -> bool {
    &&& a.turn == b.turn
    &&& a.candidates == b.candidates
    &&& a.score@ == b.score@
    &&& a.group_size@ == b.group_size@
    &&& a.expected_stdev@ == b.expected_stdev@
}

/// Whether two searches have the same figures but for the time they took.
pub open spec fn same_search(a: SearchFigures, b: SearchFigures) -> bool {
    &&& a.searched == b.searched
    &&& a.best == b.best
    &&& a.best_mean@ == b.best_mean@
}

/// Whether the actions of two runs come to the same but for the time they take.
pub open spec fn same_answers(a: RootAnswers, b: RootAnswers) -> bool {
    &&& a.deck is Some == b.deck is Some
    &&& a.deck is Some ==> a.deck->Some_0@ == b.deck->Some_0@
    &&& a.root is Some == b.root is Some
    &&& a.root is Some ==> same_root(a.root->Some_0, b.root->Some_0)
    &&& forall|j: int|
        (#[trigger] (a.searches)(j)) is Some == (b.searches)(j) is Some && ((a.searches)(
            j,
        ) is Some ==> same_search((a.searches)(j)->Some_0, (b.searches)(j)->Some_0))
}

/// Whether two sequences of fields have the same keys, and the same values but for
/// those of times.
pub open spec fn differ_in_times(
    a: Seq<(Seq<char>, Seq<char>)>,
    b: Seq<(Seq<char>, Seq<char>)>,
) -> bool {
    &&& a.len() == b.len()
    &&& forall|j: int|
        0 <= j < a.len() ==> (#[trigger] a[j]).0 == b[j].0 && (a[j].1 == b[j].1 || is_time_key(
            a[j].0,
        ))
}

/// The opening lines and those of the rounds of a run that comes to the root.
proof fn lemma_lines_of_run(
    opts: RootModel,
    search_n: nat,
    answers: RootAnswers,
    k: int,
)
    requires
        answers.deck is Some,
        answers.root is Some,
        searched_up_to(opts, answers, k),
    ensures
        ({
            let lines = root_run(opts, search_n, answers).lines;
            let root = answers.root->Some_0;
            let summed_up = k == opts.rounds && opts.rounds > 1;
            &&& lines.len() == k + 2 + (if summed_up {
                1int
            } else {
                0int
            })
            &&& lines[0] == info_wording(opts, search_n, answers.deck->Some_0@)
            &&& lines[1] == position_wording(root)
            &&& forall|j: int|
                0 <= j < k ==> #[trigger] lines[j + 2] == round_wording(
                    opts,
                    root,
                    j as nat,
                    (answers.searches)(j)->Some_0,
                )
            &&& summed_up ==> lines[k + 2] == median_wording(opts, answers.times)
        }),
{
    law_root_shows_every_round(opts, search_n, answers, k);
    let lines = root_run(opts, search_n, answers).lines;
    let root = answers.root->Some_0;
    let rounds = round_lines(opts, answers, root, 0, k);
    assert forall|j: int| 0 <= j < k implies #[trigger] lines[j + 2] == round_wording(
        opts,
        root,
        j as nat,
        (answers.searches)(j)->Some_0,
    ) by {
        assert(lines[j + 2] == rounds[j]);
    }
}

/// The line of one round of a run that comes to the root.
#[verifier::spinoff_prover]
proof fn lemma_line_of_round(
    opts: RootModel,
    search_n: nat,
    answers: RootAnswers,
    k: int,
    j: int,
)
    requires
        answers.deck is Some,
        answers.root is Some,
        searched_up_to(opts, answers, k),
        0 <= j < k,
    ensures
        root_run(opts, search_n, answers).lines[j + 2] == line_of(
            "ROOT"@,
            round_fields(opts, answers.root->Some_0, j as nat, (answers.searches)(j)->Some_0),
        ),
{
    lemma_lines_of_run(opts, search_n, answers, k);
}

/// The fields that tell the root.
#[verifier::spinoff_prover]
proof fn lemma_root_fields(opts: RootModel, root: RootPosition, round: nat, figures: SearchFigures)
    ensures
        round_fields(opts, root, round, figures)[3] == ("candidates"@, decimal(
            root.candidates as nat,
        )),
        round_fields(opts, root, round, figures)[7] == ("root_score"@, root.score@),
{
}

/// The summaries of two runs differ in the times alone.
proof fn lemma_same_median_fields(opts: RootModel, a: TimeSummary, b: TimeSummary)
    ensures
        differ_in_times(median_fields(opts, a), median_fields(opts, b)),
{
}

/// Two runs whose actions come to the same do the same things, succeed or fail alike,
/// and show equally many lines, the opening ones of which are the same.
#[verifier::spinoff_prover]
proof fn lemma_same_course(
    opts: RootModel,
    search_n: nat,
    a: RootAnswers,
    b: RootAnswers,
    k: int,
)
    requires
        same_answers(a, b),
        searched_up_to(opts, a, k),
    ensures
        ({
            let one = root_run(opts, search_n, a);
            let two = root_run(opts, search_n, b);
            &&& one.success == two.success
            &&& one.actions == two.actions
            &&& one.lines.len() == two.lines.len()
            &&& forall|i: int|
                0 <= i < 2 && i < one.lines.len() ==> #[trigger] one.lines[i] == two.lines[i]
        }),
{
    if a.deck is None {
        law_root_without_deck_shows_nothing(opts, search_n, a);
        law_root_without_deck_shows_nothing(opts, search_n, b);
    } else if a.root is None {
        law_root_without_root_shows_the_opening(opts, search_n, a);
        law_root_without_root_shows_the_opening(opts, search_n, b);
    } else {
        lemma_searched_alike(opts, a, b, k);
        law_root_shows_every_round(opts, search_n, a, k);
        law_root_shows_every_round(opts, search_n, b, k);
        lemma_lines_of_run(opts, search_n, a, k);
        lemma_lines_of_run(opts, search_n, b, k);
    }
}

/// Of two runs whose actions come to the same, the searches come equally far.
proof fn lemma_searched_alike(opts: RootModel, a: RootAnswers, b: RootAnswers, k: int)
    requires
        same_answers(a, b),
        searched_up_to(opts, a, k),
    ensures
        searched_up_to(opts, b, k),
{
    assert((a.searches)(k) is Some == (b.searches)(k) is Some);
    assert forall|j: int| 0 <= j < k implies (#[trigger] (b.searches)(j)) is Some by {
        assert((a.searches)(j) is Some);
    }
}

/// The line about the same search of the same root differs in the time alone.
proof fn lemma_same_round_fields(
    opts: RootModel,
    root: RootPosition,
    other_root: RootPosition,
    round: nat,
    a: SearchFigures,
    b: SearchFigures,
)
    requires
        same_root(root, other_root),
        same_search(a, b),
    ensures
        differ_in_times(
            round_fields(opts, root, round, a),
            round_fields(opts, other_root, round, b),
        ),
{
}

/// Where the simulator repeats itself, so does the probe: two runs with the same
/// options whose actions come to the same but for the time they take do the same
/// things, succeed or fail alike, and show equally many lines. The two opening lines
/// are the same. Where `k` is the first round whose search fails, or the number of
/// rounds, the line of each round before `k` holds the same fields in both runs but for
/// the time, and so does the summary.
#[verifier::spinoff_prover]
pub proof fn law_root_repeats_itself(
    opts: RootModel,
    search_n: nat,
    a: RootAnswers,
    b: RootAnswers,
    k: int,
)
    requires
        same_answers(a, b),
        searched_up_to(opts, a, k),
    ensures
        ({
            let one = root_run(opts, search_n, a);
            let two = root_run(opts, search_n, b);
            &&& one.success == two.success
            &&& one.actions == two.actions
            &&& one.lines.len() == two.lines.len()
            &&& forall|i: int|
                0 <= i < 2 && i < one.lines.len() ==> #[trigger] one.lines[i] == two.lines[i]
            &&& a.deck is Some && a.root is Some ==> {
                &&& one.lines.len() == k + 2 + (if k == opts.rounds && opts.rounds > 1 {
                    1int
                } else {
                    0int
                })
                &&& forall|j: int|
                    0 <= j < k ==> {
                        let f = round_fields(
                            opts,
                            a.root->Some_0,
                            j as nat,
                            (a.searches)(j)->Some_0,
                        );
                        let g = round_fields(
                            opts,
                            b.root->Some_0,
                            j as nat,
                            (b.searches)(j)->Some_0,
                        );
                        &&& #[trigger] one.lines[j + 2] == line_of("ROOT"@, f)
                        &&& two.lines[j + 2] == line_of("ROOT"@, g)
                        &&& differ_in_times(f, g)
                    }
                &&& k == opts.rounds && opts.rounds > 1 ==> {
                    let f = median_fields(opts, a.times);
                    let g = median_fields(opts, b.times);
                    &&& one.lines[k + 2] == line_of("ROOT_MEDIAN"@, f)
                    &&& two.lines[k + 2] == line_of("ROOT_MEDIAN"@, g)
                    &&& differ_in_times(f, g)
                }
            }
        }),
{
    let one = root_run(opts, search_n, a);
    let two = root_run(opts, search_n, b);
    lemma_same_course(opts, search_n, a, b, k);
    if a.deck is Some && a.root is Some {
        lemma_searched_alike(opts, a, b, k);
        assert forall|j: int| 0 <= j < k implies {
            let f = round_fields(opts, a.root->Some_0, j as nat, (a.searches)(j)->Some_0);
            let g = round_fields(opts, b.root->Some_0, j as nat, (b.searches)(j)->Some_0);
            &&& #[trigger] one.lines[j + 2] == line_of("ROOT"@, f)
            &&& two.lines[j + 2] == line_of("ROOT"@, g)
            &&& differ_in_times(f, g)
        } by {
            lemma_line_of_round(opts, search_n, a, k, j);
            lemma_line_of_round(opts, search_n, b, k, j);
            assert((a.searches)(j) is Some);
            lemma_same_round_fields(
                opts,
                a.root->Some_0,
                b.root->Some_0,
                j as nat,
                (a.searches)(j)->Some_0,
                (b.searches)(j)->Some_0,
            );
        }
        lemma_lines_around_rounds(opts, search_n, a, k);
        lemma_lines_around_rounds(opts, search_n, b, k);
        lemma_same_median_fields(opts, a.times, b.times);
    }
}

/// How many lines a run shows that comes to the root, and the summary among them.
#[verifier::spinoff_prover]
proof fn lemma_lines_around_rounds(opts: RootModel, search_n: nat, answers: RootAnswers, k: int)
    requires
        answers.deck is Some,
        answers.root is Some,
        searched_up_to(opts, answers, k),
    ensures
        ({
            let lines = root_run(opts, search_n, answers).lines;
            let summed_up = k == opts.rounds && opts.rounds > 1;
            &&& lines.len() == k + 2 + (if summed_up {
                1int
            } else {
                0int
            })
            &&& summed_up ==> lines[k + 2] == line_of(
                "ROOT_MEDIAN"@,
                median_fields(opts, answers.times),
            )
        }),
{
    lemma_lines_of_run(opts, search_n, answers, k);
}

/// Every line about a search of a root with the same score and as many candidates, in
/// whichever round of whichever run, shows that score and that number, whatever the
/// options and the search configuration are.
#[verifier::spinoff_prover]
pub proof fn law_root_score_marks_the_root(
    opts: RootModel,
    other_opts: RootModel,
    search_n: nat,
    other_search_n: nat,
    a: RootAnswers,
    b: RootAnswers,
    k: int,
    other_k: int,
    i: int,
    j: int,
)
    requires
        a.deck is Some,
        b.deck is Some,
        a.root is Some,
        b.root is Some,
        a.root->Some_0.candidates == b.root->Some_0.candidates,
        a.root->Some_0.score@ == b.root->Some_0.score@,
        searched_up_to(opts, a, k),
        searched_up_to(other_opts, b, other_k),
        0 <= i < k,
        0 <= j < other_k,
    ensures
        ({
            let one = round_fields(opts, a.root->Some_0, i as nat, (a.searches)(i)->Some_0);
            let two = round_fields(other_opts, b.root->Some_0, j as nat, (b.searches)(j)->Some_0);
            &&& root_run(opts, search_n, a).lines[i + 2] == line_of("ROOT"@, one)
            &&& root_run(other_opts, other_search_n, b).lines[j + 2] == line_of("ROOT"@, two)
            &&& one[3].0 == "candidates"@ && one[3] == two[3]
            &&& one[7].0 == "root_score"@ && one[7] == two[7]
        }),
{
    lemma_line_of_round(opts, search_n, a, k, i);
    lemma_line_of_round(other_opts, other_search_n, b, other_k, j);
    lemma_root_fields(opts, a.root->Some_0, i as nat, (a.searches)(i)->Some_0);
    lemma_root_fields(other_opts, b.root->Some_0, j as nat, (b.searches)(j)->Some_0);
}

/// An event that a stage does not wait for, a failure among them, ends a run without a
/// line, and no other does.
pub proof fn law_unexpected_event_ends_the_run(
    opts: RootModel,
    search_n: nat,
    stage: RootStage,
    event: RootEvent,
)
    ensures
        ({
            let next = root_move(opts, search_n, stage, event);
            &&& next.action is Fail <==> !awaited(opts.rounds, stage, event)
            &&& next.action is Fail ==> next.stage is End && next.line is None
            &&& event is Failed ==> next.action is Fail
            &&& stage is End ==> next.action is Fail
        }),
{
}

/// The opening line of a run, one word after the other: it tells the options, the size
/// of the searches and the deck.
pub proof fn law_opening_line_tells_the_options(
    opts: RootModel,
    search_n: usize,
    answers: RootAnswers,
)
    requires
        answers.deck is Some,
    ensures
        ({
            let lines = root_run(opts, search_n as nat, answers).lines;
            &&& lines.len() > 0
            &&& exists|words: Seq<Seq<char>>|
                #![trigger words.len()]
                lines[0] == join(words, seq![' ']) && words.len() == 9 && words[0] == "INFO"@ && tells(
                    words[1],
                    "label"@,
                    opts.label,
                ) && tells_number(words[2], "uma"@, opts.uma as int) && tells_number(
                    words[3],
                    "turn"@,
                    opts.turn as int,
                ) && tells_number(words[4], "search_n"@, search_n as int) && tells_number(
                    words[5],
                    "rounds"@,
                    opts.rounds as int,
                ) && tells_number(words[6], "seed"@, opts.seed as int) && tells_number(
                    words[7],
                    "search_seed"@,
                    opts.search_seed as int,
                ) && (value_in(words[8], "deck"@) matches Some(list) && lists_deck(
                    list,
                    answers.deck->Some_0@,
                ))
        }),
{
    let deck = answers.deck->Some_0@;
    let words = line_words("INFO"@, info_fields(opts, search_n as nat, deck));
    law_info_fields_tell_the_options(opts, search_n, deck);
    lemma_first_line(opts, search_n as nat, answers);
    assert(words.len() == 9);
}

/// The first line of a run that has a deck.
#[verifier::spinoff_prover]
proof fn lemma_first_line(opts: RootModel, search_n: nat, answers: RootAnswers)
    requires
        answers.deck is Some,
    ensures
        root_run(opts, search_n, answers).lines.len() > 0,
        root_run(opts, search_n, answers).lines[0] == line_of(
            "INFO"@,
            info_fields(opts, search_n, answers.deck->Some_0@),
        ),
{
    if answers.root is None {
        law_root_without_root_shows_the_opening(opts, search_n, answers);
    } else {
        law_searches_stop_somewhere(opts, answers);
        let k = choose|k: int| searched_up_to(opts, answers, k);
        lemma_lines_of_run(opts, search_n, answers, k);
    }
}

/// The lines of the rounds of a run, one word after the other: the line of the round
/// with index `j` tells the target turn of the run and the number `j + 1`, and the
/// figures of that search of that root.
pub proof fn law_round_lines_tell_their_rounds(
    opts: RootModel,
    search_n: nat,
    answers: RootAnswers,
    k: int,
    j: int,
)
    requires
        answers.deck is Some,
        answers.root is Some,
        searched_up_to(opts, answers, k),
        0 <= j < k,
    ensures
        ({
            let root = answers.root->Some_0;
            let figures = (answers.searches)(j)->Some_0;
            exists|words: Seq<Seq<char>>|
                #![trigger words.len()]
                root_run(opts, search_n, answers).lines[j + 2] == join(words, seq![' '])
                    && words.len() == 10 && words[0] == "ROOT"@ && tells(
                    words[1],
                    "label"@,
                    opts.label,
                ) && tells_number(words[2], "turn"@, opts.turn as int) && tells_number(
                    words[3],
                    "round"@,
                    j + 1,
                ) && tells_number(words[4], "candidates"@, root.candidates as int) && tells_number(
                    words[5],
                    "searched"@,
                    figures.searched as int,
                ) && tells_number(words[6], "best"@, figures.best as int) && tells(
                    words[7],
                    "best_mean"@,
                    figures.best_mean@,
                ) && tells(words[8], "root_score"@, root.score@) && tells(
                    words[9],
                    "elapsed_ms"@,
                    figures.elapsed_ms@,
                )
        }),
{
    let root = answers.root->Some_0;
    let figures = (answers.searches)(j)->Some_0;
    let words = line_words("ROOT"@, round_fields(opts, root, j as nat, figures));
    lemma_line_of_round(opts, search_n, answers, k, j);
    law_round_fields_tell_the_search(opts, root, j as nat, figures);
    assert(words.len() == 10);
}

/// The line of each round of a run, taken apart at its blanks, tells the target turn of
/// the run and the number of the round, where the label and the figures given as text
/// hold no blank: two runs to different turns differ there in every round.
pub proof fn law_runs_to_different_turns_show_it(
    opts: RootModel,
    search_n: nat,
    answers: RootAnswers,
    k: int,
    j: int,
)
    requires
        answers.deck is Some,
        answers.root is Some,
        searched_up_to(opts, answers, k),
        0 <= j < k,
        !opts.label.contains(' ') && !opts.label.contains('\n'),
        ({
            let figures = (answers.searches)(j)->Some_0;
            &&& !figures.best_mean@.contains(' ') && !figures.best_mean@.contains('\n')
            &&& !figures.elapsed_ms@.contains(' ') && !figures.elapsed_ms@.contains('\n')
        }),
        !answers.root->Some_0.score@.contains(' '),
        !answers.root->Some_0.score@.contains('\n'),
    ensures
        ({
            let words = split(root_run(opts, search_n, answers).lines[j + 2], ' ');
            &&& words[0] == "ROOT"@
            &&& tells_number(words[2], "turn"@, opts.turn as int)
            &&& tells_number(words[3], "round"@, j + 1)
            &&& forall|turn: int|
                turn != opts.turn ==> !#[trigger] tells_number(words[2], "turn"@, turn)
        }),
{
    lemma_line_of_round(opts, search_n, answers, k, j);
    law_round_line_is_read_back(
        opts,
        answers.root->Some_0,
        j as nat,
        (answers.searches)(j)->Some_0,
    );
}

/// The last line of a run of several rounds, one word after the other: it tells the
/// target turn, the number of rounds and the figures of their times.
pub proof fn law_summary_line_tells_the_rounds(
    opts: RootModel,
    search_n: nat,
    answers: RootAnswers,
)
    requires
        answers.deck is Some,
        answers.root is Some,
        opts.rounds > 1,
        searched_up_to(opts, answers, opts.rounds as int),
    ensures
        ({
            let lines = root_run(opts, search_n, answers).lines;
            let times = answers.times;
            &&& lines.len() == opts.rounds + 3
            &&& exists|words: Seq<Seq<char>>|
                #![trigger words.len()]
                lines[opts.rounds + 2] == join(words, seq![' ']) && words.len() == 9 && words[0]
                    == "ROOT_MEDIAN"@ && tells(words[1], "label"@, opts.label) && tells_number(
                    words[2],
                    "turn"@,
                    opts.turn as int,
                ) && tells_number(words[3], "rounds"@, opts.rounds as int) && tells(
                    words[4],
                    "median_ms"@,
                    times.median@,
                ) && tells(words[5], "mean_ms"@, times.mean@) && tells(
                    words[6],
                    "min_ms"@,
                    times.min@,
                ) && tells(words[7], "max_ms"@, times.max@) && tells(
                    words[8],
                    "std_ms"@,
                    times.std@,
                )
        }),
{
    let words = line_words("ROOT_MEDIAN"@, median_fields(opts, answers.times));
    lemma_lines_around_rounds(opts, search_n, answers, opts.rounds as int);
    law_median_fields_tell_the_rounds(opts, answers.times);
    assert(words.len() == 9);
}

} // verus!

//! The walk of a game to the training decision at which searches are timed.

use vstd::prelude::*;
use vstd::string::*;

use crate::error::ProbeError;
#[allow(unused_imports)]
use crate::error::ErrorModel;

verus! {

/// The most steps that a walk takes.
pub const STEP_LIMIT: usize = 1000;

/// The stage of a turn.
#[derive(Debug)]
pub enum Stage {
    /// The training decision.
    Train,
    /// Any other stage, with the name it is shown under.
    Other { name: String },
}

/// `Stage` with its name as a sequence of characters.
pub enum StageModel {
    Train,
    Other { name: Seq<char> },
}

impl View for Stage {
    type V = StageModel;

    open spec fn view(&self) -> StageModel {
        match *self {
            Stage::Train => StageModel::Train,
            Stage::Other { name } => StageModel::Other { name: name@ },
        }
    }
}

/// The name that a stage is shown under.
pub open spec fn stage_name(stage: StageModel) -> Seq<char> {
    match stage {
        StageModel::Train => "Train"@,
        StageModel::Other { name } => name,
    }
}

/// What just happened to the game.
#[derive(Debug)]
pub enum AdvanceEvent {
    /// The game was set up.
    Started,
    /// The current stage was played.
    StagePlayed,
    /// The game moved on to the next stage.
    Moved { turn: i32, stage: Stage },
    /// The game is over: there is no next stage.
    Ended,
    /// The actions open at the current stage were counted.
    Counted { actions: usize },
}

/// `AdvanceEvent` with its stage as a model.
pub enum EventModel {
    Started,
    StagePlayed,
    Moved { turn: int, stage: StageModel },
    Ended,
    Counted { actions: nat },
}

impl View for AdvanceEvent {
    type V = EventModel;

    open spec fn view(&self) -> EventModel {
        match *self {
            AdvanceEvent::Started => EventModel::Started,
            AdvanceEvent::StagePlayed => EventModel::StagePlayed,
            AdvanceEvent::Moved { turn, stage } => EventModel::Moved {
                turn: turn as int,
                stage: stage@,
            },
            AdvanceEvent::Ended => EventModel::Ended,
            AdvanceEvent::Counted { actions } => EventModel::Counted { actions: actions as nat },
        }
    }
}

/// What to do with the game.
#[derive(Debug)]
pub enum AdvanceAction {
    /// Play the current stage.
    PlayStage,
    /// Move on to the next stage.
    Move,
    /// Count the actions open at the current stage.
    CountActions,
    /// Search here: this is the training root.
    Search,
    /// Give up.
    Fail { error: ProbeError },
}

/// `AdvanceAction` with its error as a model.
pub enum ActionModel {
    PlayStage,
    Move,
    CountActions,
    Search,
    Fail { error: ErrorModel },
}

impl View for AdvanceAction {
    type V = ActionModel;

    open spec fn view(&self) -> ActionModel {
        match *self {
            AdvanceAction::PlayStage => ActionModel::PlayStage,
            AdvanceAction::Move => ActionModel::Move,
            AdvanceAction::CountActions => ActionModel::CountActions,
            AdvanceAction::Search => ActionModel::Search,
            AdvanceAction::Fail { error } => ActionModel::Fail { error: error@ },
        }
    }
}

/// The number of steps taken after `event`, and what to do next.
pub open spec fn advance(target: int, steps: nat, event: EventModel) -> (nat, ActionModel) {
    match event {
        EventModel::Started => (steps, ActionModel::PlayStage),
        EventModel::StagePlayed => (steps, ActionModel::Move),
        EventModel::Ended => (
            steps,
            ActionModel::Fail { error: ErrorModel::GameOver { target } },
        ),
        EventModel::Moved { turn, stage } => if steps >= STEP_LIMIT {
            (steps, ActionModel::Fail { error: ErrorModel::StepLimit { target } })
        } else if turn > target {
            (
                steps + 1,
                ActionModel::Fail {
                    error: ErrorModel::TurnPassed { target, turn, stage: stage_name(stage) },
                },
            )
        } else if turn == target && stage == StageModel::Train {
            (steps + 1, ActionModel::CountActions)
        } else {
            (steps + 1, ActionModel::PlayStage)
        },
        EventModel::Counted { actions } => if actions > 1 {
            (steps, ActionModel::Search)
        } else {
            (steps, ActionModel::PlayStage)
        },
    }
}

/// Decides what to do with a game that is to be brought to the training decision of
/// `target_turn`, after `steps` moves and the event that followed the last action.
/// Returns the number of moves and the action.
pub fn advance_to_train_root(target_turn: i32, steps: usize, event: AdvanceEvent) -> (r: (
    usize,
    AdvanceAction,
))
    ensures
        (r.0 as nat, r.1@) == advance(target_turn as int, steps as nat, event@),
        r.0 == (if event is Moved && steps < 1000 {
            steps + 1
        } else {
            steps as int
        }),
        r.1 is Move <==> event is StagePlayed,
        r.1 is PlayStage <==> match event {
            AdvanceEvent::Started => true,
            AdvanceEvent::Moved { turn, stage } => steps < 1000 && (turn < target_turn || turn
                == target_turn && stage is Other),
            AdvanceEvent::Counted { actions } => actions <= 1,
            _ => false,
        },
        r.1 is CountActions <==> (event matches AdvanceEvent::Moved { turn, stage } && steps < 1000
            && turn == target_turn && stage is Train),
        r.1 is Search <==> (event matches AdvanceEvent::Counted { actions } && actions > 1),
        r.1 is Fail <==> match event {
            AdvanceEvent::Ended => true,
            AdvanceEvent::Moved { turn, stage } => steps >= 1000 || turn > target_turn,
            _ => false,
        },
{
    match event {
        AdvanceEvent::Started => (steps, AdvanceAction::PlayStage),
        AdvanceEvent::StagePlayed => (steps, AdvanceAction::Move),
        AdvanceEvent::Ended => (
            steps,
            AdvanceAction::Fail { error: ProbeError::GameOver { target: target_turn } },
        ),
        AdvanceEvent::Moved { turn, stage } => {
            if steps >= STEP_LIMIT {
                return (
                    steps,
                    AdvanceAction::Fail { error: ProbeError::StepLimit { target: target_turn } },
                );
            }
            if turn > target_turn {
                let name = match stage {
                    Stage::Train => "Train".to_owned(),
                    Stage::Other { name } => name,
                };
                return (
                    steps + 1,
                    AdvanceAction::Fail {
                        error: ProbeError::TurnPassed { target: target_turn, turn, stage: name },
                    },
                );
            }
            match stage {
                Stage::Train if turn == target_turn => (steps + 1, AdvanceAction::CountActions),
                _ => (steps + 1, AdvanceAction::PlayStage),
            }
        },
        AdvanceEvent::Counted { actions } => {
            if actions > 1 {
                (steps, AdvanceAction::Search)
            } else {
                (steps, AdvanceAction::PlayStage)
            }
        },
    }
}

/// A stage that a game moves on to: its turn, its kind and the number of actions
/// open at it.
pub struct Position {
    pub turn: int,
    pub stage: StageModel,
    pub actions: nat,
}

/// How a walk ends.
pub enum WalkEnd {
    /// At the position with this index.
    Reached { index: int },
    /// With a failure.
    Failed { error: ErrorModel },
}

/// The order of events between two moves.
pub open spec fn event_rank(event: EventModel) -> nat {
    match event {
        EventModel::Started => 4,
        EventModel::Moved { turn, stage } => 3,
        EventModel::Counted { actions } => 2,
        EventModel::StagePlayed => 1,
        EventModel::Ended => 0,
    }
}

/// How a walk through a game ends, if the game moves on to the positions of `game`
/// one after the other, `moved` of them so far, and is over behind the last; each
/// action is carried out and its outcome handed to the next decision.
pub open spec fn walk(
    target: int,
    game: Seq<Position>,
    moved: nat,
    steps: nat,
    event: EventModel,
) -> WalkEnd
    decreases game.len() - moved, event_rank(event),
{
    let next = advance(target, steps, event);
    match next.1 {
        ActionModel::PlayStage => walk(target, game, moved, next.0, EventModel::StagePlayed),
        ActionModel::Move => if moved < game.len() {
            let at = game[moved as int];
            walk(
                target,
                game,
                moved + 1,
                next.0,
                EventModel::Moved { turn: at.turn, stage: at.stage },
            )
        } else {
            walk(target, game, moved, next.0, EventModel::Ended)
        },
        ActionModel::CountActions => walk(
            target,
            game,
            moved,
            next.0,
            EventModel::Counted { actions: game[moved - 1].actions },
        ),
        ActionModel::Search => WalkEnd::Reached { index: moved - 1 },
        ActionModel::Fail { error } => WalkEnd::Failed { error },
    }
}

/// How a walk from the start of a game ends.
pub open spec fn whole_walk(target: int, game: Seq<Position>) -> WalkEnd {
    walk(target, game, 0, 0, EventModel::Started)
}

/// Whether `at` is the training root of turn `target`: a training decision of that
/// turn with a choice of actions.
pub open spec fn is_root(target: int, at: Position) -> bool {
    at.turn == target && at.stage == StageModel::Train && at.actions > 1
}

/// Whether a walk to turn `target` goes on behind `at`.
pub open spec fn goes_on(target: int, at: Position) -> bool {
    at.turn <= target && !is_root(target, at)
}

/// Whether a walk to turn `target` gets as far as the position with index `k`, or
/// to the end of the game where `k` is its length, and no further.
pub open spec fn stops_at(target: int, game: Seq<Position>, k: int) -> bool {
    &&& 0 <= k <= game.len()
    &&& k <= STEP_LIMIT
    &&& forall|j: int| 0 <= j < k ==> goes_on(target, #[trigger] game[j])
    &&& k == game.len() || k == STEP_LIMIT || !goes_on(target, game[k])
}

/// Every walk stops somewhere.
pub proof fn law_every_walk_stops(target: int, game: Seq<Position>)
    ensures
        exists|k: int| stops_at(target, game, k),
{
    lemma_stop_from(target, game, 0);
}

proof fn lemma_stop_from(target: int, game: Seq<Position>, k: int)
    requires
        0 <= k <= game.len(),
        k <= STEP_LIMIT,
        forall|j: int| 0 <= j < k ==> goes_on(target, #[trigger] game[j]),
    ensures
        exists|i: int| stops_at(target, game, i),
    decreases game.len() - k,
{
    if k == game.len() || k == STEP_LIMIT || !goes_on(target, game[k]) {
        assert(stops_at(target, game, k));
    } else {
        lemma_stop_from(target, game, k + 1);
    }
}

/// A walk that stops at `k` ends there: in the training root if that is what stands
/// there, else with the failure that says why it goes no further. The end of the
/// game is noticed before the step limit, and the step limit before the turn.
pub proof fn law_walk_ends_where_it_stops(target: int, game: Seq<Position>, k: int)
    requires
        stops_at(target, game, k),
    ensures
        whole_walk(target, game) == (if k == game.len() {
            WalkEnd::Failed { error: ErrorModel::GameOver { target } }
        } else if k == STEP_LIMIT {
            WalkEnd::Failed { error: ErrorModel::StepLimit { target } }
        } else if game[k].turn > target {
            WalkEnd::Failed {
                error: ErrorModel::TurnPassed {
                    target,
                    turn: game[k].turn,
                    stage: stage_name(game[k].stage),
                },
            }
        } else {
            WalkEnd::Reached { index: k }
        }),
{
    lemma_walk_from(target, game, k, 0);
    assert(whole_walk(target, game) == walk(target, game, 0, 0, EventModel::StagePlayed)) by {
        reveal_with_fuel(walk, 2);
    }
}

/// The walk from the position before `moved` on.
proof fn lemma_walk_from(target: int, game: Seq<Position>, k: int, moved: nat)
    requires
        stops_at(target, game, k),
        moved <= k,
    ensures
        walk(target, game, moved, moved, EventModel::StagePlayed) == (if k == game.len() {
            WalkEnd::Failed { error: ErrorModel::GameOver { target } }
        } else if k == STEP_LIMIT {
            WalkEnd::Failed { error: ErrorModel::StepLimit { target } }
        } else if game[k].turn > target {
            WalkEnd::Failed {
                error: ErrorModel::TurnPassed {
                    target,
                    turn: game[k].turn,
                    stage: stage_name(game[k].stage),
                },
            }
        } else {
            WalkEnd::Reached { index: k }
        }),
    decreases k - moved,
{
    reveal_with_fuel(walk, 5);
    if moved < k {
        assert(goes_on(target, game[moved as int]));
        lemma_walk_from(target, game, k, moved + 1);
    }
}

/// A walk reaches the first training root of its turn, within the step limit and
/// with no later turn in front of it; and where there is one, it reaches it.
pub proof fn law_walk_reaches_the_first_root(target: int, game: Seq<Position>, k: int)
    ensures
        whole_walk(target, game) == (WalkEnd::Reached { index: k }) <==> {
            &&& 0 <= k < game.len()
            &&& k < STEP_LIMIT
            &&& is_root(target, game[k])
            &&& forall|j: int| 0 <= j < k ==> goes_on(target, #[trigger] game[j])
        },
{
    law_every_walk_stops(target, game);
    let stop = choose|i: int| stops_at(target, game, i);
    law_walk_ends_where_it_stops(target, game, stop);
    if 0 <= k < game.len() && k < STEP_LIMIT && is_root(target, game[k]) && (forall|j: int|
        0 <= j < k ==> goes_on(target, #[trigger] game[j])) {
        assert(stops_at(target, game, k));
        law_walk_ends_where_it_stops(target, game, k);
    }
}

/// Where turns only go forward, a game that has passed the target turn never comes
/// to its training root any more: to give up there gives up nothing.
pub proof fn law_passed_turn_does_not_come_back(target: int, game: Seq<Position>, k: int)
    requires
        0 <= k < game.len(),
        game[k].turn > target,
        forall|i: int, j: int|
            0 <= i <= j < game.len() ==> (#[trigger] game[i]).turn <= (#[trigger] game[j]).turn,
    ensures
        forall|j: int| k <= j < game.len() ==> !is_root(target, #[trigger] game[j]),
{
}

/// Where the simulator repeats itself, so does the walk: two games that agree up to
/// where the walk through one of them stops lead to the same end, be it a root or a
/// failure, whatever follows.
pub proof fn law_equal_games_end_alike(
    target: int,
    game: Seq<Position>,
    other: Seq<Position>,
    k: int,
)
    requires
        stops_at(target, game, k),
        if k < game.len() {
            k < other.len()
        } else {
            other.len() == game.len()
        },
        forall|j: int| 0 <= j <= k && j < game.len() ==> #[trigger] game[j] == other[j],
    ensures
        whole_walk(target, other) == whole_walk(target, game),
{
    assert forall|j: int| 0 <= j < k implies goes_on(target, #[trigger] other[j]) by {
        assert(game[j] == other[j]);
    }
    if k < game.len() {
        assert(game[k] == other[k]);
    }
    assert(stops_at(target, other, k));
    law_walk_ends_where_it_stops(target, game, k);
    law_walk_ends_where_it_stops(target, other, k);
}

/// What a walk through a game does, one action after the other, if the game answers
/// as in `walk`.
pub open spec fn walk_actions(
    target: int,
    game: Seq<Position>,
    moved: nat,
    steps: nat,
    event: EventModel,
) -> Seq<ActionModel>
    decreases game.len() - moved, event_rank(event),
{
    let next = advance(target, steps, event);
    seq![next.1] + match next.1 {
        ActionModel::PlayStage => walk_actions(
            target,
            game,
            moved,
            next.0,
            EventModel::StagePlayed,
        ),
        ActionModel::Move => if moved < game.len() {
            let at = game[moved as int];
            walk_actions(
                target,
                game,
                moved + 1,
                next.0,
                EventModel::Moved { turn: at.turn, stage: at.stage },
            )
        } else {
            walk_actions(target, game, moved, next.0, EventModel::Ended)
        },
        ActionModel::CountActions => walk_actions(
            target,
            game,
            moved,
            next.0,
            EventModel::Counted { actions: game[moved - 1].actions },
        ),
        ActionModel::Search => Seq::empty(),
        ActionModel::Fail { error } => Seq::empty(),
    }
}

/// What a walk from the start of a game does.
pub open spec fn whole_walk_actions(target: int, game: Seq<Position>) -> Seq<ActionModel> {
    walk_actions(target, game, 0, 0, EventModel::Started)
}

/// How many of `actions` play a stage.
pub open spec fn plays(actions: Seq<ActionModel>) -> nat
    decreases actions.len(),
{
    if actions.len() == 0 {
        0
    } else {
        plays(actions.drop_first()) + if actions[0] is PlayStage {
            1nat
        } else {
            0nat
        }
    }
}

/// How many of `actions` move the game on.
pub open spec fn moves(actions: Seq<ActionModel>) -> nat
    decreases actions.len(),
{
    if actions.len() == 0 {
        0
    } else {
        moves(actions.drop_first()) + if actions[0] is Move {
            1nat
        } else {
            0nat
        }
    }
}

/// Whether each stage that `actions` play is followed by a move at once, each move
/// but a first action comes at once behind a stage played, counting comes at once
/// behind a move, and the last action, and no other, is a search or a failure.
pub open spec fn takes_turns(actions: Seq<ActionModel>) -> bool {
    &&& actions.len() > 0
    &&& actions.last() is Search || actions.last() is Fail
    &&& forall|i: int|
        #![trigger actions[i]]
        0 <= i < actions.len() - 1 ==> {
            &&& !(actions[i] is Search) && !(actions[i] is Fail)
            &&& actions[i] is PlayStage <==> actions[i + 1] is Move
            &&& actions[i + 1] is CountActions ==> actions[i] is Move
            &&& actions[i + 1] is Search ==> actions[i] is CountActions
        }
}

/// An action in front of a walk.
proof fn lemma_one_in_front(action: ActionModel, rest: Seq<ActionModel>)
    ensures
        plays(seq![action] + rest) == plays(rest) + if action is PlayStage {
            1nat
        } else {
            0nat
        },
        moves(seq![action] + rest) == moves(rest) + if action is Move {
            1nat
        } else {
            0nat
        },
        takes_turns(rest) && !(action is Search) && !(action is Fail) && (action is PlayStage
            <==> rest[0] is Move) && (rest[0] is CountActions ==> action is Move) && (rest[0] is Search
            ==> action is CountActions) ==> takes_turns(seq![action] + rest),
{
    let all = seq![action] + rest;
    assert(all.drop_first() =~= rest);
    if takes_turns(rest) && !(action is Search) && !(action is Fail) && (action is PlayStage
        <==> rest[0] is Move) && (rest[0] is CountActions ==> action is Move) && (rest[0] is Search
        ==> action is CountActions) {
        assert(all.last() == rest.last());
        assert forall|i: int| #![trigger all[i]] 0 <= i < all.len() - 1 implies {
            &&& !(all[i] is Search) && !(all[i] is Fail)
            &&& all[i] is PlayStage <==> all[i + 1] is Move
            &&& all[i + 1] is CountActions ==> all[i] is Move
            &&& all[i + 1] is Search ==> all[i] is CountActions
        } by {
            assert(all[i + 1] == rest[i]);
            if i > 0 {
                assert(all[i] == rest[i - 1]);
            }
        }
    }
}

/// The last action of a walk.
proof fn lemma_last_action(action: ActionModel)
    requires
        action is Search || action is Fail,
    ensures
        takes_turns(seq![action]),
        plays(seq![action]) == 0,
        moves(seq![action]) == 0,
        seq![action] + Seq::empty() == seq![action],
{
    assert(seq![action].drop_first() =~= Seq::empty());
    assert(plays(seq![action].drop_first()) == 0);
    assert(moves(seq![action].drop_first()) == 0);
    assert(seq![action] + Seq::empty() =~= seq![action]);
}

/// What a walk does from the position before `moved` on.
proof fn lemma_walk_actions_from(target: int, game: Seq<Position>, k: int, moved: nat)
    requires
        stops_at(target, game, k),
        moved <= k,
    ensures
        ({
            let actions = walk_actions(target, game, moved, moved, EventModel::StagePlayed);
            &&& takes_turns(actions)
            &&& actions[0] is Move
            &&& plays(actions) == k - moved
            &&& moves(actions) == k - moved + 1
        }),
    decreases k - moved,
{
    let all = walk_actions(target, game, moved, moved, EventModel::StagePlayed);
    if moved == game.len() {
        let end = walk_actions(target, game, moved, moved, EventModel::Ended);
        let fail = advance(target, moved, EventModel::Ended).1;
        lemma_last_action(fail);
        assert(end == seq![fail]);
        lemma_one_in_front(ActionModel::Move, end);
        assert(all == seq![ActionModel::Move] + end);
    } else {
        let at = game[moved as int];
        let event = EventModel::Moved { turn: at.turn, stage: at.stage };
        let there = walk_actions(target, game, moved + 1, moved, event);
        let next = advance(target, moved, event).1;
        assert(all == seq![ActionModel::Move] + there);
        let counted = EventModel::Counted { actions: at.actions };
        let after = walk_actions(target, game, moved + 1, moved + 1, counted);
        if moved < k {
            assert(goes_on(target, at));
            lemma_walk_actions_from(target, game, k, moved + 1);
            let rest = walk_actions(
                target,
                game,
                moved + 1,
                moved + 1,
                EventModel::StagePlayed,
            );
            let played = seq![ActionModel::PlayStage] + rest;
            lemma_one_in_front(ActionModel::PlayStage, rest);
            if next is CountActions {
                assert(after == played);
                assert(there == seq![ActionModel::CountActions] + played);
                lemma_one_in_front(ActionModel::CountActions, played);
            } else {
                assert(there == played);
            }
        } else if next is Fail {
            lemma_last_action(next);
            assert(there == seq![next]);
        } else {
            assert(!goes_on(target, at));
            lemma_last_action(ActionModel::Search);
            assert(after == seq![ActionModel::Search]);
            assert(there == seq![ActionModel::CountActions] + after);
            lemma_one_in_front(ActionModel::CountActions, after);
        }
        lemma_one_in_front(ActionModel::Move, there);
    }
}

/// On a walk that goes on past a position, the stage at that position is played once
/// before the next move. The walk starts with the stage at the start of the game; each
/// stage played is followed by a move at once, each move comes at once behind a stage
/// played, and so a walk that gets as far as the position with index `k`, or to the end
/// of a game of `k` positions, plays `k + 1` stages and moves as often.
pub proof fn law_each_stage_is_played_once(target: int, game: Seq<Position>, k: int)
    requires
        stops_at(target, game, k),
    ensures
        ({
            let actions = whole_walk_actions(target, game);
            &&& takes_turns(actions)
            &&& actions[0] is PlayStage
            &&& plays(actions) == k + 1
            &&& moves(actions) == k + 1
        }),
{
    lemma_walk_actions_from(target, game, k, 0);
    let rest = walk_actions(target, game, 0, 0, EventModel::StagePlayed);
    lemma_one_in_front(ActionModel::PlayStage, rest);
    assert(whole_walk_actions(target, game) == seq![ActionModel::PlayStage] + rest);
}

/// A walk that reaches the position with index `k` plays the `k` stages before it and
/// the one at the start of the game, and not the one there.
pub proof fn law_reached_root_is_not_played(target: int, game: Seq<Position>, k: int)
    requires
        whole_walk(target, game) == (WalkEnd::Reached { index: k }),
    ensures
        plays(whole_walk_actions(target, game)) == k + 1,
        moves(whole_walk_actions(target, game)) == k + 1,
        whole_walk_actions(target, game).last() is Search,
{
    law_walk_reaches_the_first_root(target, game, k);
    assert(stops_at(target, game, k));
    law_each_stage_is_played_once(target, game, k);
    lemma_walk_and_actions(target, game, 0, 0, EventModel::Started);
}

/// A walk ends in a root exactly where its last action is a search, and in a failure
/// exactly where its last action is that failure.
proof fn lemma_walk_and_actions(
    target: int,
    game: Seq<Position>,
    moved: nat,
    steps: nat,
    event: EventModel,
)
    ensures
        walk_actions(target, game, moved, steps, event).len() > 0,
        walk(target, game, moved, steps, event) is Reached <==> walk_actions(
            target,
            game,
            moved,
            steps,
            event,
        ).last() is Search,
        walk(target, game, moved, steps, event) matches WalkEnd::Failed { error } ==> walk_actions(
            target,
            game,
            moved,
            steps,
            event,
        ).last() == (ActionModel::Fail { error }),
    decreases game.len() - moved, event_rank(event),
{
    let next = advance(target, steps, event);
    match next.1 {
        ActionModel::PlayStage => {
            lemma_walk_and_actions(target, game, moved, next.0, EventModel::StagePlayed);
        },
        ActionModel::Move => {
            if moved < game.len() {
                let at = game[moved as int];
                lemma_walk_and_actions(
                    target,
                    game,
                    moved + 1,
                    next.0,
                    EventModel::Moved { turn: at.turn, stage: at.stage },
                );
            } else {
                lemma_walk_and_actions(target, game, moved, next.0, EventModel::Ended);
            }
        },
        ActionModel::CountActions => {
            lemma_walk_and_actions(
                target,
                game,
                moved,
                next.0,
                EventModel::Counted { actions: game[moved - 1].actions },
            );
        },
        _ => {},
    }
}

/// A walk ends at a position exactly where it is the first with two actions or more at
/// the training decision of the target turn, is one of the first thousand positions,
/// and no position before it is of a later turn.
pub proof fn law_reached_root_offers_a_choice(target: int, game: Seq<Position>, k: int)
    ensures
        whole_walk(target, game) == (WalkEnd::Reached { index: k }) <==> {
            &&& 0 <= k < game.len() && k <= 999
            &&& game[k].turn == target && game[k].stage == StageModel::Train && game[k].actions >= 2
            &&& forall|j: int|
                0 <= j < k ==> (#[trigger] game[j]).turn <= target && (game[j].turn < target
                    || game[j].stage is Other || game[j].actions < 2)
        },
{
    law_walk_reaches_the_first_root(target, game, k);
    if whole_walk(target, game) == (WalkEnd::Reached { index: k }) {
        assert forall|j: int| 0 <= j < k implies (#[trigger] game[j]).turn <= target && (game[j].turn
            < target || game[j].stage is Other || game[j].actions < 2) by {
            assert(goes_on(target, game[j]));
        }
    } else if 0 <= k < game.len() && k <= 999 && is_root(target, game[k]) && (forall|j: int|
        0 <= j < k ==> (#[trigger] game[j]).turn <= target && (game[j].turn < target
            || game[j].stage is Other || game[j].actions < 2)) {
        assert forall|j: int| 0 <= j < k implies goes_on(target, #[trigger] game[j]) by {
            assert(game[j].turn <= target);
        }
    }
}

/// A walk that comes to none of the first thousand positions at which it could end
/// gives up for the step limit, naming its target, where there is a further position,
/// and for the end of the game where there is none.
pub proof fn law_walk_gives_up_after_a_thousand_moves(target: int, game: Seq<Position>)
    requires
        forall|j: int|
            0 <= j < game.len() && j < 1000 ==> (#[trigger] game[j]).turn <= target && (
            game[j].turn < target || game[j].stage is Other || game[j].actions < 2),
    ensures
        game.len() > 1000 ==> whole_walk(target, game) == (WalkEnd::Failed {
            error: ErrorModel::StepLimit { target },
        }),
        game.len() <= 1000 ==> whole_walk(target, game) == (WalkEnd::Failed {
            error: ErrorModel::GameOver { target },
        }),
{
    let k: int = if game.len() > 1000 {
        1000
    } else {
        game.len() as int
    };
    assert forall|j: int| 0 <= j < k implies goes_on(target, #[trigger] game[j]) by {
        assert(game[j].turn <= target);
    }
    assert(stops_at(target, game, k));
    law_walk_ends_where_it_stops(target, game, k);
}

/// A walk that comes to a later turn among the first thousand positions, and to no root
/// before it, gives up there, naming its target, that turn, and the stage: `Train`, or
/// the name of any other.
pub proof fn law_passed_turn_is_reported(target: int, game: Seq<Position>, k: int)
    requires
        0 <= k < game.len() && k < 1000,
        game[k].turn > target,
        forall|j: int|
            0 <= j < k ==> (#[trigger] game[j]).turn <= target && (game[j].turn < target
                || game[j].stage is Other || game[j].actions < 2),
    ensures
        whole_walk(target, game) matches WalkEnd::Failed { error } && error matches
            ErrorModel::TurnPassed { target: wanted, turn, stage } && wanted == target && turn
            == game[k].turn && (match game[k].stage {
            StageModel::Train => stage == "Train"@,
            StageModel::Other { name } => stage == name,
        }),
{
    assert forall|j: int| 0 <= j < k implies goes_on(target, #[trigger] game[j]) by {
        assert(game[j].turn <= target);
    }
    assert(stops_at(target, game, k));
    law_walk_ends_where_it_stops(target, game, k);
}

/// The models of a stage, an event and an action hold all that these do.
pub proof fn law_walk_models_are_faithful(stage: Stage, event: AdvanceEvent, action: AdvanceAction)
    ensures
        stage is Train <==> stage@ is Train,
        stage matches Stage::Other { name } ==> stage@ == (StageModel::Other { name: name@ }),
        event is Started <==> event@ is Started,
        event is StagePlayed <==> event@ is StagePlayed,
        event is Ended <==> event@ is Ended,
        event matches AdvanceEvent::Moved { turn, stage: at } ==> event@ == (EventModel::Moved {
            turn: turn as int,
            stage: at@,
        }),
        event matches AdvanceEvent::Counted { actions } ==> event@ == (EventModel::Counted {
            actions: actions as nat,
        }),
        action is PlayStage <==> action@ is PlayStage,
        action is Move <==> action@ is Move,
        action is CountActions <==> action@ is CountActions,
        action is Search <==> action@ is Search,
        action matches AdvanceAction::Fail { error } ==> action@ == (ActionModel::Fail {
            error: error@,
        }),
{
}

} // verus!

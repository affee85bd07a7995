//! The history of synchronized game states, kept in step with what is
//! observed of the target so that recent progress can be rolled back.

use vstd::prelude::*;
use crate::piece_gen::{advanced, initial_model, next_model, outputs, GenModel, Piece, PieceGenerator, WARM_UP};
use crate::state::{blank_view, same_queue, State, StateView};

verus! {

/// How many upcoming pieces each game state predicts.
pub const LOOKAHEAD: usize = 5;

/// What a `GameState` holds, as mathematical values.
pub struct GameStateView {
    pub generator: GenModel,
    pub queue: Seq<Piece>,
    pub state: StateView,
}

/// One synchronized moment: the generator, the predicted upcoming pieces
/// (oldest first) and the last observed state.
#[derive(Clone)]
pub struct GameState {
    pub generator: PieceGenerator,
    pub queue: Vec<Piece>,
    state: State,
}

impl View for GameState {
    type V = GameStateView;

    closed spec fn view(&self) -> GameStateView {
        GameStateView { generator: self.generator@, queue: self.queue@, state: self.state@ }
    }
}

/// A fresh game from `seed`: the first `LOOKAHEAD` pieces are predicted and
/// the generator continues after them.
pub open spec fn new_game_view(seed: u32, state: StateView) -> GameStateView {
    let g0 = initial_model(seed, WARM_UP as nat);
    GameStateView {
        generator: advanced(g0, LOOKAHEAD as nat),
        queue: outputs(g0, LOOKAHEAD as nat),
        state,
    }
}

/// `gs` after one piece is consumed: the oldest prediction leaves and the
/// generator's next piece joins at the end.
pub open spec fn consumed(gs: GameStateView) -> GameStateView {
    GameStateView {
        generator: next_model(gs.generator).1,
        queue: gs.queue.drop_first().push(next_model(gs.generator).0),
        state: gs.state,
    }
}

/// The policy that decides whether a piece was consumed between two
/// observations: the next-queue changed.
pub open spec fn piece_consumed(prev: StateView, next: StateView) -> bool {
    prev.next_queue != next.next_queue
}

/// The entry that follows `last` once `observed` is reconciled with it.
pub open spec fn reconciled(last: GameStateView, observed: StateView) -> GameStateView {
    let base = if piece_consumed(last.state, observed) {
        consumed(last)
    } else {
        last
    };
    GameStateView { generator: base.generator, queue: base.queue, state: observed }
}

/// The history after reconciling `observed` with its last entry; an empty
/// history has nothing to reconcile with and stays empty.
pub open spec fn pushed_state(h: Seq<GameStateView>, observed: StateView) -> Seq<GameStateView> {
    if h.len() == 0 {
        h
    } else {
        h.push(reconciled(h.last(), observed))
    }
}

/// The history after `observed` arrives: unchanged when it is empty or
/// when `observed` equals the last observed state.
pub open spec fn updated(h: Seq<GameStateView>, observed: StateView) -> Seq<GameStateView> {
    if h.len() == 0 || h.last().state == observed {
        h
    } else {
        pushed_state(h, observed)
    }
}

/// Every entry predicts exactly `LOOKAHEAD` pieces.
pub open spec fn well_formed(h: Seq<GameStateView>) -> bool {
    forall|i: int| 0 <= i < h.len() ==> (#[trigger] h[i]).queue.len() == LOOKAHEAD
}

impl GameState {
    /// A fresh game from `seed` with `state` as its observed state.
    pub fn new(seed: u32, state: State) -> (r: Self)
        ensures
            r@ == new_game_view(seed, state@),
    {
        let mut generator = PieceGenerator::new(seed);
        let queue = generator.take(LOOKAHEAD);
        GameState { generator, queue, state }
    }

    /// Consumes the oldest predicted piece and predicts one more.
    pub fn consume_mino(&mut self)
        requires
            old(self)@.queue.len() > 0,
        ensures
            final(self)@ == consumed(old(self)@),
    {
        self.queue.remove(0);
        let next = self.generator.next();
        if let Some(piece) = next {
            self.queue.push(piece);
        }
        assert(final(self)@.queue =~= consumed(old(self)@).queue);
    }

    /// A copy holding the same values.
    pub fn duplicate(&self) -> (r: Self)
        ensures
            r@ == self@,
    {
        let mut queue: Vec<Piece> = Vec::new();
        let mut i: usize = 0;
        while i < self.queue.len()
            invariant
                i <= self.queue@.len(),
                queue@ == self.queue@.subrange(0, i as int),
            decreases self.queue.len() - i,
        {
            queue.push(self.queue[i]);
            i += 1;
            assert(queue@ =~= self.queue@.subrange(0, i as int));
        }
        assert(self.queue@.subrange(0, i as int) =~= self.queue@);
        GameState { generator: self.generator.duplicate(), queue, state: self.state.duplicate() }
    }

    /// The observed state this entry was reconciled with.
    pub fn state(&self) -> (r: &State)
        ensures
            r@ == self@.state,
    {
        &self.state
    }
}

/// Whether a piece was consumed between the observations `prev` and `next`.
pub fn piece_consumed_between(prev: &State, next: &State) -> (r: bool)
    ensures
        r == piece_consumed(prev@, next@),
{
    !same_queue(&prev.next_queue, &next.next_queue)
}

/// Why a history operation did nothing.
#[derive(Clone, Copy, Debug, PartialEq, Eq, Structural)]
pub enum HistoryError {
    /// No game is in progress: the history is empty.
    NoGame,
}

/// The session's history of game states, oldest first. The last entry
/// reflects the most recent observation.
pub struct GameStateQueue {
    pub queue: Vec<GameState>,
}

impl View for GameStateQueue {
    type V = Seq<GameStateView>;

    open spec fn view(&self) -> Seq<GameStateView> {
        self.queue@.map_values(|g: GameState| g@)
    }
}

impl GameStateQueue {
    /// Every entry predicts exactly `LOOKAHEAD` pieces.
    pub open spec fn wf(&self) -> bool {
        well_formed(self@)
    }

    /// An empty history.
    pub fn new() -> (r: Self)
        ensures
            r@ == Seq::<GameStateView>::empty(),
            r.wf(),
    {
        let r = GameStateQueue { queue: Vec::new() };
        assert(r@ =~= Seq::<GameStateView>::empty());
        r
    }

    fn push_new(&mut self, game_state: GameState)
        ensures
            final(self)@ == old(self)@.push(game_state@),
    {
        self.queue.push(game_state);
        assert(final(self)@ =~= old(self)@.push(game_state@));
    }

    /// Drops the whole history and starts a fresh game from `seed` with a
    /// blank observed state.
    pub fn push_new_game(&mut self, seed: u32)
        ensures
            final(self)@ == seq![new_game_view(seed, blank_view())],
            final(self)@.len() == 1,
            final(self).wf(),
    {
        self.queue.clear();
        assert(self@ =~= Seq::<GameStateView>::empty());
        self.push_new(GameState::new(seed, State::new_blank()));
        proof {
            crate::piece_gen::lemma_outputs_len(initial_model(seed, WARM_UP as nat), LOOKAHEAD as nat);
        }
        assert(final(self)@ =~= seq![new_game_view(seed, blank_view())]);
    }

    /// Reconciles `state` with the last entry and appends the result: when
    /// a piece was consumed in between, the copy consumes one too. Fails,
    /// changing nothing, when there is no game in progress.
    pub fn push_new_state(&mut self, state: State) -> (r: Result<(), HistoryError>)
        requires
            old(self).wf(),
        ensures
            final(self)@ == pushed_state(old(self)@, state@),
            final(self).wf(),
            r is Err <==> old(self)@.len() == 0,
    {
        let n = self.queue.len();
        if n == 0 {
            return Err(HistoryError::NoGame);
        }
        let mut next = self.queue[n - 1].duplicate();
        assert(self@[n - 1] == self.queue@[n - 1]@);
        assert(well_formed(self@));
        assert(next@.queue.len() == LOOKAHEAD);
        if piece_consumed_between(&next.state, &state) {
            next.consume_mino();
        }
        next.state = state;
        self.push_new(next);
        assert(well_formed(final(self)@));
        Ok(())
    }

    /// Takes in an observed state: nothing happens when it equals the last
    /// observed one, otherwise it is reconciled and appended. Fails,
    /// changing nothing, when there is no game in progress.
    pub fn update_by(&mut self, state: State) -> (r: Result<(), HistoryError>)
        requires
            old(self).wf(),
        ensures
            final(self)@ == updated(old(self)@, state@),
            final(self).wf(),
            r is Err <==> old(self)@.len() == 0,
    {
        let n = self.queue.len();
        if n == 0 {
            return Err(HistoryError::NoGame);
        }
        assert(self@.last() == self.queue@[n - 1]@);
        if self.queue[n - 1].state == state {
            return Ok(());
        }
        self.push_new_state(state)
    }

    /// Rolls back one step: drops the latest entry and hands out the one
    /// beneath it, which is taken out too. With fewer than two entries
    /// nothing happens.
    pub fn undo(&mut self) -> (r: Option<GameState>)
        ensures
            old(self)@.len() >= 2 ==> r is Some && r->0@ == old(self)@[old(self)@.len() - 2]
                && final(self)@ == old(self)@.subrange(0, old(self)@.len() - 2),
            old(self)@.len() < 2 ==> r is None && final(self)@ == old(self)@,
            old(self).wf() ==> final(self).wf(),
    {
        if self.queue.len() < 2 {
            return None;
        }
        let ghost h = self@;
        self.queue.pop();
        let r = self.queue.pop();
        assert(final(self)@ =~= h.subrange(0, h.len() - 2));
        r
    }
}

/// Taking in the same observed state twice adds nothing the second time.
pub proof fn lemma_update_idempotent(h: Seq<GameStateView>, observed: StateView)
    ensures
        updated(updated(h, observed), observed) == updated(h, observed),
{
}

/// After a new game, the first observation whose next-queue differs from
/// the blank state's appends a second entry whose predictions are the
/// first entry's without its oldest piece, followed by the generator's
/// next piece: pieces `1..=LOOKAHEAD` of the seed's sequence.
pub proof fn lemma_first_consumption(seed: u32, observed: StateView)
    requires
        piece_consumed(blank_view(), observed),
    ensures
        ({
            let h = updated(seq![new_game_view(seed, blank_view())], observed);
            let g0 = initial_model(seed, WARM_UP as nat);
            &&& h.len() == 2
            &&& h[1].queue == h[0].queue.drop_first().push(next_model(h[0].generator).0)
            &&& h[1].queue == outputs(g0, LOOKAHEAD as nat + 1).subrange(1, LOOKAHEAD as int + 1)
            &&& h[1].state == observed
        }),
{
    let g0 = initial_model(seed, WARM_UP as nat);
    let first = new_game_view(seed, blank_view());
    crate::piece_gen::lemma_outputs_one_more(g0, LOOKAHEAD as nat);
    crate::piece_gen::lemma_outputs_len(g0, LOOKAHEAD as nat);
    assert(blank_view() != observed);
    let h = updated(seq![first], observed);
    assert(h[1] == reconciled(first, observed));
    assert(h[1].queue =~= outputs(g0, LOOKAHEAD as nat + 1).subrange(1, LOOKAHEAD as int + 1));
}

/// `gs` predicts the `LOOKAHEAD` pieces that `g` hands out next, and its
/// generator stands right after them.
pub open spec fn predicts_from(gs: GameStateView, g: GenModel) -> bool {
    &&& gs.queue == outputs(g, LOOKAHEAD as nat)
    &&& gs.generator == advanced(g, LOOKAHEAD as nat)
}

/// A new game predicts the first pieces of its seed's sequence, and each
/// reconciliation keeps the prediction in step with the generator: after a
/// consumed piece, it predicts the pieces that follow one draw later.
pub proof fn lemma_prediction_in_step(seed: u32, gs: GameStateView, g: GenModel, observed: StateView)
    requires
        predicts_from(gs, g),
    ensures
        predicts_from(new_game_view(seed, observed), initial_model(seed, WARM_UP as nat)),
        piece_consumed(gs.state, observed) ==> predicts_from(reconciled(gs, observed), next_model(g).1),
        !piece_consumed(gs.state, observed) ==> predicts_from(reconciled(gs, observed), g),
{
    let n = LOOKAHEAD as nat;
    let g1 = next_model(g).1;
    crate::piece_gen::lemma_outputs_one_more(g, n);
    crate::piece_gen::lemma_outputs_len(g, n);
    assert(outputs(g, n + 1) == seq![next_model(g).0] + outputs(g1, n));
    assert(advanced(g, n + 1) == advanced(g1, n));
    assert(outputs(g1, n) =~= outputs(g, n + 1).drop_first());
    assert(outputs(g, n).push(next_model(advanced(g, n)).0).drop_first() =~= outputs(g, n).drop_first().push(
        next_model(advanced(g, n)).0,
    ));
}

} // verus!

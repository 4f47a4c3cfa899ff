//! The seam between the engine and a platform: where the time comes from,
//! where buzzes come from, and where events go.
//!
//! A platform implements the three traits; `step` ties them to the engine
//! and is called once per tick.

use crate::game::{BuzzerGame, GameView, OutputEvent, PlayerId};
use vstd::prelude::*;

verus! {

/// Source of time for the engine. Nothing is asked of the time it gives:
/// the engine takes any clock.
pub trait TimeSource {
    /// Milliseconds since some start that never moves.
    fn now_ms(&self) -> u64;
}

/// Source of buzzes. An implementation promises to behave as a queue:
/// what `step` proves of the engine, it proves of sources that do.
pub trait GameInput {
    /// The buzzes that wait to be handled, oldest first.
    spec fn pending(&self) -> Seq<PlayerId>;

    /// The number of players that have joined.
    spec fn player_count(&self) -> PlayerId;

    /// Takes the oldest waiting buzz, if there is one. Taking a buzz
    /// leaves the later ones waiting, in their order; a source that
    /// learns of new buzzes does so between two steps, not within one.
    fn next_buzz(&mut self) -> (buzz: Option<PlayerId>)
        ensures
            buzz == (if old(self).pending().len() == 0 {
                None
            } else {
                Some(old(self).pending()[0])
            }),
            final(self).pending() == (if old(self).pending().len() == 0 {
                old(self).pending()
            } else {
                old(self).pending().drop_first()
            }),
            final(self).player_count() == old(self).player_count(),
    ;

    fn current_player_count(&self) -> (count: PlayerId)
        ensures
            count == self.player_count(),
    ;
}

/// Sink for the engine's events. An implementation promises to take
/// every event it is handed, one by one and in order.
pub trait GameOutput {
    /// The events handed over so far, oldest first.
    spec fn emitted(&self) -> Seq<OutputEvent>;

    fn on_event(&mut self, event: OutputEvent)
        ensures
            final(self).emitted() == old(self).emitted().push(event),
    ;
}

/// The engine after the buzzes have been handled one by one, in order, all
/// at time `now_in_ms`, and the event each of them gave.
pub open spec fn buzz_all(game: GameView, buzzes: Seq<PlayerId>, now_in_ms: u64) -> (
    GameView,
    Seq<OutputEvent>,
)
    decreases buzzes.len(),
{
    if buzzes.len() == 0 {
        (game, Seq::empty())
    } else {
        let (before, events) = buzz_all(game, buzzes.drop_last(), now_in_ms);
        let (after, event) = before.buzz(buzzes.last(), now_in_ms);
        (after, events.push(event))
    }
}

/// One step of the engine: every waiting buzz, then one tick.
pub open spec fn step_result(game: GameView, buzzes: Seq<PlayerId>, now_in_ms: u64) -> (
    GameView,
    Seq<OutputEvent>,
) {
    let (buzzed, events) = buzz_all(game, buzzes, now_in_ms);
    let (ticked, timeout) = buzzed.tick(now_in_ms);
    match timeout {
        Some(event) => (ticked, events.push(event)),
        None => (ticked, events),
    }
}

/// Runs one step at a given time: hands every waiting buzz to the engine,
/// oldest first, passing on one event per buzz, then lets the engine tick
/// once and passes on the timeout if there is one.
pub fn step_at<I, O>(game: &mut BuzzerGame, now_in_ms: u64, input: &mut I, output: &mut O) where
    I: GameInput,
    O: GameOutput,

    ensures
        final(game)@ == step_result(old(game)@, old(input).pending(), now_in_ms).0,
        final(output).emitted() == old(output).emitted() + step_result(
            old(game)@,
            old(input).pending(),
            now_in_ms,
        ).1,
        final(input).pending().len() == 0,
        final(input).player_count() == old(input).player_count(),
{
    let ghost buzzes = input.pending();
    let ghost done: int = 0;
    proof {
        assert(buzzes.take(0) =~= Seq::<PlayerId>::empty());
        assert(buzzes.skip(0) =~= buzzes);
        assert(old(output).emitted() + Seq::<OutputEvent>::empty() =~= old(output).emitted());
    }
    loop
        invariant
            0 <= done <= buzzes.len(),
            buzzes == old(input).pending(),
            input.pending() == buzzes.skip(done),
            input.player_count() == old(input).player_count(),
            game@ == buzz_all(old(game)@, buzzes.take(done), now_in_ms).0,
            output.emitted() == old(output).emitted() + buzz_all(
                old(game)@,
                buzzes.take(done),
                now_in_ms,
            ).1,
        ensures
            done == buzzes.len(),
            input.pending().len() == 0,
        decreases buzzes.len() - done,
    {
        let next = input.next_buzz();
        match next {
            Some(player) => {
                let event = game.buzz(player, now_in_ms);
                output.on_event(event);
                proof {
                    assert(buzzes.skip(done)[0] == buzzes[done]);
                    assert(buzzes.skip(done).drop_first() =~= buzzes.skip(done + 1));
                    assert(buzzes.take(done + 1).drop_last() =~= buzzes.take(done));
                    assert(buzzes.take(done + 1).last() == buzzes[done]);
                    let earlier = buzz_all(old(game)@, buzzes.take(done), now_in_ms).1;
                    let told = old(output).emitted();
                    assert((told + earlier).push(event) =~= told + earlier.push(event));
                    done = done + 1;
                }
            },
            None => {
                break ;
            },
        }
    }
    proof {
        assert(buzzes.take(done) =~= buzzes);
    }
    if let Some(event) = game.tick(now_in_ms) {
        output.on_event(event);
        proof {
            let earlier = buzz_all(old(game)@, buzzes, now_in_ms).1;
            assert((old(output).emitted() + earlier).push(event) =~= old(output).emitted()
                + earlier.push(event));
        }
    }
}

/// Runs one step at the time the time source gives. Whatever that time is,
/// the step is `step_at` of it.
pub fn step<T, I, O>(game: &mut BuzzerGame, time: &T, input: &mut I, output: &mut O) where
    T: TimeSource,
    I: GameInput,
    O: GameOutput,

    ensures
        exists|now_in_ms: u64|
            {
                &&& final(game)@ == #[trigger] step_result(
                    old(game)@,
                    old(input).pending(),
                    now_in_ms,
                ).0
                &&& final(output).emitted() == old(output).emitted() + step_result(
                    old(game)@,
                    old(input).pending(),
                    now_in_ms,
                ).1
            },
        final(input).pending().len() == 0,
        final(input).player_count() == old(input).player_count(),
{
    let now = time.now_ms();
    step_at(game, now, input, output);
}

/// Opens a new round for the players that have joined by now: lockouts
/// are lifted, nobody is answering, and later joiners wait for the next
/// round.
pub fn start_round<I: GameInput, O: GameOutput>(game: &mut BuzzerGame, input: &I, output: &mut O)
    ensures
        final(game)@ == (GameView { joined: input.player_count(), ..old(game)@ }).start_round().0,
        final(output).emitted() == old(output).emitted().push(OutputEvent::RoundStarted),
{
    game.set_curr_player_id(input.current_player_count());
    let event = game.start_round();
    output.on_event(event);
}

/// Moves past the current answerer without opening a new round.
pub fn continue_round<O: GameOutput>(game: &mut BuzzerGame, output: &mut O)
    ensures
        final(game)@ == old(game)@.continue_round().0,
        final(output).emitted() == old(output).emitted().push(OutputEvent::RoundContinued),
{
    let event = game.continue_round();
    output.on_event(event);
}

/// Buzzes and ticks change who is answering and who is locked out, and
/// nothing else; and they lift no lockout.
pub proof fn lemma_step_keeps_lockouts(game: GameView, buzzes: Seq<PlayerId>, now_in_ms: u64)
    ensures
        buzz_all(game, buzzes, now_in_ms).0.window_in_ms == game.window_in_ms,
        buzz_all(game, buzzes, now_in_ms).0.joined == game.joined,
        game.locked.subset_of(buzz_all(game, buzzes, now_in_ms).0.locked),
        buzz_all(game, buzzes, now_in_ms).1.len() == buzzes.len(),
        step_result(game, buzzes, now_in_ms).0.window_in_ms == game.window_in_ms,
        step_result(game, buzzes, now_in_ms).0.joined == game.joined,
        game.locked.subset_of(step_result(game, buzzes, now_in_ms).0.locked),
    decreases buzzes.len(),
{
    if buzzes.len() > 0 {
        lemma_step_keeps_lockouts(game, buzzes.drop_last(), now_in_ms);
    }
}

/// Every buzz gets its event, and the first buzz meets the engine as it
/// stood before the step.
pub proof fn lemma_first_buzz(game: GameView, buzzes: Seq<PlayerId>, now_in_ms: u64)
    requires
        buzzes.len() > 0,
    ensures
        buzz_all(game, buzzes, now_in_ms).1.len() == buzzes.len(),
        buzz_all(game, buzzes, now_in_ms).1[0] == game.buzz(buzzes[0], now_in_ms).1,
        step_result(game, buzzes, now_in_ms).1[0] == game.buzz(buzzes[0], now_in_ms).1,
    decreases buzzes.len(),
{
    lemma_step_keeps_lockouts(game, buzzes, now_in_ms);
    lemma_step_keeps_lockouts(game, buzzes.drop_last(), now_in_ms);
    if buzzes.len() > 1 {
        lemma_first_buzz(game, buzzes.drop_last(), now_in_ms);
        assert(buzzes.drop_last()[0] == buzzes[0]);
    } else {
        assert(buzzes.drop_last().len() == 0);
        assert(buzzes.last() == buzzes[0]);
    }
}

} // verus!

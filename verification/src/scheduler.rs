//! The fixed-tick scheduler: what happens to a room's engine on each tick,
//! and the plain queue and log it is fed from and writes to.

use crate::adapter::{continue_round, start_round, step_at, step_result, GameInput, GameOutput};
use crate::game::{BuzzerGame, GameView, OutputEvent, PlayerId};
use vstd::prelude::*;

verus! {

/// The buzzes that arrived since the last tick, in the order they arrived,
/// and the number of players in the room.
pub struct BuzzQueue {
    buzzes: Vec<PlayerId>,
    next: usize,
    player_count: PlayerId,
}

impl BuzzQueue {
    pub fn new(buzzes: Vec<PlayerId>, player_count: PlayerId) -> (queue: Self)
        ensures
            queue.pending() == buzzes@,
            queue.player_count() == player_count,
    {
        let queue = BuzzQueue { buzzes, next: 0, player_count };
        assert(queue.buzzes@.skip(0) =~= queue.buzzes@);
        queue
    }
}

impl GameInput for BuzzQueue {
    closed spec fn pending(&self) -> Seq<PlayerId> {
        if self.next <= self.buzzes@.len() {
            self.buzzes@.skip(self.next as int)
        } else {
            Seq::empty()
        }
    }

    closed spec fn player_count(&self) -> PlayerId {
        self.player_count
    }

    fn next_buzz(&mut self) -> (buzz: Option<PlayerId>) {
        if self.next < self.buzzes.len() {
            let player = self.buzzes[self.next];
            self.next = self.next + 1;
            proof {
                assert(old(self).pending().drop_first() =~= self.pending());
            }
            Some(player)
        } else {
            None
        }
    }

    fn current_player_count(&self) -> (count: PlayerId) {
        self.player_count
    }
}

/// The events of a tick, in the order the engine gave them.
pub struct EventLog {
    events: Vec<OutputEvent>,
}

impl EventLog {
    pub fn new() -> (log: Self)
        ensures
            log.emitted() == Seq::<OutputEvent>::empty(),
    {
        EventLog { events: Vec::new() }
    }

    pub fn into_events(self) -> (events: Vec<OutputEvent>)
        ensures
            events@ == self.emitted(),
    {
        self.events
    }
}

impl GameOutput for EventLog {
    closed spec fn emitted(&self) -> Seq<OutputEvent> {
        self.events@
    }

    fn on_event(&mut self, event: OutputEvent) {
        self.events.push(event);
    }
}

/// The engine and its events after one tick: a requested new round opens
/// first, for the `joined` players; then a requested move past the
/// answerer; then every waiting buzz in order; then the clock.
pub open spec fn tick_result(
    game: GameView,
    start: bool,
    proceed: bool,
    joined: PlayerId,
    buzzes: Seq<PlayerId>,
    now_in_ms: u64,
) -> (GameView, Seq<OutputEvent>) {
    let (started, first) = if start {
        ((GameView { joined, ..game }).start_round().0, seq![OutputEvent::RoundStarted])
    } else {
        (game, Seq::<OutputEvent>::empty())
    };
    let (moved, second) = if proceed {
        (started.continue_round().0, first.push(OutputEvent::RoundContinued))
    } else {
        (started, first)
    };
    let (stepped, rest) = step_result(moved, buzzes, now_in_ms);
    (stepped, second + rest)
}

/// One tick of a room's engine. Round requests are applied before the
/// buzzes, so that a buzz in the same tick meets the new round.
pub fn run_tick<I, O>(
    game: &mut BuzzerGame,
    start: bool,
    proceed: bool,
    now_in_ms: u64,
    input: &mut I,
    output: &mut O,
) where I: GameInput, O: GameOutput
    ensures
        final(game)@ == tick_result(
            old(game)@,
            start,
            proceed,
            old(input).player_count(),
            old(input).pending(),
            now_in_ms,
        ).0,
        final(output).emitted() == old(output).emitted() + tick_result(
            old(game)@,
            start,
            proceed,
            old(input).player_count(),
            old(input).pending(),
            now_in_ms,
        ).1,
        final(input).pending().len() == 0,
        final(input).player_count() == old(input).player_count(),
{
    if start {
        start_round(game, input, output);
    }
    if proceed {
        continue_round(game, output);
    }
    let ghost before = output.emitted();
    let ghost moved = game@;
    step_at(game, now_in_ms, input, output);
    proof {
        let result = tick_result(
            old(game)@,
            start,
            proceed,
            old(input).player_count(),
            old(input).pending(),
            now_in_ms,
        );
        let rest = step_result(moved, old(input).pending(), now_in_ms).1;
        let first = if start {
            seq![OutputEvent::RoundStarted]
        } else {
            Seq::<OutputEvent>::empty()
        };
        let second = if proceed {
            first.push(OutputEvent::RoundContinued)
        } else {
            first
        };
        assert(before =~= old(output).emitted() + second);
        assert((old(output).emitted() + second) + rest =~= old(output).emitted() + (second
            + rest));
    }
}

} // verus!

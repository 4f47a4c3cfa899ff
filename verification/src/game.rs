//! The buzzer engine: a phase, a lockout set, and the four transitions
//! between them. The engine has no clock of its own; every transition that
//! depends on time takes the current time as an argument.

use vstd::prelude::*;

verus! {

pub type PlayerId = usize;

/// The largest id a player can hold; a room has 128 slots.
pub const MAX_PLAYER_ID: PlayerId = 127;

pub struct Config {
    pub answer_window_in_ms: u64,
}

/// What the engine is waiting for.
#[derive(Clone, Copy, Debug, PartialEq, Eq, Structural)]
pub enum Phase {
    Idle,
    Answering { player: PlayerId, deadline_in_ms: u64 },
}

struct State {
    phase: Phase,
    locked_out_players: u128,
    curr_player_id: PlayerId,
}

#[derive(Clone, Copy, Debug, PartialEq, Eq, Structural)]
pub enum OutputEvent {
    /// The player may answer until the deadline, in milliseconds.
    Accepted(PlayerId, u64),
    Rejected(PlayerId),
    /// The player's answer window ran out.
    TimedOut(PlayerId),
    RoundStarted,
    RoundContinued,
}

pub struct BuzzerGame {
    config: Config,
    state: State,
}

/// Whether bit `player` of a 128-bit lockout mask is set.
pub open spec fn mask_has(mask: u128, player: PlayerId) -> bool {
    player <= MAX_PLAYER_ID && mask & (1u128 << (player as u128)) != 0
}

/// The end of an answer window opened at `now`: `now + window`, held at the
/// largest representable time where the sum would pass it.
pub open spec fn deadline_after(now_in_ms: u64, window_in_ms: u64) -> u64 {
    if now_in_ms + window_in_ms > u64::MAX {
        u64::MAX
    } else {
        (now_in_ms + window_in_ms) as u64
    }
}

/// The engine as a mathematical value.
pub ghost struct GameView {
    pub window_in_ms: u64,
    pub phase: Phase,
    /// The players locked out by a timeout or by being advanced past.
    pub locked: Set<PlayerId>,
    /// The number of players that count as having joined: those who had
    /// joined when the round started. Ids from this number on are locked
    /// out for the round.
    pub joined: PlayerId,
}

impl GameView {
    pub open spec fn is_locked_out(self, player: PlayerId) -> bool {
        player >= self.joined || self.locked.contains(player)
    }

    pub open spec fn accepts(self, player: PlayerId) -> bool {
        player <= MAX_PLAYER_ID && self.phase == Phase::Idle && !self.is_locked_out(player)
    }

    pub open spec fn lock(self, player: PlayerId) -> Set<PlayerId> {
        if player <= MAX_PLAYER_ID {
            self.locked.insert(player)
        } else {
            self.locked
        }
    }

    pub open spec fn buzz(self, player: PlayerId, now_in_ms: u64) -> (GameView, OutputEvent) {
        if self.accepts(player) {
            let deadline = deadline_after(now_in_ms, self.window_in_ms);
            (
                GameView { phase: Phase::Answering { player, deadline_in_ms: deadline }, ..self },
                OutputEvent::Accepted(player, deadline),
            )
        } else {
            (self, OutputEvent::Rejected(player))
        }
    }

    pub open spec fn times_out(self, now_in_ms: u64) -> bool {
        match self.phase {
            Phase::Answering { deadline_in_ms, .. } => now_in_ms >= deadline_in_ms,
            Phase::Idle => false,
        }
    }

    pub open spec fn tick(self, now_in_ms: u64) -> (GameView, Option<OutputEvent>) {
        match self.phase {
            Phase::Answering { player, deadline_in_ms } => if now_in_ms >= deadline_in_ms {
                (
                    GameView { phase: Phase::Idle, locked: self.lock(player), ..self },
                    Some(OutputEvent::TimedOut(player)),
                )
            } else {
                (self, None)
            },
            Phase::Idle => (self, None),
        }
    }

    pub open spec fn start_round(self) -> (GameView, OutputEvent) {
        (
            GameView { phase: Phase::Idle, locked: Set::empty(), ..self },
            OutputEvent::RoundStarted,
        )
    }

    pub open spec fn continue_round(self) -> (GameView, OutputEvent) {
        match self.phase {
            Phase::Answering { player, .. } => (
                GameView { phase: Phase::Idle, locked: self.lock(player), ..self },
                OutputEvent::RoundContinued,
            ),
            Phase::Idle => (self, OutputEvent::RoundContinued),
        }
    }
}

impl View for BuzzerGame {
    type V = GameView;

    closed spec fn view(&self) -> GameView {
        GameView {
            window_in_ms: self.config.answer_window_in_ms,
            phase: self.state.phase,
            locked: Set::new(|p: PlayerId| mask_has(self.state.locked_out_players, p)),
            joined: self.state.curr_player_id,
        }
    }
}

proof fn lemma_mask_set(mask: u128, player: u128, other: u128)
    by (bit_vector)
    requires
        player < 128,
        other < 128,
    ensures
        ((mask | (1u128 << player)) & (1u128 << other) != 0) == (mask & (1u128 << other) != 0
            || other == player),
{
}

proof fn lemma_mask_joined(joined: u128, other: u128)
    by (bit_vector)
    requires
        joined < 128,
        other < 128,
    ensures
        ((0xffff_ffff_ffff_ffff_ffff_ffff_ffff_ffffu128 << joined) & (1u128 << other) != 0) == (
        other >= joined),
{
}

proof fn lemma_mask_union(a: u128, b: u128, other: u128)
    by (bit_vector)
    ensures
        ((a | b) & (1u128 << other) != 0) == (a & (1u128 << other) != 0 || b & (1u128 << other)
            != 0),
{
}

proof fn lemma_mask_empty(other: u128)
    by (bit_vector)
    ensures
        0u128 & (1u128 << other) == 0,
{
}

impl BuzzerGame {
    pub fn new(config: Config) -> (game: Self)
        ensures
            game@ == (GameView {
                window_in_ms: config.answer_window_in_ms,
                phase: Phase::Idle,
                locked: Set::empty(),
                joined: 0,
            }),
    {
        let game = Self {
            config,
            state: State { phase: Phase::Idle, locked_out_players: 0, curr_player_id: 0 },
        };
        proof {
            assert forall|p: PlayerId| !mask_has(0u128, p) by {
                lemma_mask_empty(p as u128);
            }
            assert(game@.locked =~= Set::empty());
        }
        game
    }

    /// Records how many players have joined; ids from `id` on count as
    /// locked out.
    pub fn set_curr_player_id(&mut self, id: PlayerId)
        ensures
            final(self)@ == (GameView { joined: id, ..old(self)@ }),
    {
        self.state.curr_player_id = id;
    }

    /// The lockout mask as clients see it: bit `p` is set exactly when
    /// player `p` may not buzz in this round.
    pub fn locked_out_players(&self) -> (mask: u128)
        ensures
            forall|p: PlayerId|
                p <= MAX_PLAYER_ID ==> (mask_has(mask, p) <==> self@.is_locked_out(p)),
    {
        let explicit = self.state.locked_out_players;
        if self.state.curr_player_id >= 128 {
            return explicit;
        }
        let implicit = u128::MAX << self.state.curr_player_id;
        let mask = explicit | implicit;
        proof {
            assert forall|p: PlayerId| p <= MAX_PLAYER_ID implies (mask_has(mask, p)
                <==> self@.is_locked_out(p)) by {
                lemma_mask_joined(self.state.curr_player_id as u128, p as u128);
                lemma_mask_union(explicit, implicit, p as u128);
            }
        }
        mask
    }

    /// A buzz by `player` at time `now_in_ms`. It is accepted only from a
    /// valid id, while nobody is answering, and from a player who is not
    /// locked out; the player then answers until the deadline.
    pub fn buzz(&mut self, player: PlayerId, now_in_ms: u64) -> (event: OutputEvent)
        ensures
            (final(self)@, event) == old(self)@.buzz(player, now_in_ms),
            player > MAX_PLAYER_ID ==> event == OutputEvent::Rejected(player) && final(self)@
                == old(self)@,
    {
        if player > MAX_PLAYER_ID {
            return OutputEvent::Rejected(player);
        }
        if !self.is_phase_idle() || self.is_locked_out(player) {
            return OutputEvent::Rejected(player);
        }
        let deadline_in_ms = now_in_ms.saturating_add(self.config.answer_window_in_ms);
        self.set_phase_answering(player, deadline_in_ms);
        OutputEvent::Accepted(player, deadline_in_ms)
    }

    /// Opens a new round: every lockout is lifted and nobody is answering.
    pub fn start_round(&mut self) -> (event: OutputEvent)
        ensures
            (final(self)@, event) == old(self)@.start_round(),
    {
        self.reset_locked_players();
        self.set_phase_idle();
        OutputEvent::RoundStarted
    }

    /// Moves past the current answerer, who is locked out for the rest of
    /// the round. The other lockouts stay as they are.
    pub fn continue_round(&mut self) -> (event: OutputEvent)
        ensures
            (final(self)@, event) == old(self)@.continue_round(),
    {
        match self.state.phase {
            Phase::Answering { player, .. } => {
                self.set_locked_out(player);
            },
            _ => {},
        }
        self.set_phase_idle();
        OutputEvent::RoundContinued
    }

    /// Lets time pass. An answerer whose deadline has been reached times
    /// out and is locked out.
    pub fn tick(&mut self, now_in_ms: u64) -> (event: Option<OutputEvent>)
        ensures
            (final(self)@, event) == old(self)@.tick(now_in_ms),
    {
        match self.state.phase {
            Phase::Answering { player, deadline_in_ms } => {
                if now_in_ms >= deadline_in_ms {
                    self.set_phase_idle();
                    self.set_locked_out(player);
                    Some(OutputEvent::TimedOut(player))
                } else {
                    None
                }
            },
            Phase::Idle => None,
        }
    }

    fn is_locked_out(&self, player: PlayerId) -> (locked: bool)
        ensures
            locked == (player <= MAX_PLAYER_ID && self@.is_locked_out(player)),
    {
        if player > MAX_PLAYER_ID {
            return false;
        }
        if player >= self.state.curr_player_id {
            return true;
        }
        let mask = 1u128 << player;
        self.state.locked_out_players & mask != 0
    }

    fn set_locked_out(&mut self, player: PlayerId)
        ensures
            final(self)@ == (GameView { locked: old(self)@.lock(player), ..old(self)@ }),
    {
        if player > MAX_PLAYER_ID {
            return ;
        }
        let mask = 1u128 << player;
        let ghost before = self.state.locked_out_players;
        self.state.locked_out_players |= mask;
        proof {
            assert forall|p: PlayerId|
                mask_has(self.state.locked_out_players, p) == (mask_has(before, p) || p
                    == player) by {
                if p <= MAX_PLAYER_ID {
                    lemma_mask_set(before, player as u128, p as u128);
                }
            }
            assert forall|p: PlayerId|
                self@.locked.contains(p) == old(self)@.locked.insert(player).contains(p) by {
                assert(self@.locked.contains(p) == mask_has(self.state.locked_out_players, p));
                assert(old(self)@.locked.contains(p) == mask_has(before, p));
            }
            assert(self@.locked =~= old(self)@.locked.insert(player));
        }
    }

    fn reset_locked_players(&mut self)
        ensures
            final(self)@ == (GameView { locked: Set::empty(), ..old(self)@ }),
    {
        self.state.locked_out_players = 0u128;
        proof {
            assert forall|p: PlayerId| !mask_has(0u128, p) by {
                lemma_mask_empty(p as u128);
            }
            assert(self@.locked =~= Set::empty());
        }
    }

    fn is_phase_idle(&self) -> (idle: bool)
        ensures
            idle == (self@.phase == Phase::Idle),
    {
        self.state.phase == Phase::Idle
    }

    fn set_phase_idle(&mut self)
        ensures
            final(self)@ == (GameView { phase: Phase::Idle, ..old(self)@ }),
    {
        self.state.phase = Phase::Idle;
    }

    fn set_phase_answering(&mut self, player: PlayerId, deadline_in_ms: u64)
        ensures
            final(self)@ == (GameView {
                phase: Phase::Answering { player, deadline_in_ms },
                ..old(self)@
            }),
    {
        self.state.phase = Phase::Answering { player, deadline_in_ms };
    }
}

/// While a player is answering, every buzz is rejected and changes
/// nothing: two players never answer at once.
pub proof fn lemma_one_answerer(game: GameView, player: PlayerId, now_in_ms: u64)
    requires
        game.phase is Answering,
    ensures
        game.buzz(player, now_in_ms) == (game, OutputEvent::Rejected(player)),
{
}

/// A buzz from an id past the last slot is rejected whatever the phase.
pub proof fn lemma_out_of_range_rejected(game: GameView, player: PlayerId, now_in_ms: u64)
    requires
        player > MAX_PLAYER_ID,
    ensures
        game.buzz(player, now_in_ms) == (game, OutputEvent::Rejected(player)),
{
}

/// A player who is locked out stays locked out through every buzz, every
/// tick and every continued round; only a new round lifts a lockout.
pub proof fn lemma_lockout_persists(
    game: GameView,
    locked: PlayerId,
    player: PlayerId,
    now_in_ms: u64,
)
    requires
        game.locked.contains(locked),
    ensures
        game.buzz(player, now_in_ms).0.locked.contains(locked),
        game.tick(now_in_ms).0.locked.contains(locked),
        game.continue_round().0.locked.contains(locked),
        game.buzz(player, now_in_ms).0.joined == game.joined,
        game.tick(now_in_ms).0.joined == game.joined,
        game.continue_round().0.joined == game.joined,
{
}

/// The answer window closes at the deadline itself: a tick at exactly
/// the deadline times the answerer out.
pub proof fn lemma_timeout_at_deadline(game: GameView, player: PlayerId, deadline_in_ms: u64)
    requires
        game.phase == (Phase::Answering { player, deadline_in_ms }),
    ensures
        game.tick(deadline_in_ms).1 == Some(OutputEvent::TimedOut(player)),
        game.tick(deadline_in_ms).0.phase == Phase::Idle,
        player <= MAX_PLAYER_ID ==> game.tick(deadline_in_ms).0.locked.contains(player),
        forall|now_in_ms: u64|
            now_in_ms < deadline_in_ms ==> game.tick(now_in_ms) == (game, None::<OutputEvent>),
{
}

} // verus!

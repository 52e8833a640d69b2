//! The move scheduler: requests are queued, resolved one at a time against
//! settled cubies, and run to completion before the next is looked at.
//!
//! The engine is a state machine. `EngineState` is its mathematical state and
//! the three transitions `geometry_ready`, `submit` and `tick` are functions
//! on it; `Engine` carries them out.

use std::collections::VecDeque;
use vstd::prelude::*;
use crate::batch::{MoveBatch, layer_occupied, settle};
use crate::bootstrap::{Node, Phase, tag_cubies, tagged};
use crate::classifier::{Cubie, RubikCube, cubie_views, in_layer};
use crate::moves::{Move, Symbol, move_table, resolve};
use crate::rest::rest_configuration;
use crate::settling::{
    all_aligned, apply_move, lemma_move_four_times, lemma_move_keeps_alignment,
    lemma_move_keeps_rest, lemma_move_round_trip,
};

verus! {

/// The time that a move takes, in microseconds. The angle grows linearly
/// with the time.
pub const MOVE_DURATION: u64 = 200_000;

/// A move in flight: which move, and the time run since it started.
pub struct Animation {
    pub mv: Move,
    pub elapsed: nat,
}

/// The mathematical state of the engine.
pub struct EngineState {
    /// Whether the geometry has arrived.
    pub phase: Phase,
    /// The cubies, as they lay when the last move completed.
    pub cubies: Seq<Cubie>,
    /// The requests that wait, the oldest first.
    pub queue: Seq<Symbol>,
    /// The move in flight, if there is one.
    pub moving: Option<Animation>,
}

impl EngineState {
    /// The state of a new engine: loading, with no cubie and no request.
    pub open spec fn initial() -> EngineState {
        EngineState { phase: Phase::Loading, cubies: Seq::empty(), queue: Seq::empty(), moving: None }
    }

    /// What holds of every state that the engine reaches: while it loads it
    /// holds nothing; a move in flight has not yet run its full time and
    /// turns a layer that holds a cubie.
    pub open spec fn wf(self) -> bool {
        &&& self.phase is Loading ==> self.cubies.len() == 0 && self.queue.len() == 0
            && self.moving is None
        &&& self.moving matches Some(a) ==> a.elapsed < MOVE_DURATION && layer_occupied(
            self.cubies,
            a.mv,
        )
    }

    /// The geometry has arrived. A loading engine tags the cubies among the
    /// nodes and becomes active; an active engine takes no notice.
    pub open spec fn geometry_ready(self, nodes: Seq<Node>) -> EngineState {
        if self.phase is Loading {
            EngineState { phase: Phase::Active, cubies: tagged(nodes), ..self }
        } else {
            self
        }
    }

    /// A request arrives. An active engine puts it at the end of the queue;
    /// a loading engine ignores it.
    pub open spec fn submit(self, symbol: Symbol) -> EngineState {
        if self.phase is Active {
            EngineState { queue: self.queue.push(symbol), ..self }
        } else {
            self
        }
    }

    /// The state after the oldest request has been taken from the queue and
    /// resolved. The request is dropped where the move table does not hold
    /// its symbol, or where the layer of its move holds no cubie.
    pub open spec fn start_next(self) -> EngineState {
        let rest = self.queue.drop_first();
        match move_table(self.queue[0]) {
            Some(mv) => if layer_occupied(self.cubies, mv) {
                EngineState { queue: rest, moving: Some(Animation { mv, elapsed: 0 }), ..self }
            } else {
                EngineState { queue: rest, ..self }
            },
            None => EngineState { queue: rest, ..self },
        }
    }

    /// Time advances by `dt` microseconds. With a move in flight, the move
    /// runs on and completes when its full time has run; the queue is not
    /// looked at. With none, the oldest request, if there is one, is
    /// resolved against the cubies as they lie.
    pub open spec fn tick(self, dt: nat) -> EngineState {
        match self.moving {
            Some(a) => if a.elapsed + dt >= MOVE_DURATION {
                EngineState { cubies: apply_move(self.cubies, a.mv), moving: None, ..self }
            } else {
                EngineState { moving: Some(Animation { mv: a.mv, elapsed: a.elapsed + dt }), ..self }
            },
            None => if self.phase is Active && self.queue.len() > 0 {
                self.start_next()
            } else {
                self
            },
        }
    }

    /// The state after a request has been submitted and two ticks have
    /// passed, the second as long as a move: in an idle engine without
    /// waiting requests, the first tick resolves the request and the second
    /// completes its move.
    pub open spec fn play(self, symbol: Symbol) -> EngineState {
        self.submit(symbol).tick(0).tick(MOVE_DURATION as nat)
    }

    /// Whether the engine is active and at rest: no move in flight and no
    /// request waiting.
    pub open spec fn is_idle(self) -> bool {
        self.phase is Active && self.moving is None && self.queue.len() == 0
    }

    /// The state after a run of ticks.
    pub open spec fn ticks(self, dts: Seq<nat>) -> EngineState
        decreases dts.len(),
    {
        if dts.len() == 0 {
            self
        } else {
            self.ticks(dts.drop_last()).tick(dts.last())
        }
    }
}

/// The sum of a run of time steps.
pub open spec fn total(dts: Seq<nat>) -> nat
    decreases dts.len(),
{
    if dts.len() == 0 {
        0
    } else {
        total(dts.drop_last()) + dts.last()
    }
}

/// What a tick did.
#[derive(Debug)]
pub enum Step {
    /// Nothing: the engine is loading, or no request waits.
    Idle,
    /// The oldest request was dropped: the move table does not hold its
    /// symbol.
    Unresolved(Symbol),
    /// The oldest request was dropped: the layer of its move holds no cubie.
    EmptyLayer(Move),
    /// The oldest request was resolved and its move has started.
    Started,
    /// The move in flight ran on.
    Advanced,
    /// The move in flight completed. The batch is handed out.
    Settled(MoveBatch),
}

impl Step {
    /// Whether the step is the one that a tick of `dt` microseconds takes
    /// from the state `before`.
    pub open spec fn reports(self, before: EngineState, dt: nat) -> bool {
        match self {
            Step::Idle => before.moving is None && !(before.phase is Active && before.queue.len()
                > 0),
            Step::Unresolved(symbol) => before.moving is None && before.phase is Active
                && before.queue.len() > 0 && symbol == before.queue[0] && move_table(symbol) is None,
            Step::EmptyLayer(mv) => before.moving is None && before.phase is Active
                && before.queue.len() > 0 && move_table(before.queue[0]) == Some(mv)
                && !layer_occupied(before.cubies, mv),
            Step::Started => before.moving is None && before.phase is Active && before.queue.len()
                > 0 && move_table(before.queue[0]) is Some && layer_occupied(
                before.cubies,
                move_table(before.queue[0])->0,
            ),
            Step::Advanced => before.moving is Some && before.moving->0.elapsed + dt
                < MOVE_DURATION,
            Step::Settled(batch) => before.moving is Some && before.moving->0.elapsed + dt
                >= MOVE_DURATION && batch.is_batch_of(before.cubies, before.moving->0.mv),
        }
    }
}

/// A right angle, in thousandths of a degree.
pub const RIGHT_ANGLE: u64 = 90_000;

/// How far a move has run: `elapsed` of `duration` microseconds. The ratio
/// of the two, and never more than one, is the part of the right angle that
/// the cubies of the batch have turned.
#[derive(Clone, Copy, Debug, PartialEq, Eq, Structural)]
pub struct Progress {
    pub elapsed: u64,
    pub duration: u64,
}

/// The angle turned after `elapsed` of `duration` microseconds, in
/// thousandths of a degree and rounded down: it grows linearly from zero to a
/// right angle, and stays a right angle once the full time has run.
pub open spec fn angle_after(elapsed: nat, duration: nat) -> nat {
    if elapsed >= duration {
        RIGHT_ANGLE as nat
    } else {
        RIGHT_ANGLE as nat * elapsed / duration
    }
}

impl Progress {
    /// The angle that the cubies of the batch have turned, in thousandths of
    /// a degree.
    pub fn angle(&self) -> (a: u64)
        ensures
            a == angle_after(self.elapsed as nat, self.duration as nat),
            a <= RIGHT_ANGLE,
    {
        if self.elapsed >= self.duration {
            RIGHT_ANGLE
        } else {
            let run: u128 = RIGHT_ANGLE as u128 * self.elapsed as u128;
            let whole: u128 = self.duration as u128;
            assert(run / whole <= RIGHT_ANGLE) by (nonlinear_arith)
                requires
                    run == RIGHT_ANGLE * self.elapsed,
                    whole == self.duration,
                    self.elapsed < self.duration,
            ;
            (run / whole) as u64
        }
    }
}

/// The move engine.
pub struct Engine {
    phase: Phase,
    cubes: Vec<RubikCube>,
    queue: VecDeque<Symbol>,
    batch: Option<MoveBatch>,
    elapsed: u64,
}

impl View for Engine {
    type V = EngineState;

    closed spec fn view(&self) -> EngineState {
        EngineState {
            phase: self.phase,
            cubies: cubie_views(self.cubes@),
            queue: self.queue@,
            moving: match self.batch {
                Some(batch) => Some(Animation { mv: batch.mv, elapsed: self.elapsed as nat }),
                None => None,
            },
        }
    }
}

impl Engine {
    /// The state is well formed, and the batch in flight is the batch of its
    /// move on the cubies as they lie.
    #[verifier::type_invariant]
    spec fn inv(self) -> bool {
        &&& self@.wf()
        &&& self.batch matches Some(batch) ==> batch.is_batch_of(cubie_views(self.cubes@), batch.mv)
    }

    /// A new engine: loading, with no cubie and no request.
    pub fn new() -> (engine: Engine)
        ensures
            engine@ == EngineState::initial(),
    {
        let engine = Engine {
            phase: Phase::Loading,
            cubes: Vec::new(),
            queue: VecDeque::new(),
            batch: None,
            elapsed: 0,
        };
        assert(engine@.cubies =~= Seq::empty());
        engine
    }

    /// The geometry has arrived: tags the cubies among `nodes` and makes the
    /// engine active. An engine that is active already takes no notice, so
    /// the cubies are tagged once.
    pub fn geometry_ready(&mut self, nodes: &Vec<Node>)
        ensures
            final(self)@ == old(self)@.geometry_ready(nodes@),
            final(self)@.wf(),
    {
        proof {
            use_type_invariant(&*self);
        }
        if self.phase == Phase::Loading {
            let cubes = tag_cubies(nodes);
            self.phase = Phase::Active;
            self.cubes = cubes;
        }
    }

    /// Queues a request. A loading engine ignores it.
    pub fn submit(&mut self, symbol: Symbol)
        ensures
            final(self)@ == old(self)@.submit(symbol),
            final(self)@.wf(),
    {
        proof {
            use_type_invariant(&*self);
        }
        if self.phase == Phase::Active {
            // A field is taken out of the engine while it changes, so that
            // the engine's invariant holds of the engine at every instant.
            let mut queue = VecDeque::new();
            core::mem::swap(&mut queue, &mut self.queue);
            queue.push_back(symbol);
            self.queue = queue;
        }
    }

    /// Advances the time by `dt` microseconds and takes the one step that
    /// the state allows: runs the move in flight on, completes it, or, with
    /// none in flight, resolves the oldest request.
    pub fn tick(&mut self, dt: u64) -> (step: Step)
        ensures
            final(self)@ == old(self)@.tick(dt as nat),
            final(self)@.wf(),
            step.reports(old(self)@, dt as nat),
    {
        proof {
            use_type_invariant(&*self);
        }
        let mut in_flight: Option<MoveBatch> = None;
        core::mem::swap(&mut in_flight, &mut self.batch);
        match in_flight {
            Some(batch) => {
                if dt >= MOVE_DURATION - self.elapsed {
                    let mut cubes: Vec<RubikCube> = Vec::new();
                    core::mem::swap(&mut cubes, &mut self.cubes);
                    settle(&mut cubes, &batch);
                    self.cubes = cubes;
                    Step::Settled(batch)
                } else {
                    self.elapsed = self.elapsed + dt;
                    self.batch = Some(batch);
                    Step::Advanced
                }
            },
            None => {
                if self.phase == Phase::Active {
                    let mut queue = VecDeque::new();
                    core::mem::swap(&mut queue, &mut self.queue);
                    let request = queue.pop_front();
                    assert(queue@ =~= if old(self)@.queue.len() > 0 {
                        old(self)@.queue.drop_first()
                    } else {
                        old(self)@.queue
                    });
                    self.queue = queue;
                    match request {
                        Some(symbol) => match resolve(symbol) {
                            Some(mv) => match MoveBatch::of(&self.cubes, mv) {
                                Some(batch) => {
                                    self.elapsed = 0;
                                    self.batch = Some(batch);
                                    Step::Started
                                },
                                None => Step::EmptyLayer(mv),
                            },
                            None => Step::Unresolved(symbol),
                        },
                        None => Step::Idle,
                    }
                } else {
                    Step::Idle
                }
            },
        }
    }

    /// The phase of the engine.
    pub fn phase(&self) -> (phase: Phase)
        ensures
            phase == self@.phase,
    {
        self.phase
    }

    /// The cubies, as they lay when the last move completed.
    pub fn cubies(&self) -> (cubes: &Vec<RubikCube>)
        ensures
            cubie_views(cubes@) == self@.cubies,
    {
        &self.cubes
    }

    /// The number of requests that wait.
    pub fn queued(&self) -> (n: usize)
        ensures
            n == self@.queue.len(),
    {
        self.queue.len()
    }

    /// Whether a move is in flight.
    pub fn is_animating(&self) -> (b: bool)
        ensures
            b == self@.moving is Some,
    {
        self.batch.is_some()
    }

    /// The batch of the move in flight.
    pub fn batch(&self) -> (batch: Option<&MoveBatch>)
        ensures
            batch is Some <==> self@.moving is Some,
            batch is Some ==> batch->0.is_batch_of(self@.cubies, self@.moving->0.mv),
    {
        proof {
            use_type_invariant(self);
        }
        self.batch.as_ref()
    }

    /// How far the move in flight has run.
    pub fn progress(&self) -> (progress: Option<Progress>)
        ensures
            progress is Some <==> self@.moving is Some,
            progress matches Some(p) ==> p.elapsed == self@.moving->0.elapsed && p.duration
                == MOVE_DURATION && p.elapsed < p.duration,
    {
        proof {
            use_type_invariant(self);
        }
        if self.batch.is_some() {
            Some(Progress { elapsed: self.elapsed, duration: MOVE_DURATION })
        } else {
            None
        }
    }
}

/// Every state that the engine reaches is well formed: the initial state
/// is, and each transition keeps a well-formed state well formed.
pub proof fn lemma_wf_is_kept(s: EngineState, nodes: Seq<Node>, symbol: Symbol, dt: nat)
    requires
        s.wf(),
    ensures
        EngineState::initial().wf(),
        s.geometry_ready(nodes).wf(),
        s.submit(symbol).wf(),
        s.tick(dt).wf(),
{
}

/// The phase changes once: no transition leaves `Active`, and only the
/// arrival of the geometry leaves `Loading`.
pub proof fn lemma_phase_is_one_way(s: EngineState, nodes: Seq<Node>, symbol: Symbol, dt: nat)
    ensures
        s.geometry_ready(nodes).phase is Active,
        s.submit(symbol).phase == s.phase,
        s.tick(dt).phase == s.phase,
{
}

/// While the engine loads, requests are ignored and time does nothing.
pub proof fn lemma_loading_ignores_input(s: EngineState, symbol: Symbol, dt: nat)
    requires
        s.wf(),
        s.phase is Loading,
    ensures
        s.submit(symbol) == s,
        s.tick(dt) == s,
{
}

/// Submitting a request resolves nothing: it touches neither the cubies nor
/// the move in flight, and in an active engine the request is the last of
/// the queue.
pub proof fn lemma_submit_only_queues(s: EngineState, symbol: Symbol)
    ensures
        s.submit(symbol).cubies == s.cubies,
        s.submit(symbol).moving == s.moving,
        s.phase is Active ==> s.submit(symbol).queue == s.queue.push(symbol),
{
}

/// While a move is in flight no request is resolved: until the move has run
/// its full time, ticks leave the queue and the cubies as they are, keep the
/// move, and only add to the time it has run.
pub proof fn lemma_move_in_flight_defers_requests(s: EngineState, dts: Seq<nat>)
    requires
        s.moving is Some,
        s.moving->0.elapsed + total(dts) < MOVE_DURATION,
    ensures
        s.ticks(dts).queue == s.queue,
        s.ticks(dts).cubies == s.cubies,
        s.ticks(dts).phase == s.phase,
        s.ticks(dts).moving == Some(
            Animation { mv: s.moving->0.mv, elapsed: s.moving->0.elapsed + total(dts) },
        ),
    decreases dts.len(),
{
    if dts.len() > 0 {
        lemma_move_in_flight_defers_requests(s, dts.drop_last());
    }
}

/// The tick that completes a move settles the cubies of its layer and
/// resolves nothing: the queue is as it was, and no move is in flight.
pub proof fn lemma_completion_settles(s: EngineState, dt: nat)
    requires
        s.moving is Some,
        s.moving->0.elapsed + dt >= MOVE_DURATION,
    ensures
        s.tick(dt).cubies == apply_move(s.cubies, s.moving->0.mv),
        s.tick(dt).queue == s.queue,
        s.tick(dt).moving is None,
{
}

/// Mutual exclusion: of two requests submitted back to back to an idle
/// engine, the first tick takes the first only. If its move starts, the
/// second request waits in the queue through every tick until the move has
/// run its full time, and is then resolved against the cubies as the first
/// move left them.
pub proof fn lemma_mutual_exclusion(
    s: EngineState,
    first: Symbol,
    second: Symbol,
    dt: nat,
    dts: Seq<nat>,
    last: nat,
    next: nat,
)
    requires
        s.wf(),
        s.phase is Active,
        s.moving is None,
        s.queue.len() == 0,
        total(dts) < MOVE_DURATION,
        total(dts) + last >= MOVE_DURATION,
    ensures
        ({
            let queued = s.submit(first).submit(second);
            let started = queued.tick(dt);
            let running = started.ticks(dts);
            let settled = running.tick(last);
            &&& queued.moving is None
            &&& queued.cubies == s.cubies
            &&& queued.queue == seq![first, second]
            &&& started.queue == seq![second]
            &&& started.cubies == s.cubies
            &&& started.moving is Some ==> {
                &&& move_table(first) == Some(started.moving->0.mv)
                &&& running.queue == seq![second]
                &&& running.cubies == s.cubies
                &&& running.moving is Some
                &&& settled.queue == seq![second]
                &&& settled.moving is None
                &&& settled.cubies == apply_move(s.cubies, started.moving->0.mv)
                &&& settled.tick(next).queue == Seq::<Symbol>::empty()
                &&& settled.tick(next).cubies == settled.cubies
                &&& settled.tick(next).moving is Some <==> move_table(second) is Some
                    && layer_occupied(settled.cubies, move_table(second)->0)
            }
        }),
{
    let queued = s.submit(first).submit(second);
    let started = queued.tick(dt);
    assert(queued.queue =~= seq![first, second]);
    assert(queued.queue.drop_first() =~= seq![second]);
    assert(started.queue == seq![second]);
    if started.moving is Some {
        lemma_move_in_flight_defers_requests(started, dts);
        let running = started.ticks(dts);
        let settled = running.tick(last);
        assert(settled.queue.drop_first() =~= Seq::<Symbol>::empty());
    }
}

/// Settling through the engine: where every cubie lies on whole units, every
/// cubie does after each transition, the tick that completes a move among
/// them.
pub proof fn lemma_tick_keeps_alignment(s: EngineState, symbol: Symbol, dt: nat)
    requires
        all_aligned(s.cubies),
    ensures
        all_aligned(s.submit(symbol).cubies),
        all_aligned(s.tick(dt).cubies),
{
    if s.moving is Some {
        lemma_move_keeps_alignment(s.cubies, s.moving->0.mv);
    }
}

/// The puzzle at rest stays at rest: where the twenty-seven cubies lie one
/// on each point of the lattice, they do so after every transition that
/// keeps them.
pub proof fn lemma_tick_keeps_rest(s: EngineState, symbol: Symbol, dt: nat)
    requires
        rest_configuration(s.cubies),
    ensures
        rest_configuration(s.submit(symbol).cubies),
        rest_configuration(s.tick(dt).cubies),
{
    if s.moving is Some {
        lemma_move_keeps_rest(s.cubies, s.moving->0.mv);
    }
}

/// A request played on an idle engine applies the move of its symbol to the
/// cubies, or nothing where the symbol has no move, and leaves the engine
/// idle.
pub proof fn lemma_play_applies_move(s: EngineState, symbol: Symbol)
    requires
        s.is_idle(),
    ensures
        s.play(symbol).is_idle(),
        s.play(symbol).cubies == (match move_table(symbol) {
            Some(mv) => apply_move(s.cubies, mv),
            None => s.cubies,
        }),
{
    let queued = s.submit(symbol);
    assert(queued.queue.drop_first() =~= Seq::<Symbol>::empty());
    if let Some(mv) = move_table(symbol) {
        if !layer_occupied(s.cubies, mv) {
            assert forall|i: int| 0 <= i < s.cubies.len() implies apply_move(s.cubies, mv)[i]
                == s.cubies[i] by {
                if s.cubies[i].layer_key(mv.direction.axis) == mv.layer {
                    assert(in_layer(s.cubies, i, mv.direction.axis, mv.layer as int));
                }
            }
            assert(apply_move(s.cubies, mv) =~= s.cubies);
        }
    }
}

/// Round trip through the engine: a request and then the request of the
/// inverse move, each played to completion, restore the position and the
/// orientation of every cubie.
pub proof fn lemma_play_round_trip(s: EngineState, there: Symbol, back: Symbol)
    requires
        s.is_idle(),
        move_table(there) is Some,
        move_table(back) == Some(move_table(there)->0.inverse()),
    ensures
        s.play(there).play(back).cubies == s.cubies,
{
    lemma_play_applies_move(s, there);
    lemma_play_applies_move(s.play(there), back);
    lemma_move_round_trip(s.cubies, move_table(there)->0);
}

/// Closure through the engine: the same request played four times restores
/// the position and the orientation of every cubie.
pub proof fn lemma_play_four_times(s: EngineState, symbol: Symbol)
    requires
        s.is_idle(),
    ensures
        s.play(symbol).play(symbol).play(symbol).play(symbol).cubies == s.cubies,
{
    lemma_play_applies_move(s, symbol);
    lemma_play_applies_move(s.play(symbol), symbol);
    lemma_play_applies_move(s.play(symbol).play(symbol), symbol);
    lemma_play_applies_move(s.play(symbol).play(symbol).play(symbol), symbol);
    if let Some(mv) = move_table(symbol) {
        lemma_move_four_times(s.cubies, mv);
    }
}

} // verus!

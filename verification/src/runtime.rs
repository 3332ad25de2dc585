//! Decisions of the simulation loop.
//!
//! Each tick of the loop either runs the plant (advance, start-up ramp,
//! control, logging, display) or, after an interlock shutdown (ISD), only
//! keeps the display alive. The simulator performs the outside work and
//! reports what it observed; [`LoopState`] decides what happens next.
use vstd::prelude::*;

verus! {

/// What the simulation loop remembers between ticks.
#[derive(Clone, Copy, Debug)]
pub struct LoopState {
    /// An interlock shutdown was detected: the plant is no longer advanced.
    pub shutdown: bool,
    /// The disturbances held off during the start-up ramp were switched back on.
    pub disturbances_restored: bool,
    /// The loop ended on the operator's request or at the time limit.
    pub clean_exit: bool,
    /// The loop has ended.
    pub finished: bool,
    /// The current tick runs in shutdown hold (display only).
    pub holding: bool,
}

/// What a running tick does once the measurements are in.
#[derive(Clone, Copy, Debug)]
pub struct TickDecision {
    /// Count this tick as operational time (no alarm is active).
    pub advance_operational_time: bool,
    /// An interlock shutdown was detected on this tick.
    pub shutdown_detected: bool,
    /// The simulated-time limit was reached: end the loop now, before the display.
    pub stop: bool,
}

/// The state at the start of the loop.
pub open spec fn initial_loop_state() -> LoopState {
    LoopState { shutdown: false, disturbances_restored: false, clean_exit: false, finished: false, holding: false }
}

/// A tick starts: it holds when a shutdown has been detected.
pub open spec fn begin_tick_spec(s: LoopState) -> LoopState {
    LoopState { holding: s.shutdown, ..s }
}

/// Whether the ramp decision switches the disturbances back on.
pub open spec fn restores_spec(s: LoopState, ramp_complete: bool) -> bool {
    ramp_complete && !s.disturbances_restored
}

pub open spec fn ramp_spec(s: LoopState, ramp_complete: bool) -> LoopState {
    LoopState { disturbances_restored: s.disturbances_restored || ramp_complete, ..s }
}

pub open spec fn tick_decision_spec(any_alarm: bool, derivatives_frozen: bool, time_limit_reached: bool) -> TickDecision {
    TickDecision {
        advance_operational_time: !any_alarm,
        shutdown_detected: derivatives_frozen && any_alarm,
        stop: time_limit_reached,
    }
}

pub open spec fn measurements_spec(
    s: LoopState,
    any_alarm: bool,
    derivatives_frozen: bool,
    time_limit_reached: bool,
) -> LoopState {
    LoopState {
        shutdown: s.shutdown || (derivatives_frozen && any_alarm),
        clean_exit: s.clean_exit || time_limit_reached,
        finished: s.finished || time_limit_reached,
        ..s
    }
}

/// After the display: the operator may have asked to quit.
pub open spec fn render_spec(s: LoopState, running: bool) -> LoopState {
    LoopState {
        clean_exit: s.clean_exit || (!running && !s.holding),
        finished: s.finished || !running,
        ..s
    }
}

/// Whether the loop pauses for wall-clock pacing at the end of the tick: in
/// real-time mode, on every tick that goes on, except the one on which the
/// shutdown was detected.
pub open spec fn sleeps_spec(s: LoopState, running: bool, real_time: bool) -> bool {
    running && real_time && (s.holding || !s.shutdown)
}

impl LoopState {
    /// The state at the start of the loop: running, disturbances held off.
    pub fn new() -> (s: Self)
        ensures
            s == initial_loop_state(),
    {
        LoopState { shutdown: false, disturbances_restored: false, clean_exit: false, finished: false, holding: false }
    }

    /// Starts a tick; returns whether it runs in shutdown hold (display only).
    pub fn begin_tick(&mut self) -> (holding: bool)
        requires
            !old(self).finished,
        ensures
            *final(self) == begin_tick_spec(*old(self)),
            holding == old(self).shutdown,
    {
        self.holding = self.shutdown;
        self.holding
    }

    /// The start-up ramp reported its progress; returns whether the
    /// disturbances held off during the ramp must be switched back on now.
    /// That happens once, on the first tick on which the ramp is complete.
    pub fn on_ramp(&mut self, ramp_complete: bool) -> (restore: bool)
        requires
            !old(self).finished,
            !old(self).holding,
        ensures
            restore == restores_spec(*old(self), ramp_complete),
            *final(self) == ramp_spec(*old(self), ramp_complete),
    {
        let restore = ramp_complete && !self.disturbances_restored;
        if restore {
            self.disturbances_restored = true;
        }
        restore
    }

    /// The measurements of a running tick are in: whether an alarm is
    /// active, whether the state derivatives are all zero, and whether the
    /// simulated-time limit was reached. A frozen plant with an active
    /// alarm is an interlock shutdown.
    pub fn on_measurements(
        &mut self,
        any_alarm: bool,
        derivatives_frozen: bool,
        time_limit_reached: bool,
    ) -> (d: TickDecision)
        requires
            !old(self).finished,
            !old(self).holding,
        ensures
            d == tick_decision_spec(any_alarm, derivatives_frozen, time_limit_reached),
            *final(self) == measurements_spec(*old(self), any_alarm, derivatives_frozen, time_limit_reached),
    {
        let shutdown_detected = derivatives_frozen && any_alarm;
        if shutdown_detected {
            self.shutdown = true;
        }
        if time_limit_reached {
            self.clean_exit = true;
            self.finished = true;
        }
        TickDecision { advance_operational_time: !any_alarm, shutdown_detected, stop: time_limit_reached }
    }

    /// The display was drawn; `running` is false when the operator asked to
    /// quit. Returns whether to pause before the next tick in real-time mode.
    /// Quitting while the plant runs is a clean exit; quitting in shutdown
    /// hold is not.
    pub fn on_render(&mut self, running: bool, real_time: bool) -> (sleep: bool)
        requires
            !old(self).finished,
        ensures
            *final(self) == render_spec(*old(self), running),
            sleep == sleeps_spec(*old(self), running, real_time),
    {
        if !running {
            if !self.holding {
                self.clean_exit = true;
            }
            self.finished = true;
            return false;
        }
        real_time && (self.holding || !self.shutdown)
    }

    /// Whether the final state snapshot is written once the loop has ended:
    /// only after a clean exit, when a snapshot path is configured and a
    /// state was captured.
    pub fn writes_snapshot(&self, has_path: bool, has_state: bool) -> (w: bool)
        ensures
            w == (self.clean_exit && has_path && has_state),
    {
        self.clean_exit && has_path && has_state
    }
}

/// An event of the simulation loop, as the simulator reports it.
#[derive(Clone, Copy, Debug)]
pub enum LoopEvent {
    /// A tick starts.
    BeginTick,
    /// The start-up ramp reported whether it is complete.
    Ramp { complete: bool },
    /// The measurements of a running tick are in.
    Measurements { any_alarm: bool, derivatives_frozen: bool, time_limit_reached: bool },
    /// The display was drawn; `running` is false when the operator asked to quit.
    Render { running: bool },
}

/// The event may happen in state `s`: nothing happens after the loop has
/// ended, and a tick in shutdown hold neither ramps nor measures.
pub open spec fn event_allowed(s: LoopState, e: LoopEvent) -> bool {
    !s.finished && match e {
        LoopEvent::BeginTick => true,
        LoopEvent::Ramp { .. } => !s.holding,
        LoopEvent::Measurements { .. } => !s.holding,
        LoopEvent::Render { .. } => true,
    }
}

/// The state after event `e`, as the methods of [`LoopState`] compute it.
pub open spec fn loop_step(s: LoopState, e: LoopEvent) -> LoopState {
    match e {
        LoopEvent::BeginTick => begin_tick_spec(s),
        LoopEvent::Ramp { complete } => ramp_spec(s, complete),
        LoopEvent::Measurements { any_alarm, derivatives_frozen, time_limit_reached } =>
            measurements_spec(s, any_alarm, derivatives_frozen, time_limit_reached),
        LoopEvent::Render { running } => render_spec(s, running),
    }
}

/// Every event of `es` is allowed in the state that it meets.
pub open spec fn trace_allowed(s: LoopState, es: Seq<LoopEvent>) -> bool
    decreases es.len(),
{
    if es.len() == 0 {
        true
    } else {
        event_allowed(s, es[0]) && trace_allowed(loop_step(s, es[0]), es.drop_first())
    }
}

/// The state after the events `es`.
pub open spec fn run_events(s: LoopState, es: Seq<LoopEvent>) -> LoopState
    decreases es.len(),
{
    if es.len() == 0 {
        s
    } else {
        run_events(loop_step(s, es[0]), es.drop_first())
    }
}

/// How many events of `es` switch the disturbances back on.
pub open spec fn restore_count(s: LoopState, es: Seq<LoopEvent>) -> nat
    decreases es.len(),
{
    if es.len() == 0 {
        0
    } else {
        let here: nat = match es[0] {
            LoopEvent::Ramp { complete } => if restores_spec(s, complete) { 1 } else { 0 },
            _ => 0,
        };
        here + restore_count(loop_step(s, es[0]), es.drop_first())
    }
}

/// Once an interlock shutdown has been detected, it stays: the plant is
/// never advanced again.
pub proof fn law_shutdown_is_permanent(s: LoopState, es: Seq<LoopEvent>)
    requires
        s.shutdown,
    ensures
        run_events(s, es).shutdown,
    decreases es.len(),
{
    if es.len() > 0 {
        law_shutdown_is_permanent(loop_step(s, es[0]), es.drop_first());
    }
}

/// A shutdown is detected only on a tick whose measurements show an active
/// alarm while every state derivative is zero.
pub proof fn law_shutdown_needs_frozen_alarm(s: LoopState, e: LoopEvent)
    requires
        !s.shutdown,
        loop_step(s, e).shutdown,
    ensures
        e matches LoopEvent::Measurements { any_alarm, derivatives_frozen, .. } && any_alarm && derivatives_frozen,
{
}

/// The disturbances held off during the start-up ramp are switched back on
/// at most once over the whole run, and never again once they were.
pub proof fn law_disturbances_restored_at_most_once(s: LoopState, es: Seq<LoopEvent>)
    ensures
        restore_count(s, es) <= 1,
        s.disturbances_restored ==> restore_count(s, es) == 0,
        restore_count(s, es) == 1 ==> run_events(s, es).disturbances_restored,
    decreases es.len(),
{
    if es.len() > 0 {
        let t = loop_step(s, es[0]);
        law_disturbances_restored_at_most_once(t, es.drop_first());
        if s.disturbances_restored {
            assert(t.disturbances_restored);
        }
        match es[0] {
            LoopEvent::Ramp { complete } => {
                if restores_spec(s, complete) {
                    assert(t.disturbances_restored);
                }
            },
            _ => {},
        }
        if t.disturbances_restored {
            lemma_restored_stays(t, es.drop_first());
        }
    }
}

proof fn lemma_restored_stays(s: LoopState, es: Seq<LoopEvent>)
    requires
        s.disturbances_restored,
    ensures
        run_events(s, es).disturbances_restored,
    decreases es.len(),
{
    if es.len() > 0 {
        lemma_restored_stays(loop_step(s, es[0]), es.drop_first());
    }
}

/// Once a tick has started in shutdown hold, the loop can no longer end
/// cleanly, so the final state snapshot is not written.
pub proof fn law_hold_never_exits_cleanly(s: LoopState, es: Seq<LoopEvent>)
    requires
        s.holding,
        s.shutdown,
        !s.clean_exit,
        trace_allowed(s, es),
    ensures
        !run_events(s, es).clean_exit,
        run_events(s, es).holding,
    decreases es.len(),
{
    if es.len() > 0 {
        law_hold_never_exits_cleanly(loop_step(s, es[0]), es.drop_first());
    }
}

/// A frozen plant with an active alarm is an interlock shutdown whenever
/// its measurements come in, whatever happened before (the start-up ramp
/// completed or not): the state afterwards records the shutdown, and the
/// next tick runs in shutdown hold.
pub proof fn law_frozen_alarm_is_shutdown(s: LoopState, time_limit_reached: bool)
    requires
        event_allowed(s, LoopEvent::Measurements { any_alarm: true, derivatives_frozen: true, time_limit_reached }),
    ensures
        loop_step(s, LoopEvent::Measurements { any_alarm: true, derivatives_frozen: true, time_limit_reached }).shutdown,
        loop_step(
            loop_step(s, LoopEvent::Measurements { any_alarm: true, derivatives_frozen: true, time_limit_reached }),
            LoopEvent::BeginTick,
        ).holding,
{
}

/// Running the events `es` and then `e` is running `e` on the state that
/// `es` left.
proof fn lemma_run_events_push(s: LoopState, es: Seq<LoopEvent>, e: LoopEvent)
    ensures
        run_events(s, es.push(e)) == loop_step(run_events(s, es), e),
    decreases es.len(),
{
    if es.len() > 0 {
        assert(es.push(e)[0] == es[0]);
        assert(es.push(e).drop_first() =~= es.drop_first().push(e));
        lemma_run_events_push(loop_step(s, es[0]), es.drop_first(), e);
    } else {
        assert(es.push(e)[0] == e);
        assert(es.push(e).drop_first() =~= Seq::<LoopEvent>::empty());
        assert(run_events(loop_step(s, e), Seq::<LoopEvent>::empty()) == loop_step(s, e));
    }
}

/// A state in which holding implies a detected shutdown keeps that property
/// over any events: a tick's hold is set when it starts, to whether a
/// shutdown was detected, and a shutdown is never undone.
proof fn lemma_hold_implies_shutdown(s: LoopState, es: Seq<LoopEvent>)
    requires
        s.holding ==> s.shutdown,
    ensures
        run_events(s, es).holding ==> run_events(s, es).shutdown,
    decreases es.len(),
{
    if es.len() > 0 {
        lemma_hold_implies_shutdown(loop_step(s, es[0]), es.drop_first());
    }
}

/// From the start of the loop, whatever events came: a tick starts in
/// shutdown hold exactly when a shutdown has been detected, a tick runs in
/// hold only after a shutdown, and without a shutdown the operator's quit
/// is a clean exit, so the final state snapshot is written.
pub proof fn law_quit_without_shutdown_is_clean(es: Seq<LoopEvent>)
    ensures
        run_events(initial_loop_state(), es).holding ==> run_events(initial_loop_state(), es).shutdown,
        run_events(initial_loop_state(), es.push(LoopEvent::BeginTick)).holding
            == run_events(initial_loop_state(), es).shutdown,
        !run_events(initial_loop_state(), es).shutdown
            ==> run_events(initial_loop_state(), es.push(LoopEvent::Render { running: false })).clean_exit,
{
    lemma_hold_implies_shutdown(initial_loop_state(), es);
    lemma_run_events_push(initial_loop_state(), es, LoopEvent::BeginTick);
    lemma_run_events_push(initial_loop_state(), es, LoopEvent::Render { running: false });
}

/// Pacing: outside real-time mode no tick pauses, nor does a tick on which
/// the operator quits; in real-time mode every other tick pauses, whether
/// the plant runs or the loop holds after a shutdown, except the running
/// tick on which the shutdown was detected.
pub proof fn law_real_time_pacing(s: LoopState, running: bool, real_time: bool)
    ensures
        !real_time || !running ==> !sleeps_spec(s, running, real_time),
        real_time && running && !s.shutdown ==> sleeps_spec(s, running, real_time),
        real_time && running && s.holding ==> sleeps_spec(s, running, real_time),
        real_time && running && s.shutdown && !s.holding ==> !sleeps_spec(s, running, real_time),
{
}

/// The event reports that the simulated-time limit was reached.
pub open spec fn reaches_time_limit(e: LoopEvent) -> bool {
    match e {
        LoopEvent::Measurements { time_limit_reached, .. } => time_limit_reached,
        _ => false,
    }
}

/// The event reports that the operator asked to quit.
pub open spec fn quits(e: LoopEvent) -> bool {
    match e {
        LoopEvent::Render { running } => !running,
        _ => false,
    }
}

/// The loop ends exactly when the time limit is reached on a running tick
/// or the operator quits; only these, and quitting only while the plant
/// runs, make the exit clean.
pub proof fn law_how_the_loop_ends(s: LoopState, e: LoopEvent)
    requires
        event_allowed(s, e),
    ensures
        loop_step(s, e).finished <==> (reaches_time_limit(e) || quits(e)),
        !s.clean_exit && loop_step(s, e).clean_exit <==> (reaches_time_limit(e) || (quits(e) && !s.holding)) && !s.clean_exit,
{
}

/// Disturbance channel `channel` (0-based) is named by `active_idv`, whose
/// entries are 1-based IDV numbers.
pub open spec fn idv_selected(active_idv: Seq<usize>, channel: int) -> bool {
    exists|j: int| 0 <= j < active_idv.len() && active_idv[j] == channel + 1
}

/// Which of the `n_dv` disturbance channels the experiment switches on:
/// `IDV(k)` in `active_idv` switches on channel `k - 1`; numbers outside
/// `1 ..= n_dv` are ignored.
pub fn idv_mask(active_idv: &[usize], n_dv: usize) -> (m: Vec<bool>)
    ensures
        m.len() == n_dv,
        forall|i: int| 0 <= i < n_dv ==> m[i] == idv_selected(active_idv@, i),
{
    let mut m: Vec<bool> = Vec::new();
    let mut i: usize = 0;
    while i < n_dv
        invariant
            i <= n_dv,
            m.len() == i,
            forall|c: int| 0 <= c < i ==> !m[c],
        decreases n_dv - i,
    {
        m.push(false);
        i = i + 1;
    }
    let mut k: usize = 0;
    while k < active_idv.len()
        invariant
            k <= active_idv@.len(),
            m.len() == n_dv,
            forall|c: int| 0 <= c < n_dv ==> m[c] == idv_selected(active_idv@.take(k as int), c),
        decreases active_idv.len() - k,
    {
        let idv = active_idv[k];
        if idv >= 1 && idv <= n_dv {
            m.set(idv - 1, true);
        }
        proof {
            let before = active_idv@.take(k as int);
            let after = active_idv@.take(k + 1);
            assert forall|c: int| 0 <= c < n_dv implies m[c] == idv_selected(after, c) by {
                if idv_selected(before, c) {
                    let j = choose|j: int| 0 <= j < before.len() && before[j] == c + 1;
                    assert(after[j] == before[j]);
                }
                if idv_selected(after, c) {
                    let j = choose|j: int| 0 <= j < after.len() && after[j] == c + 1;
                    if j < k {
                        assert(before[j] == after[j]);
                    }
                }
                if idv == c + 1 {
                    assert(after[k as int] == idv);
                }
            }
        }
        k = k + 1;
    }
    assert(active_idv@.take(active_idv@.len() as int) =~= active_idv@);
    m
}

/// The operator asks to quit with `q`, or with `c` while Control is held.
pub open spec fn quit_key_spec(key: Option<char>, control: bool) -> bool {
    key == Some('q') || (key == Some('c') && control)
}

/// Whether a key press asks the display to quit: `key` is the character of
/// the key (`None` for keys without one), `control` whether Control is held.
pub fn is_quit_key(key: Option<char>, control: bool) -> (q: bool)
    ensures
        q == quit_key_spec(key, control),
{
    match key {
        Some(c) => c == 'q' || (c == 'c' && control),
        None => false,
    }
}

} // verus!

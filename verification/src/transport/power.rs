//! Synchronized low-power scheduling of the radio interfaces.
use vstd::prelude::*;

use crate::message::types::TopologyFlag;
use crate::time::TimeSpan;

verus! {

/// Inactivity after which a node drops into synchronized low-power mode (5 min).
pub const IDLE_SLEEP_TIMEOUT_MS: u64 = 300_000;

/// Period of the shared wake barrier (5 s).
pub const SYNCHRONIZED_WAKE_INTERVAL_MS: u64 = 5_000;

/// Length of the awake window that opens at each barrier (500 ms).
pub const SYNCHRONIZED_WAKE_WINDOW_MS: u64 = 500;

#[derive(Debug, Clone, Copy, PartialEq, Eq, Structural)]
pub enum PowerMode {
    HighPower,
    SynchronizedLowPower,
}

#[derive(Debug, Clone, Copy, PartialEq, Eq, Structural)]
pub struct InterfacePowerState {
    pub ble_enabled: bool,
    pub wifi_enabled: bool,
}

impl InterfacePowerState {
    pub open spec fn spec_awake() -> InterfacePowerState {
        InterfacePowerState { ble_enabled: true, wifi_enabled: true }
    }

    pub open spec fn spec_sleeping() -> InterfacePowerState {
        InterfacePowerState { ble_enabled: false, wifi_enabled: false }
    }

    /// Both radios on.
    pub fn awake() -> (s: Self)
        ensures
            s == Self::spec_awake(),
    {
        Self { ble_enabled: true, wifi_enabled: true }
    }

    /// Both radios off.
    pub fn sleeping() -> (s: Self)
        ensures
            s == Self::spec_sleeping(),
    {
        Self { ble_enabled: false, wifi_enabled: false }
    }
}

#[derive(Debug, Clone, PartialEq, Eq)]
pub struct PowerDecision {
    pub interface_state: InterfacePowerState,
    pub topology_flags: Vec<TopologyFlag>,
    pub wake_network: bool,
}

/// Whether `now` falls in the awake window that opens at every multiple of
/// the wake interval, counted in whole milliseconds.
pub open spec fn in_awake_window(now: TimeSpan) -> bool {
    (now@ as int / 1_000_000) % (SYNCHRONIZED_WAKE_INTERVAL_MS as int) < SYNCHRONIZED_WAKE_WINDOW_MS as int
}

/// `now - since`, or zero when `since` is later.
pub open spec fn elapsed(now: TimeSpan, since: TimeSpan) -> nat {
    if now@ >= since@ {
        (now@ - since@) as nat
    } else {
        0
    }
}

/// Radio state for a mode at a given time: on in high-power mode, otherwise
/// only inside an awake window.
pub open spec fn interfaces_for(mode: PowerMode, now: TimeSpan) -> InterfacePowerState {
    if mode == PowerMode::HighPower || in_awake_window(now) {
        InterfacePowerState::spec_awake()
    } else {
        InterfacePowerState::spec_sleeping()
    }
}

pub struct PowerManager {
    mode: PowerMode,
    last_incoming_activity_at: TimeSpan,
    pending_outbound_transaction: bool,
    sleep_flag_emitted: bool,
}

impl PowerManager {
    pub closed spec fn spec_mode(&self) -> PowerMode {
        self.mode
    }

    /// Time of the last transaction activity.
    pub closed spec fn last_activity(&self) -> TimeSpan {
        self.last_incoming_activity_at
    }

    /// An outbound transaction waits for the next awake window.
    pub closed spec fn pending_outbound(&self) -> bool {
        self.pending_outbound_transaction
    }

    /// The GoToSleep flag was already announced in this low-power episode.
    pub closed spec fn flag_emitted(&self) -> bool {
        self.sleep_flag_emitted
    }

    /// In high-power mode no GoToSleep is on record and no send is waiting.
    pub open spec fn wf(&self) -> bool {
        self.spec_mode() == PowerMode::HighPower ==> !self.flag_emitted() && !self.pending_outbound()
    }

    /// The mode after the idle check of a tick at `now`.
    pub open spec fn mode_after_idle_check(&self, now: TimeSpan) -> PowerMode {
        if self.spec_mode() == PowerMode::HighPower && elapsed(now, self.last_activity())
            >= IDLE_SLEEP_TIMEOUT_MS * 1_000_000 {
            PowerMode::SynchronizedLowPower
        } else {
            self.spec_mode()
        }
    }

    /// A tick at `now` announces GoToSleep.
    pub open spec fn tick_emits_sleep(&self, now: TimeSpan) -> bool {
        self.mode_after_idle_check(now) == PowerMode::SynchronizedLowPower
            && !self.flag_emitted()
    }

    /// A tick at `now` wakes the network for a waiting outbound transaction.
    pub open spec fn tick_wakes(&self, now: TimeSpan) -> bool {
        self.mode_after_idle_check(now) == PowerMode::SynchronizedLowPower
            && self.pending_outbound() && in_awake_window(now)
    }

    /// The state reached by a tick at `now`.
    pub open spec fn ticked(&self, now: TimeSpan, next: PowerManager) -> bool {
        if self.tick_wakes(now) {
            &&& next.spec_mode() == PowerMode::HighPower
            &&& next.last_activity() == now
            &&& !next.pending_outbound()
            &&& !next.flag_emitted()
        } else {
            &&& next.spec_mode() == self.mode_after_idle_check(now)
            &&& next.last_activity() == self.last_activity()
            &&& next.pending_outbound() == self.pending_outbound()
            &&& next.flag_emitted() == (self.flag_emitted() || self.tick_emits_sleep(now))
        }
    }

    /// The decision a tick at `now` reports, `next` being the state it reaches.
    pub open spec fn tick_decision(&self, now: TimeSpan, next: PowerManager, d: PowerDecision) -> bool {
        &&& d.topology_flags@ == (if self.tick_emits_sleep(now) {
            seq![TopologyFlag::GoToSleep]
        } else {
            Seq::<TopologyFlag>::empty()
        })
        &&& d.wake_network == self.tick_wakes(now)
        &&& d.interface_state == interfaces_for(next.spec_mode(), now)
    }

    /// The state `next` and decision `d` a send request at `now` gives. In
    /// low-power mode outside an awake window the send is deferred and the
    /// radios stay off; otherwise the node is back in high-power mode.
    pub open spec fn outbound_recorded(&self, now: TimeSpan, next: PowerManager, d: PowerDecision) -> bool {
        let mid = self.mode_after_idle_check(now);
        let deferred = !self.tick_wakes(now) && mid == PowerMode::SynchronizedLowPower
            && !in_awake_window(now);
        &&& d.topology_flags@ == (if self.tick_emits_sleep(now) {
            seq![TopologyFlag::GoToSleep]
        } else {
            Seq::<TopologyFlag>::empty()
        })
        &&& d.wake_network == self.tick_wakes(now)
        &&& deferred ==> {
            &&& next.spec_mode() == PowerMode::SynchronizedLowPower
            &&& next.pending_outbound()
            &&& next.last_activity() == self.last_activity()
            &&& next.flag_emitted()
            &&& d.interface_state == InterfacePowerState::spec_sleeping()
        }
        &&& !deferred ==> {
            &&& next.spec_mode() == PowerMode::HighPower
            &&& next.last_activity() == now
            &&& !next.flag_emitted()
            &&& next.pending_outbound() == (!self.tick_wakes(now)
                && self.pending_outbound())
            &&& d.interface_state == InterfacePowerState::spec_awake()
        }
    }

    pub fn new(now: TimeSpan) -> (pm: Self)
        ensures
            pm.wf(),
            pm.spec_mode() == PowerMode::HighPower,
            pm.last_activity() == now,
            !pm.pending_outbound(),
            !pm.flag_emitted(),
    {
        Self {
            mode: PowerMode::HighPower,
            last_incoming_activity_at: now,
            pending_outbound_transaction: false,
            sleep_flag_emitted: false,
        }
    }

    pub fn mode(&self) -> (m: PowerMode)
        ensures
            m == self.spec_mode(),
    {
        self.mode
    }

    pub fn interface_state(&self, now: TimeSpan) -> (s: InterfacePowerState)
        ensures
            s == interfaces_for(self.spec_mode(), now),
    {
        if self.mode == PowerMode::HighPower || self.is_awake_window(now) {
            InterfacePowerState::awake()
        } else {
            InterfacePowerState::sleeping()
        }
    }

    pub fn is_awake_window(&self, now: TimeSpan) -> (b: bool)
        ensures
            b == in_awake_window(now),
    {
        let interval_ms = SYNCHRONIZED_WAKE_INTERVAL_MS as u128;
        let window_ms = SYNCHRONIZED_WAKE_WINDOW_MS as u128;
        now.as_millis() % interval_ms < window_ms
    }

    /// The next wake barrier strictly after `now`: the following multiple of
    /// the wake interval, in whole milliseconds (reduced to 64 bits).
    pub fn next_awake_barrier(&self, now: TimeSpan) -> (t: TimeSpan)
        ensures
            t@ == (#[verifier::truncate] ((((now@ / 1_000_000) / 5_000 + 1) * 5_000) as u64)) as int * 1_000_000,
    {
        let interval_ms = SYNCHRONIZED_WAKE_INTERVAL_MS as u128;
        let current_ms = now.as_millis();
        let ghost n = now@;
        proof {
            now.lemma_fits_u128();
        }
        assert(current_ms / interval_ms * interval_ms + interval_ms <= u128::MAX) by (nonlinear_arith)
            requires
                current_ms == n / 1_000_000,
                n <= u128::MAX,
                interval_ms == 5_000,
        ;
        let next_ms = ((current_ms / interval_ms) + 1) * interval_ms;
        TimeSpan::from_millis(#[verifier::truncate] (next_ms as u64))
    }

    pub fn record_incoming_transaction(&mut self, now: TimeSpan) -> (d: PowerDecision)
        requires
            old(self).wf(),
        ensures
            final(self).wf(),
            final(self).spec_mode() == PowerMode::HighPower,
            final(self).last_activity() == now,
            !final(self).pending_outbound(),
            !final(self).flag_emitted(),
            d.topology_flags@ == Seq::<TopologyFlag>::empty(),
            !d.wake_network,
            d.interface_state == InterfacePowerState::spec_awake(),
    {
        self.last_incoming_activity_at = now;
        self.pending_outbound_transaction = false;
        self.sleep_flag_emitted = false;
        self.mode = PowerMode::HighPower;
        self.tick(now)
    }

    /// Requests a send. In low-power mode outside an awake window the send is
    /// deferred to the next window and the radios stay off; otherwise the node
    /// returns to high-power mode with its radios on.
    pub fn record_outbound_transaction(&mut self, now: TimeSpan) -> (d: PowerDecision)
        requires
            old(self).wf(),
        ensures
            final(self).wf(),
            old(self).outbound_recorded(now, *final(self), d),
    {
        let mut decision = self.tick(now);
        if self.mode == PowerMode::SynchronizedLowPower && !self.is_awake_window(now) {
            self.pending_outbound_transaction = true;
            decision.interface_state = InterfacePowerState::sleeping();
            return decision;
        }
        self.last_incoming_activity_at = now;
        self.sleep_flag_emitted = false;
        self.mode = PowerMode::HighPower;
        decision.interface_state = InterfacePowerState::awake();
        decision
    }

    /// Advances the power state machine to `now`.
    pub fn tick(&mut self, now: TimeSpan) -> (d: PowerDecision)
        requires
            old(self).wf(),
        ensures
            final(self).wf(),
            old(self).ticked(now, *final(self)),
            old(self).tick_decision(now, *final(self), d),
    {
        let mut topology_flags: Vec<TopologyFlag> = Vec::new();
        let idle_for = now.saturating_sub(&self.last_incoming_activity_at);
        let timeout = TimeSpan::from_millis(IDLE_SLEEP_TIMEOUT_MS);
        if idle_for.is_at_least(&timeout) && self.mode == PowerMode::HighPower {
            self.mode = PowerMode::SynchronizedLowPower;
        }
        if self.mode == PowerMode::SynchronizedLowPower && !self.sleep_flag_emitted {
            topology_flags.push(TopologyFlag::GoToSleep);
            self.sleep_flag_emitted = true;
        }
        let wake_network = self.mode == PowerMode::SynchronizedLowPower
            && self.pending_outbound_transaction && self.is_awake_window(now);
        if wake_network {
            self.mode = PowerMode::HighPower;
            self.pending_outbound_transaction = false;
            self.last_incoming_activity_at = now;
            self.sleep_flag_emitted = false;
        }
        assert(topology_flags@ =~= (if old(self).tick_emits_sleep(now) {
            seq![TopologyFlag::GoToSleep]
        } else {
            Seq::<TopologyFlag>::empty()
        }));
        PowerDecision { interface_state: self.interface_state(now), topology_flags, wake_network }
    }
}

/// GoToSleep is announced once per low-power episode: after a tick that
/// announces it without waking the network, no later tick announces it
/// again until transaction activity resets the state.
pub proof fn lemma_sleep_announced_once(pm: PowerManager, t1: TimeSpan, next: PowerManager, t2: TimeSpan)
    requires
        pm.ticked(t1, next),
        pm.tick_emits_sleep(t1),
        !pm.tick_wakes(t1),
    ensures
        next.spec_mode() == PowerMode::SynchronizedLowPower,
        !next.tick_emits_sleep(t2),
{
}

/// The next wake barrier after `now` (when its millisecond count fits in 64
/// bits) lies after `now`, on a multiple of the wake interval, and opens an
/// awake window.
pub proof fn lemma_next_barrier(now: TimeSpan, barrier: TimeSpan)
    requires
        ((now@ / 1_000_000) / 5_000 + 1) * 5_000 <= u64::MAX,
        barrier@ == (#[verifier::truncate] ((((now@ / 1_000_000) / 5_000 + 1) * 5_000) as u64)) as int
            * 1_000_000,
    ensures
        barrier@ > now@,
        (barrier@ as int / 1_000_000) % (SYNCHRONIZED_WAKE_INTERVAL_MS as int) == 0,
        in_awake_window(barrier),
{
    let ms = now@ / 1_000_000;
    let next_ms = (ms / 5_000 + 1) * 5_000;
    assert(barrier@ == next_ms * 1_000_000);
    assert(next_ms > ms) by (nonlinear_arith)
        requires
            next_ms == (ms / 5_000 + 1) * 5_000,
            ms >= 0,
    ;
    assert(now@ < (ms + 1) * 1_000_000) by (nonlinear_arith)
        requires
            ms == now@ / 1_000_000,
            now@ >= 0,
    ;
    assert((next_ms * 1_000_000) / 1_000_000 == next_ms) by (nonlinear_arith)
        requires
            next_ms >= 0,
    ;
    assert(next_ms % 5_000 == 0) by (nonlinear_arith)
        requires
            next_ms == (ms / 5_000 + 1) * 5_000,
    ;
}

/// One call of the power state machine at `now`: a tick, or a send request;
/// `next` is the state it reaches and `d` the decision it reports.
pub open spec fn power_step(pm: PowerManager, is_tick: bool, now: TimeSpan, next: PowerManager, d: PowerDecision) -> bool {
    if is_tick {
        pm.ticked(now, next) && pm.tick_decision(now, next, d)
    } else {
        pm.outbound_recorded(now, next, d)
    }
}

/// An idle timeout announces GoToSleep: a node in high-power mode idle for at
/// least the timeout announces it at its next tick.
pub proof fn lemma_idle_timeout_announces_sleep(pm: PowerManager, now: TimeSpan)
    requires
        pm.wf(),
        pm.spec_mode() == PowerMode::HighPower,
        elapsed(now, pm.last_activity()) >= IDLE_SLEEP_TIMEOUT_MS * 1_000_000,
    ensures
        pm.tick_emits_sleep(now),
{
}

/// A node sleeps exactly when it has been idle for five minutes: a tick in
/// high-power mode less than five minutes (300 s) after the last activity
/// keeps the node in high-power mode with both radios on and announces
/// nothing; a tick at least five minutes after it puts the node in low-power
/// mode and announces GoToSleep. Neither wakes the network.
pub proof fn lemma_tick_sleeps_only_after_idle_timeout(
    pm: PowerManager,
    now: TimeSpan,
    next: PowerManager,
    d: PowerDecision,
)
    requires
        pm.wf(),
        pm.spec_mode() == PowerMode::HighPower,
        pm.ticked(now, next),
        pm.tick_decision(now, next, d),
    ensures
        !d.wake_network,
        now@ < pm.last_activity()@ + 300_000_000_000 ==> {
            &&& next.spec_mode() == PowerMode::HighPower
            &&& d.topology_flags@ == Seq::<TopologyFlag>::empty()
            &&& d.interface_state == (InterfacePowerState { ble_enabled: true, wifi_enabled: true })
            &&& next.last_activity() == pm.last_activity()
        },
        now@ >= pm.last_activity()@ + 300_000_000_000 ==> {
            &&& next.spec_mode() == PowerMode::SynchronizedLowPower
            &&& d.topology_flags@ == seq![TopologyFlag::GoToSleep]
        },
{
    assert(IDLE_SLEEP_TIMEOUT_MS * 1_000_000 == 300_000_000_000);
}

/// A sleeping node wakes only for a waiting send inside an awake window: a
/// tick in low-power mode returns the node to high-power mode, with both
/// radios on and the network woken, exactly when a send is waiting and the
/// tick falls in the first 500 ms of a 5 s period; otherwise the node stays
/// in low-power mode, its radios on only inside an awake window, and the send
/// stays waiting.
pub proof fn lemma_low_power_tick_wakes_only_for_waiting_send(
    pm: PowerManager,
    now: TimeSpan,
    next: PowerManager,
    d: PowerDecision,
)
    requires
        pm.wf(),
        pm.spec_mode() == PowerMode::SynchronizedLowPower,
        pm.ticked(now, next),
        pm.tick_decision(now, next, d),
    ensures
        d.wake_network <==> (pm.pending_outbound() && (now@ / 1_000_000) % 5_000 < 500),
        d.wake_network ==> {
            &&& next.spec_mode() == PowerMode::HighPower
            &&& !next.pending_outbound()
            &&& next.last_activity() == now
            &&& d.interface_state == (InterfacePowerState { ble_enabled: true, wifi_enabled: true })
        },
        !d.wake_network ==> {
            &&& next.spec_mode() == PowerMode::SynchronizedLowPower
            &&& next.pending_outbound() == pm.pending_outbound()
            &&& d.interface_state == (InterfacePowerState {
                ble_enabled: (now@ / 1_000_000) % 5_000 < 500,
                wifi_enabled: (now@ / 1_000_000) % 5_000 < 500,
            })
        },
{
}

/// A send goes out whenever the radios may be on: a send requested at a time
/// inside an awake window (the first 500 ms of every 5 s, counted in whole
/// milliseconds) returns the node to high-power mode with both radios on,
/// whatever its mode, and leaves nothing waiting. Outside every awake window
/// the send is deferred exactly when the node is asleep or has been idle for
/// five minutes; otherwise it goes out in high-power mode.
pub proof fn lemma_send_goes_out_unless_asleep_outside_window(
    pm: PowerManager,
    now: TimeSpan,
    next: PowerManager,
    d: PowerDecision,
)
    requires
        pm.wf(),
        pm.outbound_recorded(now, next, d),
    ensures
        (now@ / 1_000_000) % 5_000 < 500 ==> {
            &&& next.spec_mode() == PowerMode::HighPower
            &&& d.interface_state == (InterfacePowerState { ble_enabled: true, wifi_enabled: true })
            &&& next.last_activity() == now
            &&& !next.pending_outbound()
        },
        (now@ / 1_000_000) % 5_000 >= 500 && (pm.spec_mode() == PowerMode::SynchronizedLowPower
            || now@ >= pm.last_activity()@ + 300_000_000_000) ==> {
            &&& next.spec_mode() == PowerMode::SynchronizedLowPower
            &&& next.pending_outbound()
            &&& d.interface_state == (InterfacePowerState { ble_enabled: false, wifi_enabled: false })
            &&& next.last_activity() == pm.last_activity()
            &&& !d.wake_network
        },
        (now@ / 1_000_000) % 5_000 >= 500 && pm.spec_mode() == PowerMode::HighPower && now@
            < pm.last_activity()@ + 300_000_000_000 ==> {
            &&& next.spec_mode() == PowerMode::HighPower
            &&& d.interface_state == (InterfacePowerState { ble_enabled: true, wifi_enabled: true })
            &&& next.last_activity() == now
            &&& !next.pending_outbound()
            &&& d.topology_flags@ == Seq::<TopologyFlag>::empty()
        },
{
    assert(IDLE_SLEEP_TIMEOUT_MS * 1_000_000 == 300_000_000_000);
}

/// While calls keep the node in low-power mode after one announced GoToSleep,
/// the announcement stays on record.
proof fn lemma_sleep_flag_persists(
    states: Seq<PowerManager>,
    ticks: Seq<bool>,
    times: Seq<TimeSpan>,
    decisions: Seq<PowerDecision>,
    i: int,
)
    requires
        states.len() == ticks.len() + 1,
        times.len() == ticks.len(),
        decisions.len() == ticks.len(),
        1 <= i <= ticks.len(),
        forall|j: int|
            0 <= j < ticks.len() ==> #[trigger] power_step(
                states[j],
                ticks[j],
                times[j],
                states[j + 1],
                decisions[j],
            ),
        forall|j: int| 1 <= j <= ticks.len() ==> #[trigger] states[j].spec_mode()
            == PowerMode::SynchronizedLowPower,
    ensures
        states[i].flag_emitted(),
    decreases i,
{
    let j = i - 1;
    assert(power_step(states[j], ticks[j], times[j], states[j + 1], decisions[j]));
    assert(states[i].spec_mode() == PowerMode::SynchronizedLowPower);
    if i > 1 {
        lemma_sleep_flag_persists(states, ticks, times, decisions, i - 1);
    }
}

/// GoToSleep is announced once per low-power episode: in a run of calls
/// (ticks and deferred sends) after each of which the node is in low-power
/// mode, only the first call can announce it.
pub proof fn lemma_sleep_announced_once_per_episode(
    states: Seq<PowerManager>,
    ticks: Seq<bool>,
    times: Seq<TimeSpan>,
    decisions: Seq<PowerDecision>,
)
    requires
        states.len() == ticks.len() + 1,
        times.len() == ticks.len(),
        decisions.len() == ticks.len(),
        ticks.len() >= 1,
        forall|j: int|
            0 <= j < ticks.len() ==> #[trigger] power_step(
                states[j],
                ticks[j],
                times[j],
                states[j + 1],
                decisions[j],
            ),
        forall|j: int| 1 <= j <= ticks.len() ==> #[trigger] states[j].spec_mode()
            == PowerMode::SynchronizedLowPower,
    ensures
        forall|j: int| 1 <= j < ticks.len() ==> (#[trigger] decisions[j]).topology_flags@.len() == 0,
{
    assert forall|j: int| 1 <= j < ticks.len() implies (#[trigger] decisions[j]).topology_flags@.len()
        == 0 by {
        lemma_sleep_flag_persists(states, ticks, times, decisions, j);
        assert(power_step(states[j], ticks[j], times[j], states[j + 1], decisions[j]));
    }
}

} // verus!

//! Threshold alerting with consecutive-reading debounce.

pub mod logger;
pub mod webhook;

use vstd::prelude::*;

use crate::config::AppConfig;
use crate::text::str_chars;
use crate::text::chars_to_string;

verus! {

/// The resource an alert is about.
#[derive(Debug, Clone, Copy, PartialEq, Eq, Structural)]
pub enum AlertType {
    Cpu,
    Ram,
    Collector,
}

/// A fired alert. The gauge reading that triggered a CPU or RAM alert is a
/// floating-point value and is carried beside this record by the caller.
pub struct Alert {
    pub alert_type: AlertType,
    /// The configured threshold, in percent (1 for collector failures).
    pub threshold: u8,
    pub consecutive_readings: u32,
    pub timestamp: String,
    pub message: Option<String>,
}

/// The mathematical content of an [`Alert`].
pub struct AlertView {
    pub alert_type: AlertType,
    pub threshold: u8,
    pub consecutive_readings: u32,
    pub timestamp: Seq<char>,
    pub message: Option<Seq<char>>,
}

impl View for Alert {
    type V = AlertView;

    open spec fn view(&self) -> AlertView {
        AlertView {
            alert_type: self.alert_type,
            threshold: self.threshold,
            consecutive_readings: self.consecutive_readings,
            timestamp: self.timestamp@,
            message: match self.message {
                Some(m) => Some(m@),
                None => None,
            },
        }
    }
}

/// The debounce state of one resource: the length of the current run of
/// readings at or above the threshold, and whether that run already alerted.
pub struct DebounceState {
    pub count: nat,
    pub alerted: bool,
}

/// The number of readings a run must reach before it alerts; a requirement
/// of zero behaves like one, since the first reading of a run already counts.
pub open spec fn effective_required(required: nat) -> nat {
    if required == 0 { 1 } else { required }
}

/// One debounce step: the next state and whether an alert fires.
pub open spec fn debounce_step(s: DebounceState, above: bool, required: nat) -> (DebounceState, bool) {
    if above {
        let count = s.count + 1;
        let fires = count >= required && !s.alerted;
        (DebounceState { count, alerted: s.alerted || fires }, fires)
    } else {
        (DebounceState { count: 0, alerted: false }, false)
    }
}

/// The state before any reading.
pub open spec fn debounce_initial() -> DebounceState {
    DebounceState { count: 0, alerted: false }
}

/// The state after a whole sequence of readings, from the initial state.
pub open spec fn debounce_after(readings: Seq<bool>, required: nat) -> DebounceState
    decreases readings.len(),
{
    if readings.len() == 0 {
        debounce_initial()
    } else {
        debounce_step(debounce_after(readings.drop_last(), required), readings.last(), required).0
    }
}

/// Whether the last reading of the sequence fires an alert.
pub open spec fn debounce_fires_last(readings: Seq<bool>, required: nat) -> bool {
    readings.len() > 0 && debounce_step(
        debounce_after(readings.drop_last(), required),
        readings.last(),
        required,
    ).1
}

/// The length of the run of `true` readings at the end of the sequence.
pub open spec fn trailing_run(readings: Seq<bool>) -> nat
    decreases readings.len(),
{
    if readings.len() == 0 {
        0
    } else if readings.last() {
        trailing_run(readings.drop_last()) + 1
    } else {
        0
    }
}

/// Debounce law: after any sequence of readings, the counter is the length of
/// the trailing run at or above the threshold, the state is "alerted" exactly
/// when that run has reached the required length, and an alert fires on a
/// reading exactly when the run reaches the required length on that reading.
/// So each run alerts once, at its `required`-th reading, and a reading below
/// the threshold re-arms the alert.
pub proof fn lemma_debounce_fires_once_per_run(readings: Seq<bool>, required: nat)
    ensures
        debounce_after(readings, required).count == trailing_run(readings),
        debounce_after(readings, required).alerted == (trailing_run(readings) >= effective_required(required)),
        debounce_fires_last(readings, required) == (readings.len() > 0 && readings.last()
            && trailing_run(readings) == effective_required(required)),
    decreases readings.len(),
{
    if readings.len() > 0 {
        lemma_debounce_fires_once_per_run(readings.drop_last(), required);
    }
}

/// Collector-health law: with failures as `true` and successful collections
/// as `false`, a failure alerts exactly when it is the first of its streak,
/// so a streak of failures alerts once and a success re-arms the alert.
pub proof fn lemma_health_alert_once_per_streak(events: Seq<bool>)
    ensures
        debounce_fires_last(events, 1) == (events.len() > 0 && events.last() && trailing_run(events) == 1),
{
    lemma_debounce_fires_once_per_run(events, 1);
}

/// Per-resource debounce counter.
pub struct ResourceState {
    consecutive_count: u32,
    alerted: bool,
}

impl ResourceState {
    /// The abstract debounce state.
    pub closed spec fn state(self) -> DebounceState {
        DebounceState { count: self.consecutive_count as nat, alerted: self.alerted }
    }

    pub fn new() -> (s: Self)
        ensures
            s.state() == debounce_initial(),
    {
        ResourceState { consecutive_count: 0, alerted: false }
    }

    /// A copy of the state.
    pub fn copy(&self) -> (c: Self)
        ensures
            c.state() == self.state(),
    {
        ResourceState { consecutive_count: self.consecutive_count, alerted: self.alerted }
    }

    /// The length of the current run.
    pub fn consecutive_count(&self) -> (c: u32)
        ensures
            c == self.state().count,
    {
        self.consecutive_count
    }

    /// Records one reading; returns whether an alert fires.
    pub fn update(&mut self, above_threshold: bool, required: u32) -> (fires: bool)
        requires
            above_threshold ==> old(self).state().count < u32::MAX,
        ensures
            (final(self).state(), fires) == debounce_step(old(self).state(), above_threshold, required as nat),
    {
        if above_threshold {
            self.consecutive_count = self.consecutive_count + 1;
            if self.consecutive_count >= required && !self.alerted {
                self.alerted = true;
                return true;
            }
        } else {
            self.consecutive_count = 0;
            self.alerted = false;
        }
        false
    }
}

/// The debounce state after a run of readings, each taken with the number of
/// consecutive readings required when it came.
pub open spec fn debounce_run(events: Seq<(bool, nat)>) -> DebounceState
    decreases events.len(),
{
    if events.len() == 0 {
        debounce_initial()
    } else {
        debounce_step(debounce_run(events.drop_last()), events.last().0, events.last().1).0
    }
}

/// Whether reading `j` of a run fired an alert.
pub open spec fn fires_at(events: Seq<(bool, nat)>, j: int) -> bool {
    debounce_step(debounce_run(events.take(j)), events[j].0, events[j].1).1
}

/// The readings of a run, without their requirements.
pub open spec fn readings_of(events: Seq<(bool, nat)>) -> Seq<bool> {
    events.map_values(|e: (bool, nat)| e.0)
}

/// Whether every reading of a run was taken with requirement `required`.
pub open spec fn run_with(events: Seq<(bool, nat)>, required: nat) -> bool {
    forall|k: int| 0 <= k < events.len() ==> #[trigger] events[k].1 == required
}

proof fn lemma_run_is_after(events: Seq<(bool, nat)>, required: nat)
    requires
        run_with(events, required),
    ensures
        debounce_run(events) == debounce_after(readings_of(events), required),
    decreases events.len(),
{
    if events.len() > 0 {
        let rest = events.drop_last();
        assert(run_with(rest, required)) by {
            assert forall|k: int| 0 <= k < rest.len() implies #[trigger] rest[k].1 == required by {
                assert(rest[k] == events[k]);
            }
        }
        lemma_run_is_after(rest, required);
        assert(readings_of(events).drop_last() =~= readings_of(rest));
    }
}

proof fn lemma_fires_at_is_fires_last(events: Seq<(bool, nat)>, required: nat, j: int)
    requires
        run_with(events, required),
        0 <= j < events.len(),
    ensures
        fires_at(events, j) == debounce_fires_last(readings_of(events).take(j + 1), required),
{
    let prefix = events.take(j);
    assert(run_with(prefix, required)) by {
        assert forall|k: int| 0 <= k < prefix.len() implies #[trigger] prefix[k].1 == required by {
            assert(prefix[k] == events[k]);
        }
    }
    lemma_run_is_after(prefix, required);
    let r = readings_of(events).take(j + 1);
    assert(r.drop_last() =~= readings_of(prefix));
    assert(events[j].1 == required);
}

proof fn lemma_trailing_run_all_true(r: Seq<bool>, n: nat)
    requires
        n <= r.len(),
        forall|k: int| r.len() - n <= k < r.len() ==> #[trigger] r[k],
    ensures
        trailing_run(r) >= n,
    decreases n,
{
    if n > 0 {
        assert(r.last());
        lemma_trailing_run_all_true(r.drop_last(), (n - 1) as nat);
    }
}

proof fn lemma_trailing_run_true(r: Seq<bool>, k: int)
    requires
        0 <= k,
        r.len() - trailing_run(r) <= k < r.len(),
    ensures
        r[k],
    decreases r.len(),
{
    if k < r.len() - 1 {
        assert(r.last());
        assert(r.drop_last()[k] == r[k]);
        lemma_trailing_run_true(r.drop_last(), k);
    } else {
        assert(r.last());
    }
}

proof fn lemma_trailing_run_extends(r: Seq<bool>, i: int, j: int)
    requires
        0 <= i < j < r.len(),
        forall|k: int| i < k <= j ==> #[trigger] r[k],
    ensures
        trailing_run(r.take(j + 1)) == trailing_run(r.take(i + 1)) + (j - i),
    decreases j - i,
{
    let t = r.take(j + 1);
    assert(t.last() == r[j]);
    assert(t.drop_last() =~= r.take(j));
    if j - 1 > i {
        lemma_trailing_run_extends(r, i, j - 1);
    }
}

/// Debounce law over a run of readings taken with one requirement `m`
/// (read as at least 1): a reading fires only when it ends a run of `m`
/// readings at or above the threshold, and between two readings that fire
/// there is one below it.
pub proof fn lemma_debounce_run_law(events: Seq<(bool, nat)>, required: nat, i: int, j: int)
    requires
        run_with(events, required),
        0 <= i < j < events.len(),
        fires_at(events, i),
        fires_at(events, j),
    ensures
        forall|k: int| j - effective_required(required) < k <= j ==> #[trigger] events[k].0,
        j + 1 >= effective_required(required),
        exists|k: int| i < k < j && !(#[trigger] events[k]).0,
{
    lemma_alert_ends_full_run(events, required, j);
    let r = readings_of(events);
    lemma_fires_at_is_fires_last(events, required, i);
    lemma_fires_at_is_fires_last(events, required, j);
    lemma_debounce_fires_once_per_run(r.take(i + 1), required);
    lemma_debounce_fires_once_per_run(r.take(j + 1), required);
    if forall|k: int| i < k < j ==> (#[trigger] events[k]).0 {
        assert forall|k: int| i < k <= j implies #[trigger] r[k] by {
            assert(r[k] == events[k].0);
            assert(r.take(j + 1).last() == r[j]);
        }
        lemma_trailing_run_extends(r, i, j);
        assert(false);
    }
}

/// An alert ends a full run: a reading that fires is the last of
/// `max(required, 1)` consecutive readings at or above the threshold.
pub proof fn lemma_alert_ends_full_run(events: Seq<(bool, nat)>, required: nat, j: int)
    requires
        run_with(events, required),
        0 <= j < events.len(),
        fires_at(events, j),
    ensures
        j + 1 >= effective_required(required),
        forall|k: int| j - effective_required(required) < k <= j ==> #[trigger] events[k].0,
{
    let r = readings_of(events);
    let t = r.take(j + 1);
    lemma_fires_at_is_fires_last(events, required, j);
    lemma_debounce_fires_once_per_run(t, required);
    lemma_trailing_run_len(t);
    assert forall|k: int| j - effective_required(required) < k <= j implies #[trigger] events[k].0 by {
        lemma_trailing_run_true(t, k);
        assert(t[k] == r[k]);
        assert(r[k] == events[k].0);
    }
}

proof fn lemma_trailing_run_len(r: Seq<bool>)
    ensures
        trailing_run(r) <= r.len(),
    decreases r.len(),
{
    if r.len() > 0 {
        lemma_trailing_run_len(r.drop_last());
    }
}

/// Tracks the CPU, RAM and collector-health debounce states, with the
/// readings that made them: each evaluated snapshot adds a CPU and a RAM
/// reading (with the requirement in force) and a success to the health
/// record; each failed collection adds a failure to the health record.
pub struct AlertEvaluator {
    cpu_state: ResourceState,
    ram_state: ResourceState,
    collector_state: ResourceState,
    cpu_events: Ghost<Seq<(bool, nat)>>,
    ram_events: Ghost<Seq<(bool, nat)>>,
    health_events: Ghost<Seq<bool>>,
}

/// The message of a collector-health alert.
pub open spec fn collector_failure_message() -> Seq<char> {
    "system metric collection failed"@
}

impl AlertEvaluator {
    /// Each state is the one its readings lead to.
    #[verifier::type_invariant]
    spec fn consistent(self) -> bool {
        &&& self.cpu_state.state() == debounce_run(self.cpu_events@)
        &&& self.ram_state.state() == debounce_run(self.ram_events@)
        &&& self.collector_state.state() == debounce_after(self.health_events@, 1)
    }

    pub closed spec fn cpu(self) -> DebounceState {
        self.cpu_state.state()
    }

    pub closed spec fn ram(self) -> DebounceState {
        self.ram_state.state()
    }

    pub closed spec fn collector(self) -> DebounceState {
        self.collector_state.state()
    }

    /// The CPU readings evaluated so far, each with its requirement.
    pub closed spec fn cpu_history(self) -> Seq<(bool, nat)> {
        self.cpu_events@
    }

    /// The RAM readings evaluated so far, each with its requirement.
    pub closed spec fn ram_history(self) -> Seq<(bool, nat)> {
        self.ram_events@
    }

    /// The collections so far: `true` for a failure, `false` for a success.
    pub closed spec fn health_history(self) -> Seq<bool> {
        self.health_events@
    }

    pub fn new() -> (e: Self)
        ensures
            e.cpu() == debounce_initial(),
            e.ram() == debounce_initial(),
            e.collector() == debounce_initial(),
            e.cpu_history() == Seq::<(bool, nat)>::empty(),
            e.ram_history() == Seq::<(bool, nat)>::empty(),
            e.health_history() == Seq::<bool>::empty(),
    {
        AlertEvaluator {
            cpu_state: ResourceState::new(),
            ram_state: ResourceState::new(),
            collector_state: ResourceState::new(),
            cpu_events: Ghost(Seq::empty()),
            ram_events: Ghost(Seq::empty()),
            health_events: Ghost(Seq::empty()),
        }
    }

    /// Length of the current CPU run.
    pub fn cpu_consecutive(&self) -> (c: u32)
        ensures
            c == self.cpu().count,
    {
        self.cpu_state.consecutive_count()
    }

    /// Length of the current RAM run.
    pub fn ram_consecutive(&self) -> (c: u32)
        ensures
            c == self.ram().count,
    {
        self.ram_state.consecutive_count()
    }

    /// Length of the current run of collection failures.
    pub fn collector_consecutive(&self) -> (c: u32)
        ensures
            c == self.collector().count,
    {
        self.collector_state.consecutive_count()
    }

    /// Evaluates one successfully collected snapshot. `cpu_above` and
    /// `ram_above` tell whether the CPU and RAM usage of the snapshot are at or
    /// above the configured thresholds. A successful collection also re-arms
    /// the collector-health alert. Returns the CPU alert, then the RAM alert,
    /// each present only when its debounce step fires, that is when this
    /// reading fires in the run of all readings evaluated so far.
    pub fn evaluate(&mut self, timestamp: &str, cpu_above: bool, ram_above: bool, config: &AppConfig) -> (alerts: Vec<Alert>)
        requires
            cpu_above ==> old(self).cpu().count < u32::MAX,
            ram_above ==> old(self).ram().count < u32::MAX,
        ensures
            final(self).collector() == debounce_step(old(self).collector(), false, 1).0,
            final(self).cpu_history() == old(self).cpu_history().push((cpu_above, config.alert_consecutive as nat)),
            final(self).ram_history() == old(self).ram_history().push((ram_above, config.alert_consecutive as nat)),
            final(self).health_history() == old(self).health_history().push(false),
            final(self).cpu() == debounce_run(final(self).cpu_history()),
            final(self).ram() == debounce_run(final(self).ram_history()),
            ({
                let (cpu, cpu_fires) = debounce_step(old(self).cpu(), cpu_above, config.alert_consecutive as nat);
                let (ram, ram_fires) = debounce_step(old(self).ram(), ram_above, config.alert_consecutive as nat);
                let cpu_alerts: Seq<AlertView> = if cpu_fires {
                    seq![AlertView {
                        alert_type: AlertType::Cpu,
                        threshold: config.cpu_threshold,
                        consecutive_readings: cpu.count as u32,
                        timestamp: timestamp@,
                        message: None,
                    }]
                } else {
                    seq![]
                };
                let ram_alerts: Seq<AlertView> = if ram_fires {
                    seq![AlertView {
                        alert_type: AlertType::Ram,
                        threshold: config.ram_threshold,
                        consecutive_readings: ram.count as u32,
                        timestamp: timestamp@,
                        message: None,
                    }]
                } else {
                    seq![]
                };
                &&& final(self).cpu() == cpu
                &&& final(self).ram() == ram
                &&& alerts@.map_values(|a: Alert| a@) == cpu_alerts + ram_alerts
                &&& cpu_fires == fires_at(final(self).cpu_history(), old(self).cpu_history().len() as int)
                &&& ram_fires == fires_at(final(self).ram_history(), old(self).ram_history().len() as int)
            }),
    {
        proof {
            use_type_invariant(&*self);
        }
        let ghost old_cpu_events = self.cpu_events@;
        let ghost old_ram_events = self.ram_events@;
        let ghost old_health_events = self.health_events@;
        let required = config.alert_consecutive;
        let mut alerts: Vec<Alert> = Vec::new();

        let mut collector = self.collector_state.copy();
        collector.update(false, 1);
        let mut cpu = self.cpu_state.copy();
        let cpu_fires = cpu.update(cpu_above, required);
        let mut ram = self.ram_state.copy();
        let ram_fires = ram.update(ram_above, required);

        if cpu_fires {
            let ts = chars_to_string(str_chars(timestamp).as_slice());
            alerts.push(Alert {
                alert_type: AlertType::Cpu,
                threshold: config.cpu_threshold,
                consecutive_readings: cpu.consecutive_count(),
                timestamp: ts,
                message: None,
            });
        }

        if ram_fires {
            let ts = chars_to_string(str_chars(timestamp).as_slice());
            alerts.push(Alert {
                alert_type: AlertType::Ram,
                threshold: config.ram_threshold,
                consecutive_readings: ram.consecutive_count(),
                timestamp: ts,
                message: None,
            });
        }

        let ghost cpu_events = old_cpu_events.push((cpu_above, required as nat));
        let ghost ram_events = old_ram_events.push((ram_above, required as nat));
        let ghost health_events = old_health_events.push(false);
        proof {
            assert(cpu_events.drop_last() =~= old_cpu_events);
            assert(ram_events.drop_last() =~= old_ram_events);
            assert(health_events.drop_last() =~= old_health_events);
            assert(cpu_events.take(old_cpu_events.len() as int) =~= old_cpu_events);
            assert(ram_events.take(old_ram_events.len() as int) =~= old_ram_events);
        }
        *self = AlertEvaluator {
            cpu_state: cpu,
            ram_state: ram,
            collector_state: collector,
            cpu_events: Ghost(cpu_events),
            ram_events: Ghost(ram_events),
            health_events: Ghost(health_events),
        };

        proof {
            let s = alerts@.map_values(|a: Alert| a@);
            assert(s.len() == alerts@.len());
        }
        alerts
    }

    /// Records a failed collection. The first failure of a streak alerts,
    /// that is a failure with no failure recorded since the last successful
    /// collection (or since the evaluator was made); later failures stay
    /// silent until a successful collection re-arms the alert.
    pub fn record_collection_failure(&mut self, timestamp: &str) -> (alert: Option<Alert>)
        requires
            old(self).collector().count < u32::MAX,
        ensures
            final(self).cpu() == old(self).cpu(),
            final(self).ram() == old(self).ram(),
            final(self).cpu_history() == old(self).cpu_history(),
            final(self).ram_history() == old(self).ram_history(),
            final(self).health_history() == old(self).health_history().push(true),
            alert is Some <==> (old(self).health_history().len() == 0 || !old(self).health_history().last()),
            alert matches Some(a) ==> a.consecutive_readings == 1,
            ({
                let (c, fires) = debounce_step(old(self).collector(), true, 1);
                &&& final(self).collector() == c
                &&& match alert {
                    Some(a) => fires && a@ == AlertView {
                        alert_type: AlertType::Collector,
                        threshold: 1,
                        consecutive_readings: c.count as u32,
                        timestamp: timestamp@,
                        message: Some(collector_failure_message()),
                    },
                    None => !fires,
                }
            }),
    {
        proof {
            use_type_invariant(&*self);
            lemma_debounce_fires_once_per_run(self.health_events@, 1);
        }
        let ghost old_health_events = self.health_events@;
        let mut collector = self.collector_state.copy();
        let fires = collector.update(true, 1);
        let streak = collector.consecutive_count();
        let ghost health_events = old_health_events.push(true);
        proof {
            assert(health_events.drop_last() =~= old_health_events);
        }
        *self = AlertEvaluator {
            cpu_state: self.cpu_state.copy(),
            ram_state: self.ram_state.copy(),
            collector_state: collector,
            cpu_events: Ghost(self.cpu_events@),
            ram_events: Ghost(self.ram_events@),
            health_events: Ghost(health_events),
        };
        if fires {
            let ts = chars_to_string(str_chars(timestamp).as_slice());
            let msg = chars_to_string(str_chars("system metric collection failed").as_slice());
            return Some(Alert {
                alert_type: AlertType::Collector,
                threshold: 1,
                consecutive_readings: streak,
                timestamp: ts,
                message: Some(msg),
            });
        }
        None
    }
}

impl Default for AlertEvaluator {
    fn default() -> (e: Self)
        ensures
            e.cpu() == debounce_initial(),
            e.ram() == debounce_initial(),
            e.collector() == debounce_initial(),
            e.cpu_history() == Seq::<(bool, nat)>::empty(),
            e.ram_history() == Seq::<(bool, nat)>::empty(),
            e.health_history() == Seq::<bool>::empty(),
    {
        AlertEvaluator::new()
    }
}

} // verus!

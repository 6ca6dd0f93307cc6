//! The bookkeeping of a run: which units of work are spawned, which have
//! reported, what is awaited next and how the run ends. Each component has
//! two units, its fetch and its extraction. Spawning and waiting are the
//! caller's work.

use crate::error::outcome_view;
use crate::error::Failure;
use crate::error::InstallError;
use crate::toolchain::check_destination;
use vstd::prelude::*;

verus! {

/// Where one unit of work stands.
#[derive(Clone, Copy, Debug, PartialEq, Eq, Structural)]
pub enum UnitState {
    Pending,
    InFlight,
    Succeeded,
    Failed,
}

/// What the run does next.
#[derive(Clone, Copy, Debug, PartialEq, Eq, Structural)]
pub enum Step {
    /// Spawn the fetch and the extraction of this component.
    Spawn(usize),
    /// Wait for any extraction to report.
    AwaitExtraction,
    /// Wait for the fetch of this component to end.
    JoinFetch(usize),
    /// Nothing is left: the run has ended.
    Finished,
}

/// Where the run as a whole stands.
#[derive(Clone, Copy, Debug, PartialEq, Eq, Structural)]
pub enum RunStatus {
    Running,
    AllSucceeded,
    OneOrMoreFailed,
}

/// Whether a unit has reported.
pub open spec fn is_done(state: UnitState) -> bool {
    state is Succeeded || state is Failed
}

/// Whether every unit of `units` has reported.
pub open spec fn all_done(units: Seq<UnitState>) -> bool {
    forall|i: int| 0 <= i < units.len() ==> is_done(#[trigger] units[i])
}

/// Whether some unit of `units` is in state `state`.
pub open spec fn some_is(units: Seq<UnitState>, state: UnitState) -> bool {
    exists|i: int| 0 <= i < units.len() && #[trigger] units[i] == state
}

/// Whether `i` is the first unit of `units` in state `state`.
pub open spec fn first_at(units: Seq<UnitState>, state: UnitState, i: int) -> bool {
    &&& 0 <= i < units.len()
    &&& units[i] == state
    &&& forall|j: int| 0 <= j < i ==> #[trigger] units[j] != state
}

/// The state that a unit is in after it reported `outcome`.
pub open spec fn state_after(outcome: Result<(), Failure>) -> UnitState {
    if outcome is Ok {
        UnitState::Succeeded
    } else {
        UnitState::Failed
    }
}

/// The failure that a run reports after a unit reported `outcome`, where
/// `current` is what it reported before: the first failure stays.
pub open spec fn keep_first(current: Option<Failure>, outcome: Result<(), Failure>) -> Option<
    Failure,
> {
    match (current, outcome) {
        (None, Err(failure)) => Some(failure),
        _ => current,
    }
}

/// The state of a run: each component's fetch and extraction, and the
/// first failure that was reported.
pub struct Progress {
    pub fetches: Seq<UnitState>,
    pub extractions: Seq<UnitState>,
    pub first_error: Option<Failure>,
}

impl Progress {
    /// A run of `n` components of which none is spawned.
    pub open spec fn start(n: nat) -> Progress {
        Progress {
            fetches: Seq::new(n, |i: int| UnitState::Pending),
            extractions: Seq::new(n, |i: int| UnitState::Pending),
            first_error: None,
        }
    }

    /// What holds of every run: the two units of a component are spawned
    /// together, a fetch has reported only when every extraction has and
    /// every fetch before it, and a failure is held exactly when some unit
    /// has failed.
    pub open spec fn wf(self) -> bool {
        &&& self.fetches.len() == self.extractions.len()
        &&& forall|i: int|
            0 <= i < self.fetches.len() ==> ((#[trigger] self.fetches[i] is Pending)
                <==> self.extractions[i] is Pending)
        &&& forall|i: int, j: int|
            0 <= i < self.fetches.len() && 0 <= j < self.fetches.len() && is_done(
                #[trigger] self.fetches[i],
            ) ==> is_done(#[trigger] self.extractions[j])
        &&& forall|i: int, j: int|
            0 <= j < i < self.fetches.len() && is_done(#[trigger] self.fetches[i]) ==> is_done(
                #[trigger] self.fetches[j],
            )
        &&& self.first_error is Some <==> (some_is(self.fetches, UnitState::Failed) || some_is(
            self.extractions,
            UnitState::Failed,
        ))
    }

    /// Whether the run does `step` next: components are spawned in order;
    /// then extractions are awaited, in whatever order they report; then
    /// the fetches are joined in order; then the run has ended.
    pub open spec fn awaits(self, step: Step) -> bool {
        match step {
            Step::Spawn(i) => first_at(self.extractions, UnitState::Pending, i as int),
            Step::AwaitExtraction => !some_is(self.extractions, UnitState::Pending) && some_is(
                self.extractions,
                UnitState::InFlight,
            ),
            Step::JoinFetch(i) => all_done(self.extractions) && first_at(
                self.fetches,
                UnitState::InFlight,
                i as int,
            ),
            Step::Finished => all_done(self.extractions) && all_done(self.fetches),
        }
    }

    /// Whether the units of component `i` can be spawned.
    pub open spec fn can_spawn(self, i: int) -> bool {
        0 <= i < self.extractions.len() && self.extractions[i] is Pending
    }

    /// Whether a report of the extraction of component `i` is due.
    pub open spec fn can_extract(self, i: int) -> bool {
        0 <= i < self.extractions.len() && self.extractions[i] is InFlight
    }

    /// Whether a report of the fetch of component `i` is due: every
    /// extraction has reported and this fetch is the next to be joined.
    pub open spec fn can_join(self, i: int) -> bool {
        all_done(self.extractions) && first_at(self.fetches, UnitState::InFlight, i)
    }

    /// The run after the units of component `i` were spawned.
    pub open spec fn spawned(self, i: int) -> Progress {
        Progress {
            fetches: self.fetches.update(i, UnitState::InFlight),
            extractions: self.extractions.update(i, UnitState::InFlight),
            first_error: self.first_error,
        }
    }

    /// The run after the extraction of component `i` reported `outcome`.
    pub open spec fn extracted(self, i: int, outcome: Result<(), Failure>) -> Progress {
        Progress {
            fetches: self.fetches,
            extractions: self.extractions.update(i, state_after(outcome)),
            first_error: keep_first(self.first_error, outcome),
        }
    }

    /// The run after the fetch of component `i` reported `outcome`.
    pub open spec fn joined(self, i: int, outcome: Result<(), Failure>) -> Progress {
        Progress {
            fetches: self.fetches.update(i, state_after(outcome)),
            extractions: self.extractions,
            first_error: keep_first(self.first_error, outcome),
        }
    }

    /// Where the run as a whole stands.
    pub open spec fn status(self) -> RunStatus {
        if !self.awaits(Step::Finished) {
            RunStatus::Running
        } else if self.first_error is None {
            RunStatus::AllSucceeded
        } else {
            RunStatus::OneOrMoreFailed
        }
    }

    /// How the run ended: with the first failure that was reported, or well
    /// where there was none. `None` while the run is not over.
    pub open spec fn result(self) -> Option<Result<(), Failure>> {
        if !self.awaits(Step::Finished) {
            None
        } else {
            match self.first_error {
                None => Some(Ok(())),
                Some(failure) => Some(Err(failure)),
            }
        }
    }
}

struct Units {
    fetches: Vec<UnitState>,
    extractions: Vec<UnitState>,
    first_error: Option<InstallError>,
}

impl Units {
    spec fn progress(self) -> Progress {
        Progress {
            fetches: self.fetches@,
            extractions: self.extractions@,
            first_error: match self.first_error {
                None => None,
                Some(e) => Some(e@),
            },
        }
    }

    fn empty() -> (u: Units)
        ensures
            u.progress() == Progress::start(0),
    {
        let u = Units { fetches: Vec::new(), extractions: Vec::new(), first_error: None };
        assert(u.fetches@ =~= Seq::new(0, |i: int| UnitState::Pending));
        u
    }

    fn note(&mut self, outcome: Result<(), InstallError>) -> (state: UnitState)
        ensures
            state == state_after(outcome_view(outcome)),
            final(self).fetches == old(self).fetches,
            final(self).extractions == old(self).extractions,
            final(self).progress().first_error == keep_first(
                old(self).progress().first_error,
                outcome_view(outcome),
            ),
    {
        match outcome {
            Ok(_) => UnitState::Succeeded,
            Err(e) => {
                if self.first_error.is_none() {
                    self.first_error = Some(e);
                }
                UnitState::Failed
            },
        }
    }
}

/// The bookkeeping of one run.
pub struct Orchestrator {
    units: Units,
}

impl View for Orchestrator {
    type V = Progress;

    closed spec fn view(&self) -> Progress {
        self.units.progress()
    }
}

fn position(units: &Vec<UnitState>, state: UnitState) -> (at: Option<usize>)
    ensures
        match at {
            Some(i) => first_at(units@, state, i as int),
            None => !some_is(units@, state),
        },
{
    let mut i: usize = 0;
    while i < units.len()
        invariant
            i <= units@.len(),
            forall|j: int| 0 <= j < i ==> #[trigger] units@[j] != state,
        decreases units@.len() - i,
    {
        if units[i] == state {
            return Some(i);
        }
        i += 1;
    }
    None
}

impl Orchestrator {
    #[verifier::type_invariant]
    spec fn holds(self) -> bool {
        self.units.progress().wf()
    }

    /// The bookkeeping of a run of `components` components, none of them
    /// spawned.
    pub fn new(components: usize) -> (o: Orchestrator)
        ensures
            o@ == Progress::start(components as nat),
            o@.wf(),
    {
        let mut fetches: Vec<UnitState> = Vec::new();
        let mut extractions: Vec<UnitState> = Vec::new();
        let mut i: usize = 0;
        while i < components
            invariant
                i <= components,
                fetches@ == Seq::new(i as nat, |k: int| UnitState::Pending),
                extractions@ == Seq::new(i as nat, |k: int| UnitState::Pending),
            decreases components - i,
        {
            fetches.push(UnitState::Pending);
            extractions.push(UnitState::Pending);
            i += 1;
        }
        let units = Units { fetches, extractions, first_error: None };
        proof {
            lemma_start_wf(components as nat);
        }
        Orchestrator { units }
    }

    /// Starts a run of `components` components that installs to
    /// `destination`, unless that directory exists: then the run fails
    /// before any unit of work is spawned.
    pub fn begin(destination_exists: bool, destination: &str, components: usize) -> (r: Result<
        Orchestrator,
        InstallError,
    >)
        ensures
            destination_exists ==> (r matches Err(e) && e@
                == (Failure::DestinationAlreadyExists { path: destination@ })),
            !destination_exists ==> (r matches Ok(o) && o@ == Progress::start(components as nat)
                && o@.wf()),
    {
        match check_destination(destination_exists, destination) {
            Ok(_) => Ok(Orchestrator::new(components)),
            Err(e) => Err(e),
        }
    }

    /// The number of components.
    pub fn components(&self) -> (n: usize)
        ensures
            n == self@.extractions.len(),
            self@.wf(),
    {
        proof {
            use_type_invariant(self);
        }
        self.units.extractions.len()
    }

    /// What the run does next.
    pub fn next(&self) -> (step: Step)
        ensures
            self@.awaits(step),
            self@.wf(),
    {
        proof {
            use_type_invariant(self);
        }
        if let Some(i) = position(&self.units.extractions, UnitState::Pending) {
            return Step::Spawn(i);
        }
        if position(&self.units.extractions, UnitState::InFlight).is_some() {
            return Step::AwaitExtraction;
        }
        proof {
            let p = self@;
            assert forall|j: int| 0 <= j < p.extractions.len() implies is_done(
                #[trigger] p.extractions[j],
            ) by {
                if !is_done(p.extractions[j]) {
                    assert(p.extractions[j] == UnitState::Pending || p.extractions[j]
                        == UnitState::InFlight);
                }
            }
        }
        if let Some(i) = position(&self.units.fetches, UnitState::InFlight) {
            return Step::JoinFetch(i);
        }
        Step::Finished
    }

    /// Records that the fetch and the extraction of component `i` were
    /// spawned. Says whether that was due: it is not where `i` is no
    /// component or was spawned before, and then nothing changes.
    pub fn spawn(&mut self, i: usize) -> (accepted: bool)
        ensures
            accepted == old(self)@.can_spawn(i as int),
            final(self)@ == if accepted {
                old(self)@.spawned(i as int)
            } else {
                old(self)@
            },
            final(self)@.wf(),
    {
        proof {
            use_type_invariant(&*self);
        }
        if i >= self.units.extractions.len() || self.units.extractions[i] != UnitState::Pending {
            return false;
        }
        let mut units = Units::empty();
        proof {
            lemma_start_wf(0);
        }
        core::mem::swap(&mut self.units, &mut units);
        let ghost before = units.progress();
        units.fetches.set(i, UnitState::InFlight);
        units.extractions.set(i, UnitState::InFlight);
        proof {
            lemma_spawned_wf(before, i as int);
        }
        self.units = units;
        true
    }

    /// Records the outcome of the extraction of component `i`. Says whether
    /// a report was due: it is not where `i` is no component, its
    /// extraction is not running or has reported before, and then nothing
    /// changes.
    pub fn record_extraction(&mut self, i: usize, outcome: Result<(), InstallError>) -> (accepted:
        bool)
        ensures
            accepted == old(self)@.can_extract(i as int),
            final(self)@ == if accepted {
                old(self)@.extracted(i as int, outcome_view(outcome))
            } else {
                old(self)@
            },
            final(self)@.wf(),
    {
        proof {
            use_type_invariant(&*self);
        }
        if i >= self.units.extractions.len() || self.units.extractions[i] != UnitState::InFlight {
            return false;
        }
        let mut units = Units::empty();
        proof {
            lemma_start_wf(0);
        }
        core::mem::swap(&mut self.units, &mut units);
        let ghost before = units.progress();
        let state = units.note(outcome);
        units.extractions.set(i, state);
        proof {
            lemma_extracted_wf(before, i as int, outcome_view(outcome));
        }
        self.units = units;
        true
    }

    /// Records the outcome of the fetch of component `i`. Says whether a
    /// report was due: it is only once every extraction has reported, and
    /// for the first fetch that is still running; else nothing changes.
    pub fn record_fetch(&mut self, i: usize, outcome: Result<(), InstallError>) -> (accepted: bool)
        ensures
            accepted == old(self)@.can_join(i as int),
            final(self)@ == if accepted {
                old(self)@.joined(i as int, outcome_view(outcome))
            } else {
                old(self)@
            },
            final(self)@.wf(),
    {
        let step = self.next();
        let due = match step {
            Step::JoinFetch(k) => k == i,
            _ => false,
        };
        proof {
            lemma_one_step(self@, step, Step::JoinFetch(i));
        }
        if !due {
            return false;
        }
        let mut units = Units::empty();
        proof {
            lemma_start_wf(0);
        }
        core::mem::swap(&mut self.units, &mut units);
        let ghost before = units.progress();
        let state = units.note(outcome);
        units.fetches.set(i, state);
        proof {
            lemma_joined_wf(before, i as int, outcome_view(outcome));
        }
        self.units = units;
        true
    }

    /// Where the run as a whole stands.
    pub fn status(&self) -> (status: RunStatus)
        ensures
            status == self@.status(),
            self@.wf(),
    {
        let step = self.next();
        proof {
            lemma_one_step(self@, step, Step::Finished);
        }
        match step {
            Step::Finished => if self.units.first_error.is_none() {
                RunStatus::AllSucceeded
            } else {
                RunStatus::OneOrMoreFailed
            },
            _ => RunStatus::Running,
        }
    }

    /// How the run ended, or `None` while it is not over.
    pub fn result(&self) -> (r: Option<Result<(), InstallError>>)
        ensures
            match r {
                None => self@.result() is None,
                Some(outcome) => self@.result() == Some(outcome_view(outcome)),
            },
            self@.wf(),
    {
        let step = self.next();
        proof {
            lemma_one_step(self@, step, Step::Finished);
        }
        match step {
            Step::Finished => match &self.units.first_error {
                None => Some(Ok(())),
                Some(e) => Some(Err(e.duplicate())),
            },
            _ => None,
        }
    }
}

/// A run in which nothing is spawned is well formed.
pub proof fn lemma_start_wf(n: nat)
    ensures
        Progress::start(n).wf(),
{
}

/// What a run does next is settled by its state: no two steps are due at
/// once.
pub proof fn lemma_one_step(p: Progress, a: Step, b: Step)
    requires
        p.wf(),
        p.awaits(a),
    ensures
        p.awaits(b) <==> a == b,
{
}

/// Spawning a component that is due keeps the run well formed.
pub proof fn lemma_spawned_wf(p: Progress, i: int)
    requires
        p.wf(),
        p.can_spawn(i),
    ensures
        p.spawned(i).wf(),
{
    lemma_failed_kept(p.fetches, i, UnitState::InFlight);
    lemma_failed_kept(p.extractions, i, UnitState::InFlight);
}

/// Changing a unit that has not failed into one that has not failed
/// leaves it unchanged whether some unit has failed.
proof fn lemma_failed_kept(units: Seq<UnitState>, i: int, state: UnitState)
    requires
        0 <= i < units.len(),
        units[i] != UnitState::Failed,
        state != UnitState::Failed,
    ensures
        some_is(units.update(i, state), UnitState::Failed) <==> some_is(units, UnitState::Failed),
{
    if some_is(units, UnitState::Failed) {
        let k = choose|k: int| 0 <= k < units.len() && #[trigger] units[k] == UnitState::Failed;
        assert(units.update(i, state)[k] == UnitState::Failed);
    }
}

/// A unit that has not failed and now fails makes it true that some unit
/// has failed.
proof fn lemma_failed_added(units: Seq<UnitState>, i: int)
    requires
        0 <= i < units.len(),
    ensures
        some_is(units.update(i, UnitState::Failed), UnitState::Failed),
{
    assert(units.update(i, UnitState::Failed)[i] == UnitState::Failed);
}

/// A report of an extraction that is due keeps the run well formed.
pub proof fn lemma_extracted_wf(p: Progress, i: int, outcome: Result<(), Failure>)
    requires
        p.wf(),
        p.can_extract(i),
    ensures
        p.extracted(i, outcome).wf(),
{
    if outcome is Ok {
        lemma_failed_kept(p.extractions, i, UnitState::Succeeded);
    } else {
        lemma_failed_added(p.extractions, i);
    }
}

/// A report of a fetch that is due keeps the run well formed.
pub proof fn lemma_joined_wf(p: Progress, i: int, outcome: Result<(), Failure>)
    requires
        p.wf(),
        p.can_join(i),
    ensures
        p.joined(i, outcome).wf(),
{
    if outcome is Ok {
        lemma_failed_kept(p.fetches, i, UnitState::Succeeded);
    } else {
        lemma_failed_added(p.fetches, i);
    }
}

/// A report that reaches the run: the outcome of one unit of one component.
pub enum Report {
    Extraction(int, Result<(), Failure>),
    Fetch(int, Result<(), Failure>),
}

impl Report {
    /// What the unit reported.
    pub open spec fn outcome(self) -> Result<(), Failure> {
        match self {
            Report::Extraction(_, outcome) => outcome,
            Report::Fetch(_, outcome) => outcome,
        }
    }
}

impl Progress {
    /// Whether `report` is due.
    pub open spec fn accepts(self, report: Report) -> bool {
        match report {
            Report::Extraction(i, _) => self.can_extract(i),
            Report::Fetch(i, _) => self.can_join(i),
        }
    }

    /// The run after `report` reached it: a report that is not due changes
    /// nothing.
    pub open spec fn after(self, report: Report) -> Progress {
        if !self.accepts(report) {
            self
        } else {
            match report {
                Report::Extraction(i, outcome) => self.extracted(i, outcome),
                Report::Fetch(i, outcome) => self.joined(i, outcome),
            }
        }
    }

    /// The run after the first `n` of `reports` reached it, in order.
    pub open spec fn replay(self, reports: Seq<Report>, n: nat) -> Progress
        decreases n,
    {
        if n == 0 {
            self
        } else {
            self.replay(reports, (n - 1) as nat).after(reports[n - 1])
        }
    }
}

/// Reports keep a run well formed, whether they are due or not.
pub proof fn lemma_replay_wf(p: Progress, reports: Seq<Report>, n: nat)
    requires
        p.wf(),
        n <= reports.len(),
    ensures
        p.replay(reports, n).wf(),
    decreases n,
{
    if n > 0 {
        lemma_replay_wf(p, reports, (n - 1) as nat);
        let before = p.replay(reports, (n - 1) as nat);
        match reports[n - 1] {
            Report::Extraction(i, outcome) => {
                if before.can_extract(i) {
                    lemma_extracted_wf(before, i, outcome);
                }
            },
            Report::Fetch(i, outcome) => {
                if before.can_join(i) {
                    lemma_joined_wf(before, i, outcome);
                }
            },
        }
    }
}

/// A run that has ended reports success exactly when every fetch and every
/// extraction has succeeded, and has then heard from every unit.
pub proof fn lemma_success_means_all_succeeded(p: Progress)
    requires
        p.wf(),
        p.awaits(Step::Finished),
    ensures
        p.result() == Some(Ok::<(), Failure>(())) <==> (forall|i: int|
            0 <= i < p.fetches.len() ==> #[trigger] p.fetches[i] is Succeeded)
            && (forall|i: int|
            0 <= i < p.extractions.len() ==> #[trigger] p.extractions[i] is Succeeded),
        p.result() is Some,
        p.status() is AllSucceeded <==> p.result() == Some(Ok::<(), Failure>(())),
        forall|i: int| 0 <= i < p.fetches.len() ==> is_done(#[trigger] p.fetches[i]),
        forall|i: int| 0 <= i < p.extractions.len() ==> is_done(#[trigger] p.extractions[i]),
{
}

/// A run is over only when it has heard from every unit: while a unit has
/// not reported, the run has no result.
pub proof fn lemma_no_result_before_all_reported(p: Progress, i: int)
    requires
        p.wf(),
        0 <= i < p.fetches.len(),
        !is_done(p.fetches[i]) || !is_done(p.extractions[i]),
    ensures
        p.result() is None,
        p.status() is Running,
{
}

/// Each unit reports once: after a report that was due, a second report of
/// the same unit is not.
pub proof fn lemma_one_report_per_unit(p: Progress, report: Report, again: Result<(), Failure>)
    requires
        p.wf(),
        p.accepts(report),
    ensures
        report matches Report::Extraction(i, _) ==> !p.after(report).accepts(
            Report::Extraction(i, again),
        ),
        report matches Report::Fetch(i, _) ==> !p.after(report).accepts(Report::Fetch(i, again)),
{
}

/// The first failure stays: once a run holds a failure, no report changes
/// it.
pub proof fn lemma_failure_stays(p: Progress, reports: Seq<Report>, n: nat)
    requires
        p.first_error is Some,
        n <= reports.len(),
    ensures
        p.replay(reports, n).first_error == p.first_error,
    decreases n,
{
    if n > 0 {
        lemma_failure_stays(p, reports, (n - 1) as nat);
    }
}

/// The run reports the first failure that reached it: where the `k`-th
/// report is due and is a failure, and every report before it that was due
/// was a success, the run holds that failure whatever follows.
pub proof fn lemma_first_failure_wins(p: Progress, reports: Seq<Report>, k: nat, n: nat)
    requires
        p.first_error is None,
        k < n <= reports.len(),
        p.replay(reports, k).accepts(reports[k as int]),
        reports[k as int].outcome() is Err,
        forall|j: nat|
            j < k && #[trigger] p.replay(reports, j).accepts(reports[j as int])
                ==> reports[j as int].outcome() is Ok,
    ensures
        p.replay(reports, n).first_error == Some(reports[k as int].outcome()->Err_0),
    decreases n,
{
    lemma_no_failure_yet(p, reports, k);
    if n > k + 1 {
        lemma_first_failure_wins(p, reports, k, (n - 1) as nat);
    }
}

proof fn lemma_no_failure_yet(p: Progress, reports: Seq<Report>, k: nat)
    requires
        p.first_error is None,
        k <= reports.len(),
        forall|j: nat|
            j < k && #[trigger] p.replay(reports, j).accepts(reports[j as int])
                ==> reports[j as int].outcome() is Ok,
    ensures
        p.replay(reports, k).first_error is None,
    decreases k,
{
    if k > 0 {
        lemma_no_failure_yet(p, reports, (k - 1) as nat);
    }
}

/// A failure cancels nothing: what the run does next after a report does
/// not depend on whether the report was a success or a failure.
pub proof fn lemma_failure_cancels_nothing(
    p: Progress,
    i: int,
    one: Result<(), Failure>,
    other: Result<(), Failure>,
    step: Step,
)
    requires
        p.wf(),
    ensures
        p.can_extract(i) ==> (p.extracted(i, one).awaits(step) <==> p.extracted(i, other).awaits(
            step,
        )),
        p.can_join(i) ==> (p.joined(i, one).awaits(step) <==> p.joined(i, other).awaits(step)),
{
    if p.can_extract(i) {
        lemma_same_step(p.extracted(i, one), p.extracted(i, other), step);
    }
    if p.can_join(i) {
        lemma_same_step(p.joined(i, one), p.joined(i, other), step);
    }
}

/// Two runs whose units are spawned, running and done alike do the same
/// next.
proof fn lemma_same_step(a: Progress, b: Progress, step: Step)
    requires
        a.fetches.len() == b.fetches.len(),
        a.extractions.len() == b.extractions.len(),
        forall|k: int|
            0 <= k < a.fetches.len() ==> (is_done(#[trigger] a.fetches[k]) <==> is_done(
                b.fetches[k],
            )) && (is_done(a.fetches[k]) || a.fetches[k] == b.fetches[k]),
        forall|k: int|
            0 <= k < a.extractions.len() ==> (is_done(#[trigger] a.extractions[k]) <==> is_done(
                b.extractions[k],
            )) && (is_done(a.extractions[k]) || a.extractions[k] == b.extractions[k]),
    ensures
        a.awaits(step) ==> b.awaits(step),
        b.awaits(step) ==> a.awaits(step),
{
    lemma_same_step_one_way(a, b, step);
    lemma_same_step_one_way(b, a, step);
}

proof fn lemma_same_step_one_way(a: Progress, b: Progress, step: Step)
    requires
        a.fetches.len() == b.fetches.len(),
        a.extractions.len() == b.extractions.len(),
        forall|k: int|
            0 <= k < a.fetches.len() ==> (is_done(#[trigger] a.fetches[k]) <==> is_done(
                b.fetches[k],
            )) && (is_done(a.fetches[k]) || a.fetches[k] == b.fetches[k]),
        forall|k: int|
            0 <= k < a.extractions.len() ==> (is_done(#[trigger] a.extractions[k]) <==> is_done(
                b.extractions[k],
            )) && (is_done(a.extractions[k]) || a.extractions[k] == b.extractions[k]),
    ensures
        a.awaits(step) ==> b.awaits(step),
{
    assert(forall|k: int|
        0 <= k < a.fetches.len() ==> (#[trigger] b.fetches[k] == UnitState::InFlight
            <==> a.fetches[k] == UnitState::InFlight));
    assert(forall|k: int|
        0 <= k < a.extractions.len() ==> (#[trigger] b.extractions[k] == UnitState::InFlight
            <==> a.extractions[k] == UnitState::InFlight) && (b.extractions[k]
            == UnitState::Pending <==> a.extractions[k] == UnitState::Pending));
}

} // verus!

use vstd::prelude::*;
use crate::world::App;

verus! {

/// The elapsed time a system is handed: zero at startup, or the time measured
/// when the current update pass began.
#[derive(Clone, Copy, Debug, PartialEq, Eq, Structural)]
pub enum Delta {
    Zero,
    Elapsed,
}

/// What the loop that drives a world does next.
#[derive(Clone, Copy, Debug, PartialEq, Eq, Structural)]
pub enum Action {
    /// Call the system with this handle.
    Invoke { system: usize, delta: Delta },
    /// Start the clock, once startup is over.
    StartClock,
    /// Open an update pass: take the time elapsed since the clock was last
    /// started or measured, then restart it.
    Measure,
}

/// Where the loop stands. A phase in progress carries the index of its next
/// system and the number of systems it was begun with: a system registered
/// while a phase runs waits for the next pass.
#[derive(Clone, Copy, Debug, PartialEq, Eq, Structural)]
pub enum Stage {
    Start,
    Startup(usize, usize),
    Measure,
    Update(usize, usize),
}

/// The loop before anything has run.
pub open spec fn initial() -> Stage {
    Stage::Start
}

pub open spec fn startup_step(startup: Seq<usize>, i: usize, n: usize) -> (Action, Stage) {
    if i < n && i < startup.len() {
        (Action::Invoke { system: startup[i as int], delta: Delta::Zero }, Stage::Startup((i + 1) as usize, n))
    } else {
        (Action::StartClock, Stage::Measure)
    }
}

/// One step of the loop over the given startup and update systems.
pub open spec fn spec_step(startup: Seq<usize>, update: Seq<usize>, stage: Stage) -> (Action, Stage) {
    match stage {
        Stage::Start => startup_step(startup, 0, startup.len() as usize),
        Stage::Startup(i, n) => startup_step(startup, i, n),
        Stage::Measure => (Action::Measure, Stage::Update(0, update.len() as usize)),
        Stage::Update(i, n) => if i < n && i < update.len() {
            (Action::Invoke { system: update[i as int], delta: Delta::Elapsed }, Stage::Update(
                (i + 1) as usize,
                n,
            ))
        } else {
            (Action::Measure, Stage::Update(0, update.len() as usize))
        },
    }
}

/// The actions of `n` steps from `stage`.
pub open spec fn trace(startup: Seq<usize>, update: Seq<usize>, stage: Stage, n: nat) -> Seq<Action>
    decreases n,
{
    if n == 0 {
        Seq::empty()
    } else {
        let (a, next) = spec_step(startup, update, stage);
        seq![a] + trace(startup, update, next, (n - 1) as nat)
    }
}

/// The stage reached after `n` steps from `stage`.
pub open spec fn stage_after(startup: Seq<usize>, update: Seq<usize>, stage: Stage, n: nat) -> Stage
    decreases n,
{
    if n == 0 {
        stage
    } else {
        stage_after(startup, update, spec_step(startup, update, stage).1, (n - 1) as nat)
    }
}

pub fn initial_stage() -> (r: Stage)
    ensures
        r == initial(),
{
    Stage::Start
}

impl App {
    /// The next action of the loop at `stage`, and the stage after it.
    pub fn step(&self, stage: Stage) -> (r: (Action, Stage))
        requires
            self.wf(),
        ensures
            r == spec_step(self.spec_startup(), self.spec_update(), stage),
    {
        let (i, n) = match stage {
            Stage::Start => (0, self.startup_count()),
            Stage::Startup(i, n) => (i, n),
            Stage::Measure => {
                return (Action::Measure, Stage::Update(0, self.update_count()));
            },
            Stage::Update(i, n) => {
                if i < n && i < self.update_count() {
                    return (Action::Invoke { system: self.update_system(i), delta: Delta::Elapsed }, Stage::Update(i + 1, n));
                } else {
                    return (Action::Measure, Stage::Update(0, self.update_count()));
                }
            },
        };
        if i < n && i < self.startup_count() {
            (Action::Invoke { system: self.startup_system(i), delta: Delta::Zero }, Stage::Startup(i + 1, n))
        } else {
            (Action::StartClock, Stage::Measure)
        }
    }
}

proof fn lemma_trace_split(startup: Seq<usize>, update: Seq<usize>, stage: Stage, m: nat, k: nat)
    ensures
        trace(startup, update, stage, m + k) == trace(startup, update, stage, m) + trace(
            startup,
            update,
            stage_after(startup, update, stage, m),
            k,
        ),
        stage_after(startup, update, stage, m + k) == stage_after(
            startup,
            update,
            stage_after(startup, update, stage, m),
            k,
        ),
    decreases m,
{
    if m == 0 {
        assert(trace(startup, update, stage, k) =~= Seq::<Action>::empty() + trace(startup, update, stage, k));
    } else {
        let (a, next) = spec_step(startup, update, stage);
        lemma_trace_split(startup, update, next, (m - 1) as nat, k);
        assert((m + k - 1) as nat == (m - 1) as nat + k);
        let rest = stage_after(startup, update, next, (m - 1) as nat);
        assert(seq![a] + (trace(startup, update, next, (m - 1) as nat) + trace(startup, update, rest, k))
            =~= (seq![a] + trace(startup, update, next, (m - 1) as nat)) + trace(startup, update, rest, k));
    }
}

proof fn lemma_startup_from(startup: Seq<usize>, update: Seq<usize>, j: nat, k: nat)
    requires
        j + k <= startup.len(),
        startup.len() < usize::MAX,
    ensures
        trace(startup, update, Stage::Startup(j as usize, startup.len() as usize), k) == startup.subrange(
            j as int,
            (j + k) as int,
        ).map_values(|s: usize| Action::Invoke { system: s, delta: Delta::Zero }),
        stage_after(startup, update, Stage::Startup(j as usize, startup.len() as usize), k) == Stage::Startup(
            (j + k) as usize,
            startup.len() as usize,
        ),
    decreases k,
{
    if k > 0 {
        lemma_startup_from(startup, update, j + 1, (k - 1) as nat);
        assert((j + 1 + (k - 1)) as nat == j + k);
        assert(trace(startup, update, Stage::Startup(j as usize, startup.len() as usize), k) =~= startup.subrange(
            j as int,
            (j + k) as int,
        ).map_values(|s: usize| Action::Invoke { system: s, delta: Delta::Zero }));
    }
}

proof fn lemma_update_from(startup: Seq<usize>, update: Seq<usize>, j: nat, k: nat)
    requires
        j + k <= update.len(),
        update.len() < usize::MAX,
    ensures
        trace(startup, update, Stage::Update(j as usize, update.len() as usize), k) == update.subrange(
            j as int,
            (j + k) as int,
        ).map_values(|s: usize| Action::Invoke { system: s, delta: Delta::Elapsed }),
        stage_after(startup, update, Stage::Update(j as usize, update.len() as usize), k) == Stage::Update(
            (j + k) as usize,
            update.len() as usize,
        ),
    decreases k,
{
    if k > 0 {
        lemma_update_from(startup, update, j + 1, (k - 1) as nat);
        assert((j + 1 + (k - 1)) as nat == j + k);
        assert(trace(startup, update, Stage::Update(j as usize, update.len() as usize), k) =~= update.subrange(
            j as int,
            (j + k) as int,
        ).map_values(|s: usize| Action::Invoke { system: s, delta: Delta::Elapsed }));
    }
}

/// Started on a world with startup systems `startup`, the loop first invokes
/// each of them once, in the order they were registered and with a zero
/// elapsed time, and only then starts the clock for the first update pass:
/// no update system runs before every startup system has.
pub proof fn lemma_startup_runs_first(startup: Seq<usize>, update: Seq<usize>)
    requires
        startup.len() < usize::MAX,
    ensures
        trace(startup, update, initial(), startup.len() + 1) == startup.map_values(
            |s: usize| Action::Invoke { system: s, delta: Delta::Zero },
        ).push(Action::StartClock),
        stage_after(startup, update, initial(), startup.len() + 1) == Stage::Measure,
{
    let n = startup.len();
    let first = Stage::Startup(0, n as usize);
    assert(spec_step(startup, update, initial()) == spec_step(startup, update, first));
    lemma_trace_split(startup, update, initial(), 1, n);
    lemma_trace_split(startup, update, first, 1, n);
    assert(trace(startup, update, initial(), 1) =~= trace(startup, update, first, 1));
    assert(stage_after(startup, update, initial(), 1) == stage_after(startup, update, first, 1));
    lemma_startup_from(startup, update, 0, n);
    lemma_trace_split(startup, update, first, n, 1);
    assert(startup.subrange(0, n as int) == startup);
    let last = Stage::Startup(n as usize, n as usize);
    assert(spec_step(startup, update, last) == (Action::StartClock, Stage::Measure));
    assert(trace(startup, update, Stage::Measure, 0) == Seq::<Action>::empty());
    assert(trace(startup, update, last, 1) =~= seq![Action::StartClock]);
    assert(stage_after(startup, update, Stage::Measure, 0) == Stage::Measure);
    assert((1 + n) as nat == n + 1);
    assert(trace(startup, update, first, n + 1) =~= startup.map_values(
        |s: usize| Action::Invoke { system: s, delta: Delta::Zero },
    ).push(Action::StartClock));
}

/// An update pass begun on the update systems `update` invokes each of them
/// once, in registration order and with the measured elapsed time, and then
/// opens the next pass with a measurement.
pub proof fn lemma_update_pass(startup: Seq<usize>, update: Seq<usize>)
    requires
        update.len() < usize::MAX,
    ensures
        trace(startup, update, Stage::Update(0, update.len() as usize), update.len() + 1) == update.map_values(
            |s: usize| Action::Invoke { system: s, delta: Delta::Elapsed },
        ).push(Action::Measure),
        stage_after(startup, update, Stage::Update(0, update.len() as usize), update.len() + 1) == Stage::Update(
            0,
            update.len() as usize,
        ),
{
    let n = update.len();
    let first = Stage::Update(0, n as usize);
    lemma_update_from(startup, update, 0, n);
    lemma_trace_split(startup, update, first, n, 1);
    assert(update.subrange(0, n as int) == update);
    let last = Stage::Update(n as usize, n as usize);
    let next = Stage::Update(0, n as usize);
    assert(spec_step(startup, update, last) == (Action::Measure, next));
    assert(trace(startup, update, next, 0) == Seq::<Action>::empty());
    assert(trace(startup, update, last, 1) =~= seq![Action::Measure]);
    assert(stage_after(startup, update, next, 0) == next);
    assert(trace(startup, update, first, n + 1) =~= update.map_values(
        |s: usize| Action::Invoke { system: s, delta: Delta::Elapsed },
    ).push(Action::Measure));
}

/// Systems registered while a phase runs (the lists grow from `startup` and
/// `update` to `startup2` and `update2`) change nothing in that phase: each
/// step of it is the same as on the lists it began with. They are taken up
/// when the next update pass opens.
pub proof fn lemma_registration_waits_for_next_pass(
    startup: Seq<usize>,
    update: Seq<usize>,
    startup2: Seq<usize>,
    update2: Seq<usize>,
    stage: Stage,
)
    requires
        startup.len() <= startup2.len(),
        startup2.subrange(0, startup.len() as int) == startup,
        update.len() <= update2.len(),
        update2.subrange(0, update.len() as int) == update,
        stage matches Stage::Startup(_, n) ==> n <= startup.len(),
        stage matches Stage::Update(_, n) ==> n <= update.len(),
    ensures
        stage matches Stage::Startup(_, _) ==> spec_step(startup2, update2, stage) == spec_step(
            startup,
            update,
            stage,
        ),
        stage matches Stage::Update(i, n) ==> {
            &&& i < n ==> spec_step(startup2, update2, stage) == spec_step(startup, update, stage)
            &&& i >= n ==> spec_step(startup2, update2, stage) == (Action::Measure, Stage::Update(
                0,
                update2.len() as usize,
            ))
        },
{
    match stage {
        Stage::Startup(i, n) => {
            if i < n {
                assert(startup2[i as int] == startup2.subrange(0, startup.len() as int)[i as int]);
            }
        },
        Stage::Update(i, n) => {
            if i < n {
                assert(update2[i as int] == update2.subrange(0, update.len() as int)[i as int]);
            }
        },
        _ => {},
    }
}

} // verus!

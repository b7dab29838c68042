//! The pipeline orchestrator and its feature-hook registry.
//!
//! A pipeline holds an ordered list of build stages and one shared build
//! context.  Each stage runs through a fixed lifecycle: `initialize`, then
//! the hooks registered for its pre-process point, then `process`, then the
//! post-process hooks, then `finalize`.  The first failure anywhere aborts
//! the whole run.
//!
//! What a run does is recorded in a ghost trace of events.  The contracts
//! state that the recorded actions always form a prefix of the `schedule`
//! determined by the stage list and the hook registrations, and equal the
//! whole schedule exactly when the run succeeds.  The public lemmas below
//! state the ordering laws of that schedule: stages run in registration
//! order, each one's lifecycle completing before the next begins; hooks of
//! one (stage, lifecycle) point run in registration order; and a run cut
//! short at a stage's `process` never reaches a later stage's block.

use vstd::prelude::*;
use crate::blog::BlogContext;
use crate::error::BlogError;
use crate::text::{dec_str, uint_to_string};

verus! {

/// When, relative to a stage's `process` phase, a feature hook fires.
#[derive(Clone, Copy, PartialEq, Eq, Structural, Debug)]
pub enum PipelineStageLifetime {
    PreProcess,
    PostProcess,
}

/// One discrete step of the build pipeline, with a three-phase lifecycle.
/// Implementations are supplied by the user of the pipeline; nothing is
/// assumed about them.
pub trait PipelineStage {
    /// Pre-flight checks and setup.
    fn initialize(&self, ctx: &mut BlogContext) -> Result<(), BlogError>;

    /// The stage's primary transformation of the context.
    fn process(&self, ctx: &mut BlogContext) -> Result<(), BlogError>;

    /// Cleanup after the stage's work.
    fn finalize(&self, ctx: &mut BlogContext) -> Result<(), BlogError>;
}

/// A pluggable unit of behavior that attaches to (stage, lifecycle) pairs
/// of the pipeline.  Implementations are supplied by the user of the
/// pipeline; nothing is assumed about them.
pub trait Feature: Sized {
    /// Declares the feature's subscriptions: called once when the feature
    /// is added, it registers a handler for every (stage kind, lifecycle)
    /// pair the feature wants to observe.
    fn register(&self, registry: &mut FeatureRegistry<Self>);

    /// Runs the hook.  The handler receives the (stage kind, lifecycle)
    /// pair that fired, and must dispatch on it when it subscribed to
    /// several.
    fn run(
        &mut self,
        ctx: &mut BlogContext,
        pipeline_type: u64,
        lifetime: PipelineStageLifetime,
    ) -> Result<(), BlogError>;
}

/// One observed action of a pipeline run, for the ghost execution trace.
/// An event is recorded when the corresponding call returns successfully.
pub enum TraceEvent {
    /// A stage's `initialize` completed.
    Initialize { stage: u64 },
    /// The feature handler added by registration number `registration`
    /// completed for the given (stage, lifecycle) point.
    Hook { stage: u64, lifetime: PipelineStageLifetime, registration: int },
    /// A stage's `process` completed.
    Process { stage: u64 },
    /// A stage's `finalize` completed.
    Finalize { stage: u64 },
}

/// The hook events of the registrations numbered below `n` that match the
/// given (stage, lifecycle) point, in registration order.
pub open spec fn hooks_upto(
    regs: Seq<(u64, PipelineStageLifetime)>,
    stage: u64,
    lifetime: PipelineStageLifetime,
    n: int,
) -> Seq<TraceEvent>
    decreases n,
{
    if n <= 0 {
        Seq::empty()
    } else {
        hooks_upto(regs, stage, lifetime, n - 1) + (if regs[n - 1] == (stage, lifetime) {
            seq![TraceEvent::Hook { stage, lifetime, registration: n - 1 }]
        } else {
            Seq::empty()
        })
    }
}

/// The hook events fired at the given (stage, lifecycle) point, in
/// registration order.
pub open spec fn hook_events(
    regs: Seq<(u64, PipelineStageLifetime)>,
    stage: u64,
    lifetime: PipelineStageLifetime,
) -> Seq<TraceEvent> {
    hooks_upto(regs, stage, lifetime, regs.len() as int)
}

/// The full lifecycle block of one stage: initialize, pre-process hooks,
/// process, post-process hooks, finalize.
pub open spec fn stage_schedule(regs: Seq<(u64, PipelineStageLifetime)>, stage: u64) -> Seq<
    TraceEvent,
> {
    seq![TraceEvent::Initialize { stage }] + hook_events(
        regs,
        stage,
        PipelineStageLifetime::PreProcess,
    ) + seq![TraceEvent::Process { stage }] + hook_events(
        regs,
        stage,
        PipelineStageLifetime::PostProcess,
    ) + seq![TraceEvent::Finalize { stage }]
}

/// Everything a complete run performs: the stages' blocks, in the order the
/// stages were added.
pub open spec fn schedule(
    stages: Seq<u64>,
    regs: Seq<(u64, PipelineStageLifetime)>,
) -> Seq<TraceEvent>
    decreases stages.len(),
{
    if stages.len() == 0 {
        Seq::empty()
    } else {
        stage_schedule(regs, stages[0]) + schedule(stages.drop_first(), regs)
    }
}

/// `a` is a prefix of `b`.
pub open spec fn is_prefix(a: Seq<TraceEvent>, b: Seq<TraceEvent>) -> bool {
    a.len() <= b.len() && a == b.take(a.len() as int)
}

/// The position in the schedule where the block of the stage at position
/// `i` begins.
pub open spec fn block_start(
    stages: Seq<u64>,
    regs: Seq<(u64, PipelineStageLifetime)>,
    i: int,
) -> int
    decreases i,
{
    if i <= 0 {
        0
    } else {
        block_start(stages, regs, i - 1) + stage_schedule(regs, stages[i - 1]).len()
    }
}

proof fn lemma_schedule_split(stages: Seq<u64>, regs: Seq<(u64, PipelineStageLifetime)>, i: int)
    requires
        0 <= i <= stages.len(),
    ensures
        schedule(stages, regs) == schedule(stages.take(i), regs) + schedule(
            stages.skip(i),
            regs,
        ),
        schedule(stages.take(i), regs).len() == block_start(stages, regs, i),
    decreases i,
{
    if i == 0 {
        assert(stages.take(0) =~= Seq::<u64>::empty());
        assert(stages.skip(0) =~= stages);
        assert(schedule(stages, regs) =~= schedule(stages.take(0), regs) + schedule(
            stages.skip(0),
            regs,
        ));
    } else {
        lemma_schedule_split(stages, regs, i - 1);
        let a = stages.take(i - 1);
        let b = stages.take(i);
        let r1 = stages.skip(i - 1);
        let r2 = stages.skip(i);
        assert(r1[0] == stages[i - 1]);
        assert(r1.drop_first() =~= r2);
        assert(schedule(r1, regs) == stage_schedule(regs, stages[i - 1]) + schedule(r2, regs));
        lemma_schedule_snoc(a, regs, stages[i - 1]);
        assert(a.push(stages[i - 1]) =~= b);
        assert(schedule(b, regs) == schedule(a, regs) + stage_schedule(regs, stages[i - 1]));
        assert(schedule(stages, regs) =~= schedule(b, regs) + schedule(r2, regs));
    }
}

proof fn lemma_schedule_snoc(stages: Seq<u64>, regs: Seq<(u64, PipelineStageLifetime)>, s: u64)
    ensures
        schedule(stages.push(s), regs) == schedule(stages, regs) + stage_schedule(regs, s),
    decreases stages.len(),
{
    let g = stages.push(s);
    if stages.len() == 0 {
        assert(g[0] == s);
        assert(g.drop_first() =~= Seq::<u64>::empty());
        assert(schedule(g.drop_first(), regs) =~= Seq::<TraceEvent>::empty());
        assert(schedule(g, regs) == stage_schedule(regs, s) + schedule(g.drop_first(), regs));
        assert(schedule(g, regs) =~= schedule(stages, regs) + stage_schedule(regs, s));
    } else {
        assert(g[0] == stages[0]);
        lemma_schedule_snoc(stages.drop_first(), regs, s);
        assert(g.drop_first() =~= stages.drop_first().push(s));
        assert(schedule(g, regs) =~= schedule(stages, regs) + stage_schedule(regs, s));
    }
}

proof fn lemma_hooks_upto_le(
    regs: Seq<(u64, PipelineStageLifetime)>,
    stage: u64,
    lifetime: PipelineStageLifetime,
    j: int,
    k: int,
)
    requires
        0 <= j <= k,
    ensures
        is_prefix(
            hooks_upto(regs, stage, lifetime, j),
            hooks_upto(regs, stage, lifetime, k),
        ),
    decreases k - j,
{
    if j < k {
        lemma_hooks_upto_le(regs, stage, lifetime, j, k - 1);
        let a = hooks_upto(regs, stage, lifetime, j);
        let b = hooks_upto(regs, stage, lifetime, k - 1);
        let c = hooks_upto(regs, stage, lifetime, k);
        assert(is_prefix(b, c)) by {
            assert(c.take(b.len() as int) =~= b);
        }
        assert(c.take(a.len() as int) =~= a);
    } else {
        let a = hooks_upto(regs, stage, lifetime, j);
        assert(a.take(a.len() as int) =~= a);
    }
}

proof fn lemma_prefix_extend(
    x: Seq<TraceEvent>,
    p: Seq<TraceEvent>,
    b: Seq<TraceEvent>,
    rest: Seq<TraceEvent>,
)
    requires
        is_prefix(p, b),
    ensures
        is_prefix(x + p, x + b + rest),
{
    assert((x + b + rest).take((x + p).len() as int) =~= x + p);
}

/// Law: the pipeline runs its stages in exactly the order they were added.
/// In the schedule, the block of the stage at position `i` occupies the
/// positions from `block_start(i)` up to `block_start(i + 1)`, and it is
/// exactly that stage's complete lifecycle; so every action of an earlier
/// stage stands before every action of a later one.
pub proof fn lemma_stage_order(
    stages: Seq<u64>,
    regs: Seq<(u64, PipelineStageLifetime)>,
    i: int,
)
    requires
        0 <= i < stages.len(),
    ensures
        block_start(stages, regs, i) + stage_schedule(regs, stages[i]).len() == block_start(
            stages,
            regs,
            i + 1,
        ),
        0 <= block_start(stages, regs, i),
        block_start(stages, regs, i + 1) <= schedule(stages, regs).len(),
        schedule(stages, regs).subrange(
            block_start(stages, regs, i),
            block_start(stages, regs, i + 1),
        ) == stage_schedule(regs, stages[i]),
        block_start(stages, regs, stages.len() as int) == schedule(stages, regs).len(),
{
    lemma_schedule_split(stages, regs, i);
    lemma_schedule_split(stages, regs, i + 1);
    lemma_schedule_split(stages, regs, stages.len() as int);
    assert(stages.take(stages.len() as int) =~= stages);
    assert(stages.skip(stages.len() as int) =~= Seq::<u64>::empty());
    let r1 = stages.skip(i);
    assert(r1[0] == stages[i]);
    assert(schedule(r1, regs) == stage_schedule(regs, stages[i]) + schedule(
        r1.drop_first(),
        regs,
    ));
    assert(schedule(stages, regs).subrange(
        block_start(stages, regs, i),
        block_start(stages, regs, i + 1),
    ) =~= stage_schedule(regs, stages[i]));
}

/// Law: two hooks registered for the same (stage, lifecycle) point run in
/// registration order.  For registrations `i < j` that both match the
/// point, the hook event of `i` stands at an earlier position of the
/// point's hook sequence than the hook event of `j`.
pub proof fn lemma_feature_order(
    regs: Seq<(u64, PipelineStageLifetime)>,
    stage: u64,
    lifetime: PipelineStageLifetime,
    i: int,
    j: int,
)
    requires
        0 <= i < j < regs.len(),
        regs[i] == (stage, lifetime),
        regs[j] == (stage, lifetime),
    ensures
        ({
            let hooks = hook_events(regs, stage, lifetime);
            let pi = hooks_upto(regs, stage, lifetime, i).len() as int;
            let pj = hooks_upto(regs, stage, lifetime, j).len() as int;
            &&& 0 <= pi < pj < hooks.len()
            &&& hooks[pi] == (TraceEvent::Hook { stage, lifetime, registration: i })
            &&& hooks[pj] == (TraceEvent::Hook { stage, lifetime, registration: j })
        }),
{
    lemma_hook_position(regs, stage, lifetime, i);
    lemma_hook_position(regs, stage, lifetime, j);
    lemma_hooks_upto_le(regs, stage, lifetime, i + 1, j);
}

proof fn lemma_hook_position(
    regs: Seq<(u64, PipelineStageLifetime)>,
    stage: u64,
    lifetime: PipelineStageLifetime,
    i: int,
)
    requires
        0 <= i < regs.len(),
        regs[i] == (stage, lifetime),
    ensures
        ({
            let hooks = hook_events(regs, stage, lifetime);
            let pi = hooks_upto(regs, stage, lifetime, i).len() as int;
            &&& 0 <= pi < hooks.len()
            &&& hooks[pi] == (TraceEvent::Hook { stage, lifetime, registration: i })
        }),
{
    let hooks = hook_events(regs, stage, lifetime);
    let a = hooks_upto(regs, stage, lifetime, i);
    let b = hooks_upto(regs, stage, lifetime, i + 1);
    assert(b == a + seq![TraceEvent::Hook { stage, lifetime, registration: i }]);
    lemma_hooks_upto_le(regs, stage, lifetime, i + 1, regs.len() as int);
    assert(hooks.take(b.len() as int) == b);
    assert(hooks[a.len() as int] == b[a.len() as int]);
}

/// Law: the pipeline fails fast.  The `process` action of the stage at
/// position `i` stands strictly before the beginning of the block of every
/// later stage `j`.  A run whose trace `t` stops at or before that
/// `process` action (as it does when stage `i`'s `process` fails, since an
/// action is recorded only on success) therefore contains no action of any
/// later stage; in particular, the later stage's `initialize` was never
/// invoked.
pub proof fn lemma_fail_fast(
    stages: Seq<u64>,
    regs: Seq<(u64, PipelineStageLifetime)>,
    i: int,
    j: int,
    t: Seq<TraceEvent>,
)
    requires
        0 <= i < j < stages.len(),
        is_prefix(t, schedule(stages, regs)),
        t.len() <= block_start(stages, regs, i) + 1 + hook_events(
            regs,
            stages[i],
            PipelineStageLifetime::PreProcess,
        ).len(),
    ensures
        ({
            let proc_pos = block_start(stages, regs, i) + 1 + hook_events(
                regs,
                stages[i],
                PipelineStageLifetime::PreProcess,
            ).len();
            &&& proc_pos < block_start(stages, regs, j)
            &&& schedule(stages, regs)[proc_pos] == (TraceEvent::Process { stage: stages[i] })
            &&& schedule(stages, regs)[block_start(stages, regs, j)] == (TraceEvent::Initialize {
                stage: stages[j],
            })
            &&& t.len() <= block_start(stages, regs, j)
        }),
{
    lemma_stage_order(stages, regs, i);
    lemma_stage_order(stages, regs, j);
    lemma_block_start_mono(stages, regs, i + 1, j);
    let bi = block_start(stages, regs, i);
    let block_i = stage_schedule(regs, stages[i]);
    let pre = hook_events(regs, stages[i], PipelineStageLifetime::PreProcess);
    let proc_pos = bi + 1 + pre.len();
    assert(block_i[1 + pre.len() as int] == (TraceEvent::Process { stage: stages[i] }));
    assert(schedule(stages, regs)[proc_pos] == block_i[1 + pre.len() as int]);
    let block_j = stage_schedule(regs, stages[j]);
    assert(block_j[0] == (TraceEvent::Initialize { stage: stages[j] }));
    assert(schedule(stages, regs)[block_start(stages, regs, j)] == block_j[0]);
}

proof fn lemma_block_start_mono(
    stages: Seq<u64>,
    regs: Seq<(u64, PipelineStageLifetime)>,
    a: int,
    b: int,
)
    requires
        0 <= a <= b,
    ensures
        block_start(stages, regs, a) <= block_start(stages, regs, b),
    decreases b - a,
{
    if a < b {
        lemma_block_start_mono(stages, regs, a, b - 1);
        assert(stage_schedule(regs, stages[b - 1]).len() >= 0);
    }
}

/// The context message wrapped around a failure of the stage with the
/// given kind tag in the given lifecycle phase.
pub open spec fn stage_phase_msg(kind: u64, phase: Seq<char>) -> Seq<char> {
    "Stage "@ + dec_str(kind as nat) + " failed during the "@ + phase + " phase"@
}

/// Builds the context message for a failed stage phase.
fn stage_phase_context(kind: u64, phase: &str) -> (r: String)
    ensures
        r@ == stage_phase_msg(kind, phase@),
{
    let mut out = String::from_str("Stage ");
    out.append(uint_to_string(kind as u128).as_str());
    out.append(" failed during the ");
    out.append(phase);
    out.append(" phase");
    proof {
        reveal_strlit("Stage ");
        reveal_strlit(" failed during the ");
        reveal_strlit(" phase");
        assert(out@ =~= stage_phase_msg(kind, phase@));
    }
    out
}

/// One installed hook: a feature handler bound to a (stage kind,
/// lifecycle) pair.
pub struct Registration<F> {
    pub stage: u64,
    pub lifetime: PipelineStageLifetime,
    pub feature: F,
}

/// The hook-registration table: the installed hooks, in registration
/// order.  `run_hooks` fires the handlers whose (stage, lifecycle) pair
/// matches, in that order.
pub struct FeatureRegistry<F> {
    entries: Vec<Registration<F>>,
}

impl<F> FeatureRegistry<F> {
    /// The (stage kind, lifecycle) pairs of the installed hooks, in
    /// registration order.
    pub closed spec fn regs(&self) -> Seq<(u64, PipelineStageLifetime)> {
        self.entries@.map(|i: int, e: Registration<F>| (e.stage, e.lifetime))
    }

    /// An empty registry.
    pub fn new() -> (r: FeatureRegistry<F>)
        ensures
            r.regs() == Seq::<(u64, PipelineStageLifetime)>::empty(),
    {
        let r = FeatureRegistry { entries: Vec::new() };
        proof {
            assert(r.regs() =~= Seq::<(u64, PipelineStageLifetime)>::empty());
        }
        r
    }

    /// Appends `feature` to the hooks of the (stage kind, lifecycle) pair.
    pub fn register(&mut self, stage: u64, lifetime: PipelineStageLifetime, feature: F)
        ensures
            final(self).regs() == old(self).regs().push((stage, lifetime)),
    {
        self.entries.push(Registration { stage, lifetime, feature });
        proof {
            assert(final(self).regs() =~= old(self).regs().push((stage, lifetime)));
        }
    }

}

impl<F: Feature> FeatureRegistry<F> {
    /// Fires the hooks registered for the given (stage kind, lifecycle)
    /// pair, in registration order, stopping at the first failure and
    /// wrapping it.  The events of the completed handlers are appended to
    /// the trace: always a prefix of the point's hook sequence, and the
    /// whole sequence exactly when every handler succeeded.
    #[verifier::loop_isolation(false)]
    pub fn run_hooks(
        &mut self,
        context: &mut BlogContext,
        type_id: u64,
        lifetime: PipelineStageLifetime,
        trace: &mut Ghost<Seq<TraceEvent>>,
    ) -> (r: Result<(), BlogError>)
        ensures
            final(self).regs() == old(self).regs(),
            final(trace)@.len() >= old(trace)@.len(),
            final(trace)@.take(old(trace)@.len() as int) == old(trace)@,
            ({
                let hooks = hook_events(old(self).regs(), type_id, lifetime);
                let appended = final(trace)@.skip(old(trace)@.len() as int);
                &&& is_prefix(appended, hooks)
                &&& (r is Ok ==> appended == hooks)
                &&& (r matches Err(e) ==> appended.len() < hooks.len() && e.wf() && e.top()
                    == "Feature execution failed"@)
            }),
    {
        let ghost regs0 = self.regs();
        let ghost t0 = trace@;
        let m = self.entries.len();
        let mut j: usize = 0;
        while j < m
            invariant
                m == self.entries@.len(),
                self.regs() == regs0,
                0 <= j <= m,
                trace@ == t0 + hooks_upto(regs0, type_id, lifetime, j as int),
            decreases m - j,
        {
            proof {
                assert(regs0[j as int] == (self.entries@[j as int].stage,
                self.entries@[j as int].lifetime));
            }
            let fire = self.entries[j].stage == type_id && self.entries[j].lifetime == lifetime;
            if fire {
                let entry = &mut self.entries[j];
                let res = entry.feature.run(context, type_id, lifetime);
                proof {
                    assert(self.regs() =~= regs0);
                }
                match res {
                    Ok(u) => {
                        proof {
                            assert(hooks_upto(regs0, type_id, lifetime, j + 1) == hooks_upto(
                                regs0,
                                type_id,
                                lifetime,
                                j as int,
                            ) + seq![
                                TraceEvent::Hook {
                                    stage: type_id,
                                    lifetime,
                                    registration: j as int,
                                },
                            ]);
                        }
                        *trace = Ghost(
                            trace@ + seq![
                                TraceEvent::Hook {
                                    stage: type_id,
                                    lifetime,
                                    registration: j as int,
                                },
                            ],
                        );
                        proof {
                            assert(trace@ =~= t0 + hooks_upto(
                                regs0,
                                type_id,
                                lifetime,
                                j + 1,
                            ));
                        }
                    },
                    Err(e) => {
                        proof {
                            let hooks = hook_events(regs0, type_id, lifetime);
                            lemma_hooks_upto_le(regs0, type_id, lifetime, j as int, m as int);
                            assert(hooks_upto(regs0, type_id, lifetime, j + 1).len()
                                == hooks_upto(regs0, type_id, lifetime, j as int).len() + 1);
                            lemma_hooks_upto_le(regs0, type_id, lifetime, j + 1, m as int);
                            assert(trace@.take(t0.len() as int) =~= t0);
                            assert(trace@.skip(t0.len() as int) =~= hooks_upto(
                                regs0,
                                type_id,
                                lifetime,
                                j as int,
                            ));
                        }
                        return Err(e.context(String::from_str("Feature execution failed")));
                    },
                }
            } else {
                proof {
                    assert(hooks_upto(regs0, type_id, lifetime, j + 1) =~= hooks_upto(
                        regs0,
                        type_id,
                        lifetime,
                        j as int,
                    ));
                }
            }
            j = j + 1;
        }
        proof {
            let hooks = hook_events(regs0, type_id, lifetime);
            assert(trace@.take(t0.len() as int) =~= t0);
            assert(trace@.skip(t0.len() as int) =~= hooks);
            assert(hooks.take(hooks.len() as int) =~= hooks);
        }
        Ok(())
    }
}

/// The pipeline: the ordered stage list, the shared build context, and the
/// feature-hook registry.
pub struct Pipeline<S, F> {
    pub pipeline_stages: Vec<(S, u64)>,
    pub context: BlogContext,
    pub features: FeatureRegistry<F>,
    pub trace: Ghost<Seq<TraceEvent>>,
}

impl<S: PipelineStage, F: Feature> Pipeline<S, F> {
    /// The kinds of the added stages, in order.
    pub open spec fn stage_kinds(&self) -> Seq<u64> {
        self.pipeline_stages@.map(|i: int, p: (S, u64)| p.1)
    }

    /// The (stage kind, lifecycle) pairs of the installed hooks, in
    /// registration order.
    pub open spec fn regs(&self) -> Seq<(u64, PipelineStageLifetime)> {
        self.features.regs()
    }

    /// The ghost trace of the actions performed so far.
    pub open spec fn trace(&self) -> Seq<TraceEvent> {
        self.trace@
    }

    /// A pipeline around the given context, with no stages and no hooks.
    pub fn new(ctx: BlogContext) -> (r: Pipeline<S, F>)
        ensures
            r.stage_kinds() == Seq::<u64>::empty(),
            r.regs() == Seq::<(u64, PipelineStageLifetime)>::empty(),
            r.trace() == Seq::<TraceEvent>::empty(),
            r.context == ctx,
    {
        let r = Pipeline {
            pipeline_stages: Vec::new(),
            context: ctx,
            features: FeatureRegistry::new(),
            trace: Ghost(Seq::empty()),
        };
        proof {
            assert(r.stage_kinds() =~= Seq::<u64>::empty());
        }
        r
    }

    /// Appends a stage, under the given kind tag.  The same kind may be
    /// added more than once; each occurrence is an independent stage.
    pub fn add_stage(&mut self, stage: S, kind: u64)
        ensures
            final(self).stage_kinds() == old(self).stage_kinds().push(kind),
            final(self).regs() == old(self).regs(),
            final(self).context == old(self).context,
            final(self).trace() == old(self).trace(),
    {
        self.pipeline_stages.push((stage, kind));
        proof {
            assert(final(self).stage_kinds() =~= old(self).stage_kinds().push(kind));
        }
    }

    /// Adds a feature: the feature declares its own (stage, lifecycle)
    /// subscriptions against the hook registry.
    pub fn add_feature(&mut self, feature: F)
        ensures
            final(self).stage_kinds() == old(self).stage_kinds(),
            final(self).context == old(self).context,
            final(self).trace() == old(self).trace(),
    {
        feature.register(&mut self.features);
    }

    /// Runs the pipeline: every stage in order, its lifecycle phases and
    /// the matching hooks interleaved as the schedule prescribes.  The
    /// first failure aborts the run, wrapped with a message naming the
    /// stage and phase it came from.  The actions performed are appended to
    /// the trace: always a prefix of the schedule, the whole schedule
    /// exactly when the run succeeds, and strictly less when it fails.
    #[verifier::loop_isolation(false)]
    #[verifier::rlimit(100)]
    pub fn run(&mut self) -> (r: Result<(), BlogError>)
        ensures
            final(self).stage_kinds() == old(self).stage_kinds(),
            final(self).regs() == old(self).regs(),
            final(self).trace().len() >= old(self).trace().len(),
            final(self).trace().take(old(self).trace().len() as int) == old(self).trace(),
            ({
                let sched = schedule(old(self).stage_kinds(), old(self).regs());
                let appended = final(self).trace().skip(old(self).trace().len() as int);
                &&& is_prefix(appended, sched)
                &&& (r is Ok ==> appended == sched)
                &&& (r is Err ==> appended.len() < sched.len())
            }),
            r matches Err(e) ==> e.wf(),
    {
        let ghost kinds = self.stage_kinds();
        let ghost regs0 = self.regs();
        let ghost sched = schedule(kinds, regs0);
        let ghost t0 = self.trace@;
        let n = self.pipeline_stages.len();
        let mut idx: usize = 0;
        while idx < n
            invariant
                n == self.pipeline_stages@.len(),
                self.stage_kinds() == kinds,
                self.regs() == regs0,
                0 <= idx <= n,
                self.trace@ == t0 + schedule(kinds.take(idx as int), regs0),
            decreases n - idx,
        {
            proof {
                assert(kinds[idx as int] == self.pipeline_stages@[idx as int].1);
                lemma_schedule_split(kinds, regs0, idx as int);
            }
            let kind = self.pipeline_stages[idx].1;
            let ghost done = schedule(kinds.take(idx as int), regs0);
            let ghost block = stage_schedule(regs0, kind);
            let ghost rest = schedule(kinds.skip(idx as int), regs0).skip(block.len() as int);
            proof {
                assert(kinds.skip(idx as int)[0] == kind);
                assert(kinds.skip(idx as int).drop_first() =~= kinds.skip(idx + 1));
                assert(schedule(kinds.skip(idx as int), regs0) == block + schedule(
                    kinds.skip(idx + 1),
                    regs0,
                ));
                assert(sched == done + block + schedule(kinds.skip(idx + 1), regs0));
            }
            match self.pipeline_stages[idx].0.initialize(&mut self.context) {
                Ok(u) => {},
                Err(e) => {
                    proof {
                        assert(is_prefix(Seq::empty(), block)) by {
                            assert(block.take(0) =~= Seq::<TraceEvent>::empty());
                        }
                        lemma_prefix_extend(
                            done,
                            Seq::empty(),
                            block,
                            schedule(kinds.skip(idx + 1), regs0),
                        );
                        assert(self.trace@.skip(t0.len() as int) =~= done + Seq::<
                            TraceEvent,
                        >::empty());
                    }
                    return Err(e.context(stage_phase_context(kind, "initialize")));
                },
            }
            self.trace = Ghost(self.trace@ + seq![TraceEvent::Initialize { stage: kind }]);
            let ghost pre_hooks = hook_events(regs0, kind, PipelineStageLifetime::PreProcess);
            let ghost post_hooks = hook_events(regs0, kind, PipelineStageLifetime::PostProcess);
            proof {
                assert(block == seq![TraceEvent::Initialize { stage: kind }] + pre_hooks + seq![
                    TraceEvent::Process { stage: kind },
                ] + post_hooks + seq![TraceEvent::Finalize { stage: kind }]);
            }
            match self.features.run_hooks(
                &mut self.context,
                kind,
                PipelineStageLifetime::PreProcess,
                &mut self.trace,
            ) {
                Ok(u) => {
                    proof {
                        let ll = t0.len() + done.len() + 1 as int;
                        assert(self.trace@ =~= self.trace@.take(ll) + self.trace@.skip(ll));
                        assert(self.trace@ =~= t0 + done + seq![
                            TraceEvent::Initialize { stage: kind },
                        ] + pre_hooks);
                    }
                },
                Err(e) => {
                    proof {
                        let ll = t0.len() + done.len() + 1 as int;
                        let appended_hooks = self.trace@.skip(ll);
                        assert(is_prefix(appended_hooks, pre_hooks));
                        assert(self.trace@ =~= self.trace@.take(ll) + self.trace@.skip(ll));
                        assert(self.trace@.take(ll) =~= t0 + done + seq![
                            TraceEvent::Initialize { stage: kind },
                        ]);
                        let part = seq![TraceEvent::Initialize { stage: kind }]
                            + appended_hooks;
                        assert(self.trace@.skip(t0.len() as int) =~= done + part);
                        assert(is_prefix(part, block)) by {
                            assert(block.take(part.len() as int) =~= part);
                        }
                        lemma_prefix_extend(
                            done,
                            part,
                            block,
                            schedule(kinds.skip(idx + 1), regs0),
                        );
                    }
                    return Err(
                        e.context(
                            String::from_str("Stage execution failed during PreProcess step"),
                        ),
                    );
                },
            }
            match self.pipeline_stages[idx].0.process(&mut self.context) {
                Ok(u) => {},
                Err(e) => {
                    proof {
                        let part = seq![TraceEvent::Initialize { stage: kind }] + pre_hooks;
                        assert(self.trace@.skip(t0.len() as int) =~= done + part);
                        assert(is_prefix(part, block)) by {
                            assert(block.take(part.len() as int) =~= part);
                        }
                        lemma_prefix_extend(
                            done,
                            part,
                            block,
                            schedule(kinds.skip(idx + 1), regs0),
                        );
                    }
                    return Err(e.context(stage_phase_context(kind, "process")));
                },
            }
            self.trace = Ghost(self.trace@ + seq![TraceEvent::Process { stage: kind }]);
            match self.features.run_hooks(
                &mut self.context,
                kind,
                PipelineStageLifetime::PostProcess,
                &mut self.trace,
            ) {
                Ok(u) => {
                    proof {
                        let ll = t0.len() + done.len() + 2 + pre_hooks.len() as int;
                        assert(self.trace@ =~= self.trace@.take(ll) + self.trace@.skip(ll));
                        assert(self.trace@ =~= t0 + done + seq![
                            TraceEvent::Initialize { stage: kind },
                        ] + pre_hooks + seq![TraceEvent::Process { stage: kind }]
                            + post_hooks);
                    }
                },
                Err(e) => {
                    proof {
                        let ll = t0.len() + done.len() + 2 + pre_hooks.len() as int;
                        let appended_hooks = self.trace@.skip(ll);
                        assert(is_prefix(appended_hooks, post_hooks));
                        assert(self.trace@ =~= self.trace@.take(ll) + self.trace@.skip(ll));
                        assert(self.trace@.take(ll) =~= t0 + done + seq![
                            TraceEvent::Initialize { stage: kind },
                        ] + pre_hooks + seq![TraceEvent::Process { stage: kind }]);
                        let part = seq![TraceEvent::Initialize { stage: kind }] + pre_hooks
                            + seq![TraceEvent::Process { stage: kind }] + appended_hooks;
                        assert(self.trace@.skip(t0.len() as int) =~= done + part);
                        assert(is_prefix(part, block)) by {
                            assert(block.take(part.len() as int) =~= part);
                        }
                        lemma_prefix_extend(
                            done,
                            part,
                            block,
                            schedule(kinds.skip(idx + 1), regs0),
                        );
                    }
                    return Err(
                        e.context(
                            String::from_str("Stage execution failed during PostProcess step"),
                        ),
                    );
                },
            }
            match self.pipeline_stages[idx].0.finalize(&mut self.context) {
                Ok(u) => {},
                Err(e) => {
                    proof {
                        let part = seq![TraceEvent::Initialize { stage: kind }] + pre_hooks
                            + seq![TraceEvent::Process { stage: kind }] + post_hooks;
                        assert(self.trace@.skip(t0.len() as int) =~= done + part);
                        assert(is_prefix(part, block)) by {
                            assert(block.take(part.len() as int) =~= part);
                        }
                        lemma_prefix_extend(
                            done,
                            part,
                            block,
                            schedule(kinds.skip(idx + 1), regs0),
                        );
                    }
                    return Err(e.context(stage_phase_context(kind, "finalize")));
                },
            }
            self.trace = Ghost(self.trace@ + seq![TraceEvent::Finalize { stage: kind }]);
            proof {
                assert(self.trace@ =~= t0 + (done + block));
                lemma_schedule_snoc(kinds.take(idx as int), regs0, kind);
                assert(kinds.take(idx as int).push(kind) =~= kinds.take(idx + 1));
            }
            idx = idx + 1;
        }
        proof {
            assert(kinds.take(n as int) =~= kinds);
            assert(self.trace@.skip(t0.len() as int) =~= sched);
            assert(self.trace@.take(t0.len() as int) =~= t0);
            assert(sched.take(sched.len() as int) =~= sched);
        }
        Ok(())
    }
}

} // verus!

//! The context state machine: it orders the construction stages, aborts a
//! failed initialization by releasing exactly what was already built in
//! reverse order, and plans the idle-then-destroy teardown.
//!
//! The unverified glue performs each driver call and reports success or
//! failure back; the machine decides what happens next.

use vstd::prelude::*;

verus! {

/// The construction stages of the context, in dependency order.
#[derive(Debug, Clone, Copy, PartialEq, Eq, Structural)]
pub enum InitStage {
    Instance,
    DebugMessenger,
    Surface,
    Device,
    Swapchain,
    RenderPass,
    Pipeline,
    Framebuffers,
    CommandPool,
    CommandBuffers,
}

/// Number of construction stages.
pub const INIT_STAGE_COUNT: usize = 10;

/// The position of a stage in construction order.
pub open spec fn spec_stage_index(s: InitStage) -> int {
    match s {
        InitStage::Instance => 0,
        InitStage::DebugMessenger => 1,
        InitStage::Surface => 2,
        InitStage::Device => 3,
        InitStage::Swapchain => 4,
        InitStage::RenderPass => 5,
        InitStage::Pipeline => 6,
        InitStage::Framebuffers => 7,
        InitStage::CommandPool => 8,
        InitStage::CommandBuffers => 9,
    }
}

/// The stage at position `i` of construction order.
pub open spec fn spec_stage_at(i: int) -> InitStage {
    if i == 0 {
        InitStage::Instance
    } else if i == 1 {
        InitStage::DebugMessenger
    } else if i == 2 {
        InitStage::Surface
    } else if i == 3 {
        InitStage::Device
    } else if i == 4 {
        InitStage::Swapchain
    } else if i == 5 {
        InitStage::RenderPass
    } else if i == 6 {
        InitStage::Pipeline
    } else if i == 7 {
        InitStage::Framebuffers
    } else if i == 8 {
        InitStage::CommandPool
    } else {
        InitStage::CommandBuffers
    }
}

/// The stage at position `i` of construction order.
pub fn stage_at(i: usize) -> (s: InitStage)
    requires
        i < INIT_STAGE_COUNT,
    ensures
        s == spec_stage_at(i as int),
{
    if i == 0 {
        InitStage::Instance
    } else if i == 1 {
        InitStage::DebugMessenger
    } else if i == 2 {
        InitStage::Surface
    } else if i == 3 {
        InitStage::Device
    } else if i == 4 {
        InitStage::Swapchain
    } else if i == 5 {
        InitStage::RenderPass
    } else if i == 6 {
        InitStage::Pipeline
    } else if i == 7 {
        InitStage::Framebuffers
    } else if i == 8 {
        InitStage::CommandPool
    } else {
        InitStage::CommandBuffers
    }
}

/// One step of a release plan.
#[derive(Debug, Clone, Copy, PartialEq, Eq, Structural)]
pub enum TeardownStep {
    /// Wait until every submitted queue has drained.
    WaitIdle,
    /// Destroy everything still held by the resource manager.
    FlushResources,
    /// Destroy the objects built by one construction stage.
    Destroy(InitStage),
}

/// The destroy steps for the first `n` construction stages, in reverse
/// construction order.
pub open spec fn spec_destroy_steps(n: int) -> Seq<TeardownStep> {
    Seq::new(n as nat, |i: int| TeardownStep::Destroy(spec_stage_at(n - 1 - i)))
}

/// The lifecycle states of the context.
#[derive(Debug, Clone, Copy, PartialEq, Eq, Structural)]
pub enum ContextState {
    Uninitialized,
    Initializing,
    Ready,
    Destroying,
    Destroyed,
}

/// The composition root's bookkeeping: the lifecycle state and how many
/// construction stages have completed.
#[derive(Debug)]
pub struct GraphicsContext {
    state: ContextState,
    completed: usize,
}

impl GraphicsContext {
    /// The current lifecycle state.
    pub closed spec fn spec_state(self) -> ContextState {
        self.state
    }

    /// How many construction stages have completed.
    pub closed spec fn spec_completed(self) -> int {
        self.completed as int
    }

    /// The state and stage count agree with the lifecycle: stages complete
    /// only while initializing, and all of them are complete once ready.
    pub closed spec fn wf(self) -> bool {
        &&& self.completed <= INIT_STAGE_COUNT
        &&& (self.state is Initializing ==> self.completed < INIT_STAGE_COUNT)
        &&& (self.state is Ready ==> self.completed == INIT_STAGE_COUNT)
        &&& (self.state is Destroying ==> self.completed == INIT_STAGE_COUNT)
        &&& (self.state is Uninitialized ==> self.completed == 0)
        &&& (self.state is Destroyed ==> self.completed == 0)
    }

    /// A fresh context that has built nothing.
    pub fn new() -> (c: GraphicsContext)
        ensures
            c.wf(),
            c.spec_state() is Uninitialized,
            c.spec_completed() == 0,
    {
        GraphicsContext { state: ContextState::Uninitialized, completed: 0 }
    }

    /// The current lifecycle state.
    pub fn state(&self) -> (s: ContextState)
        ensures
            s == self.spec_state(),
    {
        self.state
    }

    /// How many construction stages have completed.
    pub fn completed_stages(&self) -> (n: usize)
        ensures
            n == self.spec_completed(),
    {
        self.completed
    }

    /// Enters initialization and names the first stage to construct.
    pub fn begin_init(&mut self) -> (first: InitStage)
        requires
            old(self).wf(),
            old(self).spec_state() is Uninitialized,
        ensures
            final(self).wf(),
            final(self).spec_state() is Initializing,
            final(self).spec_completed() == 0,
            first == spec_stage_at(0),
    {
        self.state = ContextState::Initializing;
        InitStage::Instance
    }

    /// Records that the current stage was constructed. Names the next stage
    /// to construct, or none when construction is complete and the context
    /// becomes ready.
    pub fn stage_succeeded(&mut self) -> (next: Option<InitStage>)
        requires
            old(self).wf(),
            old(self).spec_state() is Initializing,
        ensures
            final(self).wf(),
            final(self).spec_completed() == old(self).spec_completed() + 1,
            final(self).spec_completed() == INIT_STAGE_COUNT ==> final(self).spec_state() is Ready
                && next is None,
            final(self).spec_completed() < INIT_STAGE_COUNT ==> final(self).spec_state()
                is Initializing && next == Some(spec_stage_at(old(self).spec_completed() + 1)),
    {
        self.completed = self.completed + 1;
        if self.completed == INIT_STAGE_COUNT {
            self.state = ContextState::Ready;
            None
        } else {
            Some(stage_at(self.completed))
        }
    }

    /// Aborts initialization after the current stage failed: the context is
    /// destroyed directly, and the returned plan releases exactly the stages
    /// already built, in reverse construction order.
    pub fn stage_failed(&mut self) -> (plan: Vec<TeardownStep>)
        requires
            old(self).wf(),
            old(self).spec_state() is Initializing,
        ensures
            final(self).wf(),
            final(self).spec_state() is Destroyed,
            final(self).spec_completed() == 0,
            plan@ == spec_destroy_steps(old(self).spec_completed()),
    {
        let n = self.completed;
        let plan = destroy_steps(n);
        self.completed = 0;
        self.state = ContextState::Destroyed;
        plan
    }

    /// Begins teardown of a ready context: the plan waits for the device to
    /// go idle, flushes the resource manager, then releases every stage in
    /// reverse construction order.
    pub fn begin_teardown(&mut self) -> (plan: Vec<TeardownStep>)
        requires
            old(self).wf(),
            old(self).spec_state() is Ready,
        ensures
            final(self).wf(),
            final(self).spec_state() is Destroying,
            plan@ == seq![TeardownStep::WaitIdle, TeardownStep::FlushResources] + spec_destroy_steps(
                INIT_STAGE_COUNT as int,
            ),
    {
        self.state = ContextState::Destroying;
        let mut plan: Vec<TeardownStep> = Vec::new();
        plan.push(TeardownStep::WaitIdle);
        plan.push(TeardownStep::FlushResources);
        let mut rest = destroy_steps(INIT_STAGE_COUNT);
        plan.append(&mut rest);
        proof {
            assert(plan@ =~= seq![TeardownStep::WaitIdle, TeardownStep::FlushResources]
                + spec_destroy_steps(INIT_STAGE_COUNT as int));
        }
        plan
    }

    /// Records that every step of the teardown plan was performed.
    pub fn teardown_complete(&mut self)
        requires
            old(self).wf(),
            old(self).spec_state() is Destroying,
        ensures
            final(self).wf(),
            final(self).spec_state() is Destroyed,
            final(self).spec_completed() == 0,
    {
        self.completed = 0;
        self.state = ContextState::Destroyed;
    }
}

/// The destroy steps for the first `n` construction stages, in reverse
/// construction order.
fn destroy_steps(n: usize) -> (plan: Vec<TeardownStep>)
    requires
        n <= INIT_STAGE_COUNT,
    ensures
        plan@ == spec_destroy_steps(n as int),
{
    let mut plan: Vec<TeardownStep> = Vec::new();
    let mut k: usize = 0;
    while k < n
        invariant
            k <= n <= INIT_STAGE_COUNT,
            plan@.len() == k,
            forall|i: int|
                0 <= i < k ==> plan@[i] == TeardownStep::Destroy(spec_stage_at(n - 1 - i)),
        decreases n - k,
    {
        plan.push(TeardownStep::Destroy(stage_at(n - 1 - k)));
        k = k + 1;
    }
    proof {
        assert(plan@ =~= spec_destroy_steps(n as int));
    }
    plan
}

/// Law: a release plan for `n` completed stages destroys exactly the stages
/// that were constructed — each constructed stage once, nothing else — and
/// in reverse construction order.
pub proof fn lemma_release_plan_exact(n: int)
    requires
        0 <= n <= INIT_STAGE_COUNT,
    ensures
        spec_destroy_steps(n).len() == n,
        forall|k: int|
            0 <= k < n ==> #[trigger] spec_destroy_steps(n)[k] == TeardownStep::Destroy(
                spec_stage_at(n - 1 - k),
            ),
        forall|s: InitStage|
            (exists|k: int| 0 <= k < n && spec_destroy_steps(n)[k] == TeardownStep::Destroy(s))
                <==> spec_stage_index(s) < n,
        forall|k1: int, k2: int|
            0 <= k1 < n && 0 <= k2 < n && #[trigger] spec_destroy_steps(n)[k1]
                == #[trigger] spec_destroy_steps(n)[k2] ==> k1 == k2,
{
    assert forall|s: InitStage|
        (exists|k: int| 0 <= k < n && spec_destroy_steps(n)[k] == TeardownStep::Destroy(s))
            <==> spec_stage_index(s) < n by {
        if spec_stage_index(s) < n {
            let k = n - 1 - spec_stage_index(s);
            assert(spec_stage_at(spec_stage_index(s)) == s);
            assert(spec_destroy_steps(n)[k] == TeardownStep::Destroy(s));
        }
        if exists|k: int| 0 <= k < n && spec_destroy_steps(n)[k] == TeardownStep::Destroy(s) {
            let k = choose|k: int|
                0 <= k < n && spec_destroy_steps(n)[k] == TeardownStep::Destroy(s);
            assert(s == spec_stage_at(n - 1 - k));
            assert(spec_stage_index(spec_stage_at(n - 1 - k)) == n - 1 - k);
        }
    }
    assert forall|k1: int, k2: int|
        0 <= k1 < n && 0 <= k2 < n && #[trigger] spec_destroy_steps(n)[k1]
            == #[trigger] spec_destroy_steps(n)[k2] implies k1 == k2 by {
        assert(spec_stage_index(spec_stage_at(n - 1 - k1)) == n - 1 - k1);
        assert(spec_stage_index(spec_stage_at(n - 1 - k2)) == n - 1 - k2);
    }
}

} // verus!

use sprocket::context::{
    ContextState, GraphicsContext, InitStage, TeardownStep, INIT_STAGE_COUNT,
};

const CONSTRUCTION_ORDER: [InitStage; INIT_STAGE_COUNT] = [
    InitStage::Instance,
    InitStage::DebugMessenger,
    InitStage::Surface,
    InitStage::Device,
    InitStage::Swapchain,
    InitStage::RenderPass,
    InitStage::Pipeline,
    InitStage::Framebuffers,
    InitStage::CommandPool,
    InitStage::CommandBuffers,
];

#[test]
fn construction_stages_run_in_dependency_order() {
    let mut ctx = GraphicsContext::new();
    assert_eq!(ctx.state(), ContextState::Uninitialized);
    let mut stages = vec![ctx.begin_init()];
    assert_eq!(ctx.state(), ContextState::Initializing);
    while let Some(next) = ctx.stage_succeeded() {
        stages.push(next);
    }
    assert_eq!(stages, CONSTRUCTION_ORDER.to_vec());
    assert_eq!(ctx.state(), ContextState::Ready);
    assert_eq!(ctx.completed_stages(), INIT_STAGE_COUNT);
}

#[test]
fn init_then_teardown_releases_everything_in_reverse_order() {
    // A context torn down right after a successful initialization waits for
    // the device, flushes tracked resources, then destroys every stage in
    // reverse construction order.
    let mut ctx = GraphicsContext::new();
    ctx.begin_init();
    while ctx.stage_succeeded().is_some() {}
    assert_eq!(ctx.state(), ContextState::Ready);
    let plan = ctx.begin_teardown();
    assert_eq!(ctx.state(), ContextState::Destroying);
    let mut expected = vec![TeardownStep::WaitIdle, TeardownStep::FlushResources];
    for stage in CONSTRUCTION_ORDER.iter().rev() {
        expected.push(TeardownStep::Destroy(*stage));
    }
    assert_eq!(plan, expected);
    ctx.teardown_complete();
    assert_eq!(ctx.state(), ContextState::Destroyed);
    assert_eq!(ctx.completed_stages(), 0);
}

#[test]
fn failure_during_initialization_releases_only_what_was_built() {
    // A shader failure hits at the pipeline stage: six stages are complete,
    // and the abort plan destroys exactly those six, newest first.
    let mut ctx = GraphicsContext::new();
    let mut stage = ctx.begin_init();
    while stage != InitStage::Pipeline {
        stage = ctx.stage_succeeded().unwrap();
    }
    assert_eq!(ctx.completed_stages(), 6);
    let plan = ctx.stage_failed();
    assert_eq!(
        plan,
        vec![
            TeardownStep::Destroy(InitStage::RenderPass),
            TeardownStep::Destroy(InitStage::Swapchain),
            TeardownStep::Destroy(InitStage::Device),
            TeardownStep::Destroy(InitStage::Surface),
            TeardownStep::Destroy(InitStage::DebugMessenger),
            TeardownStep::Destroy(InitStage::Instance),
        ]
    );
    assert_eq!(ctx.state(), ContextState::Destroyed);
    assert_eq!(ctx.completed_stages(), 0);
}

#[test]
fn failure_at_the_first_stage_releases_nothing() {
    let mut ctx = GraphicsContext::new();
    let first = ctx.begin_init();
    assert_eq!(first, InitStage::Instance);
    let plan = ctx.stage_failed();
    assert!(plan.is_empty());
    assert_eq!(ctx.state(), ContextState::Destroyed);
}

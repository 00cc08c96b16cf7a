//! Command-buffer planning: the fixed draw sequence recorded once per
//! swapchain image at startup.

use vstd::prelude::*;

verus! {

/// A clear color with 8-bit channels; the glue converts it to the driver's
/// normalized floating-point form.
#[derive(Debug, Clone, Copy, PartialEq, Eq, Structural)]
pub struct ClearColor {
    pub r: u8,
    pub g: u8,
    pub b: u8,
    pub a: u8,
}

/// One recorded command of the per-image draw sequence.
#[derive(Debug, Clone, Copy, PartialEq, Eq, Structural)]
pub enum DrawCommand {
    Begin,
    BeginRenderPass { framebuffer: usize, clear: ClearColor },
    BindPipeline,
    Draw { vertex_count: u32 },
    EndRenderPass,
    End,
}

/// The fixed sequence recorded for the image behind `framebuffer`: begin,
/// begin the render pass with a clear, bind the pipeline, one draw, end the
/// render pass, end.
pub open spec fn spec_frame_commands(framebuffer: usize, clear: ClearColor, vertex_count: u32) -> Seq<
    DrawCommand,
> {
    seq![
        DrawCommand::Begin,
        DrawCommand::BeginRenderPass { framebuffer, clear },
        DrawCommand::BindPipeline,
        DrawCommand::Draw { vertex_count },
        DrawCommand::EndRenderPass,
        DrawCommand::End,
    ]
}

/// Records the fixed draw sequence for one framebuffer.
pub fn record_frame_commands(framebuffer: usize, clear: ClearColor, vertex_count: u32) -> (cmds:
    Vec<DrawCommand>)
    ensures
        cmds@ == spec_frame_commands(framebuffer, clear, vertex_count),
{
    let mut cmds: Vec<DrawCommand> = Vec::new();
    cmds.push(DrawCommand::Begin);
    cmds.push(DrawCommand::BeginRenderPass { framebuffer, clear });
    cmds.push(DrawCommand::BindPipeline);
    cmds.push(DrawCommand::Draw { vertex_count });
    cmds.push(DrawCommand::EndRenderPass);
    cmds.push(DrawCommand::End);
    proof {
        assert(cmds@ =~= spec_frame_commands(framebuffer, clear, vertex_count));
    }
    cmds
}

/// Records one draw sequence per swapchain image, each against its own
/// framebuffer.
pub fn record_command_buffers(image_count: usize, clear: ClearColor, vertex_count: u32) -> (r: Vec<
    Vec<DrawCommand>,
>)
    ensures
        r@.len() == image_count,
        forall|i: int|
            0 <= i < image_count ==> #[trigger] r@[i]@ == spec_frame_commands(
                i as usize,
                clear,
                vertex_count,
            ),
{
    let mut r: Vec<Vec<DrawCommand>> = Vec::new();
    let mut i: usize = 0;
    while i < image_count
        invariant
            i <= image_count,
            r@.len() == i,
            forall|j: int|
                0 <= j < i ==> #[trigger] r@[j]@ == spec_frame_commands(
                    j as usize,
                    clear,
                    vertex_count,
                ),
        decreases image_count - i,
    {
        r.push(record_frame_commands(i, clear, vertex_count));
        i = i + 1;
    }
    r
}

} // verus!

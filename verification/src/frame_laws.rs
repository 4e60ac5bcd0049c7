//! What holds of every frame: which steps it takes, how much each covers, and what the passes
//! find in the uniform buffer.

use crate::context::FsrContext;
use crate::dispatch::{
    analysis_commands,
    as_signed,
    half_side,
    is_run,
    level_size,
    output_commands,
    projection,
    pyramid_commands,
    setup_commands,
    workgroups,
    ClearTarget,
    Command,
    DepthProjection,
    FrameTerms,
};
use crate::flags::{
    law_context_options_are_bits,
    law_debug_view_is_bit_0,
    FsrContextFlags,
    FsrDispatchFlags,
};
use crate::float::{
    lemma_rounded_bounds,
    quotient_exponent,
    quotient_significand,
    round_half_even,
    rounded,
    spacing,
    F32,
};
use crate::format_profile::{FormatProfile, FsrFormats};
use crate::frame::FrameKind;
use crate::info::FsrDispatchInfo;
use crate::jitter::{lemma_relative_error, lemma_rounded_exact};
use crate::pass::FsrPassKind;
use crate::rcas::is_nearest_half;
use crate::resources::FsrResourceName;
use crate::spd::{law_mip_count, longer};
use crate::texture::TextureFormat;
use crate::validation::{
    bits_key,
    bits_less,
    bits_nan,
    fault,
    format_error,
    law_first_fault,
    lemma_bits_compare,
    CallerTexture,
    FsrDispatchError,
};
use crate::view::FsrViewState;
use vstd::arithmetic::power2::pow2;
use vstd::prelude::*;

verus! {

/// Whether a step occurs exactly once, and before everything that runs.
pub open spec fn comes_once_before_runs(commands: Seq<Command>, step: Command) -> bool {
    exists|p: int| #[trigger] is_only_place(commands, step, p)
}

/// Whether a step occurs at `p` and nowhere else, and before everything that runs.
pub open spec fn is_only_place(commands: Seq<Command>, step: Command, p: int) -> bool {
    &&& 0 <= p < commands.len()
    &&& commands[p] == step
    &&& forall|q: int| 0 <= q < commands.len() && #[trigger] commands[q] == step ==> q == p
    &&& forall|q: int| 0 <= q < commands.len() && is_run(#[trigger] commands[q]) ==> p < q
}

/// The pass that a step runs, or runs a part of.
pub open spec fn pass_of(command: Command) -> Option<FsrPassKind> {
    match command {
        Command::RunPass { kind, .. } => Some(kind),
        Command::RunLevel { kind, .. } => Some(kind),
        _ => None,
    }
}

/// The steps of a frame: those before the passes, and then only steps that run.
pub proof fn lemma_frame_parts<T, B>(context: FsrContext, info: FsrDispatchInfo<T, B>, reset: bool)
    ensures
        ({
            let all = context.frame_commands(info, reset);
            let setup = setup_commands(context.flags, reset);
            let analysis = analysis_commands(info.render_size, context.format_profile);
            let output = output_commands(
                info.upscale_size,
                info.enable_sharpening,
                info.flags.has(FsrDispatchFlags::DRAW_DEBUG_VIEW),
            );
            &&& all.len() == setup.len() + analysis.len() + output.len()
            &&& forall|q: int| 0 <= q < setup.len() ==> #[trigger] all[q] == setup[q]
            &&& forall|q: int|
                setup.len() <= q < setup.len() + analysis.len() ==> #[trigger] all[q]
                    == analysis[q - setup.len()]
            &&& forall|q: int|
                setup.len() + analysis.len() <= q < all.len() ==> #[trigger] all[q] == output[q
                    - setup.len() - analysis.len()]
            &&& forall|q: int| setup.len() <= q < all.len() ==> is_run(#[trigger] all[q])
            &&& forall|q: int| 0 <= q < setup.len() ==> !is_run(#[trigger] all[q])
        }),
{
    let all = context.frame_commands(info, reset);
    let setup = setup_commands(context.flags, reset);
    let analysis = analysis_commands(info.render_size, context.format_profile);
    let output = output_commands(
        info.upscale_size,
        info.enable_sharpening,
        info.flags.has(FsrDispatchFlags::DRAW_DEBUG_VIEW),
    );
    let luma = pyramid_commands(FsrPassKind::LumaPyramid, info.render_size, context.format_profile);
    let shading = pyramid_commands(
        FsrPassKind::ShadingChangePyramid,
        info.render_size,
        context.format_profile,
    );
    assert forall|q: int| setup.len() <= q < all.len() implies is_run(#[trigger] all[q]) by {
        let k = q - setup.len();
        if k < analysis.len() {
            assert(all[q] == analysis[k]);
            if 1 <= k <= luma.len() {
                assert(analysis[k] == luma[k - 1]);
            } else if luma.len() < k <= luma.len() + shading.len() {
                assert(analysis[k] == shading[k - 1 - luma.len()]);
            }
        } else {
            assert(all[q] == output[k - analysis.len()]);
        }
    }
    assert forall|q: int| 0 <= q < setup.len() implies !is_run(#[trigger] all[q]) by {
        assert(all[q] == setup[q]);
    }
}

/// Whether or not history is reset, the uniform data is uploaded exactly once in a frame, before
/// the first step that runs a pass or a level, and something runs.
pub proof fn law_constants_uploaded_once<T, B>(
    context: FsrContext,
    info: FsrDispatchInfo<T, B>,
    reset: bool,
)
    ensures
        comes_once_before_runs(context.frame_commands(info, reset), Command::UploadConstants),
        exists|q: int|
            0 <= q < context.frame_commands(info, reset).len() && is_run(
                #[trigger] context.frame_commands(info, reset)[q],
            ),
{
    lemma_frame_parts(context, info, reset);
    let all = context.frame_commands(info, reset);
    let setup = setup_commands(context.flags, reset);
    let p = setup.len() - 2;
    assert(all[p] == setup[p]);
    assert(all[p] == Command::UploadConstants);
    assert forall|q: int|
        0 <= q < all.len() && #[trigger] all[q] == Command::UploadConstants implies q == p by {
        if q >= setup.len() {
            assert(is_run(all[q]));
        } else {
            assert(all[q] == setup[q]);
        }
    }
    assert(is_only_place(all, Command::UploadConstants, p));
    assert(is_run(all[setup.len() as int]));
}

/// Before everything that runs, the caller's depth buffer is filled with the farthest depth, which
/// is 0.0 where depth is inverted and 1.0 otherwise, and the downsampler's counter with zeros:
/// each once, and no buffer with anything else.
pub proof fn law_buffers_cleared<T, B>(
    context: FsrContext,
    info: FsrDispatchInfo<T, B>,
    reset: bool,
)
    ensures
        ({
            let all = context.frame_commands(info, reset);
            let depth: [u32; 4] = if context.flags.bits / 8 % 2 == 1 {
                [0, 0, 0, 0]
            } else {
                [0x3f80_0000, 0x3f80_0000, 0x3f80_0000, 0x3f80_0000]
            };
            let depth_cleared = Command::ClearBuffer {
                target: ClearTarget::ReconstructedPreviousDepth,
                value: depth,
            };
            let counter_cleared = Command::ClearBuffer {
                target: ClearTarget::SpdAtomicCounter,
                value: [0, 0, 0, 0],
            };
            &&& comes_once_before_runs(all, depth_cleared)
            &&& comes_once_before_runs(all, counter_cleared)
            &&& forall|q: int|
                0 <= q < all.len() && #[trigger] all[q] is ClearBuffer ==> all[q] == depth_cleared
                    || all[q] == counter_cleared
        }),
{
    lemma_frame_parts(context, info, reset);
    law_context_options_are_bits(context.flags);
    let all = context.frame_commands(info, reset);
    let setup = setup_commands(context.flags, reset);
    let p = setup.len() - 4;
    let depth: [u32; 4] = if context.flags.bits / 8 % 2 == 1 {
        [0, 0, 0, 0]
    } else {
        [0x3f80_0000, 0x3f80_0000, 0x3f80_0000, 0x3f80_0000]
    };
    let depth_cleared = Command::ClearBuffer {
        target: ClearTarget::ReconstructedPreviousDepth,
        value: depth,
    };
    let counter_cleared = Command::ClearBuffer {
        target: ClearTarget::SpdAtomicCounter,
        value: [0, 0, 0, 0],
    };
    assert(all[p] == setup[p]);
    assert(all[p + 1] == setup[p + 1]);
    assert(setup[p]->ClearBuffer_value =~= depth);
    assert forall|q: int| 0 <= q < all.len() && #[trigger] all[q] is ClearBuffer implies q == p || q
        == p + 1 by {
        if q >= setup.len() {
            assert(is_run(all[q]));
        } else {
            assert(all[q] == setup[q]);
        }
    }
    assert(is_only_place(all, depth_cleared, p));
    assert(is_only_place(all, counter_cleared, p + 1));
}

/// Before everything that runs, the downsampler's mip chain is cleared, in every frame. On a reset
/// the accumulation that the frame reads is cleared too, and the per-frame metadata starts over;
/// without one, neither is touched. No other texture is cleared, and nothing once something runs.
pub proof fn law_history_cleared_on_reset<T, B>(
    context: FsrContext,
    info: FsrDispatchInfo<T, B>,
    reset: bool,
)
    ensures
        ({
            let all = context.frame_commands(info, reset);
            let metadata = Command::WriteFrameInfo(
                [
                    F32 { bits: 0xbf80_0000 },
                    F32 { bits: 0x3f80_0000 },
                    F32 { bits: 0 },
                    F32 { bits: 0 },
                ],
            );
            let accumulation = Command::ClearTexture(FsrResourceName::AccumulationPrevious);
            &&& all.contains(Command::ClearTexture(FsrResourceName::SpdMips))
            &&& reset ==> comes_once_before_runs(all, accumulation)
            &&& reset ==> comes_once_before_runs(all, metadata)
            &&& forall|q: int|
                0 <= q < all.len() ==> (#[trigger] all[q] is WriteFrameInfo ==> reset && all[q]
                    == metadata)
            &&& forall|q: int|
                0 <= q < all.len() && #[trigger] all[q] is ClearTexture ==> all[q]
                    == Command::ClearTexture(FsrResourceName::SpdMips) || reset && all[q]
                    == accumulation
            &&& forall|q: int, r: int|
                0 <= q < r < all.len() && is_run(#[trigger] all[q]) ==> is_run(#[trigger] all[r])
        }),
{
    lemma_frame_parts(context, info, reset);
    let all = context.frame_commands(info, reset);
    let setup = setup_commands(context.flags, reset);
    let metadata = Command::WriteFrameInfo(
        [
            F32 { bits: 0xbf80_0000 },
            F32 { bits: 0x3f80_0000 },
            F32 { bits: 0 },
            F32 { bits: 0 },
        ],
    );
    assert(all[setup.len() - 1] == setup[setup.len() - 1]);
    assert(all[setup.len() - 1] == Command::ClearTexture(FsrResourceName::SpdMips));
    assert forall|q: int| 0 <= q < all.len() && !is_run(#[trigger] all[q]) implies all[q]
        == setup[q] && q < setup.len() by {
        if q >= setup.len() {
            assert(is_run(all[q]));
        }
    }
    if reset {
        assert(all[0] == setup[0]);
        assert(all[2] == setup[2]);
        assert(setup[2]->WriteFrameInfo_0 =~= metadata->WriteFrameInfo_0);
        assert(is_only_place(all, Command::ClearTexture(FsrResourceName::AccumulationPrevious), 0));
        assert(is_only_place(all, metadata, 2));
    }
}

/// Which passes a frame runs: accumulation without sharpening, or accumulation for it and the
/// sharpening pass; the debug view where the dispatch asks for it by bit 0 of its options; never
/// the reactive mask; and always the others.
pub proof fn law_which_passes_run<T, B>(
    context: FsrContext,
    info: FsrDispatchInfo<T, B>,
    reset: bool,
    kind: FsrPassKind,
)
    ensures
        (exists|q: int|
            0 <= q < context.frame_commands(info, reset).len() && pass_of(
                #[trigger] context.frame_commands(info, reset)[q],
            ) == Some(kind)) <==> (match kind {
            FsrPassKind::GenerateReactive => false,
            FsrPassKind::Rcas => info.enable_sharpening,
            FsrPassKind::AccumulateSharpen => info.enable_sharpening,
            FsrPassKind::Accumulate => !info.enable_sharpening,
            FsrPassKind::DebugView => info.flags.bits % 2 == 1,
            _ => true,
        }),
{
    lemma_frame_parts(context, info, reset);
    law_debug_view_is_bit_0(info.flags);
    let all = context.frame_commands(info, reset);
    let setup = setup_commands(context.flags, reset);
    let analysis = analysis_commands(info.render_size, context.format_profile);
    let output = output_commands(
        info.upscale_size,
        info.enable_sharpening,
        info.flags.has(FsrDispatchFlags::DRAW_DEBUG_VIEW),
    );
    let luma = pyramid_commands(FsrPassKind::LumaPyramid, info.render_size, context.format_profile);
    let shading = pyramid_commands(
        FsrPassKind::ShadingChangePyramid,
        info.render_size,
        context.format_profile,
    );
    let n = luma.len() as int;
    let s = setup.len() as int;
    assert(n >= 1 && shading.len() == n);
    assert forall|k: int| 0 <= k < analysis.len() implies #[trigger] pass_of(analysis[k]) == Some(
        if k == 0 {
            FsrPassKind::PrepareInputs
        } else if k <= n {
            FsrPassKind::LumaPyramid
        } else if k <= 2 * n {
            FsrPassKind::ShadingChangePyramid
        } else if k == 2 * n + 1 {
            FsrPassKind::ShadingChange
        } else if k == 2 * n + 2 {
            FsrPassKind::PrepareReactivity
        } else {
            FsrPassKind::LumaInstability
        },
    ) by {
        if 1 <= k <= n {
            assert(analysis[k] == luma[k - 1]);
        } else if n < k <= 2 * n {
            assert(analysis[k] == shading[k - 1 - n]);
        }
    }
    let at = match kind {
        FsrPassKind::PrepareInputs => 0,
        FsrPassKind::LumaPyramid => 1,
        FsrPassKind::ShadingChangePyramid => 1 + n,
        FsrPassKind::ShadingChange => 2 * n + 1,
        FsrPassKind::PrepareReactivity => 2 * n + 2,
        FsrPassKind::LumaInstability => 2 * n + 3,
        FsrPassKind::Rcas => (analysis.len() + 1) as int,
        FsrPassKind::DebugView => analysis.len() + output.len() - 1,
        _ => analysis.len() as int,
    };
    assert(analysis.len() == 2 * n + 4);
    if at < analysis.len() {
        assert(pass_of(analysis[at]) == Some(kind));
        assert(all[s + at] == analysis[at]);
        assert(pass_of(all[s + at]) == Some(kind));
    } else if at - analysis.len() < output.len() {
        assert(all[s + at] == output[at - analysis.len()]);
    }
    assert forall|q: int| 0 <= q < all.len() && pass_of(#[trigger] all[q]) == Some(kind) implies (
    match kind {
        FsrPassKind::GenerateReactive => false,
        FsrPassKind::Rcas => info.enable_sharpening,
        FsrPassKind::AccumulateSharpen => info.enable_sharpening,
        FsrPassKind::Accumulate => !info.enable_sharpening,
        FsrPassKind::DebugView => info.flags.bits % 2 == 1,
        _ => true,
    }) by {
        if q < s {
            assert(!is_run(all[q]));
        } else if q < s + analysis.len() {
            assert(all[q] == analysis[q - s]);
            assert(pass_of(analysis[q - s]) == Some(kind));
        } else {
            assert(all[q] == output[q - s - analysis.len()]);
        }
    }
}

/// Whether the groups of a step, each `tile` wide, cover a length and no group lies beyond it.
pub open spec fn groups_cover(groups: u32, tile: int, length: int) -> bool {
    tile * (groups - 1) < length <= tile * groups
}

/// The length that a step covers in one direction, and the width of its groups: the passes before
/// accumulation work on the render size, shading changes on half of it, and the others on the
/// upscale size.
pub open spec fn covered<T, B>(
    info: FsrDispatchInfo<T, B>,
    kind: FsrPassKind,
    direction: int,
) -> (int, int) {
    match kind {
        FsrPassKind::PrepareInputs
        | FsrPassKind::PrepareReactivity
        | FsrPassKind::LumaInstability => (info.render_size[direction] as int, 8),
        FsrPassKind::ShadingChange => (info.render_size[direction] as int / 2, 8),
        FsrPassKind::LumaPyramid | FsrPassKind::ShadingChangePyramid => (
            info.render_size[direction] as int,
            64,
        ),
        FsrPassKind::Rcas => (info.upscale_size[direction] as int, 16),
        _ => (info.upscale_size[direction] as int, 8),
    }
}

/// Rounding up covers a length.
proof fn lemma_workgroups_cover(size: [u32; 2], tile: int, direction: int)
    requires
        tile == 8 || tile == 16 || tile == 64,
        0 <= direction < 2,
    ensures
        groups_cover(workgroups(size, tile)[direction], tile, size[direction] as int),
{
}

/// A level of the mip chain has the render size halved once more than its number, but at least
/// one pixel.
pub proof fn law_level_size(render_size: [u32; 2], level: nat, direction: int)
    requires
        0 <= direction < 2,
    ensures
        ({
            let halved = render_size[direction] as int / pow2(level + 1) as int;
            level_size(render_size, level)[direction] == if halved == 0 {
                1
            } else {
                halved
            }
        }),
    decreases level,
{
    let side = render_size[direction] as int;
    vstd::arithmetic::power2::lemma_pow2_unfold(level + 1);
    vstd::arithmetic::power2::lemma_pow2_pos(level);
    let p = pow2(level) as int;
    assert(pow2(level + 1) == 2 * p);
    vstd::arithmetic::div_mod::lemma_div_denominator(side, p, 2);
    assert(p * 2 == 2 * p);
    assert(side / (2 * p) == side / p / 2);
    if level == 0 {
        vstd::arithmetic::power2::lemma2_to64();
        assert(p == 1);
        vstd::arithmetic::div_mod::lemma_div_basics(side);
        assert(level_size(render_size, 0)[direction] == half_side(render_size[direction]));
    } else {
        law_level_size(render_size, (level - 1) as nat, direction);
        assert(level_size(render_size, level)[direction] == half_side(
            level_size(render_size, (level - 1) as nat)[direction],
        ));
    }
}

/// Every pass is run on exactly as many groups as cover what it works on, in both directions, and
/// every level of a mip chain that is written by itself on as many as cover that level.
pub proof fn law_groups_cover<T, B>(
    context: FsrContext,
    info: FsrDispatchInfo<T, B>,
    reset: bool,
    q: int,
    direction: int,
)
    requires
        0 <= q < context.frame_commands(info, reset).len(),
        0 <= direction < 2,
    ensures
        match context.frame_commands(info, reset)[q] {
            Command::RunPass { kind, workgroups } => groups_cover(
                workgroups[direction],
                covered(info, kind, direction).1,
                covered(info, kind, direction).0,
            ),
            Command::RunLevel { kind, level, workgroups } => {
                let halved = info.render_size[direction] as int / pow2(
                    (level + 1) as nat,
                ) as int;
                &&& kind.is_pyramid()
                &&& level < 6
                &&& groups_cover(
                    workgroups[direction],
                    8,
                    if halved == 0 {
                        1
                    } else {
                        halved
                    },
                )
            },
            _ => true,
        },
{
    lemma_frame_parts(context, info, reset);
    let all = context.frame_commands(info, reset);
    let setup = setup_commands(context.flags, reset);
    let analysis = analysis_commands(info.render_size, context.format_profile);
    let output = output_commands(
        info.upscale_size,
        info.enable_sharpening,
        info.flags.has(FsrDispatchFlags::DRAW_DEBUG_VIEW),
    );
    let luma = pyramid_commands(FsrPassKind::LumaPyramid, info.render_size, context.format_profile);
    let shading = pyramid_commands(
        FsrPassKind::ShadingChangePyramid,
        info.render_size,
        context.format_profile,
    );
    lemma_workgroups_cover(info.render_size, 8, direction);
    lemma_workgroups_cover(info.render_size, 64, direction);
    lemma_workgroups_cover(crate::dispatch::halved(info.render_size), 8, direction);
    lemma_workgroups_cover(info.upscale_size, 8, direction);
    lemma_workgroups_cover(info.upscale_size, 16, direction);
    let n = luma.len();
    let s = setup.len() as int;
    assert(shading.len() == n);
    if q < s {
        assert(!is_run(all[q]));
    } else if q < s + analysis.len() {
        let k = q - s;
        assert(all[q] == analysis[k]);
        if 1 <= k <= n {
            assert(analysis[k] == luma[k - 1]);
            if context.format_profile == FormatProfile::Core {
                law_level_size(info.render_size, (k - 1) as nat, direction);
                lemma_workgroups_cover(
                    level_size(info.render_size, (k - 1) as nat),
                    8,
                    direction,
                );
            }
        } else if n < k <= 2 * n {
            assert(analysis[k] == shading[k - 1 - n]);
            if context.format_profile == FormatProfile::Core {
                law_level_size(info.render_size, (k - 1 - n) as nat, direction);
                lemma_workgroups_cover(
                    level_size(info.render_size, (k - 1 - n) as nat),
                    8,
                    direction,
                );
            }
        }
    } else {
        assert(all[q] == output[q - s - analysis.len()]);
    }
}

/// Whether `q` is `x / n`, up to one rounding to single precision, where `n` is rounded first. In
/// units of the smallest positive number, `q` times `n` then differs from `x` by at most one part
/// in 2^24 of itself and half a unit for each of `n`.
pub open spec fn is_quotient(q: F32, x: F32, n: u32) -> bool {
    let divisor = rounded(n as nat);
    let product = q.value() * divisor;
    let error = if product < x.value() {
        x.value() - product
    } else {
        product - x.value()
    };
    let size = if product < 0 {
        -product
    } else {
        product
    };
    if x.is_nan() {
        q.is_nan()
    } else if x.magnitude() == 0x7f80_0000 {
        q.bits == x.bits
    } else {
        q.magnitude() < 0x7f80_0000 && 0x100_0000 * error <= size + 0x80_0000 * divisor
    }
}

/// The size that the motion vectors of a frame are rendered at: bit 1 of the context's options
/// says that it is the upscale size, and otherwise it is the render size.
pub open spec fn motion_vectors_rendered_at<T, B>(
    flags: u32,
    info: FsrDispatchInfo<T, B>,
) -> [u32; 2] {
    if flags / 2 % 2 == 1 {
        info.upscale_size
    } else {
        info.render_size
    }
}

/// What the passes find as the scale of motion vectors, words 20 and 21 of the uniform buffer, is
/// the caller's scale divided by the size that motion vectors are rendered at, where that is the
/// quotient which the frame's terms bring.
pub proof fn law_motion_vector_scale<T, B>(
    context: FsrContext,
    before: FsrViewState,
    after: FsrViewState,
    info: FsrDispatchInfo<T, B>,
    terms: FrameTerms,
    direction: int,
)
    requires
        0 <= direction < 2,
        context.advances_constants(before, after, info, terms),
        is_quotient(
            terms.motion_vector_scale[direction],
            info.motion_vector_scale[direction],
            motion_vectors_rendered_at(context.flags.bits, info)[direction],
        ),
    ensures
        is_quotient(
            after.constants.fsr.motion_vector_scale[direction],
            info.motion_vector_scale[direction],
            motion_vectors_rendered_at(context.flags.bits, info)[direction],
        ),
        is_quotient(
            F32 { bits: after.constants.layout()[20 + direction] },
            info.motion_vector_scale[direction],
            motion_vectors_rendered_at(context.flags.bits, info)[direction],
        ),
{
    assert(after.constants.layout()[20] == after.constants.fsr.motion_vector_scale[0].bits);
    assert(after.constants.layout()[21] == after.constants.fsr.motion_vector_scale[1].bits);
}

/// The size that a frame's terms are to be computed for is the one that motion vectors are
/// rendered at.
pub proof fn law_motion_vector_size<T, B>(context: FsrContext, info: FsrDispatchInfo<T, B>)
    ensures
        crate::dispatch::motion_vector_size(context.flags, info) == motion_vectors_rendered_at(
            context.flags.bits,
            info,
        ),
{
    law_context_options_are_bits(context.flags);
}

/// What the passes find in the uniform buffer after a dispatch, word by word: sizes and jitter of
/// this dispatch and of the one before, and what the frame's terms bring.
pub proof fn law_uniform_words<T, B>(
    context: FsrContext,
    before: FsrViewState,
    after: FsrViewState,
    info: FsrDispatchInfo<T, B>,
    terms: FrameTerms,
)
    requires
        after.wf(),
        context.advances_state(before, after, info),
        context.advances_constants(before, after, info, terms),
    ensures
        ({
            let old_words = before.constants.layout();
            let words = after.constants.layout();
            // Sizes
            &&& words[0] == info.render_size[0] && words[1] == info.render_size[1]
            &&& words[2] == old_words[0] && words[3] == old_words[1]
            &&& words[4] == info.upscale_size[0] && words[5] == info.upscale_size[1]
            &&& words[6] == old_words[4] && words[7] == old_words[5]
            &&& words[8] == before.max_render_size[0] && words[9] == before.max_render_size[1]
            &&& words[10] == before.max_upscale_size[0] && words[11] == before.max_upscale_size[1]
            // Depth
            &&& forall|i: int|
                0 <= i < 4 ==> #[trigger] words[12 + i] == terms.device_to_view_depth[i].bits
            // Jitter
            &&& words[16] == info.jitter_offset[0].bits && words[17] == info.jitter_offset[1].bits
            &&& words[18] == old_words[16] && words[19] == old_words[17]
            // Motion vectors
            &&& words[20] == terms.motion_vector_scale[0].bits
            &&& words[21] == terms.motion_vector_scale[1].bits
            &&& context.flags.bits / 4 % 2 == 1 ==> {
                &&& words[24] == terms.jitter_cancellation[0].bits
                &&& words[25] == terms.jitter_cancellation[1].bits
            }
            &&& context.flags.bits / 4 % 2 == 0 ==> words[24] == old_words[24] && words[25]
                == old_words[25]
            // Camera, time and exposure
            &&& words[26] == terms.tan_half_fov.bits
            &&& F32 { bits: words[27] }.is_integer(after.jitter_phase_count as nat)
            &&& words[28] == (if bits_less(terms.frame_seconds.bits, 0) {
                0
            } else if bits_less(0x3f80_0000, terms.frame_seconds.bits) {
                0x3f80_0000
            } else {
                terms.frame_seconds.bits
            })
            &&& words[29] == (if bits_less(0, before.pre_exposure.bits) {
                terms.pre_exposure_ratio.bits
            } else {
                0x3f80_0000
            })
            &&& words[30] == info.view_space_to_meters_factor.bits
            &&& F32 { bits: words[31] }.is_integer(after.frame_index as nat)
        }),
{
    law_context_options_are_bits(context.flags);
    let words = after.constants.layout();
    lemma_bits_compare(terms.frame_seconds, F32 { bits: 0 });
    lemma_bits_compare(F32 { bits: 0x3f80_0000 }, terms.frame_seconds);
    lemma_bits_compare(F32 { bits: 0 }, before.pre_exposure);
    assert(words[12] == terms.device_to_view_depth[0].bits);
    assert(words[13] == terms.device_to_view_depth[1].bits);
    assert(words[14] == terms.device_to_view_depth[2].bits);
    assert(words[15] == terms.device_to_view_depth[3].bits);
    assert(F32 { bits: words[27] } == after.constants.fsr.jitter_phase_count);
    assert(F32 { bits: words[31] } == after.constants.fsr.frame_index);
}

/// What the sharpening and downsampling passes find in the uniform buffer after a dispatch, and
/// what no dispatch changes.
pub proof fn law_pass_words<T, B>(
    context: FsrContext,
    before: FsrViewState,
    after: FsrViewState,
    info: FsrDispatchInfo<T, B>,
    terms: FrameTerms,
)
    requires
        context.advances_constants(before, after, info, terms),
        info.render_size[0] > 0,
        info.render_size[1] > 0,
    ensures
        ({
            let old_words = before.constants.layout();
            let words = after.constants.layout();
            // Weights and reactive masks stay
            &&& forall|i: int| 32 <= i < 44 ==> #[trigger] words[i] == old_words[i]
            &&& forall|i: int| 48 <= i < 52 ==> #[trigger] words[i] == old_words[i]
            // Sharpening
            &&& words[44] == terms.sharpness_linear.bits
            &&& is_nearest_half(terms.sharpness_linear, (words[45] % 0x1_0000) as u16)
            &&& words[45] / 0x1_0000 == words[45] % 0x1_0000
            &&& words[46] == 0 && words[47] == 0
            // Downsampling
            &&& words[52] <= 12
            &&& pow2(words[52] as nat) <= longer(info.render_size[0], info.render_size[1])
            &&& words[52] < 12 ==> longer(info.render_size[0], info.render_size[1]) < pow2(
                (words[52] + 1) as nat,
            )
            &&& words[53] == workgroups(info.render_size, 64)[0] * workgroups(
                info.render_size,
                64,
            )[1]
            &&& words[54] == 0 && words[55] == 0
            &&& words[56] == info.render_size[0] && words[57] == info.render_size[1]
            &&& words[58] == 0 && words[59] == 0
        }),
{
    let words = after.constants.layout();
    let old_words = before.constants.layout();
    let rcas = after.constants.rcas.rcas_config;
    crate::rcas::law_nearest_half_unique(
        terms.sharpness_linear,
        (rcas[1] % 0x1_0000) as u16,
        (rcas[1] / 0x1_0000) as u16,
    );
    law_mip_count(info.render_size[0], info.render_size[1]);
    crate::spd::law_tiles_at_origin(info.render_size[0]);
    crate::spd::law_tiles_at_origin(info.render_size[1]);
    assert(words[37] == old_words[37] && words[38] == old_words[38] && words[39] == old_words[39]);
    assert(words[53] == after.constants.spd.num_work_groups);
    assert(words[45] == rcas[1]);
}

/// The render size over the upscale size, words 22 and 23 of the uniform buffer, up to one
/// rounding of one part in 2^24, where sizes of more than 24 bits are rounded first.
pub proof fn law_downscale_factor<T, B>(
    context: FsrContext,
    before: FsrViewState,
    after: FsrViewState,
    info: FsrDispatchInfo<T, B>,
    terms: FrameTerms,
    direction: int,
)
    requires
        0 <= direction < 2,
        context.advances_constants(before, after, info, terms),
        info.render_size[direction] > 0,
        info.upscale_size[direction] > 0,
    ensures
        ({
            let factor = F32 { bits: after.constants.layout()[22 + direction] };
            let product = factor.value() * rounded(info.upscale_size[direction] as nat);
            let render = rounded(info.render_size[direction] as nat) * pow2(149);
            &&& factor.bits < 0x7f80_0000
            &&& 0xff_ffff * product <= 0x100_0000 * render <= 0x100_0001 * product
        }),
{
    let factor = after.constants.fsr.downscale_factor[direction];
    assert(after.constants.layout()[22] == after.constants.fsr.downscale_factor[0].bits);
    assert(after.constants.layout()[23] == after.constants.fsr.downscale_factor[1].bits);
    let n = rounded(info.render_size[direction] as nat);
    let d = rounded(info.upscale_size[direction] as nat);
    lemma_rounded_bounds(info.render_size[direction] as nat);
    lemma_rounded_bounds(info.upscale_size[direction] as nat);
    lemma_relative_error(n, d);
    let k = quotient_exponent(n, d);
    let s = quotient_significand(n, d);
    let unit = pow2(149);
    let rest = pow2(51);
    let a = pow2(200);
    let b = pow2((k + 200) as nat);
    let e = pow2((k + 149) as nat);
    vstd::arithmetic::power2::lemma_pow2_adds(149, 51);
    vstd::arithmetic::power2::lemma_pow2_adds((k + 149) as nat, 51);
    vstd::arithmetic::power2::lemma_pow2_pos(51);
    let product = factor.value() * d;
    let render = n * unit;
    assert(product == (s * e) * d);
    assert(s * (d * b) == product * rest) by (nonlinear_arith)
        requires
            product == (s * e) * d,
            b == e * rest,
    ;
    assert(n * a == render * rest) by (nonlinear_arith)
        requires
            render == n * unit,
            a == unit * rest,
    ;
    assert(0xff_ffff * product <= 0x100_0000 * render <= 0x100_0001 * product) by (nonlinear_arith)
        requires
            0xff_ffff * (product * rest) <= 0x100_0000 * (render * rest) <= 0x100_0001 * (product
                * rest),
            rest > 0,
    ;
}

/// An integer of 32 bits differs from what it is rounded to in single precision by at most one
/// part in 2^24, and not at all up to 2^24.
pub proof fn law_integer_rounding(n: nat)
    requires
        n < 0x1_0000_0000,
    ensures
        n <= 0x100_0000 ==> rounded(n) == n,
        0x100_0000 * (rounded(n) - n) <= n,
        0x100_0000 * (n - rounded(n)) <= n,
{
    if n <= 0x100_0000 {
        lemma_rounded_exact(n);
    } else {
        reveal_with_fuel(spacing, 10);
        let gap = spacing(n);
        assert(gap == 2 || gap == 4 || gap == 8 || gap == 16 || gap == 32 || gap == 64 || gap == 128
            || gap == 256);
        assert(0x80_0000 * gap <= n);
        vstd::arithmetic::div_mod::lemma_fundamental_div_mod(n as int, gap as int);
        let q = n / gap;
        let r = n % gap;
        let s = round_half_even(n, gap);
        assert(2 * (s * gap) <= 2 * n + gap && 2 * n <= 2 * (s * gap) + gap) by (nonlinear_arith)
            requires
                n == gap * q + r,
                0 <= r < gap,
                (s == q && 2 * r <= gap) || (s == q + 1 && 2 * r >= gap),
        ;
    }
}

/// A view that is created or resized has seen no frame: its next frame starts over, its jitter
/// sequence has no length, and its weights are 1, 1, 1, a third and minus a third.
pub proof fn law_fresh_view(
    profile: FormatProfile,
    max_render_size: [u32; 2],
    max_upscale_size: [u32; 2],
)
    ensures
        ({
            let view = FsrViewState::fresh(profile, max_render_size, max_upscale_size);
            let words = view.constants.layout();
            &&& view.first_execution
            &&& view.format_profile == profile
            &&& view.max_render_size == max_render_size
            &&& view.max_upscale_size == max_upscale_size
            &&& view.frame_kind == FrameKind::Even
            &&& view.frame_index == 0
            &&& view.jitter_phase_count == 0
            &&& view.pre_exposure.bits == 0x3f80_0000
            &&& view.previous_frame_pre_exposure.bits == 0x3f80_0000
            &&& view.previous_jitter_offset[0].bits == 0
            &&& view.previous_jitter_offset[1].bits == 0
            &&& words.len() == 60
            &&& words[8] == max_render_size[0] && words[9] == max_render_size[1]
            &&& words[10] == max_upscale_size[0] && words[11] == max_upscale_size[1]
            &&& forall|i: int| 0 <= i < 8 ==> #[trigger] words[i] == 0
            &&& forall|i: int| 12 <= i < 32 ==> #[trigger] words[i] == 0
            &&& words[32] == 0x3f80_0000 && words[33] == 0x3f80_0000 && words[34] == 0x3f80_0000
            &&& words[35] == 0x3eaa_aaab && words[36] == 0xbeaa_aaab
            &&& forall|i: int| 37 <= i < 60 ==> #[trigger] words[i] == 0
        }),
{
}

/// What two dispatches in a row leave of each other: the second finds the first's exposure, and
/// with jittered motion vectors the first's jitter; the frames alternate; the frame index goes up
/// by one unless history is reset, which sets it to 0; and nothing is a first frame any more.
pub proof fn law_two_frames<T, B>(
    context: FsrContext,
    before: FsrViewState,
    between: FsrViewState,
    after: FsrViewState,
    first: FsrDispatchInfo<T, B>,
    second: FsrDispatchInfo<T, B>,
)
    requires
        context.advances_state(before, between, first),
        context.advances_state(between, after, second),
    ensures
        after.previous_frame_pre_exposure == first.pre_exposure,
        after.pre_exposure == second.pre_exposure,
        context.flags.bits / 4 % 2 == 1 ==> between.previous_jitter_offset == first.jitter_offset,
        context.flags.bits / 4 % 2 == 0 ==> after.previous_jitter_offset
            == before.previous_jitter_offset,
        between.frame_kind != before.frame_kind,
        after.frame_kind == before.frame_kind,
        !between.first_execution && !after.first_execution,
        second.reset_history ==> after.frame_index == 0,
        !second.reset_history && between.frame_index < 0x100_0000 ==> after.frame_index
            == between.frame_index + 1,
        !second.reset_history && between.frame_index >= 0x100_0000 ==> after.frame_index
            == between.frame_index,
        before.first_execution || first.reset_history ==> between.frame_index == 0,
        after.max_render_size == before.max_render_size,
        after.max_upscale_size == before.max_upscale_size,
        after.format_profile == before.format_profile,
{
    law_context_options_are_bits(context.flags);
}

/// A dispatch is accepted exactly where nothing is wrong with its parameters and every texture has
/// the format that the context's profile asks for; what is wrong with the parameters is reported
/// before what is wrong with the formats.
pub proof fn law_accepted_dispatches<T, B>(
    context: FsrContext,
    view: FsrViewState,
    info: FsrDispatchInfo<T, B>,
    formats: FsrFormats,
)
    ensures
        ({
            let parameters_pass = forall|k: int|
                0 <= k < 19 ==> !#[trigger] fault(
                    info,
                    context.flags.bits,
                    view.max_render_size,
                    view.max_upscale_size,
                    k,
                );
            let formats_pass = {
                &&& formats.color == TextureFormat::Rgba16Float
                &&& formats.depth == TextureFormat::Depth32Float
                &&& formats.motion_vectors == TextureFormat::Rg16Float
                &&& formats.output == TextureFormat::Rgba16Float
                &&& formats.dilated_depth == TextureFormat::R32Float
                &&& formats.dilated_motion_vectors == (if context.format_profile
                    == FormatProfile::Core {
                    TextureFormat::Rg32Float
                } else {
                    TextureFormat::Rg16Float
                })
            };
            let rejection = context.rejection(view, info, formats);
            &&& rejection is None <==> parameters_pass && formats_pass
            &&& !parameters_pass ==> rejection is Some && rejection->0 !is TextureFormatMismatch
            &&& parameters_pass && !formats_pass ==> rejection is Some
                && rejection->0 is TextureFormatMismatch
        }),
{
    law_first_fault(info, context.flags, view.max_render_size, view.max_upscale_size);
}

/// Which texture a format is refused for, and what is said of it: the first one, in the order
/// color, depth, motion vectors, output, dilated depth, dilated motion vectors.
pub proof fn law_refused_format(expected: FsrFormats, actual: FsrFormats)
    requires
        expected != actual,
    ensures
        format_error(expected, actual) matches Some(
            FsrDispatchError::TextureFormatMismatch { texture, expected: wanted, actual: found },
        ) && {
            let before_depth = expected.color == actual.color;
            let before_vectors = before_depth && expected.depth == actual.depth;
            let before_output = before_vectors && expected.motion_vectors == actual.motion_vectors;
            let before_dilated = before_output && expected.output == actual.output;
            let before_last = before_dilated && expected.dilated_depth == actual.dilated_depth;
            &&& wanted != found
            &&& texture == CallerTexture::Color <==> !before_depth
            &&& texture == CallerTexture::Color ==> wanted == expected.color && found == actual.color
            &&& texture == CallerTexture::Depth <==> before_depth && !before_vectors
            &&& texture == CallerTexture::Depth ==> wanted == expected.depth && found == actual.depth
            &&& texture == CallerTexture::MotionVectors <==> before_vectors && !before_output
            &&& texture == CallerTexture::MotionVectors ==> wanted == expected.motion_vectors
                && found == actual.motion_vectors
            &&& texture == CallerTexture::Output <==> before_output && !before_dilated
            &&& texture == CallerTexture::Output ==> wanted == expected.output && found
                == actual.output
            &&& texture == CallerTexture::DilatedDepth <==> before_dilated && !before_last
            &&& texture == CallerTexture::DilatedDepth ==> wanted == expected.dilated_depth && found
                == actual.dilated_depth
            &&& texture == CallerTexture::DilatedMotionVectors <==> before_last
            &&& texture == CallerTexture::DilatedMotionVectors ==> wanted
                == expected.dilated_motion_vectors && found == actual.dilated_motion_vectors
        },
{
}

/// The two's complement reading of a bit pattern is the integer of 32 bits that differs from it by
/// a multiple of 2^32.
pub proof fn law_signed_reading(n: u32)
    ensures
        -0x8000_0000 <= as_signed(n) <= 0x7fff_ffff,
        (n - as_signed(n)) % 0x1_0000_0000 == 0,
{
}

/// Which planes a depth projection goes by, over their bit patterns: it has no plane at infinity
/// unless bit 4 of the context's options says so, and the plane at device depth 0 is the nearer one
/// unless bit 3 says that depth is inverted. The order in which the planes are given does not
/// matter.
pub proof fn law_depth_projection(flags: FsrContextFlags, camera_near: F32, camera_far: F32)
    requires
        !bits_nan(camera_near.bits),
        !bits_nan(camera_far.bits),
    ensures
        ({
            let inverted = flags.bits / 8 % 2 == 1;
            let infinite = flags.bits / 16 % 2 == 1;
            let near = bits_key(camera_near.bits);
            let far = bits_key(camera_far.bits);
            let least = if near < far {
                near
            } else {
                far
            };
            let most = near + far - least;
            match projection(flags, camera_near, camera_far) {
                DepthProjection::Finite { first, last } => {
                    &&& !infinite
                    &&& bits_key(first.bits) == (if inverted {
                        most
                    } else {
                        least
                    })
                    &&& bits_key(last.bits) == (if inverted {
                        least
                    } else {
                        most
                    })
                },
                DepthProjection::Infinite { first } => {
                    &&& infinite && !inverted
                    &&& bits_key(first.bits) == least
                },
                DepthProjection::InvertedInfinite { last } => {
                    &&& infinite && inverted
                    &&& bits_key(last.bits) == least
                },
            }
        }),
{
    law_context_options_are_bits(flags);
    lemma_bits_compare(camera_near, camera_far);
    lemma_bits_compare(camera_far, camera_near);
}

/// Where a pyramid is written level by level: only on `Core`, and there every one of six levels
/// has a step of its own; at the other profiles one step writes all.
pub proof fn law_six_levels<T, B>(
    context: FsrContext,
    info: FsrDispatchInfo<T, B>,
    reset: bool,
    pyramid: FsrPassKind,
    wanted: u32,
)
    requires
        pyramid == FsrPassKind::LumaPyramid || pyramid == FsrPassKind::ShadingChangePyramid,
    ensures
        (exists|q: int|
            0 <= q < context.frame_commands(info, reset).len() && (
            #[trigger] context.frame_commands(info, reset)[q] matches Command::RunLevel {
                kind,
                level,
                ..
            } && kind == pyramid && level == wanted)) <==> context.format_profile
            == FormatProfile::Core && wanted < 6,
        (exists|q: int|
            0 <= q < context.frame_commands(info, reset).len() && (
            #[trigger] context.frame_commands(info, reset)[q] matches Command::RunPass {
                kind,
                ..
            } && kind == pyramid)) <==> context.format_profile != FormatProfile::Core,
{
    lemma_frame_parts(context, info, reset);
    let all = context.frame_commands(info, reset);
    let s = setup_commands(context.flags, reset).len() as int;
    let analysis = analysis_commands(info.render_size, context.format_profile);
    let output = output_commands(
        info.upscale_size,
        info.enable_sharpening,
        info.flags.has(FsrDispatchFlags::DRAW_DEBUG_VIEW),
    );
    let luma = pyramid_commands(FsrPassKind::LumaPyramid, info.render_size, context.format_profile);
    let shading = pyramid_commands(
        FsrPassKind::ShadingChangePyramid,
        info.render_size,
        context.format_profile,
    );
    let n = luma.len() as int;
    assert(shading.len() == n);
    let first = if pyramid == FsrPassKind::LumaPyramid {
        1
    } else {
        1 + n
    };
    assert forall|q: int| 0 <= q < all.len() implies (#[trigger] all[q] matches Command::RunLevel {
        kind,
        level,
        ..
    } ==> context.format_profile == FormatProfile::Core && level < 6) && (
    all[q] matches Command::RunPass { kind, .. } && kind == pyramid ==> context.format_profile
        != FormatProfile::Core) by {
        let k = q - s;
        if k < 0 {
            assert(!is_run(all[q]));
        } else if k < analysis.len() {
            assert(all[q] == analysis[k]);
            if 1 <= k <= n {
                assert(analysis[k] == luma[k - 1]);
            } else if n < k <= 2 * n {
                assert(analysis[k] == shading[k - 1 - n]);
            }
        } else {
            assert(all[q] == output[k - analysis.len()]);
        }
    }
    if context.format_profile == FormatProfile::Core {
        assert(n == 6);
        if wanted < 6 {
            let k = first + wanted;
            if pyramid == FsrPassKind::LumaPyramid {
                assert(analysis[k] == luma[wanted as int]);
            } else {
                assert(analysis[k] == shading[wanted as int]);
            }
            assert(all[s + k] == analysis[k]);
        }
    } else {
        assert(n == 1);
        if pyramid == FsrPassKind::LumaPyramid {
            assert(analysis[first] == luma[0]);
        } else {
            assert(analysis[first] == shading[0]);
        }
        assert(all[s + first] == analysis[first]);
    }
}

/// The size of an integer.
pub open spec fn size_of(n: int) -> int {
    if n < 0 {
        -n
    } else {
        n
    }
}

/// Whether `q` is `x / y`, up to one rounding to single precision.
pub open spec fn is_float_quotient(q: F32, x: F32, y: F32) -> bool {
    let product = q.value() * y.value();
    0x100_0000 * size_of(product - x.value() * pow2(149)) <= size_of(product) + 0x80_0000 * size_of(
        y.value(),
    )
}

/// Whether `d` is `x - y`, up to one rounding to single precision.
pub open spec fn is_float_difference(d: F32, x: F32, y: F32) -> bool {
    0x100_0000 * size_of(d.value() - (x.value() - y.value())) <= size_of(d.value())
}

/// Whether `q` is `(x - y) / n`, up to a rounding of the difference and one of the quotient.
pub open spec fn is_difference_quotient(q: F32, x: F32, y: F32, n: u32) -> bool {
    exists|d: F32| #[trigger] is_float_difference(d, x, y) && is_quotient(q, d, n)
}

/// Whether `q` is a thousandth of `x`, where a thousandth and the product with it are both rounded.
pub open spec fn is_thousandth(q: F32, x: F32) -> bool {
    0x40_0000 * size_of(1000 * q.value() - x.value()) <= size_of(x.value()) + 0x40_0000 * 1000
}

/// What the passes find of exposure, jitter and time is what the frame's terms are to bring: the
/// exposure over that of the dispatch before, where that is positive (word 29); with jittered
/// motion vectors, the jitter of the dispatch before less that of this one, over the size that
/// motion vectors are rendered at (words 24 and 25); and the frame's milliseconds in seconds, up to
/// one second (word 28).
pub proof fn law_frame_terms<T, B>(
    context: FsrContext,
    before: FsrViewState,
    after: FsrViewState,
    info: FsrDispatchInfo<T, B>,
    terms: FrameTerms,
    direction: int,
)
    requires
        0 <= direction < 2,
        context.advances_constants(before, after, info, terms),
    ensures
        ({
            let words = after.constants.layout();
            let size = motion_vectors_rendered_at(context.flags.bits, info);
            &&& is_float_quotient(terms.pre_exposure_ratio, info.pre_exposure, before.pre_exposure)
                && bits_less(0, before.pre_exposure.bits) ==> is_float_quotient(
                F32 { bits: words[29] },
                info.pre_exposure,
                before.pre_exposure,
            )
            &&& !bits_less(0, before.pre_exposure.bits) ==> words[29] == 0x3f80_0000
            &&& context.flags.bits / 4 % 2 == 1 && is_difference_quotient(
                terms.jitter_cancellation[direction],
                before.previous_jitter_offset[direction],
                info.jitter_offset[direction],
                size[direction],
            ) ==> is_difference_quotient(
                F32 { bits: words[24 + direction] },
                before.previous_jitter_offset[direction],
                info.jitter_offset[direction],
                size[direction],
            )
            &&& terms.frame_seconds.bits <= 0x3f80_0000 && is_thousandth(
                terms.frame_seconds,
                info.frame_time_delta,
            ) ==> is_thousandth(F32 { bits: words[28] }, info.frame_time_delta)
            &&& 0x3f80_0000 < terms.frame_seconds.bits <= 0x7f80_0000 ==> words[28] == 0x3f80_0000
        }),
{
    law_context_options_are_bits(context.flags);
    let words = after.constants.layout();
    lemma_bits_compare(terms.frame_seconds, F32 { bits: 0 });
    lemma_bits_compare(F32 { bits: 0x3f80_0000 }, terms.frame_seconds);
    lemma_bits_compare(F32 { bits: 0 }, before.pre_exposure);
    assert(words[24] == after.constants.fsr.motion_vector_jitter_cancellation[0].bits);
    assert(words[25] == after.constants.fsr.motion_vector_jitter_cancellation[1].bits);
    assert(words[28] == after.constants.fsr.delta_time.bits);
    assert(words[29] == after.constants.fsr.delta_pre_exposure.bits);
}

} // verus!

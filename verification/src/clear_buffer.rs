//! Filling a buffer with a repeated value from a compute shader.

use crate::text::{decimal, decimal_text};
use vstd::arithmetic::div_mod::lemma_fundamental_div_mod;
use vstd::prelude::*;
use vstd::string::StringExecFns;

verus! {

/// Words that one shader invocation writes.
pub const WORDS_PER_INVOCATION: u32 = 4;

/// Invocations of one workgroup.
pub const WORKGROUP_SIZE_X: u32 = 128;

/// The shader that fills a buffer.
pub open spec fn shader_text() -> Seq<char> {
    "\nconst WORDS_PER_INVOCATION: u32 = "@ + decimal_text(WORDS_PER_INVOCATION as nat)
        + "u;\nconst LAST_WORD_OFFSET: u32 = WORDS_PER_INVOCATION - 1u;\n\nstruct ClearUniforms {\n    total_words: u32,\n    start_word: u32,\n    _pad0: u32,\n    _pad1: u32,\n    clear_value: vec4u,\n};\n\n@group(0) @binding(0)\nvar<storage, read_write> buf: array<u32>;\n\n@group(0) @binding(1)\nvar<uniform> uniforms: ClearUniforms;\n\n@compute @workgroup_size("@
        + decimal_text(WORKGROUP_SIZE_X as nat)
        + ", 1, 1)\nfn main(@builtin(global_invocation_id) global_id: vec3u) {\n    let index = uniforms.start_word + global_id.x * WORDS_PER_INVOCATION;\n    if (index >= uniforms.total_words) {\n        return;\n    }\n\n    if (index + LAST_WORD_OFFSET >= uniforms.total_words) {\n        for (var i: u32 = index; i < uniforms.total_words; i = i + 1u) {\n            buf[i] = uniforms.clear_value[i - index];\n        }\n        return;\n    }\n\n    for (var lane: u32 = 0u; lane < WORDS_PER_INVOCATION; lane = lane + 1u) {\n        buf[index + lane] = uniforms.clear_value[lane];\n    }\n}\n"@
}

/// The source of the shader that fills a buffer.
pub fn clear_buffer_shader_source() -> (result: String)
    ensures
        result@ == shader_text(),
{
    let mut source = "\nconst WORDS_PER_INVOCATION: u32 = ".to_owned();
    source.append(decimal(WORDS_PER_INVOCATION as u64).as_str());
    source.append(
        "u;\nconst LAST_WORD_OFFSET: u32 = WORDS_PER_INVOCATION - 1u;\n\nstruct ClearUniforms {\n    total_words: u32,\n    start_word: u32,\n    _pad0: u32,\n    _pad1: u32,\n    clear_value: vec4u,\n};\n\n@group(0) @binding(0)\nvar<storage, read_write> buf: array<u32>;\n\n@group(0) @binding(1)\nvar<uniform> uniforms: ClearUniforms;\n\n@compute @workgroup_size(",
    );
    source.append(decimal(WORKGROUP_SIZE_X as u64).as_str());
    source.append(
        ", 1, 1)\nfn main(@builtin(global_invocation_id) global_id: vec3u) {\n    let index = uniforms.start_word + global_id.x * WORDS_PER_INVOCATION;\n    if (index >= uniforms.total_words) {\n        return;\n    }\n\n    if (index + LAST_WORD_OFFSET >= uniforms.total_words) {\n        for (var i: u32 = index; i < uniforms.total_words; i = i + 1u) {\n            buf[i] = uniforms.clear_value[i - index];\n        }\n        return;\n    }\n\n    for (var lane: u32 = 0u; lane < WORDS_PER_INVOCATION; lane = lane + 1u) {\n        buf[index + lane] = uniforms.clear_value[lane];\n    }\n}\n",
    );
    source
}

/// One dispatch of the shader.
#[derive(Debug, Clone, Copy, PartialEq, Eq, Structural)]
pub struct ClearDispatch {
    /// Words of the buffer.
    pub total_words: u32,
    /// The first word that the dispatch writes.
    pub start_word: u32,
    /// Workgroups to run.
    pub workgroups: u32,
}

impl ClearDispatch {
    /// The words that the dispatch writes.
    pub open spec fn covers(self, word: int) -> bool {
        &&& self.start_word <= word < self.start_word + 512 * self.workgroups
        &&& word < self.total_words
    }

    /// The uniform data of the dispatch, in words.
    pub fn uniforms(&self, clear_value: [u32; 4]) -> (result: [u32; 8])
        ensures
            result@ == seq![
                self.total_words,
                self.start_word,
                0,
                0,
                clear_value[0],
                clear_value[1],
                clear_value[2],
                clear_value[3],
            ],
    {
        [
            self.total_words,
            self.start_word,
            0,
            0,
            clear_value[0],
            clear_value[1],
            clear_value[2],
            clear_value[3],
        ]
    }
}

/// The workgroups it takes to fill a buffer of the given number of words, where each workgroup
/// writes 128 times 4.
pub open spec fn workgroups_for(words: int) -> int {
    (words + 511) / 512
}

/// Dispatch number `i` of a buffer of the given number of words, on a device that runs at most
/// `max_workgroups` at a time.
pub open spec fn clear_dispatch(words: int, max_workgroups: int, i: int) -> ClearDispatch {
    let remaining = workgroups_for(words) - i * max_workgroups;
    ClearDispatch {
        total_words: words as u32,
        start_word: (512 * (i * max_workgroups)) as u32,
        workgroups: (if remaining < max_workgroups {
            remaining
        } else {
            max_workgroups
        }) as u32,
    }
}

/// Whether `dispatches` are those that fill a buffer of the given number of words.
pub open spec fn fills(dispatches: Seq<ClearDispatch>, words: int, max_workgroups: int) -> bool {
    &&& forall|i: int|
        0 <= i < dispatches.len() ==> #[trigger] dispatches[i] == clear_dispatch(
            words,
            max_workgroups,
            i,
        )
    &&& dispatches.len() * max_workgroups >= workgroups_for(words)
    &&& dispatches.len() > 0 ==> (dispatches.len() - 1) * max_workgroups < workgroups_for(words)
}

/// The dispatches that fill a buffer of the given size, in order.
///
/// A trailing part of the buffer that is shorter than a word is left as it is.
pub fn plan_clear(total_bytes: u64, max_workgroups: u32) -> (result: Vec<ClearDispatch>)
    requires
        total_bytes > 0 ==> total_bytes / 4 <= u32::MAX && max_workgroups > 0,
    ensures
        total_bytes == 0 ==> result@.len() == 0,
        total_bytes > 0 ==> fills(result@, (total_bytes / 4) as int, max_workgroups as int),
        // No word beyond the buffer, and every whole word of it
        forall|i: int|
            0 <= i < result@.len() ==> 4 * (#[trigger] result@[i]).total_words <= total_bytes < 4
                * result@[i].total_words + 4,
        total_bytes >= 4 ==> result@.len() > 0,
{
    let mut dispatches: Vec<ClearDispatch> = Vec::new();
    if total_bytes == 0 {
        return dispatches;
    }
    let total_words: u32 = (total_bytes / 4) as u32;
    let total_workgroups: u32 = total_words / 512 + (if total_words % 512 == 0 {
        0u32
    } else {
        1u32
    });
    let mut dispatched: u32 = 0;
    let ghost words = total_words as int;
    let ghost most = max_workgroups as int;
    assert(total_workgroups == workgroups_for(words));
    assert(0 * most == 0) by (nonlinear_arith);
    while dispatched < total_workgroups
        invariant
            max_workgroups > 0,
            most == max_workgroups,
            words == total_words,
            total_workgroups == workgroups_for(words),
            total_workgroups <= 0x80_0000,
            dispatched <= total_workgroups,
            dispatched == total_workgroups || dispatched == dispatches@.len() * most,
            dispatched == total_workgroups ==> dispatches@.len() * most >= total_workgroups,
            dispatches@.len() > 0 ==> (dispatches@.len() - 1) * most < total_workgroups,
            forall|i: int|
                0 <= i < dispatches@.len() ==> #[trigger] dispatches@[i] == clear_dispatch(
                    words,
                    most,
                    i,
                ),
        decreases total_workgroups - dispatched,
    {
        let remaining: u32 = total_workgroups - dispatched;
        let workgroups: u32 = if remaining < max_workgroups {
            remaining
        } else {
            max_workgroups
        };
        let ghost count = dispatches@.len();
        proof {
            assert((count + 1) * most == count * most + most) by (nonlinear_arith);
            assert((count + 1 - 1) * most == count * most) by (nonlinear_arith);
        }
        dispatches.push(
            ClearDispatch { total_words, start_word: dispatched * 512, workgroups },
        );
        dispatched = dispatched + workgroups;
    }
    dispatches
}

/// Every word of the buffer is written by exactly one dispatch, and no dispatch is larger than
/// the device allows.
pub proof fn law_every_word_once(
    dispatches: Seq<ClearDispatch>,
    words: int,
    max_workgroups: int,
    word: int,
)
    requires
        0 < max_workgroups <= u32::MAX,
        0 <= word < words <= u32::MAX,
        fills(dispatches, words, max_workgroups),
    ensures
        exists|i: int| 0 <= i < dispatches.len() && #[trigger] dispatches[i].covers(word),
        forall|i: int, j: int|
            0 <= i < dispatches.len() && 0 <= j < dispatches.len() && #[trigger] dispatches[i].covers(
                word,
            ) && #[trigger] dispatches[j].covers(word) ==> i == j,
        forall|i: int|
            0 <= i < dispatches.len() ==> 0 < #[trigger] dispatches[i].workgroups
                <= max_workgroups,
{
    let group = word / 512;
    let k = group / max_workgroups;
    lemma_fundamental_div_mod(group, max_workgroups);
    let n = dispatches.len() as int;
    assert(group < workgroups_for(words));
    assert(0 <= k < n) by (nonlinear_arith)
        requires
            0 <= group,
            max_workgroups > 0,
            k == group / max_workgroups,
            group < n * max_workgroups,
    ;
    assert forall|i: int| 0 <= i < n implies 0 <= #[trigger] (i * max_workgroups)
        < workgroups_for(words) && (i + 1) * max_workgroups == i * max_workgroups + max_workgroups by {
        assert(0 <= i * max_workgroups <= (n - 1) * max_workgroups) by (nonlinear_arith)
            requires
                0 <= i <= n - 1,
                max_workgroups > 0,
        ;
        assert((i + 1) * max_workgroups == i * max_workgroups + max_workgroups)
            by (nonlinear_arith);
    }
    assert forall|i: int| 0 <= i < n implies 0 < #[trigger] dispatches[i].workgroups
        <= max_workgroups && (dispatches[i].covers(word) <==> i == k) by {
        let start = i * max_workgroups;
        assert(dispatches[i] == clear_dispatch(words, max_workgroups, i));
        assert(max_workgroups * k == k * max_workgroups) by (nonlinear_arith);
        if i < k {
            assert(start + max_workgroups <= k * max_workgroups) by (nonlinear_arith)
                requires
                    i + 1 <= k,
                    start == i * max_workgroups,
                    max_workgroups > 0,
            ;
        }
        if i > k {
            assert(start >= k * max_workgroups + max_workgroups) by (nonlinear_arith)
                requires
                    i >= k + 1,
                    start == i * max_workgroups,
                    max_workgroups > 0,
            ;
        }
    }
    assert(dispatches[k].covers(word));
}

/// What one workgroup of the shader writes is what a dispatch counts for it, every dispatch knows
/// the whole buffer, and each starts where the one before it ends.
pub proof fn law_dispatches_follow_each_other(
    dispatches: Seq<ClearDispatch>,
    words: int,
    max_workgroups: int,
    i: int,
)
    requires
        0 < max_workgroups <= u32::MAX,
        0 <= words <= u32::MAX,
        fills(dispatches, words, max_workgroups),
        0 <= i < dispatches.len(),
    ensures
        WORDS_PER_INVOCATION * WORKGROUP_SIZE_X == 512,
        dispatches[i].total_words == words,
        i == 0 ==> dispatches[i].start_word == 0,
        i + 1 < dispatches.len() ==> {
            &&& dispatches[i].workgroups == max_workgroups
            &&& dispatches[i + 1].start_word == dispatches[i].start_word + 512
                * dispatches[i].workgroups
        },
        i + 1 == dispatches.len() ==> words <= dispatches[i].start_word + 512
            * dispatches[i].workgroups < words + 512,
{
    let n = dispatches.len() as int;
    let start = i * max_workgroups;
    assert(dispatches[i] == clear_dispatch(words, max_workgroups, i));
    assert(0 <= start <= (n - 1) * max_workgroups && (i + 1) * max_workgroups == start
        + max_workgroups) by (nonlinear_arith)
        requires
            0 <= i <= n - 1,
            start == i * max_workgroups,
            max_workgroups > 0,
    ;
    if i == 0 {
        assert(start == 0) by (nonlinear_arith)
            requires
                i == 0,
                start == i * max_workgroups,
        ;
    }
    if i + 1 < n {
        assert(dispatches[i + 1] == clear_dispatch(words, max_workgroups, i + 1));
        assert((i + 1) * max_workgroups <= (n - 1) * max_workgroups) by (nonlinear_arith)
            requires
                i + 1 <= n - 1,
                max_workgroups > 0,
        ;
    }
}

} // verus!

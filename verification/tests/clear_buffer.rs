use wgpu_ffx::clear_buffer::{clear_buffer_shader_source, plan_clear, ClearDispatch};

#[test]
fn shader_source_is_complete() {
    let expected = r#"
const WORDS_PER_INVOCATION: u32 = 4u;
const LAST_WORD_OFFSET: u32 = WORDS_PER_INVOCATION - 1u;

struct ClearUniforms {
    total_words: u32,
    start_word: u32,
    _pad0: u32,
    _pad1: u32,
    clear_value: vec4u,
};

@group(0) @binding(0)
var<storage, read_write> buf: array<u32>;

@group(0) @binding(1)
var<uniform> uniforms: ClearUniforms;

@compute @workgroup_size(128, 1, 1)
fn main(@builtin(global_invocation_id) global_id: vec3u) {
    let index = uniforms.start_word + global_id.x * WORDS_PER_INVOCATION;
    if (index >= uniforms.total_words) {
        return;
    }

    if (index + LAST_WORD_OFFSET >= uniforms.total_words) {
        for (var i: u32 = index; i < uniforms.total_words; i = i + 1u) {
            buf[i] = uniforms.clear_value[i - index];
        }
        return;
    }

    for (var lane: u32 = 0u; lane < WORDS_PER_INVOCATION; lane = lane + 1u) {
        buf[index + lane] = uniforms.clear_value[lane];
    }
}
"#;
    assert_eq!(clear_buffer_shader_source(), expected);
}

#[test]
fn nothing_to_clear() {
    assert!(plan_clear(0, 65535).is_empty());
    assert!(plan_clear(0, 0).is_empty());
    // Less than a word
    assert!(plan_clear(3, 65535).is_empty());
}

#[test]
fn one_dispatch_is_enough() {
    // 640x360 words of four bytes
    assert_eq!(
        plan_clear(640 * 360 * 4, 65535),
        vec![ClearDispatch {
            total_words: 230_400,
            start_word: 0,
            workgroups: 450,
        }]
    );
    assert_eq!(
        plan_clear(4, 65535),
        vec![ClearDispatch {
            total_words: 1,
            start_word: 0,
            workgroups: 1,
        }]
    );
}

#[test]
fn several_dispatches_cover_every_word_once() {
    let dispatches = plan_clear(4 * 5000, 4);
    assert_eq!(dispatches.len(), 3);
    let mut written = vec![0u32; 5000];
    for dispatch in &dispatches {
        assert!(dispatch.workgroups >= 1 && dispatch.workgroups <= 4);
        let end = dispatch.start_word + dispatch.workgroups * 512;
        for word in dispatch.start_word..end.min(dispatch.total_words) {
            written[word as usize] += 1;
        }
    }
    assert!(written.iter().all(|&count| count == 1));
    assert_eq!(dispatches[2].start_word, 2 * 4 * 512);
    assert_eq!(dispatches[2].workgroups, 2);
}

#[test]
fn largest_buffer() {
    let dispatches = plan_clear(4 * 0xffff_ffff, 65535);
    assert_eq!(dispatches.len(), 129);
    assert_eq!(dispatches[128].start_word, 128 * 65535 * 512);
}

#[test]
fn uniforms_of_a_dispatch() {
    let dispatch = ClearDispatch {
        total_words: 7,
        start_word: 512,
        workgroups: 1,
    };
    assert_eq!(dispatch.uniforms([1, 2, 3, 4]), [7, 512, 0, 0, 1, 2, 3, 4]);
}

use std::collections::hash_map::DefaultHasher;
use std::hash::{Hash, Hasher};
use wgpu_ffx::shader_build::cli::{select_task, Task};
use wgpu_ffx::shader_build::codegen::{generate_rust_code, hashes_can_be_cut};
use wgpu_ffx::shader_build::compile::{
    analyze_deduplication, compilation_result, compiler_arguments, duplicates_fit,
    record_compilation, relevant_results, CompilationResult, DeduplicationInfo,
};
use wgpu_ffx::shader_build::config::{
    derive_field_name, variant_names_for_values, ConfigError, DefineValue, FieldPermutationConfig,
    PermutationSpec, ShaderPathConfig, ShaderPermutationConfig,
};
use wgpu_ffx::shader_build::names::{
    define_to_enum_name, define_to_param_name, is_valid_variant_name,
};
use wgpu_ffx::shader_build::params::{
    apply_field_suffixes, build_field_perm_params, build_permutation_params,
    field_suffix_combinations, unique_shader_names,
};
use wgpu_ffx::shader_build::paths::has_extension;
use wgpu_ffx::shader_build::permutations::{
    generate_permutations_for_config, permutations_with_stems, ShaderPermutation,
};
use wgpu_ffx::shader_build::product::cartesian_product_indices;
use wgpu_ffx::shader_build::sdk::{first_step, next_step, SdkError, SdkOutcome, SdkStep};
use wgpu_ffx::text::{decimal, hex, signed_decimal};

fn text(s: &str) -> String {
    s.to_string()
}

fn path_config(prefix: Option<&str>, suffix: Option<&str>) -> ShaderPathConfig {
    ShaderPathConfig {
        subdirectory: text("fsr3upscaler"),
        prefix: prefix.map(text),
        suffix: suffix.map(text),
    }
}

fn toggle() -> PermutationSpec {
    PermutationSpec::Values(vec![DefineValue::Integer(0), DefineValue::Integer(1)])
}

fn config() -> ShaderPermutationConfig {
    ShaderPermutationConfig {
        path: path_config(Some("ffx_fsr3_"), Some("_pass")),
        base: vec![
            (text("FFX_GPU"), DefineValue::Boolean(true)),
            (text("FFX_STAGE"), DefineValue::Text(text("compute"))),
        ],
        permutations: vec![
            (text("FFX_HALF"), toggle()),
            (
                text("FFX_WGPU_FORMAT_PROFILE"),
                PermutationSpec::Named(vec![
                    (text("Core"), DefineValue::Integer(0)),
                    (text("Native"), DefineValue::Integer(2)),
                ]),
            ),
        ],
        field_permutations: vec![(
            text("FFX_APPLY_SHARPENING"),
            FieldPermutationConfig {
                values: vec![DefineValue::Integer(0), DefineValue::Integer(1)],
                suffix: text("sharpen"),
            },
        )],
    }
}

fn result(shader_name: &str, permutation_id: &str, hash: u64, size: usize) -> CompilationResult {
    let permutation = ShaderPermutation {
        shader_file: text("unused.glsl"),
        permutation_id: text(permutation_id),
        defines: Vec::new(),
        output_directory: text("out/fsr3upscaler"),
    };
    compilation_result(&permutation, text(shader_name), hash, size)
}

/// The stem that a compilation finds for a file.
fn file_stem(path: &str) -> Option<String> {
    let permutation = ShaderPermutation {
        shader_file: text(path),
        permutation_id: text("id"),
        defines: Vec::new(),
        output_directory: text("out"),
    };
    record_compilation(&permutation, &vec![0]).map(|compiled| compiled.shader_name)
}

#[test]
fn numbers_in_text() {
    assert_eq!(decimal(0), "0");
    assert_eq!(decimal(1234567890), "1234567890");
    assert_eq!(decimal(u64::MAX), u64::MAX.to_string());
    assert_eq!(signed_decimal(-7), "-7");
    assert_eq!(signed_decimal(i64::MIN), i64::MIN.to_string());
    assert_eq!(hex(0xbeef, 16), "000000000000beef");
    assert_eq!(hex(u64::MAX, 16), "ffffffffffffffff");
}

#[test]
fn values_as_the_compiler_gets_them() {
    assert_eq!(DefineValue::Integer(-3).to_define_string(), "-3");
    assert_eq!(DefineValue::Text(text("abc")).to_define_string(), "abc");
    assert_eq!(DefineValue::Boolean(true).to_define_string(), "1");
    assert_eq!(DefineValue::Boolean(false).to_define_string(), "0");
    assert_eq!(DefineValue::Other(text("1.5")).to_define_string(), "1.5");
}

#[test]
fn variant_names_are_identifiers() {
    assert!(is_valid_variant_name("Core"));
    assert!(is_valid_variant_name("_tier2"));
    assert!(!is_valid_variant_name(""));
    assert!(!is_valid_variant_name("2d"));
    assert!(!is_valid_variant_name("a-b"));
    assert!(!is_valid_variant_name("Größe"));
}

#[test]
fn variant_names_are_derived() {
    let names = |values: Vec<i64>| {
        let mut list = Vec::new();
        for value in values {
            list.push(DefineValue::Integer(value));
        }
        variant_names_for_values(&list)
    };
    assert_eq!(names(vec![0, 1]), vec!["Off", "On"]);
    assert_eq!(names(vec![0]), vec!["Off"]);
    assert_eq!(names(vec![1, 0]), vec!["Value0", "Value1"]);
    assert_eq!(names(vec![0, 1, 2]), vec!["Value0", "Value1", "Value2"]);
    assert!(names(vec![]).is_empty());
}

#[test]
fn names_of_options() {
    assert_eq!(define_to_enum_name("FFX_HALF"), "Half");
    assert_eq!(
        define_to_enum_name("FFX_FSR3UPSCALER_OPTION_HDR_COLOR_INPUT"),
        "Fsr3upscalerOptionHdrColorInput"
    );
    assert_eq!(define_to_param_name("FFX_HALF"), "half");
    assert_eq!(
        define_to_param_name("FFX_FSR3UPSCALER_OPTION_HDR"),
        "fsr3upscaler_option_hdr"
    );
    assert_eq!(define_to_enum_name("WAVE64"), "Wave64");
    assert_eq!(define_to_enum_name("FFX__A"), "A");
    assert_eq!(define_to_param_name("ÄX"), "äx");
    assert_eq!(define_to_enum_name("ÄX"), "Äx");
}

#[test]
fn field_names() {
    let both = path_config(Some("ffx_fsr3_"), Some("_pass"));
    assert_eq!(derive_field_name("ffx_fsr3_accumulate_pass", &both), "accumulate");
    assert_eq!(derive_field_name("other", &both), "other");
    let none = path_config(None, None);
    assert_eq!(derive_field_name("ffx_fsr3_accumulate_pass", &none), "ffx_fsr3_accumulate_pass");
    assert_eq!(apply_field_suffixes("accumulate", &vec![Some(text("sharpen"))]), "accumulate_sharpen");
    assert_eq!(apply_field_suffixes("accumulate", &vec![None]), "accumulate");
}

#[test]
fn suffix_combinations() {
    let params = build_field_perm_params(&config());
    assert_eq!(
        field_suffix_combinations(&params),
        vec![vec![None], vec![Some(text("sharpen"))]]
    );
}

#[test]
fn parameters_of_options() {
    let params = build_permutation_params(&config());
    assert_eq!(params.len(), 2);
    assert_eq!(params[0].enum_name, "Half");
    assert_eq!(params[0].param_name, "half");
    assert_eq!(params[0].variants[1].variant_name, "On");
    assert_eq!(params[0].variants[1].define_value, "1");
    assert_eq!(params[1].enum_name, "WgpuFormatProfile");
    assert_eq!(params[1].variants[1].variant_name, "Native");
    assert_eq!(params[1].variants[1].define_value, "2");
}

#[test]
fn products_of_indices() {
    assert_eq!(
        cartesian_product_indices(&vec![2, 3]),
        vec![
            vec![0, 0],
            vec![0, 1],
            vec![0, 2],
            vec![1, 0],
            vec![1, 1],
            vec![1, 2]
        ]
    );
    let nothing: Vec<usize> = Vec::new();
    assert_eq!(cartesian_product_indices(&nothing), vec![nothing.clone()]);
    assert!(cartesian_product_indices(&vec![4, 0]).is_empty());
}

#[test]
fn products_hold_every_choice_once() {
    let all = cartesian_product_indices(&vec![3, 2, 4]);
    assert_eq!(all.len(), 24);
    for a in 0..3 {
        for b in 0..2 {
            for c in 0..4 {
                let choice = vec![a, b, c];
                assert_eq!(all.iter().filter(|combo| **combo == choice).count(), 1);
            }
        }
    }
}

#[test]
fn faulty_configurations() {
    assert!(config().validate().is_ok());

    let mut faulty = config();
    faulty.permutations.push((
        text("FFX_BAD"),
        PermutationSpec::Named(vec![
            (text("Good"), DefineValue::Integer(0)),
            (text("not good"), DefineValue::Integer(0)),
        ]),
    ));
    match faulty.validate() {
        Err(ConfigError::InvalidVariantName { define_name, name }) => {
            assert_eq!(define_name, "FFX_BAD");
            assert_eq!(name, "not good");
        }
        other => panic!("{other:?}"),
    }

    let mut faulty = config();
    faulty.permutations.push((
        text("FFX_TWICE"),
        PermutationSpec::Values(vec![DefineValue::Integer(1), DefineValue::Boolean(true)]),
    ));
    match faulty.validate() {
        Err(ConfigError::DuplicateValues { define_name, values }) => {
            assert_eq!(define_name, "FFX_TWICE");
            assert_eq!(values, vec!["1", "1"]);
        }
        other => panic!("{other:?}"),
    }
}

#[test]
fn file_names() {
    assert_eq!(file_stem("shaders/src/a/b.glsl"), Some(text("b")));
    assert_eq!(file_stem("foo.tar.gz"), Some(text("foo.tar")));
    assert_eq!(file_stem(".hidden"), Some(text(".hidden")));
    assert_eq!(file_stem("dir/plain"), Some(text("plain")));
    assert_eq!(file_stem(".."), None);
    assert_eq!(file_stem("/"), None);
    assert!(has_extension("a/b.glsl", "glsl"));
    assert!(!has_extension("a/b.glsl", "spv"));
    assert!(!has_extension("a/glsl", "glsl"));
    assert!(!has_extension("a/.glsl", "glsl"));
    assert!(!has_extension("..", "glsl"));
}

#[test]
fn stems_and_extensions_agree_with_camino() {
    for path in [
        "a/b.glsl",
        "foo.tar.gz",
        ".hidden",
        ".hidden.x",
        "dir/plain",
        "dir/",
        "x..y",
        "ends.",
        "",
        "..",
        "a/..",
        "a/.",
        "a/./",
        "a/b//",
        "./.",
        ".",
        "./x.glsl",
        "/",
        "/x.y",
        "a\\b.glsl",
        "c:d.glsl",
        "//server/share/e.glsl",
    ] {
        let camino_path = camino::Utf8Path::new(path);
        assert_eq!(
            file_stem(path),
            camino_path.file_stem().map(text),
            "{path}"
        );
        for extension in ["glsl", "gz", "", "x", "y"] {
            assert_eq!(
                has_extension(path, extension),
                camino_path.extension() == Some(extension),
                "{path} {extension}"
            );
        }
    }
}

#[test]
fn permutations_of_a_configuration() {
    let files = vec![text("src/ffx_fsr3_rcas_pass.glsl"), text("src/b.glsl")];
    let permutations =
        generate_permutations_for_config(&files, &config(), &text("out/fsr3")).unwrap();
    assert_eq!(permutations.len(), 2 * 8);
    assert_eq!(permutations[0].permutation_id, "ffx_fsr3_rcas_pass_0_0_0");
    assert_eq!(permutations[3].permutation_id, "ffx_fsr3_rcas_pass_0_2_1");
    assert_eq!(permutations[15].permutation_id, "b_1_2_1");
    assert_eq!(permutations[15].shader_file, "src/b.glsl");
    assert_eq!(permutations[15].output_directory, "out/fsr3");
    assert_eq!(
        permutations[3].defines,
        vec![
            (text("FFX_GPU"), text("1")),
            (text("FFX_STAGE"), text("compute")),
            (text("FFX_HALF"), text("0")),
            (text("FFX_WGPU_FORMAT_PROFILE"), text("2")),
            (text("FFX_APPLY_SHARPENING"), text("1")),
        ]
    );
    assert!(generate_permutations_for_config(&vec![text("..")], &config(), &text("o")).is_none());

    let given = permutations_with_stems(&vec![text("x")], &vec![text("stem")], &config(), &text("o"));
    assert_eq!(given[7].permutation_id, "stem_1_2_1");
}

#[test]
fn identifiers_differ() {
    let files = vec![text("src/a.glsl")];
    let permutations = generate_permutations_for_config(&files, &config(), &text("o")).unwrap();
    for (i, a) in permutations.iter().enumerate() {
        for (j, b) in permutations.iter().enumerate() {
            assert_eq!(a.permutation_id == b.permutation_id, i == j);
        }
    }

    // Values with underscores can run into each other
    let mut ambiguous = config();
    ambiguous.permutations = vec![
        (
            text("A"),
            PermutationSpec::Values(vec![
                DefineValue::Text(text("x")),
                DefineValue::Text(text("x_y")),
            ]),
        ),
        (
            text("B"),
            PermutationSpec::Values(vec![
                DefineValue::Text(text("y_z")),
                DefineValue::Text(text("z")),
            ]),
        ),
    ];
    ambiguous.field_permutations = Vec::new();
    let permutations = generate_permutations_for_config(&files, &ambiguous, &text("o")).unwrap();
    assert_eq!(permutations[0].permutation_id, "a_x_y_z");
    assert_eq!(permutations[3].permutation_id, "a_x_y_z");
}

#[test]
fn arguments_of_the_compiler() {
    let files = vec![text("src/a.glsl")];
    let permutations = generate_permutations_for_config(&files, &config(), &text("o")).unwrap();
    assert_eq!(
        compiler_arguments("headers", &permutations[1]),
        vec![
            "--target-env=vulkan1.2",
            "-Iheaders",
            "-DFFX_GPU=1",
            "-DFFX_STAGE=compute",
            "-DFFX_HALF=0",
            "-DFFX_WGPU_FORMAT_PROFILE=0",
            "-DFFX_APPLY_SHARPENING=1",
            "-fshader-stage=comp",
            "-O",
            "src/a.glsl",
            "-o",
            "-",
        ]
    );
}

#[test]
fn compiled_shaders_are_named_by_their_hash() {
    let compiled = result("a", "a_0", 0x0123_4567_89ab_cdef, 10);
    assert_eq!(compiled.content_hash, "0123456789abcdef");
    assert_eq!(compiled.file_name, "a_01234567.spv");
    assert_eq!(compiled.shader_name, "a");
    assert_eq!(compiled.output_directory, "out/fsr3upscaler");
    assert_eq!(compiled.size_bytes, 10);
}

#[test]
fn recorded_compilations() {
    let permutation = ShaderPermutation {
        shader_file: text("src/a.glsl"),
        permutation_id: text("a_0"),
        defines: Vec::new(),
        output_directory: text("out"),
    };
    let one = record_compilation(&permutation, &vec![1, 2, 3]).unwrap();
    let same = record_compilation(&permutation, &vec![1, 2, 3]).unwrap();
    let other = record_compilation(&permutation, &vec![1, 2, 4]).unwrap();
    assert_eq!(one.content_hash, same.content_hash);
    assert_ne!(one.content_hash, other.content_hash);
    assert_eq!(one.content_hash.len(), 16);
    assert_eq!(one.size_bytes, 3);
    assert_eq!(one.shader_name, "a");
    assert!(one.file_name.starts_with("a_") && one.file_name.ends_with(".spv"));

    let mut hasher = DefaultHasher::new();
    let bytes: Vec<u8> = vec![1, 2, 3];
    bytes.hash(&mut hasher);
    assert_eq!(one.content_hash, format!("{:016x}", hasher.finish()));
}

#[test]
fn duplicates_are_counted() {
    let results = vec![
        result("a", "a_0", 1, 100),
        result("a", "a_1", 2, 50),
        result("b", "b_0", 1, 100),
        result("b", "b_1", 1, 100),
    ];
    assert_eq!(
        analyze_deduplication(&results),
        DeduplicationInfo {
            unique_hashes: 2,
            duplicates_eliminated: 2,
            duplicate_bytes: 200,
        }
    );
    assert_eq!(
        analyze_deduplication(&Vec::new()),
        DeduplicationInfo {
            unique_hashes: 0,
            duplicates_eliminated: 0,
            duplicate_bytes: 0,
        }
    );
}

#[test]
fn different_shaders_save_nothing() {
    let results = vec![result("a", "a_0", 1, 100), result("a", "a_1", 2, 50)];
    let info = analyze_deduplication(&results);
    assert_eq!(info.unique_hashes, 2);
    assert_eq!(info.duplicate_bytes, 0);
}

#[test]
fn results_belong_to_a_directory() {
    let mut results = vec![result("a", "a_0", 1, 1), result("b", "b_0", 2, 1)];
    results[1].output_directory = text("out/fsr3");
    let relevant = relevant_results(&results, "out/fsr3upscaler");
    assert_eq!(relevant.len(), 1);
    assert_eq!(relevant[0].shader_name, "a");
    assert_eq!(relevant_results(&results, "out").len(), 2);
    assert_eq!(relevant_results(&results, "out/fsr").len(), 0);

    // The path of the result itself is a directory that it belongs to
    let path = format!("out/fsr3/{}", results[1].file_name);
    assert_eq!(relevant_results(&results, &path).len(), 1);
    assert_eq!(relevant_results(&results, "").len(), 2);

    results[1].output_directory = text("shaders\\fsr3");
    let relevant = relevant_results(&results, "shaders\\fsr3");
    assert_eq!(relevant.len(), 1);
    assert_eq!(relevant[0].shader_name, "b");
}

#[test]
fn directories_are_compared_by_components() {
    let mut results = vec![result("a", "a_0", 1, 1)];
    for (directory, base, below) in [
        ("out", "out", true),
        ("out/", "out", true),
        ("out", "out/", true),
        ("out//fsr3", "out/fsr3", true),
        ("out/./fsr3", "out/fsr3", true),
        ("out/fsr3", "./out", false),
        ("./out/fsr3", "./out", true),
        ("./out/fsr3", "out", false),
        ("/out", "/", true),
        ("/out", "out", false),
        ("out", "/", false),
        ("out/fsr3upscaler", "out/fsr3", false),
        ("out", "out/fsr3", false),
        ("out/..", "out", true),
        ("", "", true),
        ("", ".", false),
        ("out", "", true),
    ] {
        results[0].output_directory = text(directory);
        let path = camino::Utf8Path::new(directory).join(&results[0].file_name);
        assert_eq!(path.starts_with(base), below, "{directory} {base}");
        let expected = if below { 1 } else { 0 };
        assert_eq!(
            relevant_results(&results, base).len(),
            expected,
            "{directory} {base}"
        );
    }
}

#[test]
fn duplicates_that_cannot_be_told() {
    let results = vec![
        result("a", "a_0", 1, usize::MAX),
        result("a", "a_1", 1, usize::MAX),
        result("a", "a_2", 2, usize::MAX),
    ];
    assert!(duplicates_fit(&results));
    assert_eq!(analyze_deduplication(&results).duplicate_bytes, usize::MAX);
    let mut more = results;
    more.push(result("a", "a_3", 1, 1));
    assert!(!duplicates_fit(&more));
}

#[test]
fn names_occur_once() {
    assert!(config().has_distinct_names());
    let mut twice = config();
    twice.base.push((text("FFX_GPU"), DefineValue::Integer(0)));
    assert!(!twice.has_distinct_names());
    let mut twice = config();
    twice.permutations.push((text("FFX_HALF"), toggle()));
    assert!(!twice.has_distinct_names());
    let mut twice = config();
    twice.permutations.push((
        text("FFX_NEW"),
        PermutationSpec::Named(vec![
            (text("A"), DefineValue::Integer(0)),
            (text("A"), DefineValue::Integer(1)),
        ]),
    ));
    assert!(!twice.has_distinct_names());
}

#[test]
fn hashes_are_cut_after_eight_bytes() {
    let mut one = result("a", "a_0_0_0", 1, 1);
    one.content_hash = text("abcdefgh");
    let mut two = result("a", "a_0_0_1", 2, 1);
    two.content_hash = text("\u{e4}\u{f6}\u{fc}\u{df}-rest");
    assert!(hashes_can_be_cut(&vec![&one, &two]));
    let mut short = result("a", "a_0_2_0", 3, 1);
    short.content_hash = text("abcdefg");
    assert!(!hashes_can_be_cut(&vec![&one, &short]));
    short.content_hash = text("abcdefg\u{e4}");
    assert!(!hashes_can_be_cut(&vec![&short]));
    let code = generate_rust_code(&config(), &vec![&one, &two]);
    assert!(code.contains("    SHADER_ABCDEFGH = \"a_00000000.spv\",\n"));
    assert!(code.contains("    SHADER_\u{c4}\u{d6}\u{dc}SS = "));
}

#[test]
fn paths_with_backslashes_keep_their_directory() {
    let files = vec![text("src\\a.glsl")];
    let permutations = generate_permutations_for_config(&files, &config(), &text("o\\p")).unwrap();
    assert_eq!(permutations.len(), 8);
    for permutation in &permutations {
        assert_eq!(permutation.output_directory, "o\\p");
        assert_eq!(permutation.shader_file, "src\\a.glsl");
    }
}

#[test]
fn shader_names_are_sorted() {
    let results = vec![
        result("luma", "1", 1, 1),
        result("accumulate", "2", 2, 1),
        result("luma", "3", 3, 1),
        result("Z", "4", 4, 1),
        result("acc", "5", 5, 1),
    ];
    let references: Vec<&CompilationResult> = results.iter().collect();
    assert_eq!(
        unique_shader_names(&references),
        vec!["Z", "acc", "accumulate", "luma"]
    );
}

#[test]
fn generated_code() {
    let mut small = config();
    small.permutations.remove(1);
    let results = vec![
        result("ffx_fsr3_b_pass", "ffx_fsr3_b_pass_0_0", 0xabcd_ef01_0000_0000, 1),
        result("ffx_fsr3_b_pass", "ffx_fsr3_b_pass_0_1", 0x1111_1111_0000_0000, 1),
        result("ffx_fsr3_a_pass", "ffx_fsr3_a_pass_0_0", 0xabcd_ef01_0000_0000, 1),
        result("ffx_fsr3_a_pass", "ffx_fsr3_a_pass_1_0", 0x2222_2222_0000_0000, 1),
        result("ffx_fsr3_a_pass", "ffx_fsr3_a_pass_1_0", 0x1111_1111_0000_0000, 1),
    ];
    let references: Vec<&CompilationResult> = results.iter().collect();
    let expected = "// Auto-generated by xtask compile-shaders\n\
// DO NOT EDIT MANUALLY\n\
\n\
#[derive(Debug, Clone, Copy, PartialEq, Eq)]\n\
pub enum Half {\n    \
    Off,\n    \
    On,\n\
}\n\
\n\
\n\
#[repr(align(4))]\n\
struct Align4<const N: usize>([u8; N]);\n\
\n\
macro_rules! include_shaders {\n    \
    () => {};\n    \
    ($NAME:ident = $PATH:expr, $($REST:tt)*) => {\n        \
        static $NAME: &'static [u8] = &(Align4::<{include_bytes!($PATH).len()}>(*include_bytes!($PATH)).0);\n        \
        include_shaders!{$($REST)*}\n    \
    };\n\
}\n\
\n\
include_shaders! {\n    \
    SHADER_ABCDEF01 = \"ffx_fsr3_b_pass_abcdef01.spv\",\n    \
    SHADER_11111111 = \"ffx_fsr3_b_pass_11111111.spv\",\n    \
    SHADER_22222222 = \"ffx_fsr3_a_pass_22222222.spv\",\n\
}\n\
\n\
#[derive(Debug, Clone)]\n\
pub struct Shaders {\n    \
    pub a: &'static [u8],\n    \
    pub a_sharpen: &'static [u8],\n    \
    pub b: &'static [u8],\n    \
    pub b_sharpen: &'static [u8],\n\
}\n\
\n\
#[inline(always)]\n\
pub fn choose_shaders(half: Half) -> Shaders {\n    \
    match (half) {\n        \
        (Half::Off) => Shaders {\n            \
            a: SHADER_ABCDEF01,\n            \
            a_sharpen: &[],\n            \
            b: SHADER_ABCDEF01,\n            \
            b_sharpen: SHADER_11111111,\n        \
        },\n        \
        (Half::On) => Shaders {\n            \
            a: SHADER_11111111,\n            \
            a_sharpen: &[],\n            \
            b: &[],\n            \
            b_sharpen: &[],\n        \
        },\n    \
    }\n\
}\n";
    assert_eq!(generate_rust_code(&small, &references), expected);
}

#[test]
fn generated_code_separates_parameters() {
    let code = generate_rust_code(&config(), &Vec::new());
    assert!(code.contains(
        "pub fn choose_shaders(half: Half, wgpu_format_profile: WgpuFormatProfile) -> Shaders {\n    match (half, wgpu_format_profile) {\n        (Half::Off, WgpuFormatProfile::Core) => Shaders {\n        },\n"
    ));
    assert!(code.ends_with("        },\n    }\n}\n"));
}

#[test]
fn generated_code_finds_every_permutation() {
    let files = vec![text("src/ffx_fsr3_rcas_pass.glsl")];
    let permutations = generate_permutations_for_config(&files, &config(), &text("o")).unwrap();
    let mut results = Vec::new();
    for (i, permutation) in permutations.iter().enumerate() {
        results.push(compilation_result(
            permutation,
            text("ffx_fsr3_rcas_pass"),
            (i as u64 + 1) << 32,
            4,
        ));
    }
    let references: Vec<&CompilationResult> = results.iter().collect();
    let code = generate_rust_code(&config(), &references);
    assert!(!code.contains("&[]"));
    for i in 0..8 {
        assert!(code.contains(&format!(": SHADER_{:08X},", i + 1)));
    }
}

#[test]
fn tasks_of_the_build_tool() {
    assert_eq!(select_task(""), Task::Help);
    assert_eq!(select_task("compile-shaders"), Task::CompileShaders);
    assert_eq!(select_task("install-warp"), Task::InstallWarp);
    assert_eq!(select_task("vendor"), Task::Vendor);
    assert_eq!(select_task("clone"), Task::Unknown);
}

#[test]
fn fetching_step_by_step() {
    let mut step = first_step();
    let mut steps = 0;
    while step != SdkStep::Done {
        step = next_step(step, SdkOutcome::Yes).unwrap();
        steps += 1;
    }
    assert_eq!(steps, 10);
    assert_eq!(
        next_step(SdkStep::FindOldSources, SdkOutcome::No),
        Ok(SdkStep::ProbeExtractor)
    );
    assert_eq!(next_step(SdkStep::FindLeftover, SdkOutcome::No), Ok(SdkStep::Done));
    assert_eq!(
        next_step(SdkStep::ProbeDownloader, SdkOutcome::No),
        Ok(SdkStep::Download)
    );
}

#[test]
fn fetching_fails() {
    let failures = [
        (SdkStep::ProbeDownloader, SdkOutcome::NotRun, SdkError::DownloaderMissing),
        (SdkStep::Download, SdkOutcome::NotRun, SdkError::DownloaderNotRun),
        (SdkStep::Download, SdkOutcome::No, SdkError::DownloadFailed),
        (SdkStep::FindArchive, SdkOutcome::No, SdkError::ArchiveMissing),
        (SdkStep::RemoveOldSources, SdkOutcome::No, SdkError::OldSourcesNotRemoved),
        (SdkStep::ProbeExtractor, SdkOutcome::NotRun, SdkError::ExtractorMissing),
        (SdkStep::Extract, SdkOutcome::NotRun, SdkError::ExtractorNotRun),
        (SdkStep::Extract, SdkOutcome::No, SdkError::ExtractionFailed),
        (SdkStep::FindSources, SdkOutcome::No, SdkError::SourcesMissing),
        (SdkStep::RemoveLeftover, SdkOutcome::No, SdkError::LeftoverNotRemoved),
    ];
    for (step, outcome, error) in failures {
        assert_eq!(next_step(step, outcome), Err(error));
    }
}

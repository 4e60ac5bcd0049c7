//! Compiling permutations, and duplicates among the results.

use crate::shader_build::index_map::{
    count_keys,
    entry_or_insert,
    has_key,
    map_entries,
    new_map,
};
use crate::shader_build::paths::{
    begins_with,
    ends_in_name,
    file_stem,
    is_file_name,
    is_portable,
    is_start_test,
    is_stem,
    join_file,
    joined_path,
    joins_to,
    last_component,
    law_last_component_is_file_name,
    names_no_server,
    portable_stem,
    starts_with,
    stem_of,
};
use crate::shader_build::permutations::ShaderPermutation;
use crate::text::{hex, hex_char, hex_text, hex_value, law_hex_reads_back};
use std::hash::{BuildHasher, BuildHasherDefault, DefaultHasher};
use vstd::prelude::*;
use vstd::string::{StrSliceExecFns, StringExecFns};

verus! {

/// How many digits of a hash go into file and variable names.
pub const HASH_TRUNCATE_LEN: usize = 8;

/// A compiled permutation.
#[derive(Debug)]
pub struct CompilationResult {
    /// The stem of the source file.
    pub shader_name: String,
    /// What tells the permutation from all others.
    pub permutation_id: String,
    /// A hash of the compiled shader: sixteen hexadecimal digits.
    pub content_hash: String,
    /// The directory that the compiled shader lies in.
    pub output_directory: String,
    /// Its file name there.
    pub file_name: String,
    /// Its size.
    pub size_bytes: usize,
}

/// How much duplicates take up.
#[derive(Debug, Clone, Copy, PartialEq, Eq, Structural)]
pub struct DeduplicationInfo {
    /// Different shaders.
    pub unique_hashes: usize,
    /// Shaders that are the same as one before them.
    pub duplicates_eliminated: usize,
    /// Bytes of those.
    pub duplicate_bytes: usize,
}

/// Whether a text is a hash: sixteen hexadecimal digits in lower case.
pub open spec fn is_hash(text: Seq<char>) -> bool {
    &&& text.len() == 16
    &&& forall|i: int|
        0 <= i < text.len() ==> {
            let c = #[trigger] text[i];
            '0' <= c <= '9' || 'a' <= c <= 'f'
        }
}

/// The arguments that the compiler gets for a permutation.
pub open spec fn argument_texts(
    header_directory: Seq<char>,
    shader_file: Seq<char>,
    defines: Seq<(String, String)>,
) -> Seq<Seq<char>> {
    seq!["--target-env=vulkan1.2"@, "-I"@ + header_directory] + Seq::new(
        defines.len(),
        |i: int| "-D"@ + defines[i].0@ + "="@ + defines[i].1@,
    ) + seq!["-fshader-stage=comp"@, "-O"@, shader_file, "-o"@, "-"@]
}

/// The arguments that the compiler gets for a permutation.
pub fn compiler_arguments(header_directory: &str, permutation: &ShaderPermutation) -> (result: Vec<
    String,
>)
    ensures
        crate::text::texts(result@) == argument_texts(
            header_directory@,
            permutation.shader_file@,
            permutation.defines@,
        ),
{
    let mut arguments: Vec<String> = Vec::new();
    arguments.push("--target-env=vulkan1.2".to_owned());
    let mut headers = "-I".to_owned();
    headers.append(header_directory);
    arguments.push(headers);
    let mut i: usize = 0;
    while i < permutation.defines.len()
        invariant
            i <= permutation.defines@.len(),
            arguments@.len() == i + 2,
            arguments@[0]@ == "--target-env=vulkan1.2"@,
            arguments@[1]@ == "-I"@ + header_directory@,
            forall|k: int|
                2 <= k < arguments@.len() ==> (#[trigger] arguments@[k])@ == "-D"@
                    + permutation.defines@[k - 2].0@ + "="@ + permutation.defines@[k - 2].1@,
        decreases permutation.defines@.len() - i,
    {
        let mut define = "-D".to_owned();
        define.append(permutation.defines[i].0.as_str());
        define.append("=");
        define.append(permutation.defines[i].1.as_str());
        arguments.push(define);
        i = i + 1;
    }
    arguments.push("-fshader-stage=comp".to_owned());
    arguments.push("-O".to_owned());
    arguments.push(permutation.shader_file.clone());
    arguments.push("-o".to_owned());
    arguments.push("-".to_owned());
    assert(crate::text::texts(arguments@) =~= argument_texts(
        header_directory@,
        permutation.shader_file@,
        permutation.defines@,
    ));
    arguments
}

/// Whether some machine's default hasher gives this hash of some bytes.
pub uninterp spec fn hashes_to(bytes: Seq<u8>, hash: u64) -> bool;

/// `std::hash::BuildHasher::hash_one` with the default hasher: a hash of some bytes.
///
/// Which hash that is depends on the standard library and on the machine's word size besides the
/// bytes, and is left open.
#[verifier::external_body]
fn hash_bytes(bytes: &Vec<u8>) -> (result: u64)
    ensures
        hashes_to(bytes@, result),
{
    BuildHasherDefault::<DefaultHasher>::default().hash_one(bytes)
}

/// The name of the file that a compiled shader goes to.
pub open spec fn spv_name(shader_name: Seq<char>, content_hash: Seq<char>) -> Seq<char> {
    shader_name + "_"@ + content_hash.take(8) + ".spv"@
}

impl CompilationResult {
    /// Whether this is the result for a permutation of a file with the given stem, where the
    /// compiled shader has the given hash and size.
    pub open spec fn is_result(
        self,
        permutation: ShaderPermutation,
        stem: Seq<char>,
        hash: u64,
        size: int,
    ) -> bool {
        &&& self.shader_name@ == stem
        &&& self.permutation_id@ == permutation.permutation_id@
        &&& self.content_hash@ == hex_text(hash as nat, 16)
        &&& self.output_directory@ == permutation.output_directory@
        &&& self.file_name@ == spv_name(stem, hex_text(hash as nat, 16))
        &&& self.size_bytes == size
    }

    /// Whether this is the result for a permutation whose compiled shader is given.
    pub open spec fn records(self, permutation: ShaderPermutation, spirv: Seq<u8>) -> bool {
        exists|hash: u64| #[trigger]
            hashes_to(spirv, hash) && self.is_result(
                permutation,
                self.shader_name@,
                hash,
                spirv.len() as int,
            )
    }

    /// The path of the compiled shader, where its directory is portable: the separator before its
    /// name may be another, which makes no difference to the components.
    pub open spec fn portable_path(self) -> Seq<char> {
        joined_path(self.output_directory@, self.file_name@)
    }

    /// Whether this is what some system says of the compiled shader lying below a directory.
    pub open spec fn is_below_test(self, directory: Seq<char>, answer: bool) -> bool {
        exists|path: Seq<char>| #[trigger]
            joins_to(self.output_directory@, self.file_name@, path) && is_start_test(
                path,
                directory,
                answer,
            )
    }
}

/// The result for a permutation of a file with the given stem, where the compiled shader has the
/// given hash and size.
pub fn compilation_result(
    permutation: &ShaderPermutation,
    stem: String,
    hash: u64,
    size_bytes: usize,
) -> (result: CompilationResult)
    ensures
        result.is_result(*permutation, stem@, hash, size_bytes as int),
        is_hash(result.content_hash@),
{
    let content_hash = hex(hash, 16);
    proof {
        lemma_hex_text(hash as nat, 16);
        assert(content_hash@.subrange(0, 8) =~= content_hash@.take(8));
    }
    let mut file_name = stem.clone();
    file_name.append("_");
    file_name.append(content_hash.as_str().substring_char(0, HASH_TRUNCATE_LEN));
    file_name.append(".spv");
    CompilationResult {
        shader_name: stem,
        permutation_id: permutation.permutation_id.clone(),
        content_hash,
        output_directory: permutation.output_directory.clone(),
        file_name,
        size_bytes,
    }
}

/// The result for a permutation whose compiled shader is given, or nothing where the source
/// file's path has no file name.
pub fn record_compilation(permutation: &ShaderPermutation, spirv: &Vec<u8>) -> (result: Option<
    CompilationResult,
>)
    ensures
        is_portable(permutation.shader_file@) ==> (result is Some <==> portable_stem(
            permutation.shader_file@,
        ) is Some),
        is_portable(permutation.shader_file@) && ends_in_name(permutation.shader_file@) ==> result
            is Some && result->0.shader_name@ == stem_of(last_component(permutation.shader_file@)),
        match result {
            Some(compiled) => {
                &&& is_stem(permutation.shader_file@, Some(compiled.shader_name@))
                &&& is_hash(compiled.content_hash@)
                &&& compiled.records(*permutation, spirv@)
            },
            None => is_stem(permutation.shader_file@, None),
        },
{
    proof {
        if ends_in_name(permutation.shader_file@) {
            law_last_component_is_file_name(permutation.shader_file@);
        }
    }
    match file_stem(permutation.shader_file.as_str()) {
        Some(stem) => {
            let hash: u64 = hash_bytes(spirv);
            let compiled = compilation_result(permutation, stem, hash, spirv.len());
            assert(hashes_to(spirv@, hash) && compiled.is_result(
                *permutation,
                compiled.shader_name@,
                hash,
                spirv@.len() as int,
            ));
            Some(compiled)
        },
        None => None,
    }
}

/// Hexadecimal digits of a number.
proof fn lemma_hex_text(n: nat, len: nat)
    ensures
        hex_text(n, len).len() == len,
        forall|i: int|
            0 <= i < len ==> {
                let c = #[trigger] hex_text(n, len)[i];
                '0' <= c <= '9' || 'a' <= c <= 'f'
            },
    decreases len,
{
    if len > 0 {
        lemma_hex_text(n / 16, (len - 1) as nat);
        let d = n % 16;
        assert('0' <= hex_char(d) <= '9' || 'a' <= hex_char(d) <= 'f');
    }
}

/// The hashes of several results.
pub open spec fn hashes(results: Seq<CompilationResult>) -> Seq<Seq<char>> {
    Seq::new(results.len(), |i: int| results[i].content_hash@)
}

/// How many different texts there are.
pub open spec fn unique_count(all: Seq<Seq<char>>) -> nat
    decreases all.len(),
{
    if all.len() == 0 {
        0
    } else if all.drop_last().contains(all.last()) {
        unique_count(all.drop_last())
    } else {
        unique_count(all.drop_last()) + 1
    }
}

/// The bytes of the results whose hash occurs before them.
pub open spec fn duplicate_size(results: Seq<CompilationResult>) -> nat
    decreases results.len(),
{
    if results.len() == 0 {
        0
    } else if hashes(results.drop_last()).contains(results.last().content_hash@) {
        duplicate_size(results.drop_last()) + results.last().size_bytes as nat
    } else {
        duplicate_size(results.drop_last())
    }
}

/// How many different hashes there are, and the bytes of the duplicates.
fn count_duplicates(results: &Vec<CompilationResult>) -> (result: (usize, u128))
    ensures
        result.0 == unique_count(hashes(results@)),
        result.0 <= results@.len(),
        result.1 == duplicate_size(results@),
{
    let mut groups = new_map();
    let mut duplicate_bytes: u128 = 0;
    let _count: usize = results.len();
    let mut i: usize = 0;
    let ghost mut seen: Seq<Seq<char>> = Seq::empty();
    assert(hashes(results@.take(0)) =~= seen);
    while i < results.len()
        invariant
            i <= results@.len() <= usize::MAX,
            duplicate_bytes <= i * 0xffff_ffff_ffff_ffff,
            seen == hashes(results@.take(i as int)),
            seen.len() == i,
            duplicate_bytes == duplicate_size(results@.take(i as int)),
            map_entries(groups).len() == unique_count(seen),
            unique_count(seen) <= i,
            forall|key: Seq<char>| #[trigger] has_key(map_entries(groups), key) ==> seen.contains(key),
            forall|key: Seq<char>| #[trigger] seen.contains(key) ==> has_key(map_entries(groups), key),
            forall|k: int| 0 <= k < map_entries(groups).len() ==> (#[trigger] map_entries(groups)[k]).1 < i,
        decreases results@.len() - i,
    {
        let ghost hash = results@[i as int].content_hash@;
        let ghost entries = map_entries(groups);
        let ghost longer = seen.push(hash);
        proof {
            let prefix = results@.take(i + 1);
            assert(prefix.drop_last() =~= results@.take(i as int));
            assert(hashes(prefix) =~= longer);
            assert(longer.drop_last() =~= seen);
        }
        let first: usize = entry_or_insert(&mut groups, results[i].content_hash.clone(), i);
        proof {
            assert(has_key(entries, hash) == seen.contains(hash));
            if !seen.contains(hash) {
                assert(map_entries(groups)[entries.len() as int].0 == hash);
                assert forall|key: Seq<char>| #[trigger] has_key(map_entries(groups), key) implies longer.contains(key) by {
                    let k = choose|k: int| 0 <= k < map_entries(groups).len() && (#[trigger] map_entries(groups)[k]).0 == key;
                    if k < entries.len() {
                        assert(entries[k].0 == key);
                        assert(has_key(entries, key));
                        lemma_contains_push(seen, hash, key);
                    } else {
                        assert(longer[i as int] == hash);
                    }
                }
            } else {
                let k = choose|k: int| 0 <= k < entries.len() && entries[k] == (hash, first);
                assert(entries.contains((hash, first)));
                assert(entries[k].1 < i);
            }
            assert forall|key: Seq<char>| #[trigger] longer.contains(key) implies has_key(map_entries(groups), key) by {
                if key != hash {
                    lemma_contains_push(seen, hash, key);
                    let k = choose|k: int| 0 <= k < entries.len() && (#[trigger] entries[k]).0 == key;
                    assert(map_entries(groups)[k].0 == key);
                }
            }
            assert forall|key: Seq<char>| #[trigger] has_key(map_entries(groups), key) implies longer.contains(key) by {
                if seen.contains(key) {
                    lemma_contains_push(seen, hash, key);
                }
            }
            seen = longer;
        }
        if first != i {
            duplicate_bytes = duplicate_bytes + results[i].size_bytes as u128;
        }
        i = i + 1;
    }
    assert(results@.take(i as int) =~= results@);
    (count_keys(&groups), duplicate_bytes)
}

/// Whether the bytes of the duplicates can be told.
pub fn duplicates_fit(results: &Vec<CompilationResult>) -> (result: bool)
    ensures
        result == (duplicate_size(results@) <= usize::MAX),
{
    count_duplicates(results).1 <= usize::MAX as u128
}

/// How much duplicates take up.
pub fn analyze_deduplication(results: &Vec<CompilationResult>) -> (result: DeduplicationInfo)
    requires
        duplicate_size(results@) <= usize::MAX,
    ensures
        result.unique_hashes == unique_count(hashes(results@)),
        result.duplicates_eliminated == results@.len() - unique_count(hashes(results@)),
        result.duplicate_bytes == duplicate_size(results@),
{
    let (unique_hashes, duplicate_bytes) = count_duplicates(results);
    DeduplicationInfo {
        unique_hashes,
        duplicates_eliminated: results.len() - unique_hashes,
        duplicate_bytes: duplicate_bytes as usize,
    }
}

/// What a longer sequence contains.
proof fn lemma_contains_push(all: Seq<Seq<char>>, last: Seq<char>, key: Seq<char>)
    ensures
        all.push(last).contains(key) <==> all.contains(key) || key == last,
{
    let longer = all.push(last);
    if all.contains(key) {
        let k = choose|k: int| 0 <= k < all.len() && all[k] == key;
        assert(longer[k] == key);
    }
    if key == last {
        assert(longer[all.len() as int] == key);
    }
    if longer.contains(key) && key != last {
        let k = choose|k: int| 0 <= k < longer.len() && longer[k] == key;
        assert(all[k] == key);
    }
}

/// Where all shaders are different, nothing is saved.
pub proof fn law_no_duplicates(results: Seq<CompilationResult>)
    requires
        hashes(results).no_duplicates(),
    ensures
        unique_count(hashes(results)) == results.len(),
        duplicate_size(results) == 0,
    decreases results.len(),
{
    if results.len() > 0 {
        let all = hashes(results);
        let rest = results.drop_last();
        assert(hashes(rest) =~= all.drop_last());
        assert forall|i: int, j: int| 0 <= i < j < hashes(rest).len() implies #[trigger] hashes(rest)[i]
            != #[trigger] hashes(rest)[j] by {
            assert(all[i] != all[j]);
        }
        law_no_duplicates(rest);
        if hashes(rest).contains(all.last()) {
            let k = choose|k: int| 0 <= k < hashes(rest).len() && hashes(rest)[k] == all.last();
            assert(all[k] == all[results.len() - 1]);
        }
    }
}

/// Whether a result belongs to a directory: its path starts with the directory's.
pub open spec fn belongs_to(directory: Seq<char>) -> spec_fn(CompilationResult) -> bool {
    |result: CompilationResult| begins_with(result.portable_path(), directory)
}

/// The results that several references point to.
pub open spec fn pointed(references: Seq<&CompilationResult>) -> Seq<CompilationResult> {
    Seq::new(references.len(), |i: int| *references[i])
}

/// The results that are kept, in order.
pub open spec fn selected(results: Seq<CompilationResult>, kept: Seq<bool>) -> Seq<
    CompilationResult,
>
    decreases results.len(),
{
    if results.len() == 0 {
        Seq::empty()
    } else if kept[results.len() - 1] {
        selected(results.drop_last(), kept).push(results.last())
    } else {
        selected(results.drop_last(), kept)
    }
}

/// Whether each result is kept where a system says that it lies below the directory.
pub open spec fn is_selection(
    results: Seq<CompilationResult>,
    directory: Seq<char>,
    kept: Seq<bool>,
) -> bool {
    &&& kept.len() == results.len()
    &&& forall|i: int|
        0 <= i < results.len() ==> (#[trigger] results[i]).is_below_test(directory, kept[i])
}

/// Only the choices about given results matter.
proof fn lemma_selected_prefix(results: Seq<CompilationResult>, kept: Seq<bool>, more: bool)
    requires
        results.len() <= kept.len(),
    ensures
        selected(results, kept.push(more)) == selected(results, kept),
    decreases results.len(),
{
    if results.len() > 0 {
        lemma_selected_prefix(results.drop_last(), kept, more);
    }
}

/// Whether every path has the same components on all systems.
pub open spec fn all_portable(results: Seq<CompilationResult>, directory: Seq<char>) -> bool {
    &&& is_portable(directory)
    &&& forall|i: int|
        0 <= i < results.len() ==> is_portable((#[trigger] results[i]).output_directory@)
            && is_file_name(results[i].file_name@)
}

/// Whether a result lies in the given directory itself, under a plain name.
pub open spec fn lies_in(result: CompilationResult, directory: Seq<char>) -> bool {
    &&& result.output_directory@ == directory
    &&& is_file_name(result.file_name@)
    &&& names_no_server(directory)
}

/// The results that belong to a directory, in order.
pub fn relevant_results<'a>(results: &'a Vec<CompilationResult>, directory: &str) -> (relevant: Vec<
    &'a CompilationResult,
>)
    ensures
        exists|kept: Seq<bool>| #[trigger]
            is_selection(results@, directory@, kept) && pointed(relevant@) == selected(
                results@,
                kept,
            ),
        all_portable(results@, directory@) ==> pointed(relevant@) == results@.filter(
            belongs_to(directory@),
        ),
        forall|i: int|
            0 <= i < results@.len() && lies_in(#[trigger] results@[i], directory@) ==> pointed(
                relevant@,
            ).contains(results@[i]),
        (forall|i: int| 0 <= i < results@.len() ==> lies_in(#[trigger] results@[i], directory@))
            ==> pointed(relevant@) == results@,
{
    let mut relevant: Vec<&'a CompilationResult> = Vec::new();
    let ghost portable = all_portable(results@, directory@);
    let ghost same = forall|i: int|
        0 <= i < results@.len() ==> lies_in(#[trigger] results@[i], directory@);
    let ghost mut kept: Seq<bool> = Seq::empty();
    let mut i: usize = 0;
    proof {
        reveal(Seq::filter);
        assert(results@.take(0).filter(belongs_to(directory@)) =~= Seq::empty());
        assert(pointed(relevant@) =~= Seq::empty());
        assert(results@.take(0) =~= Seq::empty());
    }
    while i < results.len()
        invariant
            i <= results@.len(),
            portable == all_portable(results@, directory@),
            same == (forall|i: int|
                0 <= i < results@.len() ==> lies_in(#[trigger] results@[i], directory@)),
            is_selection(results@.take(i as int), directory@, kept),
            pointed(relevant@) == selected(results@.take(i as int), kept),
            portable ==> pointed(relevant@) == results@.take(i as int).filter(
                belongs_to(directory@),
            ),
            forall|k: int|
                0 <= k < i && lies_in(#[trigger] results@[k], directory@) ==> pointed(
                    relevant@,
                ).contains(results@[k]),
            same ==> pointed(relevant@) == results@.take(i as int),
        decreases results@.len() - i,
    {
        let ghost before = pointed(relevant@);
        let ghost prefix = results@.take(i + 1);
        let ghost earlier = kept;
        proof {
            reveal(Seq::filter);
            assert(prefix.drop_last() =~= results@.take(i as int));
            assert(prefix.last() == results@[i as int]);
        }
        let path = join_file(results[i].output_directory.as_str(), results[i].file_name.as_str());
        let keep: bool = starts_with(path.as_str(), directory);
        proof {
            let result = results@[i as int];
            assert(joins_to(result.output_directory@, result.file_name@, path@));
            assert(is_start_test(path@, directory@, keep));
            assert(result.is_below_test(directory@, keep));
            if lies_in(result, directory@) {
                assert(keep);
            }
            kept = earlier.push(keep);
            lemma_selected_prefix(results@.take(i as int), earlier, keep);
            assert forall|k: int| 0 <= k < prefix.len() implies (#[trigger] prefix[k]).is_below_test(
                directory@,
                kept[k],
            ) by {
                if k < i {
                    assert(prefix[k] == results@.take(i as int)[k]);
                }
            }
        }
        if keep {
            relevant.push(&results[i]);
            proof {
                assert(pointed(relevant@) =~= before.push(results@[i as int]));
                assert(results@.take(i as int).push(results@[i as int]) =~= prefix);
                assert(pointed(relevant@)[before.len() as int] == results@[i as int]);
                assert forall|k: int| 0 <= k < i && lies_in(#[trigger] results@[k], directory@)
                    implies pointed(relevant@).contains(results@[k]) by {
                    let j = choose|j: int| 0 <= j < before.len() && before[j] == results@[k];
                    assert(before.contains(results@[k]));
                    assert(pointed(relevant@)[j] == results@[k]);
                }
            }
        }
        i = i + 1;
    }
    assert(results@.take(i as int) =~= results@);
    relevant
}

/// What the compiler is told: the target first, then where headers are, every option with its
/// value in order, and last to optimize a compute shader from the source file to the standard
/// output.
pub proof fn law_arguments(
    header_directory: Seq<char>,
    shader_file: Seq<char>,
    defines: Seq<(String, String)>,
    k: int,
)
    ensures
        ({
            let arguments = argument_texts(header_directory, shader_file, defines);
            let n = defines.len() as int;
            &&& arguments.len() == n + 7
            &&& arguments[0] == "--target-env=vulkan1.2"@
            &&& arguments[1] == "-I"@ + header_directory
            &&& 0 <= k < n ==> arguments[2 + k] == "-D"@ + defines[k].0@ + "="@ + defines[k].1@
            &&& arguments[n + 2] == "-fshader-stage=comp"@
            &&& arguments[n + 3] == "-O"@
            &&& arguments[n + 4] == shader_file
            &&& arguments[n + 5] == "-o"@
            &&& arguments[n + 6] == "-"@
        }),
{
}

/// The hash of a result can be read as a number, its first eight digits stand in the file name
/// between the shader's name and the extension, and everything else is the permutation's.
pub proof fn law_result_names(
    result: CompilationResult,
    permutation: ShaderPermutation,
    stem: Seq<char>,
    hash: u64,
    size: int,
)
    requires
        result.is_result(permutation, stem, hash, size),
    ensures
        result.shader_name@ == stem,
        result.permutation_id@ == permutation.permutation_id@,
        result.output_directory@ == permutation.output_directory@,
        result.size_bytes == size,
        result.content_hash@.len() == 16,
        hex_value(result.content_hash@) == hash,
        result.file_name@.len() == stem.len() + 1 + 8 + 4,
        result.file_name@.take(stem.len() as int) == stem,
        result.file_name@[stem.len() as int] == '_',
        result.file_name@.subrange(stem.len() as int + 1, stem.len() as int + 9) == result.content_hash@.take(8),
        result.file_name@.skip(stem.len() as int + 9) == ".spv"@,
{
    law_hex_reads_back(hash as nat, 16);
    lemma_hex_text(hash as nat, 16);
    vstd::arithmetic::power::lemma_pow0(16);
    reveal_with_fuel(vstd::arithmetic::power::pow, 17);
    assert(vstd::arithmetic::power::pow(16, 16) == 0x1_0000_0000_0000_0000) by {
        vstd::arithmetic::power::lemma_pow_adds(16, 8, 8);
        assert(vstd::arithmetic::power::pow(16, 8) == 0x1_0000_0000);
    }
    vstd::arithmetic::div_mod::lemma_small_mod(hash as nat, 0x1_0000_0000_0000_0000);
    reveal_strlit("_");
    reveal_strlit(".spv");
    let name = result.file_name@;
    let short = result.content_hash@.take(8);
    assert(name == stem + "_"@ + short + ".spv"@);
    assert(name.take(stem.len() as int) =~= stem);
    assert(name.subrange(stem.len() as int + 1, stem.len() as int + 9) =~= short);
    assert(name.skip(stem.len() as int + 9) =~= ".spv"@);
}

/// The number of different texts is the size of the set of texts.
pub proof fn law_unique_count(all: Seq<Seq<char>>)
    ensures
        unique_count(all) == all.to_set().len(),
        all.to_set().finite(),
    decreases all.len(),
{
    if all.len() == 0 {
        assert(all.to_set() =~= Set::empty());
    } else {
        let rest = all.drop_last();
        law_unique_count(rest);
        assert(all =~= rest.push(all.last()));
        assert forall|text: Seq<char>| #[trigger] all.to_set().contains(text)
            <==> rest.to_set().insert(all.last()).contains(text) by {
            lemma_contains_push(rest, all.last(), text);
        }
        assert(all.to_set() =~= rest.to_set().insert(all.last()));
        if rest.contains(all.last()) {
            assert(rest.to_set().contains(all.last()));
            assert(all.to_set() =~= rest.to_set());
        }
    }
}

/// Whether an earlier result has the hash of result `i`.
pub open spec fn is_duplicate(results: Seq<CompilationResult>, i: int) -> bool {
    exists|k: int| 0 <= k < i && (#[trigger] results[k]).content_hash@ == results[i].content_hash@
}

/// The bytes of the first `n` results that are duplicates, or of those that are not.
pub open spec fn bytes_of(results: Seq<CompilationResult>, n: nat, duplicates: bool) -> nat
    decreases n,
{
    if n == 0 {
        0
    } else {
        bytes_of(results, (n - 1) as nat, duplicates) + (if is_duplicate(results, n - 1)
            == duplicates {
            results[n - 1].size_bytes as nat
        } else {
            0
        })
    }
}

/// The bytes of duplicates are those of the results that have the hash of an earlier one.
pub proof fn law_duplicate_bytes(results: Seq<CompilationResult>)
    ensures
        duplicate_size(results) == bytes_of(results, results.len(), true),
    decreases results.len(),
{
    if results.len() > 0 {
        let rest = results.drop_last();
        let n = rest.len();
        law_duplicate_bytes(rest);
        lemma_bytes_of_prefix(results, n);
        let hash = results.last().content_hash@;
        if hashes(rest).contains(hash) {
            let k = choose|k: int| 0 <= k < hashes(rest).len() && hashes(rest)[k] == hash;
            assert(results[k].content_hash@ == hash);
            assert(is_duplicate(results, n as int));
        }
        if is_duplicate(results, n as int) {
            let k = choose|k: int|
                0 <= k < n && (#[trigger] results[k]).content_hash@ == results[n as int].content_hash@;
            assert(hashes(rest)[k] == hash);
        }
    }
}

/// What follows does not change what the first results take.
proof fn lemma_bytes_of_prefix(results: Seq<CompilationResult>, n: nat)
    requires
        n < results.len(),
    ensures
        bytes_of(results, n, true) == bytes_of(results.drop_last(), n, true),
    decreases n,
{
    if n > 0 {
        lemma_bytes_of_prefix(results, (n - 1) as nat);
        let rest = results.drop_last();
        let i = n - 1;
        if is_duplicate(results, i) {
            let k = choose|k: int|
                0 <= k < i && (#[trigger] results[k]).content_hash@ == results[i].content_hash@;
            assert(rest[k].content_hash@ == rest[i].content_hash@);
        }
        if is_duplicate(rest, i) {
            let k = choose|k: int|
                0 <= k < i && (#[trigger] rest[k]).content_hash@ == rest[i].content_hash@;
            assert(results[k].content_hash@ == results[i].content_hash@);
        }
    }
}

/// Whether a result is one of those that are kept.
pub open spec fn is_kept(
    results: Seq<CompilationResult>,
    kept: Seq<bool>,
    result: CompilationResult,
) -> bool {
    exists|i: int| 0 <= i < results.len() && kept[i] && #[trigger] results[i] == result
}

/// Exactly the results that are kept are selected, and all of them where all are kept.
pub proof fn law_selected(results: Seq<CompilationResult>, kept: Seq<bool>)
    requires
        kept.len() == results.len(),
    ensures
        forall|i: int|
            0 <= i < results.len() && kept[i] ==> selected(results, kept).contains(
                #[trigger] results[i],
            ),
        forall|k: int|
            0 <= k < selected(results, kept).len() ==> is_kept(
                results,
                kept,
                #[trigger] selected(results, kept)[k],
            ),
        (forall|i: int| 0 <= i < kept.len() ==> #[trigger] kept[i]) ==> selected(results, kept)
            == results,
    decreases results.len(),
{
    if results.len() > 0 {
        let rest = results.drop_last();
        let n = rest.len() as int;
        let shorter = kept.drop_last();
        law_selected(rest, shorter);
        lemma_selected_prefix(rest, shorter, kept[n]);
        assert(shorter.push(kept[n]) =~= kept);
        let all = selected(results, kept);
        let before = selected(rest, shorter);
        assert(selected(rest, kept) == before);
        assert forall|i: int| 0 <= i < results.len() && kept[i] implies all.contains(
            #[trigger] results[i],
        ) by {
            if i < n {
                assert(rest[i] == results[i]);
                assert(shorter[i]);
                assert(before.contains(rest[i]));
                let k = choose|k: int| 0 <= k < before.len() && before[k] == rest[i];
                assert(all[k] == results[i]);
            } else {
                assert(all[before.len() as int] == results[n]);
            }
        }
        assert forall|k: int| 0 <= k < all.len() implies is_kept(results, kept, #[trigger] all[k]) by {
            if k < before.len() {
                assert(all[k] == before[k]);
                assert(is_kept(rest, shorter, before[k]));
                let i = choose|i: int|
                    0 <= i < rest.len() && shorter[i] && #[trigger] rest[i] == before[k];
                assert(results[i] == all[k] && kept[i]);
            } else {
                assert(results[n] == all[k] && kept[n]);
            }
        }
        if forall|i: int| 0 <= i < kept.len() ==> #[trigger] kept[i] {
            assert forall|i: int| 0 <= i < shorter.len() implies #[trigger] shorter[i] by {
                assert(kept[i]);
            }
            assert(kept[n]);
            assert(all =~= results);
        }
    } else {
        assert(selected(results, kept) =~= results);
    }
}

} // verus!

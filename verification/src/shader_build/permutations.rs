//! The permutations that shaders are compiled in.

use crate::shader_build::config::{
    define_strings,
    define_texts,
    pair_names,
    DefineValue,
    FieldPermutationConfig,
    PermutationSpec,
    ShaderPermutationConfig,
};
use crate::shader_build::paths::{
    ends_in_name,
    file_stem,
    is_portable,
    is_stem,
    last_component,
    law_last_component_is_file_name,
    portable_stem,
    stem_of,
};
use crate::shader_build::product::{
    cartesian_product_indices,
    combination,
    combination_count,
    combinations,
    law_combination_bounds,
    law_combinations_differ,
    rows,
};
use crate::text::{joined, lemma_joined_same, texts};
use vstd::arithmetic::div_mod::lemma_fundamental_div_mod;
use vstd::prelude::*;
use vstd::string::StringExecFns;

verus! {

/// A shader to compile with one choice of options.
#[derive(Debug)]
pub struct ShaderPermutation {
    /// The source file.
    pub shader_file: String,
    /// The file's stem and all values, each after an underscore.
    pub permutation_id: String,
    /// The options with their values.
    pub defines: Vec<(String, String)>,
    /// Where the compiled shader goes.
    pub output_directory: String,
}

/// The texts of several pairs of strings.
pub open spec fn pair_texts(pairs: Seq<(String, String)>) -> Seq<(Seq<char>, Seq<char>)> {
    Seq::new(pairs.len(), |i: int| (pairs[i].0@, pairs[i].1@))
}

/// The texts of several lists of strings.
pub open spec fn tables(lists: Seq<Vec<String>>) -> Seq<Seq<Seq<char>>> {
    Seq::new(lists.len(), |i: int| texts(lists[i]@))
}

/// The names of the options that take several values: first those that the program selects from,
/// then those whose values it gets all.
pub open spec fn option_names(config: ShaderPermutationConfig) -> Seq<Seq<char>> {
    let selected = config.permutations@;
    let fields = config.field_permutations@;
    Seq::new(
        selected.len() + fields.len(),
        |i: int|
            if i < selected.len() {
                selected[i].0@
            } else {
                fields[i - selected.len()].0@
            },
    )
}

/// The values of the options that the program selects from.
pub open spec fn selected_values(permutations: Seq<(String, PermutationSpec)>) -> Seq<
    Seq<Seq<char>>,
> {
    Seq::new(permutations.len(), |i: int| permutations[i].1.value_texts())
}

/// The values of the options whose values the program gets all.
pub open spec fn field_values(fields: Seq<(String, FieldPermutationConfig)>) -> Seq<
    Seq<Seq<char>>,
> {
    Seq::new(fields.len(), |i: int| define_texts(fields[i].1.values@))
}

/// The values of the options that take several.
pub open spec fn option_values(config: ShaderPermutationConfig) -> Seq<Seq<Seq<char>>> {
    selected_values(config.permutations@) + field_values(config.field_permutations@)
}

/// How many values each option has.
pub open spec fn option_sizes(values: Seq<Seq<Seq<char>>>) -> Seq<usize> {
    Seq::new(values.len(), |i: int| values[i].len() as usize)
}

/// The options with one value.
pub open spec fn base_defines(base: Seq<(String, DefineValue)>) -> Seq<(Seq<char>, Seq<char>)> {
    Seq::new(base.len(), |i: int| (base[i].0@, base[i].1.define_text()))
}

/// What option `i` contributes to an identifier.
pub open spec fn id_piece(values: Seq<Seq<Seq<char>>>, combo: Seq<usize>) -> spec_fn(int) -> Seq<
    char,
> {
    |i: int| "_"@ + values[i][combo[i] as int]
}

/// The identifier of a permutation: the stem, and each value after an underscore.
pub open spec fn id_text(
    stem: Seq<char>,
    values: Seq<Seq<Seq<char>>>,
    combo: Seq<usize>,
) -> Seq<char> {
    stem + joined(combo.len(), id_piece(values, combo))
}

/// The options with the values that a combination selects.
pub open spec fn combo_defines(
    names: Seq<Seq<char>>,
    values: Seq<Seq<Seq<char>>>,
    combo: Seq<usize>,
) -> Seq<(Seq<char>, Seq<char>)> {
    Seq::new(combo.len(), |i: int| (names[i], values[i][combo[i] as int]))
}

impl ShaderPermutation {
    /// Whether this is a file's permutation with the values that a combination selects.
    pub open spec fn is_permutation(
        self,
        shader_file: Seq<char>,
        stem: Seq<char>,
        config: ShaderPermutationConfig,
        combo: Seq<usize>,
        output_directory: Seq<char>,
    ) -> bool {
        &&& self.shader_file@ == shader_file
        &&& self.permutation_id@ == id_text(stem, option_values(config), combo)
        &&& pair_texts(self.defines@) == base_defines(config.base@) + combo_defines(
            option_names(config),
            option_values(config),
            combo,
        )
        &&& self.output_directory@ == output_directory
    }
}

/// Whether `result` holds every file in turn, in every combination of the options in turn.
pub open spec fn are_permutations(
    result: Seq<ShaderPermutation>,
    files: Seq<Seq<char>>,
    stems: Seq<Seq<char>>,
    config: ShaderPermutationConfig,
    output_directory: Seq<char>,
) -> bool {
    let sizes = option_sizes(option_values(config));
    let count = combination_count(sizes);
    &&& result.len() == files.len() * count
    &&& forall|f: int, c: int|
        0 <= f < files.len() && 0 <= c < count ==> (#[trigger] result[permutation_number(
            count as int,
            f,
            c,
        )]).is_permutation(files[f], stems[f], config, combination(sizes, c), output_directory)
}

/// The place of file number `f` in combination number `c`.
pub open spec fn permutation_number(count: int, f: int, c: int) -> int {
    f * count + c
}

/// The places of `files` files in `count` combinations are the numbers below their product.
proof fn lemma_number_bounds(count: int, files: int, f: int, c: int)
    requires
        0 <= f < files,
        0 <= c < count,
    ensures
        0 <= permutation_number(count, f, c) < files * count,
{
    assert(0 <= f * count + c < files * count) by (nonlinear_arith)
        requires
            0 <= f < files,
            0 <= c < count,
    ;
}

/// The names of the options that take several values.
fn list_names(config: &ShaderPermutationConfig) -> (result: Vec<String>)
    ensures
        texts(result@) == option_names(*config),
{
    let mut names: Vec<String> = Vec::new();
    let mut i: usize = 0;
    while i < config.permutations.len()
        invariant
            i <= config.permutations@.len(),
            names@.len() == i,
            forall|k: int| 0 <= k < i ==> (#[trigger] names@[k])@ == config.permutations@[k].0@,
        decreases config.permutations@.len() - i,
    {
        names.push(config.permutations[i].0.clone());
        i = i + 1;
    }
    let ghost selected = config.permutations@.len();
    let mut j: usize = 0;
    while j < config.field_permutations.len()
        invariant
            j <= config.field_permutations@.len(),
            selected == config.permutations@.len(),
            names@.len() == selected + j,
            forall|k: int|
                0 <= k < names@.len() ==> (#[trigger] names@[k])@ == (if k < selected {
                    config.permutations@[k].0@
                } else {
                    config.field_permutations@[k - selected].0@
                }),
        decreases config.field_permutations@.len() - j,
    {
        names.push(config.field_permutations[j].0.clone());
        j = j + 1;
    }
    assert(texts(names@) =~= option_names(*config));
    names
}

/// The values of the options that take several.
fn list_values(config: &ShaderPermutationConfig) -> (result: Vec<Vec<String>>)
    ensures
        tables(result@) == option_values(*config),
{
    let mut values: Vec<Vec<String>> = Vec::new();
    let mut i: usize = 0;
    while i < config.permutations.len()
        invariant
            i <= config.permutations@.len(),
            values@.len() == i,
            forall|k: int|
                0 <= k < i ==> texts((#[trigger] values@[k])@)
                    == config.permutations@[k].1.value_texts(),
        decreases config.permutations@.len() - i,
    {
        values.push(config.permutations[i].1.values());
        i = i + 1;
    }
    let ghost selected = config.permutations@.len();
    let mut j: usize = 0;
    while j < config.field_permutations.len()
        invariant
            j <= config.field_permutations@.len(),
            selected == config.permutations@.len(),
            values@.len() == selected + j,
            forall|k: int|
                0 <= k < values@.len() ==> texts((#[trigger] values@[k])@) == (if k < selected {
                    config.permutations@[k].1.value_texts()
                } else {
                    define_texts(config.field_permutations@[k - selected].1.values@)
                }),
        decreases config.field_permutations@.len() - j,
    {
        values.push(define_strings(&config.field_permutations[j].1.values));
        j = j + 1;
    }
    assert(tables(values@) =~= option_values(*config));
    values
}

/// How many values each option has.
fn list_sizes(values: &Vec<Vec<String>>) -> (result: Vec<usize>)
    ensures
        result@ == option_sizes(tables(values@)),
{
    let mut sizes: Vec<usize> = Vec::new();
    let mut i: usize = 0;
    while i < values.len()
        invariant
            i <= values@.len(),
            sizes@.len() == i,
            forall|k: int| 0 <= k < i ==> #[trigger] sizes@[k] == values@[k]@.len(),
        decreases values@.len() - i,
    {
        sizes.push(values[i].len());
        i = i + 1;
    }
    assert(sizes@ =~= option_sizes(tables(values@)));
    sizes
}

/// A file's permutation with the values that a combination selects.
fn one_permutation(
    shader_file: &String,
    stem: &String,
    config: &ShaderPermutationConfig,
    names: &Vec<String>,
    values: &Vec<Vec<String>>,
    combo: &Vec<usize>,
    output_directory: &String,
) -> (result: ShaderPermutation)
    requires
        texts(names@) == option_names(*config),
        tables(values@) == option_values(*config),
        combo@.len() == values@.len(),
        forall|i: int| 0 <= i < combo@.len() ==> #[trigger] combo@[i] < values@[i]@.len(),
    ensures
        result.is_permutation(shader_file@, stem@, *config, combo@, output_directory@),
{
    let ghost all_names = option_names(*config);
    let ghost all_values = option_values(*config);
    let ghost base = base_defines(config.base@);
    let mut defines: Vec<(String, String)> = Vec::new();
    let mut k: usize = 0;
    while k < config.base.len()
        invariant
            k <= config.base@.len(),
            base == base_defines(config.base@),
            defines@.len() == k,
            forall|n: int|
                0 <= n < k ==> (#[trigger] defines@[n]).0@ == base[n].0 && defines@[n].1@
                    == base[n].1,
        decreases config.base@.len() - k,
    {
        defines.push((config.base[k].0.clone(), config.base[k].1.to_define_string()));
        k = k + 1;
    }
    let mut permutation_id = stem.clone();
    assert(names@.len() == texts(names@).len() == values@.len()) by {
        assert(tables(values@).len() == values@.len());
    }
    assert(stem@ + Seq::<char>::empty() =~= stem@);
    let mut i: usize = 0;
    while i < combo.len()
        invariant
            i <= combo@.len(),
            names@.len() == combo@.len(),
            combo@.len() == values@.len(),
            forall|n: int| 0 <= n < combo@.len() ==> #[trigger] combo@[n] < values@[n]@.len(),
            all_names == texts(names@),
            all_values == tables(values@),
            permutation_id@ == stem@ + joined(i as nat, id_piece(all_values, combo@)),
            defines@.len() == base.len() + i,
            forall|n: int|
                0 <= n < base.len() ==> (#[trigger] defines@[n]).0@ == base[n].0 && defines@[n].1@
                    == base[n].1,
            forall|n: int|
                base.len() <= n < base.len() + i ==> {
                    let option = n - base.len();
                    &&& (#[trigger] defines@[n]).0@ == all_names[option]
                    &&& defines@[n].1@ == all_values[option][combo@[option] as int]
                },
        decreases combo@.len() - i,
    {
        let value = values[i][combo[i]].clone();
        proof {
            assert(all_values[i as int] == texts(values@[i as int]@));
            assert(value@ == all_values[i as int][combo@[i as int] as int]);
            let so_far = joined(i as nat, id_piece(all_values, combo@));
            assert(stem@ + so_far + "_"@ + value@ =~= stem@ + (so_far + ("_"@ + value@)));
        }
        permutation_id.append("_");
        permutation_id.append(value.as_str());
        assert(names@[i as int]@ == all_names[i as int]);
        defines.push((names[i].clone(), value));
        i = i + 1;
    }
    assert(pair_texts(defines@) =~= base + combo_defines(all_names, all_values, combo@));
    ShaderPermutation {
        shader_file: shader_file.clone(),
        permutation_id,
        defines,
        output_directory: output_directory.clone(),
    }
}

/// Every file in every combination of the options, given the files' stems.
///
/// Both kinds of options participate in the cartesian product.
pub fn permutations_with_stems(
    glsl_files: &Vec<String>,
    stems: &Vec<String>,
    config: &ShaderPermutationConfig,
    output_directory: &String,
) -> (result: Vec<ShaderPermutation>)
    requires
        glsl_files@.len() == stems@.len(),
        config.names_differ(),
    ensures
        are_permutations(
            result@,
            texts(glsl_files@),
            texts(stems@),
            *config,
            output_directory@,
        ),
{
    let names = list_names(config);
    let values = list_values(config);
    let sizes = list_sizes(&values);
    let combos = cartesian_product_indices(&sizes);
    let ghost count = combination_count(sizes@) as int;
    let ghost files = texts(glsl_files@);
    let ghost stem_texts = texts(stems@);
    assert(combos@.len() == rows(combos@).len() == count);
    assert(sizes@.len() == values@.len()) by {
        assert(tables(values@).len() == values@.len());
    }
    assert(0 * count == 0) by (nonlinear_arith);

    let mut permutations: Vec<ShaderPermutation> = Vec::new();
    let mut f: usize = 0;
    while f < glsl_files.len()
        invariant
            glsl_files@.len() == stems@.len(),
            files == texts(glsl_files@),
            stem_texts == texts(stems@),
            texts(names@) == option_names(*config),
            tables(values@) == option_values(*config),
            sizes@ == option_sizes(option_values(*config)),
            sizes@.len() == values@.len(),
            rows(combos@) == combinations(sizes@),
            combos@.len() == count,
            count == combination_count(sizes@),
            f <= glsl_files@.len(),
            permutations@.len() == f * count,
            forall|g: int, c: int|
                0 <= g < f && 0 <= c < count ==> (#[trigger] permutations@[permutation_number(
                    count,
                    g,
                    c,
                )]).is_permutation(
                    files[g],
                    stem_texts[g],
                    *config,
                    combination(sizes@, c),
                    output_directory@,
                ),
        decreases glsl_files@.len() - f,
    {
        let mut c: usize = 0;
        let ghost before = permutations@;
        assert((f + 1) * count == f * count + count) by (nonlinear_arith);
        while c < combos.len()
            invariant
                f < glsl_files@.len(),
                glsl_files@.len() == stems@.len(),
                files == texts(glsl_files@),
                stem_texts == texts(stems@),
                texts(names@) == option_names(*config),
                tables(values@) == option_values(*config),
                sizes@ == option_sizes(option_values(*config)),
                sizes@.len() == values@.len(),
                rows(combos@) == combinations(sizes@),
                combos@.len() == count,
                count == combination_count(sizes@),
                c <= count,
                before.len() == f * count,
                permutations@.len() == f * count + c,
                permutations@.take(f * count) == before,
                forall|b: int|
                    0 <= b < c ==> (#[trigger] permutations@[permutation_number(
                        count,
                        f as int,
                        b,
                    )]).is_permutation(
                        files[f as int],
                        stem_texts[f as int],
                        *config,
                        combination(sizes@, b),
                        output_directory@,
                    ),
            decreases count - c,
        {
            proof {
                assert(rows(combos@)[c as int] == combination(sizes@, c as int));
                law_combination_bounds(sizes@, c as int);
                assert forall|i: int| 0 <= i < combos@[c as int]@.len() implies #[trigger] combos@[c as int]@[i]
                    < values@[i]@.len() by {
                    assert(tables(values@)[i] == texts(values@[i]@));
                    assert(combination(sizes@, c as int)[i] < sizes@[i]);
                }
            }
            let permutation = one_permutation(
                &glsl_files[f],
                &stems[f],
                config,
                &names,
                &values,
                &combos[c],
                output_directory,
            );
            let ghost earlier = permutations@;
            permutations.push(permutation);
            proof {
                assert(files[f as int] == glsl_files@[f as int]@);
                assert(stem_texts[f as int] == stems@[f as int]@);
                assert(permutations@.take(f * count) =~= earlier.take(f * count));
                assert forall|b: int| 0 <= b < c + 1 implies (#[trigger] permutations@[permutation_number(
                    count,
                    f as int,
                    b,
                )]).is_permutation(
                    files[f as int],
                    stem_texts[f as int],
                    *config,
                    combination(sizes@, b),
                    output_directory@,
                ) by {
                    let number = permutation_number(count, f as int, b);
                    if b < c {
                        assert(permutations@[number] == earlier[number]);
                    }
                }
            }
            c = c + 1;
        }
        proof {
            assert forall|g: int, c: int| 0 <= g < f + 1 && 0 <= c < count implies (#[trigger] permutations@[permutation_number(
                count,
                g,
                c,
            )]).is_permutation(
                files[g],
                stem_texts[g],
                *config,
                combination(sizes@, c),
                output_directory@,
            ) by {
                let number = permutation_number(count, g, c);
                if g < f {
                    lemma_number_bounds(count, f as int, g, c);
                    assert(permutations@.take(f * count)[number] == permutations@[number]);
                    assert(before[permutation_number(count, g, c)].is_permutation(
                        files[g],
                        stem_texts[g],
                        *config,
                        combination(sizes@, c),
                        output_directory@,
                    ));
                }
            }
        }
        f = f + 1;
    }
    permutations
}

/// Whether a path is portable and ends in a name.
pub open spec fn is_plain_file(path: Seq<char>) -> bool {
    is_portable(path) && ends_in_name(path)
}

/// Whether these are the stems of several files.
pub open spec fn are_stems(files: Seq<Seq<char>>, stems: Seq<Seq<char>>) -> bool {
    &&& stems.len() == files.len()
    &&& forall|i: int| 0 <= i < files.len() ==> is_stem(files[i], Some(#[trigger] stems[i]))
}

/// Whether `result` holds every file in turn, with its stem, in every combination of the options
/// in turn.
pub open spec fn are_permutations_of(
    result: Seq<ShaderPermutation>,
    files: Seq<Seq<char>>,
    config: ShaderPermutationConfig,
    output_directory: Seq<char>,
) -> bool {
    exists|stems: Seq<Seq<char>>| #[trigger]
        are_stems(files, stems) && are_permutations(
            result,
            files,
            stems,
            config,
            output_directory,
        )
}

/// The stems of several files, where all have one.
fn list_stems(glsl_files: &Vec<String>) -> (result: Option<Vec<String>>)
    ensures
        match result {
            Some(stems) => are_stems(texts(glsl_files@), texts(stems@)),
            None => exists|i: int|
                0 <= i < glsl_files@.len() && is_stem((#[trigger] glsl_files@[i])@, None),
        },
{
    let mut stems: Vec<String> = Vec::new();
    let mut i: usize = 0;
    while i < glsl_files.len()
        invariant
            i <= glsl_files@.len(),
            stems@.len() == i,
            forall|k: int|
                0 <= k < i ==> is_stem(glsl_files@[k]@, Some((#[trigger] stems@[k])@)),
        decreases glsl_files@.len() - i,
    {
        match file_stem(glsl_files[i].as_str()) {
            Some(stem) => {
                stems.push(stem);
            },
            None => {
                assert(is_stem(glsl_files@[i as int]@, None));
                return None;
            },
        }
        i = i + 1;
    }
    proof {
        let files = texts(glsl_files@);
        assert forall|k: int| 0 <= k < files.len() implies is_stem(
            files[k],
            Some(#[trigger] texts(stems@)[k]),
        ) by {
            assert(is_stem(glsl_files@[k]@, Some(stems@[k]@)));
        }
    }
    Some(stems)
}

/// Every file in every combination of the options, or nothing where a path has no file name.
pub fn generate_permutations_for_config(
    glsl_files: &Vec<String>,
    config: &ShaderPermutationConfig,
    output_directory: &String,
) -> (result: Option<Vec<ShaderPermutation>>)
    requires
        config.names_differ(),
    ensures
        match result {
            Some(permutations) => are_permutations_of(
                permutations@,
                texts(glsl_files@),
                *config,
                output_directory@,
            ),
            None => exists|i: int|
                0 <= i < glsl_files@.len() && is_stem((#[trigger] glsl_files@[i])@, None),
        },
        (forall|i: int|
            0 <= i < glsl_files@.len() ==> is_portable((#[trigger] glsl_files@[i])@)) ==> {
            &&& result is Some <==> forall|i: int|
                0 <= i < glsl_files@.len() ==> portable_stem((#[trigger] glsl_files@[i])@) is Some
            &&& result matches Some(permutations) ==> are_permutations(
                permutations@,
                texts(glsl_files@),
                Seq::new(glsl_files@.len(), |i: int| portable_stem(glsl_files@[i]@)->0),
                *config,
                output_directory@,
            )
        },
        (forall|i: int| 0 <= i < glsl_files@.len() ==> is_plain_file((#[trigger] glsl_files@[i])@))
            ==> {
            &&& result is Some
            &&& are_permutations(
                result->0@,
                texts(glsl_files@),
                Seq::new(glsl_files@.len(), |i: int| stem_of(last_component(glsl_files@[i]@))),
                *config,
                output_directory@,
            )
        },
{
    proof {
        assert forall|i: int| 0 <= i < glsl_files@.len() && is_plain_file(
            (#[trigger] glsl_files@[i])@,
        ) implies portable_stem(glsl_files@[i]@) == Some(
            stem_of(last_component(glsl_files@[i]@)),
        ) by {
            law_last_component_is_file_name(glsl_files@[i]@);
        }
    }
    match list_stems(glsl_files) {
        Some(stems) => {
            proof {
                let files = texts(glsl_files@);
                if forall|i: int|
                    0 <= i < glsl_files@.len() ==> is_plain_file((#[trigger] glsl_files@[i])@) {
                    assert forall|i: int| 0 <= i < glsl_files@.len() implies #[trigger] texts(
                        stems@,
                    )[i] == stem_of(last_component(glsl_files@[i]@)) by {
                        assert(is_plain_file(glsl_files@[i]@));
                        assert(is_stem(files[i], Some(texts(stems@)[i])));
                    }
                    assert(texts(stems@) =~= Seq::new(
                        glsl_files@.len(),
                        |i: int| stem_of(last_component(glsl_files@[i]@)),
                    ));
                }
                assert forall|i: int| 0 <= i < glsl_files@.len() && is_portable(
                    (#[trigger] glsl_files@[i])@,
                ) implies portable_stem(glsl_files@[i]@) == Some(texts(stems@)[i]) by {
                    assert(is_stem(files[i], Some(texts(stems@)[i])));
                }
                if forall|i: int|
                    0 <= i < glsl_files@.len() ==> is_portable((#[trigger] glsl_files@[i])@) {
                    assert(texts(stems@) =~= Seq::new(
                        glsl_files@.len(),
                        |i: int| portable_stem(glsl_files@[i]@)->0,
                    ));
                }
            }
            let permutations = permutations_with_stems(
                glsl_files,
                &stems,
                config,
                output_directory,
            );
            assert(are_stems(texts(glsl_files@), texts(stems@)));
            Some(permutations)
        },
        None => None,
    }
}

/// The part after the last underscore can be read off a text.
proof fn lemma_last_part(a: Seq<char>, x: Seq<char>, b: Seq<char>, y: Seq<char>)
    requires
        !x.contains('_'),
        !y.contains('_'),
        a + ("_"@ + x) == b + ("_"@ + y),
    ensures
        a == b,
        x == y,
{
    reveal_strlit("_");
    let left = a + ("_"@ + x);
    let right = b + ("_"@ + y);
    assert(left.len() == a.len() + 1 + x.len());
    assert(right.len() == b.len() + 1 + y.len());
    assert(left[a.len() as int] == '_');
    assert(right[b.len() as int] == '_');
    if a.len() < b.len() {
        assert(left[b.len() as int] == x[b.len() - a.len() - 1]);
    }
    if b.len() < a.len() {
        assert(right[a.len() as int] == y[a.len() - b.len() - 1]);
    }
    assert forall|i: int| 0 <= i < a.len() implies a[i] == b[i] by {
        assert(left[i] == a[i] && right[i] == b[i]);
    }
    assert forall|i: int| 0 <= i < x.len() implies x[i] == y[i] by {
        assert(left[a.len() + 1 + i] == x[i] && right[b.len() + 1 + i] == y[i]);
    }
    assert(a =~= b && x =~= y);
}

/// The choices of the first `n` options can be read off an identifier.
proof fn lemma_ids_differ(
    stem: Seq<char>,
    values: Seq<Seq<Seq<char>>>,
    a: Seq<usize>,
    b: Seq<usize>,
    n: nat,
)
    requires
        n <= values.len(),
        n <= a.len(),
        n <= b.len(),
        forall|i: int| 0 <= i < n ==> #[trigger] a[i] < values[i].len(),
        forall|i: int| 0 <= i < n ==> #[trigger] b[i] < values[i].len(),
        forall|i: int| 0 <= i < n ==> (#[trigger] values[i]).no_duplicates(),
        forall|i: int, v: int|
            0 <= i < n && 0 <= v < values[i].len() ==> !(#[trigger] values[i][v]).contains('_'),
        stem + joined(n, id_piece(values, a)) == stem + joined(n, id_piece(values, b)),
    ensures
        forall|i: int| 0 <= i < n ==> a[i] == b[i],
    decreases n,
{
    if n > 0 {
        let last = n - 1;
        let x = values[last][a[last] as int];
        let y = values[last][b[last] as int];
        let left = joined((n - 1) as nat, id_piece(values, a));
        let right = joined((n - 1) as nat, id_piece(values, b));
        assert(stem + joined(n, id_piece(values, a)) =~= (stem + left) + ("_"@ + x));
        assert(stem + joined(n, id_piece(values, b)) =~= (stem + right) + ("_"@ + y));
        lemma_last_part(stem + left, x, stem + right, y);
        lemma_ids_differ(stem, values, a, b, (n - 1) as nat);
    }
}

/// The number of an option's values is a number that a program can hold.
proof fn lemma_option_lengths(config: ShaderPermutationConfig)
    ensures
        forall|i: int|
            0 <= i < option_values(config).len() ==> (#[trigger] option_values(config)[i]).len()
                <= usize::MAX,
{
    let selected = config.permutations@;
    let fields = config.field_permutations@;
    assert forall|i: int| 0 <= i < option_values(config).len() implies (#[trigger] option_values(
        config,
    )[i]).len() <= usize::MAX by {
        if i < selected.len() {
            match selected[i].1 {
                PermutationSpec::Values(values) => assert(values.len() == values@.len()),
                PermutationSpec::Named(pairs) => assert(pairs.len() == pairs@.len()),
            }
        } else {
            let values = fields[i - selected.len()].1.values;
            assert(values.len() == values@.len());
        }
    }
}

/// Different permutations of a shader have different identifiers, where no option has a value
/// twice and no value holds an underscore.
pub proof fn law_ids_differ(
    stem: Seq<char>,
    config: ShaderPermutationConfig,
    a: int,
    b: int,
)
    requires
        0 <= a < combination_count(option_sizes(option_values(config))),
        0 <= b < combination_count(option_sizes(option_values(config))),
        forall|i: int|
            0 <= i < option_values(config).len() ==> (#[trigger] option_values(
                config,
            )[i]).no_duplicates(),
        forall|i: int, v: int|
            0 <= i < option_values(config).len() && 0 <= v < option_values(config)[i].len()
                ==> !(#[trigger] option_values(config)[i][v]).contains('_'),
        id_text(
            stem,
            option_values(config),
            combination(option_sizes(option_values(config)), a),
        ) == id_text(
            stem,
            option_values(config),
            combination(option_sizes(option_values(config)), b),
        ),
    ensures
        a == b,
{
    let values = option_values(config);
    let sizes = option_sizes(values);
    law_combination_bounds(sizes, a);
    law_combination_bounds(sizes, b);
    let first = combination(sizes, a);
    let second = combination(sizes, b);
    lemma_option_lengths(config);
    assert forall|i: int| 0 <= i < values.len() implies #[trigger] first[i] < values[i].len() by {
        assert(first[i] < sizes[i]);
    }
    assert forall|i: int| 0 <= i < values.len() implies #[trigger] second[i] < values[i].len() by {
        assert(second[i] < sizes[i]);
    }
    lemma_ids_differ(stem, values, first, second, values.len());
    assert(first =~= second);
    law_combinations_differ(sizes, a, b);
}

/// No option is defined twice with values of one table, so each has the one value that a
/// combination selects.
pub proof fn law_options_defined_once(config: ShaderPermutationConfig, i: int, j: int)
    requires
        config.names_differ(),
        0 <= i < j < option_names(config).len(),
        i < config.permutations@.len() <==> j < config.permutations@.len(),
    ensures
        option_names(config)[i] != option_names(config)[j],
{
    let selected = config.permutations@;
    let fields = config.field_permutations@;
    if j < selected.len() {
        assert(pair_names(selected)[i] != pair_names(selected)[j]);
    } else {
        let a = i - selected.len();
        let b = j - selected.len();
        assert(pair_names(fields)[a] != pair_names(fields)[b]);
    }
}

/// The options that a permutation is compiled with: those with one value, and then each of the
/// others with the value that the combination selects, first those that the program selects from.
pub proof fn law_defines_in_order(
    permutation: ShaderPermutation,
    shader_file: Seq<char>,
    stem: Seq<char>,
    config: ShaderPermutationConfig,
    combo: Seq<usize>,
    output_directory: Seq<char>,
    k: int,
)
    requires
        permutation.is_permutation(shader_file, stem, config, combo, output_directory),
        combo.len() == config.permutations@.len() + config.field_permutations@.len(),
    ensures
        ({
            let defines = permutation.defines@;
            let base = config.base@.len() as int;
            let selected = config.permutations@.len() as int;
            let fields = config.field_permutations@.len() as int;
            &&& defines.len() == base + selected + fields
            &&& 0 <= k < base ==> {
                &&& defines[k].0@ == config.base@[k].0@
                &&& defines[k].1@ == config.base@[k].1.define_text()
            }
            &&& 0 <= k < selected ==> {
                &&& defines[base + k].0@ == config.permutations@[k].0@
                &&& defines[base + k].1@
                    == config.permutations@[k].1.value_texts()[combo[k] as int]
            }
            &&& 0 <= k < fields && combo[selected + k]
                < config.field_permutations@[k].1.values@.len() ==> {
                &&& defines[base + selected + k].0@ == config.field_permutations@[k].0@
                &&& defines[base + selected + k].1@
                    == config.field_permutations@[k].1.values@[combo[selected + k] as int].define_text()
            }
        }),
{
    let defines = permutation.defines@;
    let all = pair_texts(defines);
    let base = config.base@.len() as int;
    let selected = config.permutations@.len() as int;
    let fields = config.field_permutations@.len() as int;
    assert(all.len() == defines.len());
    if 0 <= k < base {
        assert(all[k] == (defines[k].0@, defines[k].1@));
        assert(all[k] == base_defines(config.base@)[k]);
    }
    if 0 <= k < selected {
        assert(all[base + k] == (defines[base + k].0@, defines[base + k].1@));
        assert(all[base + k] == combo_defines(
            option_names(config),
            option_values(config),
            combo,
        )[k]);
    }
    if 0 <= k < fields {
        let i = selected + k;
        assert(all[base + i] == (defines[base + i].0@, defines[base + i].1@));
        assert(all[base + i] == combo_defines(
            option_names(config),
            option_values(config),
            combo,
        )[i]);
        assert(option_values(config)[i] == define_texts(config.field_permutations@[k].1.values@));
    }
}

/// Permutations come file by file: number `k` is of file `k / count`, goes to the output directory,
/// and there is one for every file and every choice of values.
pub proof fn law_file_by_file(
    result: Seq<ShaderPermutation>,
    files: Seq<Seq<char>>,
    stems: Seq<Seq<char>>,
    config: ShaderPermutationConfig,
    output_directory: Seq<char>,
    k: int,
)
    requires
        are_permutations(result, files, stems, config, output_directory),
        0 <= k < result.len(),
    ensures
        ({
            let count = combination_count(option_sizes(option_values(config))) as int;
            &&& count > 0
            &&& 0 <= k / count < files.len()
            &&& result[k].shader_file@ == files[k / count]
            &&& result[k].output_directory@ == output_directory
            &&& stems[k / count].is_prefix_of(result[k].permutation_id@)
        }),
{
    let sizes = option_sizes(option_values(config));
    let count = combination_count(sizes) as int;
    let n = files.len() as int;
    assert(count > 0) by (nonlinear_arith)
        requires
            0 <= k < n * count,
            count >= 0,
            n >= 0,
    ;
    lemma_fundamental_div_mod(k, count);
    let f = k / count;
    let c = k % count;
    assert(0 <= f < n) by (nonlinear_arith)
        requires
            k == count * f + c,
            0 <= c < count,
            0 <= k < n * count,
    ;
    assert(permutation_number(count, f, c) == k) by (nonlinear_arith)
        requires
            k == count * f + c,
            permutation_number(count, f, c) == f * count + c,
    ;
    assert(result[permutation_number(count, f, c)].is_permutation(
        files[f],
        stems[f],
        config,
        combination(sizes, c),
        output_directory,
    ));
}

/// An identifier is the stem, and one value after another, each after an underscore.
pub proof fn law_identifier_parts(
    stem: Seq<char>,
    values: Seq<Seq<Seq<char>>>,
    combo: Seq<usize>,
)
    ensures
        combo.len() == 0 ==> id_text(stem, values, combo) == stem,
        combo.len() > 0 ==> id_text(stem, values, combo) == id_text(
            stem,
            values,
            combo.drop_last(),
        ) + seq!['_'] + values[combo.len() - 1][combo.last() as int],
{
    if combo.len() == 0 {
        assert(stem + Seq::<char>::empty() =~= stem);
    } else {
        let n = (combo.len() - 1) as nat;
        let f = id_piece(values, combo);
        let g = id_piece(values, combo.drop_last());
        assert forall|i: int| 0 <= i < n implies #[trigger] f(i) == g(i) by {
            assert(combo.drop_last()[i] == combo[i]);
        }
        lemma_joined_same(n, f, g);
        reveal_strlit("_");
        assert("_"@ =~= seq!['_']);
        let so_far = joined(n, g);
        let value = values[combo.len() - 1][combo.last() as int];
        assert(stem + (so_far + (seq!['_'] + value)) =~= stem + so_far + seq!['_'] + value);
    }
}

} // verus!

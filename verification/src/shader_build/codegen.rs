//! The source file that embeds compiled shaders.

use crate::shader_build::compile::{is_hash, CompilationResult, HASH_TRUNCATE_LEN};
use crate::shader_build::config::{
    derive_field_name,
    field_name_text,
    FieldPermutationConfig,
    PermutationSpec,
    ShaderPathConfig,
    ShaderPermutationConfig,
};
use crate::shader_build::index_map::{
    count_keys,
    entry_at,
    entry_or_insert,
    get_value,
    has_key,
    insert_value,
    is_set,
    map_entries,
    new_map,
};
use crate::shader_build::names::{
    ascii_upper_text,
    is_ascii_text,
    enum_name_text,
    param_name_text,
    to_upper,
    upper_text,
};
use crate::shader_build::params::{
    apply_field_suffixes,
    are_field_params,
    are_params,
    are_suffixes,
    build_field_perm_params,
    build_permutation_params,
    field_param_combinations,
    field_param_sizes,
    field_suffix_combinations,
    lemma_field_param_sizes,
    lemma_names_match,
    lemma_param_sizes,
    lemma_same_suffixes,
    param_combinations,
    param_sizes,
    selects,
    shader_name_texts,
    sorted_names,
    suffixed_text,
    unique_shader_names,
    FieldPermParam,
    PermutationParam,
};
use crate::shader_build::permutations::{
    field_values,
    id_piece,
    id_text,
    option_sizes,
    option_values,
    selected_values,
};
use crate::shader_build::product::{
    combination,
    combination_count,
    combinations,
    law_combination_bounds,
    rows,
};
use crate::text::{joined, texts};
use indexmap::IndexMap;
use std::hash::RandomState;
use vstd::prelude::*;
use vstd::string::{StrSliceExecFns, StringExecFns};

verus! {

/// What stands before item `i` of a list.
pub open spec fn separator(i: int) -> Seq<char> {
    if i > 0 {
        ", "@
    } else {
        Seq::empty()
    }
}

/// The declaration of variant `j`.
pub open spec fn variant_line(names: Seq<Seq<char>>) -> spec_fn(int) -> Seq<char> {
    |j: int| "    "@ + names[j] + ",\n"@
}

/// The enum of option `i`.
pub open spec fn enum_piece(options: Seq<(String, PermutationSpec)>) -> spec_fn(int) -> Seq<char> {
    |i: int|
        "#[derive(Debug, Clone, Copy, PartialEq, Eq)]\npub enum "@ + enum_name_text(options[i].0@)
            + " {\n"@ + joined(
            options[i].1.variant_names().len(),
            variant_line(options[i].1.variant_names()),
        ) + "}\n\n"@
}

/// The bytes that a character takes.
pub open spec fn char_bytes(c: char) -> int {
    if (c as u32) < 0x80 {
        1
    } else if (c as u32) < 0x800 {
        2
    } else if (c as u32) < 0x1_0000 {
        3
    } else {
        4
    }
}

/// How many of the first characters of a text take exactly `bytes` bytes, where some do.
pub open spec fn chars_of_bytes(text: Seq<char>, bytes: int) -> Option<int>
    decreases text.len(),
{
    if bytes == 0 {
        Some(0)
    } else if text.len() == 0 || char_bytes(text[0]) > bytes {
        None
    } else {
        match chars_of_bytes(text.skip(1), bytes - char_bytes(text[0])) {
            Some(count) => Some(count + 1),
            None => None,
        }
    }
}

/// The first eight bytes of a hash.
pub open spec fn short_hash(hash: Seq<char>) -> Seq<char> {
    hash.take(chars_of_bytes(hash, 8)->0)
}

/// The variable that holds the shader with a given hash.
pub open spec fn hash_var(hash: Seq<char>) -> Seq<char> {
    let short = short_hash(hash);
    "SHADER_"@ + if is_ascii_text(short) {
        ascii_upper_text(short)
    } else {
        upper_text(short)
    }
}

/// Each text once, in the order in which they occur, with where it occurs first.
pub open spec fn first_entries(all: Seq<Seq<char>>) -> Seq<(Seq<char>, usize)>
    decreases all.len(),
{
    if all.len() == 0 {
        Seq::empty()
    } else if all.drop_last().contains(all.last()) {
        first_entries(all.drop_last())
    } else {
        first_entries(all.drop_last()).push((all.last(), (all.len() - 1) as usize))
    }
}

/// The hashes of several results.
pub open spec fn result_hashes(results: Seq<&CompilationResult>) -> Seq<Seq<char>> {
    Seq::new(results.len(), |i: int| results[i].content_hash@)
}

/// The permutations of several results.
pub open spec fn result_ids(results: Seq<&CompilationResult>) -> Seq<Seq<char>> {
    Seq::new(results.len(), |i: int| results[i].permutation_id@)
}

/// The line that embeds shader `k`.
pub open spec fn embed_line(
    results: Seq<&CompilationResult>,
    entries: Seq<(Seq<char>, usize)>,
) -> spec_fn(int) -> Seq<char> {
    |k: int|
        "    "@ + hash_var(entries[k].0) + " = \""@ + results[entries[k].1 as int].file_name@
            + "\",\n"@
}

/// The name of a shader's field in a combination of options.
pub open spec fn combo_field(
    shader_name: Seq<char>,
    path: ShaderPathConfig,
    fields: Seq<(String, FieldPermutationConfig)>,
    c: int,
) -> Seq<char> {
    suffixed_text(
        field_name_text(shader_name, path),
        fields,
        combination(option_sizes(field_values(fields)), c),
    )
}

/// The declaration of a shader's field in combination `c`.
pub open spec fn field_line(
    shader_name: Seq<char>,
    path: ShaderPathConfig,
    fields: Seq<(String, FieldPermutationConfig)>,
) -> spec_fn(int) -> Seq<char> {
    |c: int| "    pub "@ + combo_field(shader_name, path, fields, c) + ": &'static [u8],\n"@
}

/// The declarations of all fields of shader `n`.
pub open spec fn fields_piece(
    names: Seq<Seq<char>>,
    path: ShaderPathConfig,
    fields: Seq<(String, FieldPermutationConfig)>,
) -> spec_fn(int) -> Seq<char> {
    |n: int|
        joined(
            combination_count(option_sizes(field_values(fields))),
            field_line(names[n], path, fields),
        )
}

/// Parameter `i` of the choice function.
pub open spec fn parameter_piece(options: Seq<(String, PermutationSpec)>) -> spec_fn(int) -> Seq<
    char,
> {
    |i: int|
        separator(i) + param_name_text(options[i].0@) + ": "@ + enum_name_text(options[i].0@)
}

/// Part `i` of what the choice function matches on.
pub open spec fn scrutinee_piece(options: Seq<(String, PermutationSpec)>) -> spec_fn(int) -> Seq<
    char,
> {
    |i: int| separator(i) + param_name_text(options[i].0@)
}

/// Part `i` of a pattern.
pub open spec fn pattern_piece(
    options: Seq<(String, PermutationSpec)>,
    combo: Seq<usize>,
) -> spec_fn(int) -> Seq<char> {
    |i: int|
        separator(i) + enum_name_text(options[i].0@) + "::"@
            + options[i].1.variant_names()[combo[i] as int]
}

/// Where a text occurs last.
pub open spec fn find_last(all: Seq<Seq<char>>, text: Seq<char>) -> Option<int>
    decreases all.len(),
{
    if all.len() == 0 {
        None
    } else if all.last() == text {
        Some(all.len() - 1)
    } else {
        find_last(all.drop_last(), text)
    }
}

/// The permutation of a shader with the values that two combinations select.
pub open spec fn lookup_id(
    shader_name: Seq<char>,
    config: ShaderPermutationConfig,
    selected: Seq<usize>,
    field: Seq<usize>,
) -> Seq<char> {
    id_text(shader_name, selected_values(config.permutations@), selected) + joined(
        field.len(),
        id_piece(field_values(config.field_permutations@), field),
    )
}

/// The embedded shader of a permutation, or an empty one where it was not compiled.
pub open spec fn embedded(results: Seq<&CompilationResult>, id: Seq<char>) -> Seq<char> {
    match find_last(result_ids(results), id) {
        Some(k) => hash_var(results[k].content_hash@),
        None => "&[]"@,
    }
}

/// The value of a shader's field in combination `c`.
pub open spec fn value_line(
    shader_name: Seq<char>,
    config: ShaderPermutationConfig,
    results: Seq<&CompilationResult>,
    selected: Seq<usize>,
) -> spec_fn(int) -> Seq<char> {
    |c: int|
        "            "@ + combo_field(
            shader_name,
            config.path,
            config.field_permutations@,
            c,
        ) + ": "@ + embedded(
            results,
            lookup_id(
                shader_name,
                config,
                selected,
                combination(option_sizes(field_values(config.field_permutations@)), c),
            ),
        ) + ",\n"@
}

/// The values of all fields of shader `n`.
pub open spec fn values_piece(
    names: Seq<Seq<char>>,
    config: ShaderPermutationConfig,
    results: Seq<&CompilationResult>,
    selected: Seq<usize>,
) -> spec_fn(int) -> Seq<char> {
    |n: int|
        joined(
            combination_count(option_sizes(field_values(config.field_permutations@))),
            value_line(names[n], config, results, selected),
        )
}

/// The arm for a combination of the options that the program selects from.
pub open spec fn arm_text(
    names: Seq<Seq<char>>,
    config: ShaderPermutationConfig,
    results: Seq<&CompilationResult>,
    selected: Seq<usize>,
) -> Seq<char> {
    "        ("@ + joined(selected.len(), pattern_piece(config.permutations@, selected))
        + ") => Shaders {\n"@ + joined(
        names.len(),
        values_piece(names, config, results, selected),
    ) + "        },\n"@
}

/// Arm `r` of the choice function.
pub open spec fn arm_piece(
    names: Seq<Seq<char>>,
    config: ShaderPermutationConfig,
    results: Seq<&CompilationResult>,
) -> spec_fn(int) -> Seq<char> {
    |r: int|
        arm_text(
            names,
            config,
            results,
            combination(option_sizes(selected_values(config.permutations@)), r),
        )
}

/// The enums of all options, after a header.
pub open spec fn enums_text(options: Seq<(String, PermutationSpec)>) -> Seq<char> {
    "// Auto-generated by xtask compile-shaders\n// DO NOT EDIT MANUALLY\n\n"@ + joined(
        options.len(),
        enum_piece(options),
    )
}

/// The embedded shaders, each once.
pub open spec fn embeddings_text(results: Seq<&CompilationResult>) -> Seq<char> {
    let entries = first_entries(result_hashes(results));
    "\n#[repr(align(4))]\nstruct Align4<const N: usize>([u8; N]);\n\nmacro_rules! include_shaders {\n    () => {};\n    ($NAME:ident = $PATH:expr, $($REST:tt)*) => {\n        static $NAME: &'static [u8] = &(Align4::<{include_bytes!($PATH).len()}>(*include_bytes!($PATH)).0);\n        include_shaders!{$($REST)*}\n    };\n}\n\ninclude_shaders! {\n"@
        + joined(entries.len(), embed_line(results, entries)) + "}\n\n"@
}

/// The structure with one field for each shader.
pub open spec fn struct_text(
    names: Seq<Seq<char>>,
    path: ShaderPathConfig,
    fields: Seq<(String, FieldPermutationConfig)>,
) -> Seq<char> {
    "#[derive(Debug, Clone)]\npub struct Shaders {\n"@ + joined(
        names.len(),
        fields_piece(names, path, fields),
    ) + "}\n\n"@
}

/// The function that selects shaders.
pub open spec fn choice_text(
    names: Seq<Seq<char>>,
    config: ShaderPermutationConfig,
    results: Seq<&CompilationResult>,
) -> Seq<char> {
    let options = config.permutations@;
    "#[inline(always)]\npub fn choose_shaders("@ + joined(options.len(), parameter_piece(options))
        + ") -> Shaders {\n    match ("@ + joined(options.len(), scrutinee_piece(options))
        + ") {\n"@ + joined(
        combination_count(option_sizes(selected_values(options))),
        arm_piece(names, config, results),
    ) + "    }\n}\n"@
}

/// The source file that embeds the shaders of a configuration.
pub open spec fn code_text(
    config: ShaderPermutationConfig,
    results: Seq<&CompilationResult>,
) -> Seq<char> {
    let names = sorted_names(shader_name_texts(results));
    enums_text(config.permutations@) + embeddings_text(results) + struct_text(
        names,
        config.path,
        config.field_permutations@,
    ) + choice_text(names, config, results)
}

/// Whether the map says of each permutation where its result is.
pub open spec fn is_lookup(entries: Seq<(Seq<char>, usize)>, ids: Seq<Seq<char>>) -> bool {
    &&& forall|k: int|
        0 <= k < entries.len() ==> Some((#[trigger] entries[k]).1 as int) == find_last(
            ids,
            entries[k].0,
        )
    &&& forall|id: Seq<char>| #[trigger]
        has_key(entries, id) <==> find_last(ids, id) is Some
}

/// The enums of all options, after a header.
fn append_enums(
    code: &mut String,
    params: &Vec<PermutationParam>,
    Ghost(options): Ghost<Seq<(String, PermutationSpec)>>,
)
    requires
        are_params(params@, options),
    ensures
        final(code)@ == old(code)@ + enums_text(options),
{
    let ghost start = old(code)@
        + "// Auto-generated by xtask compile-shaders\n// DO NOT EDIT MANUALLY\n\n"@;
    code.append("// Auto-generated by xtask compile-shaders\n// DO NOT EDIT MANUALLY\n\n");
    let mut i: usize = 0;
    assert(start + Seq::<char>::empty() =~= start);
    while i < params.len()
        invariant
            are_params(params@, options),
            i <= params@.len(),
            code@ == start + joined(i as nat, enum_piece(options)),
        decreases params@.len() - i,
    {
        let ghost before = code@;
        let ghost names = options[i as int].1.variant_names();
        assert(params@[i as int].is_param(options[i as int]));
        proof {
            lemma_names_match(options[i as int].1);
        }
        code.append("#[derive(Debug, Clone, Copy, PartialEq, Eq)]\npub enum ");
        code.append(params[i].enum_name.as_str());
        code.append(" {\n");
        let ghost opened = code@;
        let mut j: usize = 0;
        assert(opened + Seq::<char>::empty() =~= opened);
        while j < params[i].variants.len()
            invariant
                i < params@.len(),
                params@[i as int].is_param(options[i as int]),
                names == options[i as int].1.variant_names(),
                names.len() == params@[i as int].variants@.len(),
                j <= names.len(),
                code@ == opened + joined(j as nat, variant_line(names)),
            decreases names.len() - j,
        {
            let ghost so_far = joined(j as nat, variant_line(names));
            assert(params@[i as int].variants@[j as int].variant_name@ == names[j as int]);
            assert(opened + so_far + "    "@ + names[j as int] + ",\n"@ =~= opened + (so_far + (
            "    "@ + names[j as int] + ",\n"@)));
            code.append("    ");
            code.append(params[i].variants[j].variant_name.as_str());
            code.append(",\n");
            j = j + 1;
        }
        code.append("}\n\n");
        proof {
            let piece = enum_piece(options)(i as int);
            assert(code@ =~= before + piece);
            assert(start + joined(i as nat, enum_piece(options)) + piece =~= start + (joined(
                i as nat,
                enum_piece(options),
            ) + piece));
        }
        i = i + 1;
    }
    assert(code@ =~= old(code)@ + enums_text(options));
}

/// How many of the first characters of a hash take exactly eight bytes, where some do.
fn cut_length(hash: &str) -> (result: Option<usize>)
    ensures
        match result {
            Some(count) => chars_of_bytes(hash@, 8) == Some(count as int) && count <= hash@.len(),
            None => chars_of_bytes(hash@, 8) is None,
        },
{
    let len: usize = hash.unicode_len();
    let mut count: usize = 0;
    let mut bytes: usize = HASH_TRUNCATE_LEN;
    assert(hash@.skip(0) =~= hash@);
    while bytes > 0
        invariant
            len == hash@.len(),
            count <= len,
            chars_of_bytes(hash@, 8) == (match chars_of_bytes(
                hash@.skip(count as int),
                bytes as int,
            ) {
                Some(more) => Some(count + more),
                None => None,
            }),
        decreases bytes,
    {
        let ghost rest = hash@.skip(count as int);
        if count == len {
            return None;
        }
        assert(rest.skip(1) =~= hash@.skip(count + 1));
        let c: u32 = hash.get_char(count) as u32;
        let taken: usize = if c < 0x80 {
            1
        } else if c < 0x800 {
            2
        } else if c < 0x1_0000 {
            3
        } else {
            4
        };
        assert(taken == char_bytes(rest[0]));
        if taken > bytes {
            return None;
        }
        bytes = bytes - taken;
        count = count + 1;
    }
    Some(count)
}

/// The variable that holds the shader with a given hash.
fn hash_variable(hash: &str) -> (result: String)
    requires
        chars_of_bytes(hash@, 8) is Some,
    ensures
        result@ == hash_var(hash@),
{
    let mut name = "SHADER_".to_owned();
    if let Some(count) = cut_length(hash) {
        let short = hash.substring_char(0, count);
        assert(short@ =~= short_hash(hash@));
        name.append(to_upper(short).as_str());
    }
    name
}

/// Each hash once, with the first result that has it.
fn unique_shaders(results: &Vec<&CompilationResult>) -> (result: IndexMap<
    String,
    usize,
    RandomState,
>)
    ensures
        map_entries(result) == first_entries(result_hashes(results@)),
{
    let mut unique = new_map();
    let _count: usize = results.len();
    let ghost all = result_hashes(results@);
    let mut i: usize = 0;
    assert(all.take(0) =~= Seq::empty());
    while i < results.len()
        invariant
            i <= results@.len() <= usize::MAX,
            all == result_hashes(results@),
            map_entries(unique) == first_entries(all.take(i as int)),
        decreases results@.len() - i,
    {
        proof {
            let longer = all.take(i + 1);
            assert(longer.drop_last() =~= all.take(i as int));
            assert(longer.last() == results@[i as int].content_hash@);
            lemma_first_entries(all.take(i as int), longer.last());
        }
        let _first: usize = entry_or_insert(&mut unique, results[i].content_hash.clone(), i);
        i = i + 1;
    }
    assert(all.take(i as int) =~= all);
    unique
}

/// The keys of the first entries are the texts.
proof fn lemma_first_entries(all: Seq<Seq<char>>, text: Seq<char>)
    requires
        all.len() <= usize::MAX,
    ensures
        has_key(first_entries(all), text) <==> all.contains(text),
        forall|k: int|
            0 <= k < first_entries(all).len() ==> {
                let entry = #[trigger] first_entries(all)[k];
                entry.1 < all.len() && all[entry.1 as int] == entry.0
            },
    decreases all.len(),
{
    if all.len() > 0 {
        let rest = all.drop_last();
        lemma_first_entries(rest, text);
        let entries = first_entries(all);
        let shorter = first_entries(rest);
        assert(all =~= rest.push(all.last()));
        if rest.contains(text) {
            let k = choose|k: int| 0 <= k < rest.len() && rest[k] == text;
            assert(all[k] == text);
        }
        if all.contains(text) && text != all.last() {
            let k = choose|k: int| 0 <= k < all.len() && all[k] == text;
            assert(rest[k] == text);
        }
        if text == all.last() {
            assert(all[all.len() - 1] == text);
        }
        if !rest.contains(all.last()) {
            assert(entries =~= shorter.push((all.last(), (all.len() - 1) as usize)));
            if has_key(shorter, text) {
                let k = choose|k: int| 0 <= k < shorter.len() && (#[trigger] shorter[k]).0 == text;
                assert(entries[k].0 == text);
            }
            assert(entries[shorter.len() as int].0 == all.last());
            if has_key(entries, text) && text != all.last() {
                let k = choose|k: int| 0 <= k < entries.len() && (#[trigger] entries[k]).0 == text;
                assert(shorter[k].0 == text);
            }
        }
    }
}

/// Whether all results have a hash whose first eight bytes are whole characters.
pub open spec fn are_hashed(results: Seq<&CompilationResult>) -> bool {
    forall|i: int|
        0 <= i < results.len() ==> chars_of_bytes((#[trigger] results[i]).content_hash@, 8) is Some
}

/// Whether all results have a hash whose first eight bytes are whole characters.
pub fn hashes_can_be_cut(results: &Vec<&CompilationResult>) -> (result: bool)
    ensures
        result == are_hashed(results@),
{
    let mut i: usize = 0;
    while i < results.len()
        invariant
            i <= results@.len(),
            forall|k: int|
                0 <= k < i ==> chars_of_bytes((#[trigger] results@[k]).content_hash@, 8) is Some,
        decreases results@.len() - i,
    {
        if cut_length(results[i].content_hash.as_str()).is_none() {
            assert(chars_of_bytes(results@[i as int].content_hash@, 8) is None);
            return false;
        }
        i = i + 1;
    }
    true
}

/// The hashes that compilation gives can be cut short.
pub proof fn law_hashes_can_be_cut(hash: Seq<char>)
    requires
        is_hash(hash),
    ensures
        chars_of_bytes(hash, 8) is Some,
        short_hash(hash) == hash.take(8),
{
    reveal_with_fuel(chars_of_bytes, 9);
}

/// The embedded shaders, each once.
fn append_embeddings(code: &mut String, results: &Vec<&CompilationResult>)
    requires
        are_hashed(results@),
    ensures
        final(code)@ == old(code)@ + embeddings_text(results@),
{
    let unique = unique_shaders(results);
    let ghost entries = first_entries(result_hashes(results@));
    let _count: usize = results.len();
    code.append(
        "\n#[repr(align(4))]\nstruct Align4<const N: usize>([u8; N]);\n\nmacro_rules! include_shaders {\n    () => {};\n    ($NAME:ident = $PATH:expr, $($REST:tt)*) => {\n        static $NAME: &'static [u8] = &(Align4::<{include_bytes!($PATH).len()}>(*include_bytes!($PATH)).0);\n        include_shaders!{$($REST)*}\n    };\n}\n\ninclude_shaders! {\n",
    );
    let ghost start = code@;
    let count: usize = count_keys(&unique);
    let mut k: usize = 0;
    proof {
        lemma_first_entries(result_hashes(results@), Seq::empty());
        assert(start + Seq::<char>::empty() =~= start);
    }
    while k < count
        invariant
            are_hashed(results@),
            entries == first_entries(result_hashes(results@)),
            map_entries(unique) == entries,
            count == entries.len(),
            forall|k: int|
                0 <= k < entries.len() ==> {
                    let entry = #[trigger] entries[k];
                    entry.1 < results@.len() && result_hashes(results@)[entry.1 as int] == entry.0
                },
            k <= count,
            code@ == start + joined(k as nat, embed_line(results@, entries)),
        decreases count - k,
    {
        match entry_at(&unique, k) {
            Some((hash, index)) => {
                let ghost so_far = joined(k as nat, embed_line(results@, entries));
                assert(entries[k as int] == (hash@, index));
                assert(results@[index as int].content_hash@ == hash@);
                code.append("    ");
                code.append(hash_variable(hash.as_str()).as_str());
                code.append(" = \"");
                code.append(results[index].file_name.as_str());
                code.append("\",\n");
                assert(code@ =~= start + (so_far + embed_line(results@, entries)(k as int)));
            },
            None => {},
        }
        k = k + 1;
    }
    code.append("}\n\n");
    assert(code@ =~= old(code)@ + embeddings_text(results@));
}

/// The structure with one field for each shader.
fn append_struct(
    code: &mut String,
    names: &Vec<String>,
    path: &ShaderPathConfig,
    field_params: &Vec<FieldPermParam>,
    Ghost(fields): Ghost<Seq<(String, FieldPermutationConfig)>>,
)
    requires
        are_field_params(field_params@, fields),
    ensures
        final(code)@ == old(code)@ + struct_text(texts(names@), *path, fields),
{
    let suffix_combos = field_suffix_combinations(field_params);
    let ghost sizes = option_sizes(field_values(fields));
    let ghost all = texts(names@);
    proof {
        lemma_field_param_sizes(field_params@, fields);
    }
    code.append("#[derive(Debug, Clone)]\npub struct Shaders {\n");
    let ghost start = code@;
    assert(start + Seq::<char>::empty() =~= start);
    let mut n: usize = 0;
    while n < names.len()
        invariant
            are_field_params(field_params@, fields),
            sizes == option_sizes(field_values(fields)),
            sizes == field_param_sizes(field_params@),
            all == texts(names@),
            suffix_combos@.len() == combination_count(sizes),
            forall|c: int|
                0 <= c < suffix_combos@.len() ==> are_suffixes(
                    (#[trigger] suffix_combos@[c])@,
                    field_params@,
                    combination(sizes, c),
                ),
            n <= names@.len(),
            code@ == start + joined(n as nat, fields_piece(all, *path, fields)),
        decreases names@.len() - n,
    {
        let ghost before = code@;
        let ghost name = all[n as int];
        let base_field = derive_field_name(names[n].as_str(), path);
        assert(base_field@ == field_name_text(name, *path));
        let mut c: usize = 0;
        assert(before + Seq::<char>::empty() =~= before);
        while c < suffix_combos.len()
            invariant
                are_field_params(field_params@, fields),
                sizes == option_sizes(field_values(fields)),
                sizes == field_param_sizes(field_params@),
                suffix_combos@.len() == combination_count(sizes),
                forall|c: int|
                    0 <= c < suffix_combos@.len() ==> are_suffixes(
                        (#[trigger] suffix_combos@[c])@,
                        field_params@,
                        combination(sizes, c),
                    ),
                base_field@ == field_name_text(name, *path),
                c <= suffix_combos@.len(),
                code@ == before + joined(c as nat, field_line(name, *path, fields)),
            decreases suffix_combos@.len() - c,
        {
            let ghost so_far = joined(c as nat, field_line(name, *path, fields));
            let ghost combo = combination(sizes, c as int);
            let field_name = apply_field_suffixes(base_field.as_str(), &suffix_combos[c]);
            proof {
                law_combination_bounds(sizes, c as int);
                lemma_same_suffixes(
                    suffix_combos@[c as int]@,
                    field_params@,
                    fields,
                    combo,
                    combo.len(),
                );
                assert(field_name@ == combo_field(name, *path, fields, c as int));
            }
            code.append("    pub ");
            code.append(field_name.as_str());
            code.append(": &'static [u8],\n");
            assert(code@ =~= before + (so_far + field_line(name, *path, fields)(c as int)));
            c = c + 1;
        }
        proof {
            let so_far = joined(n as nat, fields_piece(all, *path, fields));
            assert(code@ =~= start + (so_far + fields_piece(all, *path, fields)(n as int)));
        }
        n = n + 1;
    }
    code.append("}\n\n");
    assert(code@ =~= old(code)@ + struct_text(all, *path, fields));
}

/// Where the result of each permutation is.
fn result_lookup(results: &Vec<&CompilationResult>) -> (result: IndexMap<
    String,
    usize,
    RandomState,
>)
    ensures
        is_lookup(map_entries(result), result_ids(results@)),
{
    let mut lookup = new_map();
    let ghost ids = result_ids(results@);
    let mut i: usize = 0;
    proof {
        assert(ids.take(0) =~= Seq::empty());
        assert(is_lookup(map_entries(lookup), ids.take(0)));
    }
    while i < results.len()
        invariant
            i <= results@.len(),
            ids == result_ids(results@),
            is_lookup(map_entries(lookup), ids.take(i as int)),
        decreases results@.len() - i,
    {
        let ghost before = map_entries(lookup);
        let _previous = insert_value(&mut lookup, results[i].permutation_id.clone(), i);
        proof {
            let longer = ids.take(i + 1);
            assert(longer.drop_last() =~= ids.take(i as int));
            assert(longer.last() == results@[i as int].permutation_id@);
            lemma_lookup_grows(before, map_entries(lookup), longer, i);
        }
        i = i + 1;
    }
    assert(ids.take(i as int) =~= ids);
    lookup
}

/// Setting the value of the last permutation keeps the map right.
proof fn lemma_lookup_grows(
    before: Seq<(Seq<char>, usize)>,
    after: Seq<(Seq<char>, usize)>,
    ids: Seq<Seq<char>>,
    value: usize,
)
    requires
        ids.len() > 0,
        value == ids.len() - 1,
        is_lookup(before, ids.drop_last()),
        is_set(before, after, ids.last(), value),
    ensures
        is_lookup(after, ids),
{
    let key = ids.last();
    assert forall|k: int| 0 <= k < after.len() implies Some((#[trigger] after[k]).1 as int)
        == find_last(ids, after[k].0) by {
        if k < before.len() {
            assert(Some(before[k].1 as int) == find_last(ids.drop_last(), before[k].0));
            if !has_key(before, key) {
                assert(before[k].0 != key);
            }
        }
    }
    assert forall|id: Seq<char>| #[trigger] has_key(after, id) <==> find_last(ids, id) is Some by {
        if has_key(before, id) {
            let k = choose|k: int| 0 <= k < before.len() && (#[trigger] before[k]).0 == id;
            assert(after[k].0 == id);
        }
        if has_key(after, id) && id != key {
            let k = choose|k: int| 0 <= k < after.len() && (#[trigger] after[k]).0 == id;
            assert(k < before.len());
            assert(before[k].0 == id);
        }
        if id == key && !has_key(before, key) {
            assert(after[before.len() as int].0 == key);
        }
    }
}

/// The permutation of a shader with the values that two combinations select.
fn combined_id(
    shader_name: &String,
    params: &Vec<PermutationParam>,
    field_params: &Vec<FieldPermParam>,
    selected: &Vec<usize>,
    field: &Vec<usize>,
    Ghost(config): Ghost<ShaderPermutationConfig>,
) -> (result: String)
    requires
        are_params(params@, config.permutations@),
        are_field_params(field_params@, config.field_permutations@),
        selects(selected@, param_sizes(params@)),
        selects(field@, field_param_sizes(field_params@)),
    ensures
        result@ == lookup_id(shader_name@, config, selected@, field@),
{
    let ghost values = selected_values(config.permutations@);
    let ghost more_values = field_values(config.field_permutations@);
    let mut id = shader_name.clone();
    let mut i: usize = 0;
    assert(shader_name@ + Seq::<char>::empty() =~= shader_name@);
    while i < selected.len()
        invariant
            are_params(params@, config.permutations@),
            selects(selected@, param_sizes(params@)),
            values == selected_values(config.permutations@),
            i <= selected@.len(),
            id@ == shader_name@ + joined(i as nat, id_piece(values, selected@)),
        decreases selected@.len() - i,
    {
        let ghost so_far = joined(i as nat, id_piece(values, selected@));
        assert(params@[i as int].is_param(config.permutations@[i as int]));
        assert(selected@[i as int] < param_sizes(params@)[i as int]);
        id.append("_");
        id.append(params[i].variants[selected[i]].define_value.as_str());
        assert(id@ =~= shader_name@ + (so_far + id_piece(values, selected@)(i as int)));
        i = i + 1;
    }
    let ghost start = id@;
    let mut j: usize = 0;
    assert(start + Seq::<char>::empty() =~= start);
    while j < field.len()
        invariant
            are_field_params(field_params@, config.field_permutations@),
            selects(field@, field_param_sizes(field_params@)),
            more_values == field_values(config.field_permutations@),
            j <= field@.len(),
            id@ == start + joined(j as nat, id_piece(more_values, field@)),
        decreases field@.len() - j,
    {
        let ghost so_far = joined(j as nat, id_piece(more_values, field@));
        assert(field_params@[j as int].is_param(config.field_permutations@[j as int].1));
        assert(field@[j as int] < field_param_sizes(field_params@)[j as int]);
        id.append("_");
        id.append(field_params[j].variants[field[j]].define_value.as_str());
        assert(id@ =~= start + (so_far + id_piece(more_values, field@)(j as int)));
        j = j + 1;
    }
    id
}

/// The embedded shader of a permutation, or an empty one where it was not compiled.
fn embedded_shader(
    results: &Vec<&CompilationResult>,
    lookup: &IndexMap<String, usize, RandomState>,
    id: &str,
) -> (result: String)
    requires
        are_hashed(results@),
        is_lookup(map_entries(*lookup), result_ids(results@)),
    ensures
        result@ == embedded(results@, id@),
{
    match get_value(lookup, id) {
        Some(index) => {
            proof {
                let entries = map_entries(*lookup);
                let k = choose|k: int| 0 <= k < entries.len() && entries[k] == (id@, index);
                assert(entries[k].0 == id@);
                assert(find_last(result_ids(results@), id@) == Some(index as int));
                lemma_find_last(result_ids(results@), id@);
            }
            hash_variable(results[index].content_hash.as_str())
        },
        None => "&[]".to_owned(),
    }
}

/// What is found is there, and nothing after it.
proof fn lemma_find_last(all: Seq<Seq<char>>, text: Seq<char>)
    ensures
        find_last(all, text) matches Some(k) ==> {
            &&& 0 <= k < all.len()
            &&& all[k] == text
            &&& forall|j: int| k < j < all.len() ==> #[trigger] all[j] != text
        },
        all.contains(text) <==> find_last(all, text) is Some,
    decreases all.len(),
{
    if all.len() > 0 {
        let rest = all.drop_last();
        lemma_find_last(rest, text);
        if all.last() == text {
            assert(all[all.len() - 1] == text);
        } else {
            if all.contains(text) {
                let k = choose|k: int| 0 <= k < all.len() && all[k] == text;
                assert(rest[k] == text);
            }
            if rest.contains(text) {
                let k = choose|k: int| 0 <= k < rest.len() && rest[k] == text;
                assert(all[k] == text);
            }
            if let Some(k) = find_last(all, text) {
                assert forall|j: int| k < j < all.len() implies #[trigger] all[j] != text by {
                    if j < rest.len() {
                        assert(rest[j] == all[j]);
                    }
                }
            }
        }
    }
}

/// The arm for a combination of the options that the program selects from.
fn append_arm(
    code: &mut String,
    names: &Vec<String>,
    config: &ShaderPermutationConfig,
    params: &Vec<PermutationParam>,
    field_params: &Vec<FieldPermParam>,
    results: &Vec<&CompilationResult>,
    lookup: &IndexMap<String, usize, RandomState>,
    selected: &Vec<usize>,
)
    requires
        are_params(params@, config.permutations@),
        are_field_params(field_params@, config.field_permutations@),
        selects(selected@, param_sizes(params@)),
        are_hashed(results@),
        is_lookup(map_entries(*lookup), result_ids(results@)),
    ensures
        final(code)@ == old(code)@ + arm_text(texts(names@), *config, results@, selected@),
{
    let ghost options = config.permutations@;
    let ghost all = texts(names@);
    code.append("        (");
    let ghost start = code@;
    let mut i: usize = 0;
    assert(start + Seq::<char>::empty() =~= start);
    while i < selected.len()
        invariant
            options == config.permutations@,
            are_params(params@, options),
            selects(selected@, param_sizes(params@)),
            i <= selected@.len(),
            code@ == start + joined(i as nat, pattern_piece(options, selected@)),
        decreases selected@.len() - i,
    {
        let ghost so_far = joined(i as nat, pattern_piece(options, selected@));
        assert(params@[i as int].is_param(options[i as int]));
        assert(selected@[i as int] < param_sizes(params@)[i as int]);
        if i > 0 {
            code.append(", ");
        }
        code.append(params[i].enum_name.as_str());
        code.append("::");
        code.append(params[i].variants[selected[i]].variant_name.as_str());
        assert(code@ =~= start + (so_far + pattern_piece(options, selected@)(i as int)));
        i = i + 1;
    }
    code.append(") => Shaders {\n");
    let ghost opened = code@;
    let mut n: usize = 0;
    assert(opened + Seq::<char>::empty() =~= opened);
    while n < names.len()
        invariant
            are_params(params@, config.permutations@),
            are_field_params(field_params@, config.field_permutations@),
            selects(selected@, param_sizes(params@)),
            are_hashed(results@),
            is_lookup(map_entries(*lookup), result_ids(results@)),
            all == texts(names@),
            n <= names@.len(),
            code@ == opened + joined(n as nat, values_piece(all, *config, results@, selected@)),
        decreases names@.len() - n,
    {
        let ghost so_far = joined(n as nat, values_piece(all, *config, results@, selected@));
        assert(all[n as int] == names@[n as int]@);
        append_values(code, &names[n], config, params, field_params, results, lookup, selected);
        assert(code@ =~= opened + (so_far + values_piece(all, *config, results@, selected@)(
            n as int,
        )));
        n = n + 1;
    }
    code.append("        },\n");
    assert(code@ =~= old(code)@ + arm_text(all, *config, results@, selected@));
}

/// The values of all fields of a shader.
fn append_values(
    code: &mut String,
    shader_name: &String,
    config: &ShaderPermutationConfig,
    params: &Vec<PermutationParam>,
    field_params: &Vec<FieldPermParam>,
    results: &Vec<&CompilationResult>,
    lookup: &IndexMap<String, usize, RandomState>,
    selected: &Vec<usize>,
)
    requires
        are_params(params@, config.permutations@),
        are_field_params(field_params@, config.field_permutations@),
        selects(selected@, param_sizes(params@)),
        are_hashed(results@),
        is_lookup(map_entries(*lookup), result_ids(results@)),
    ensures
        final(code)@ == old(code)@ + joined(
            combination_count(option_sizes(field_values(config.field_permutations@))),
            value_line(shader_name@, *config, results@, selected@),
        ),
{
    let ghost fields = config.field_permutations@;
    let ghost sizes = option_sizes(field_values(fields));
    let ghost start = code@;
    let combos = field_param_combinations(field_params);
    let suffix_combos = field_suffix_combinations(field_params);
    let base_field = derive_field_name(shader_name.as_str(), &config.path);
    proof {
        lemma_field_param_sizes(field_params@, fields);
        assert(combos@.len() == rows(combos@).len());
        assert(start + Seq::<char>::empty() =~= start);
    }
    let mut c: usize = 0;
    while c < combos.len()
        invariant
            are_params(params@, config.permutations@),
            are_field_params(field_params@, config.field_permutations@),
            selects(selected@, param_sizes(params@)),
            are_hashed(results@),
            is_lookup(map_entries(*lookup), result_ids(results@)),
            fields == config.field_permutations@,
            sizes == option_sizes(field_values(fields)),
            sizes == field_param_sizes(field_params@),
            rows(combos@) == combinations(sizes),
            combos@.len() == combination_count(sizes),
            suffix_combos@.len() == combos@.len(),
            forall|c: int|
                0 <= c < suffix_combos@.len() ==> are_suffixes(
                    (#[trigger] suffix_combos@[c])@,
                    field_params@,
                    combination(sizes, c),
                ),
            base_field@ == field_name_text(shader_name@, config.path),
            c <= combos@.len(),
            code@ == start + joined(
                c as nat,
                value_line(shader_name@, *config, results@, selected@),
            ),
        decreases combos@.len() - c,
    {
        let ghost line = value_line(shader_name@, *config, results@, selected@);
        let ghost so_far = joined(c as nat, line);
        let ghost combo = combination(sizes, c as int);
        proof {
            assert(rows(combos@)[c as int] == combo);
            law_combination_bounds(sizes, c as int);
        }
        let field_name = apply_field_suffixes(base_field.as_str(), &suffix_combos[c]);
        proof {
            lemma_same_suffixes(
                suffix_combos@[c as int]@,
                field_params@,
                fields,
                combo,
                combo.len(),
            );
            assert(field_name@ == combo_field(shader_name@, config.path, fields, c as int));
        }
        let id = combined_id(
            shader_name,
            params,
            field_params,
            selected,
            &combos[c],
            Ghost(*config),
        );
        code.append("            ");
        code.append(field_name.as_str());
        code.append(": ");
        code.append(embedded_shader(results, lookup, id.as_str()).as_str());
        code.append(",\n");
        assert(code@ =~= start + (so_far + line(c as int)));
        c = c + 1;
    }
}

/// The head of the function that selects shaders.
fn append_signature(
    code: &mut String,
    params: &Vec<PermutationParam>,
    Ghost(options): Ghost<Seq<(String, PermutationSpec)>>,
)
    requires
        are_params(params@, options),
    ensures
        final(code)@ == old(code)@ + ("#[inline(always)]\npub fn choose_shaders("@ + joined(
            options.len(),
            parameter_piece(options),
        ) + ") -> Shaders {\n    match ("@ + joined(options.len(), scrutinee_piece(options))
            + ") {\n"@),
{
    code.append("#[inline(always)]\npub fn choose_shaders(");
    let ghost start = code@;
    let mut i: usize = 0;
    assert(start + Seq::<char>::empty() =~= start);
    while i < params.len()
        invariant
            are_params(params@, options),
            i <= params@.len(),
            code@ == start + joined(i as nat, parameter_piece(options)),
        decreases params@.len() - i,
    {
        let ghost so_far = joined(i as nat, parameter_piece(options));
        assert(params@[i as int].is_param(options[i as int]));
        if i > 0 {
            code.append(", ");
        }
        code.append(params[i].param_name.as_str());
        code.append(": ");
        code.append(params[i].enum_name.as_str());
        assert(code@ =~= start + (so_far + parameter_piece(options)(i as int)));
        i = i + 1;
    }
    code.append(") -> Shaders {\n    match (");
    let ghost opened = code@;
    let mut j: usize = 0;
    assert(opened + Seq::<char>::empty() =~= opened);
    while j < params.len()
        invariant
            are_params(params@, options),
            j <= params@.len(),
            code@ == opened + joined(j as nat, scrutinee_piece(options)),
        decreases params@.len() - j,
    {
        let ghost so_far = joined(j as nat, scrutinee_piece(options));
        assert(params@[j as int].is_param(options[j as int]));
        if j > 0 {
            code.append(", ");
        }
        code.append(params[j].param_name.as_str());
        assert(code@ =~= opened + (so_far + scrutinee_piece(options)(j as int)));
        j = j + 1;
    }
    code.append(") {\n");
    assert(code@ =~= old(code)@ + ("#[inline(always)]\npub fn choose_shaders("@ + joined(
        options.len(),
        parameter_piece(options),
    ) + ") -> Shaders {\n    match ("@ + joined(options.len(), scrutinee_piece(options))
        + ") {\n"@));
}

/// The source file that embeds the shaders of a configuration.
pub fn generate_rust_code(
    config: &ShaderPermutationConfig,
    results: &Vec<&CompilationResult>,
) -> (result: String)
    requires
        config.names_differ(),
        are_hashed(results@),
    ensures
        result@ == code_text(*config, results@),
{
    let params = build_permutation_params(config);
    let field_params = build_field_perm_params(config);
    let shader_names = unique_shader_names(results);
    let ghost options = config.permutations@;
    let ghost fields = config.field_permutations@;
    let ghost names = texts(shader_names@);
    let ghost sizes = option_sizes(selected_values(options));

    let mut code = String::new();
    append_enums(&mut code, &params, Ghost(options));
    append_embeddings(&mut code, results);
    append_struct(&mut code, &shader_names, &config.path, &field_params, Ghost(fields));
    let ghost before_choice = code@;
    append_signature(&mut code, &params, Ghost(options));

    let lookup = result_lookup(results);
    let combos = param_combinations(&params);
    let ghost start = code@;
    proof {
        lemma_param_sizes(params@, options);
        assert(combos@.len() == rows(combos@).len());
        assert(start + Seq::<char>::empty() =~= start);
    }
    let mut r: usize = 0;
    while r < combos.len()
        invariant
            options == config.permutations@,
            names == texts(shader_names@),
            are_params(params@, options),
            are_field_params(field_params@, config.field_permutations@),
            are_hashed(results@),
            is_lookup(map_entries(lookup), result_ids(results@)),
            sizes == option_sizes(selected_values(options)),
            sizes == param_sizes(params@),
            rows(combos@) == combinations(sizes),
            combos@.len() == combination_count(sizes),
            r <= combos@.len(),
            code@ == start + joined(r as nat, arm_piece(names, *config, results@)),
        decreases combos@.len() - r,
    {
        let ghost so_far = joined(r as nat, arm_piece(names, *config, results@));
        proof {
            assert(rows(combos@)[r as int] == combination(sizes, r as int));
            law_combination_bounds(sizes, r as int);
        }
        append_arm(
            &mut code,
            &shader_names,
            config,
            &params,
            &field_params,
            results,
            &lookup,
            &combos[r],
        );
        assert(code@ =~= start + (so_far + arm_piece(names, *config, results@)(r as int)));
        r = r + 1;
    }
    code.append("    }\n}\n");
    proof {
        assert(code@ =~= before_choice + choice_text(names, *config, results@));
        assert(code@ =~= code_text(*config, results@));
    }
    code
}

/// `joined` over two parts.
proof fn lemma_joined_split(
    values: Seq<Seq<Seq<char>>>,
    more_values: Seq<Seq<Seq<char>>>,
    selected: Seq<usize>,
    field: Seq<usize>,
    n: nat,
)
    requires
        selected.len() == values.len(),
        field.len() == more_values.len(),
        n <= field.len(),
    ensures
        joined(selected.len() + n, id_piece(values + more_values, selected + field)) == joined(
            selected.len(),
            id_piece(values, selected),
        ) + joined(n, id_piece(more_values, field)),
    decreases n,
{
    let all = id_piece(values + more_values, selected + field);
    if n == 0 {
        lemma_joined_prefix(values, more_values, selected, field, selected.len());
        assert(joined(selected.len(), all) + Seq::<char>::empty() =~= joined(selected.len(), all));
    } else {
        lemma_joined_split(values, more_values, selected, field, (n - 1) as nat);
        let first = joined(selected.len(), id_piece(values, selected));
        let second = joined((n - 1) as nat, id_piece(more_values, field));
        let piece = id_piece(more_values, field)(n - 1);
        assert(all(selected.len() + n - 1) == piece);
        assert(first + second + piece =~= first + (second + piece));
    }
}

/// The first part of `joined` over two parts.
proof fn lemma_joined_prefix(
    values: Seq<Seq<Seq<char>>>,
    more_values: Seq<Seq<Seq<char>>>,
    selected: Seq<usize>,
    field: Seq<usize>,
    n: nat,
)
    requires
        selected.len() == values.len(),
        n <= selected.len(),
    ensures
        joined(n, id_piece(values + more_values, selected + field)) == joined(
            n,
            id_piece(values, selected),
        ),
    decreases n,
{
    if n > 0 {
        lemma_joined_prefix(values, more_values, selected, field, (n - 1) as nat);
        assert(id_piece(values + more_values, selected + field)(n - 1) == id_piece(
            values,
            selected,
        )(n - 1));
    }
}

/// The permutation that the generated code looks up for a choice of values is the one that is
/// compiled with these values.
pub proof fn law_lookup_matches_compilation(
    shader_name: Seq<char>,
    config: ShaderPermutationConfig,
    selected: Seq<usize>,
    field: Seq<usize>,
)
    requires
        selected.len() == config.permutations@.len(),
        field.len() == config.field_permutations@.len(),
    ensures
        lookup_id(shader_name, config, selected, field) == id_text(
            shader_name,
            option_values(config),
            selected + field,
        ),
{
    let values = selected_values(config.permutations@);
    let more_values = field_values(config.field_permutations@);
    lemma_joined_split(values, more_values, selected, field, field.len());
    let first = joined(selected.len(), id_piece(values, selected));
    let second = joined(field.len(), id_piece(more_values, field));
    assert((selected + field).len() == selected.len() + field.len());
    assert(shader_name + first + second =~= shader_name + (first + second));
}

/// Every permutation that was compiled is embedded under the hash of its last result, and every
/// other one is empty.
pub proof fn law_compiled_is_embedded(results: Seq<&CompilationResult>, id: Seq<char>)
    ensures
        result_ids(results).contains(id) ==> exists|k: int|
            {
                &&& 0 <= k < results.len()
                &&& (#[trigger] results[k]).permutation_id@ == id
                &&& forall|j: int|
                    k < j < results.len() ==> (#[trigger] results[j]).permutation_id@ != id
                &&& embedded(results, id) == hash_var(results[k].content_hash@)
            },
        !result_ids(results).contains(id) ==> embedded(results, id) == "&[]"@,
{
    lemma_find_last(result_ids(results), id);
    if result_ids(results).contains(id) {
        let k = find_last(result_ids(results), id)->0;
        assert(results[k].permutation_id@ == id);
        assert forall|j: int| k < j < results.len() implies (#[trigger] results[j]).permutation_id@
            != id by {
            assert(result_ids(results)[j] == results[j].permutation_id@);
        }
    }
}

/// Every hash that a field refers to is embedded, exactly once.
pub proof fn law_hashes_embedded_once(results: Seq<&CompilationResult>, i: int)
    requires
        0 <= i < results.len() <= usize::MAX,
    ensures
        ({
            let entries = first_entries(result_hashes(results));
            let hash = results[i].content_hash@;
            &&& exists|k: int| 0 <= k < entries.len() && (#[trigger] entries[k]).0 == hash
            &&& forall|j: int, k: int|
                0 <= j < entries.len() && 0 <= k < entries.len() && (#[trigger] entries[j]).0
                    == hash && (#[trigger] entries[k]).0 == hash ==> j == k
        }),
{
    let all = result_hashes(results);
    let hash = results[i].content_hash@;
    lemma_first_entries(all, hash);
    lemma_first_entries_distinct(all);
    assert(all[i] == hash);
    assert(has_key(first_entries(all), hash));
}

/// No text occurs twice among the first entries.
proof fn lemma_first_entries_distinct(all: Seq<Seq<char>>)
    requires
        all.len() <= usize::MAX,
    ensures
        forall|j: int, k: int|
            0 <= j < k < first_entries(all).len() ==> (#[trigger] first_entries(all)[j]).0 != (
            #[trigger] first_entries(all)[k]).0,
    decreases all.len(),
{
    if all.len() > 0 {
        let rest = all.drop_last();
        lemma_first_entries_distinct(rest);
        lemma_first_entries(rest, all.last());
        let entries = first_entries(all);
        let shorter = first_entries(rest);
        if !rest.contains(all.last()) {
            assert forall|j: int, k: int| 0 <= j < k < entries.len() implies (#[trigger] entries[j]).0
                != (#[trigger] entries[k]).0 by {
                assert(entries[j] == shorter[j]);
                if k < shorter.len() {
                    assert(entries[k] == shorter[k]);
                } else {
                    assert(shorter[j].0 != all.last()) by {
                        if shorter[j].0 == all.last() {
                            assert(has_key(shorter, all.last()));
                        }
                    }
                }
            }
        }
    }
}

/// The embedded shaders stand in the order in which they occur first, each with the first result
/// that has its hash.
pub proof fn law_first_occurrences(all: Seq<Seq<char>>, j: int, k: int)
    requires
        all.len() <= usize::MAX,
        0 <= j < k < first_entries(all).len(),
    ensures
        first_entries(all)[j].1 < first_entries(all)[k].1 < all.len(),
        all[first_entries(all)[k].1 as int] == first_entries(all)[k].0,
        forall|i: int|
            0 <= i < first_entries(all)[k].1 ==> #[trigger] all[i] != first_entries(all)[k].0,
        forall|i: int|
            0 <= i < first_entries(all)[j].1 ==> #[trigger] all[i] != first_entries(all)[j].0,
{
    lemma_first_occurrence(all, j);
    lemma_first_occurrence(all, k);
    lemma_entries_increase(all, j, k);
}

/// No earlier text is the same as a first entry.
proof fn lemma_first_occurrence(all: Seq<Seq<char>>, k: int)
    requires
        all.len() <= usize::MAX,
        0 <= k < first_entries(all).len(),
    ensures
        first_entries(all)[k].1 < all.len(),
        all[first_entries(all)[k].1 as int] == first_entries(all)[k].0,
        forall|i: int|
            0 <= i < first_entries(all)[k].1 ==> #[trigger] all[i] != first_entries(all)[k].0,
    decreases all.len(),
{
    if all.len() > 0 {
        let rest = all.drop_last();
        let shorter = first_entries(rest);
        if k < shorter.len() {
            lemma_first_occurrence(rest, k);
            assert(first_entries(all)[k] == shorter[k]);
            let entry = shorter[k];
            assert(all[entry.1 as int] == rest[entry.1 as int]);
            assert forall|i: int| 0 <= i < entry.1 implies #[trigger] all[i] != entry.0 by {
                assert(rest[i] == all[i]);
            }
        } else {
            let entry = first_entries(all)[k];
            assert(entry == (all.last(), (all.len() - 1) as usize));
            assert forall|i: int| 0 <= i < entry.1 implies #[trigger] all[i] != entry.0 by {
                assert(rest[i] == all[i]);
                assert(!rest.contains(all.last()));
            }
        }
    }
}

/// First entries come in order.
proof fn lemma_entries_increase(all: Seq<Seq<char>>, j: int, k: int)
    requires
        all.len() <= usize::MAX,
        0 <= j < k < first_entries(all).len(),
    ensures
        first_entries(all)[j].1 < first_entries(all)[k].1,
    decreases all.len(),
{
    if all.len() > 0 {
        let rest = all.drop_last();
        let shorter = first_entries(rest);
        if k < shorter.len() {
            lemma_entries_increase(rest, j, k);
        } else {
            lemma_first_occurrence(rest, j);
        }
    }
}

/// The variable of a shader is named after the first eight digits of its hash in upper case, and
/// so after no hash with other digits there.
pub proof fn law_hash_variables(a: Seq<char>, b: Seq<char>)
    requires
        is_hash(a),
        is_hash(b),
    ensures
        hash_var(a) == "SHADER_"@ + ascii_upper_text(a.take(8)),
        hash_var(a) == hash_var(b) <==> a.take(8) == b.take(8),
{
    law_hashes_can_be_cut(a);
    law_hashes_can_be_cut(b);
    let x = a.take(8);
    let y = b.take(8);
    assert forall|i: int| 0 <= i < 8 implies (#[trigger] x[i] as u32) < 128 && (y[i] as u32)
        < 128 by {
        assert(x[i] == a[i]);
        assert(y[i] == b[i]);
    }
    assert(is_ascii_text(x));
    assert forall|i: int| 0 <= i < y.len() implies (#[trigger] y[i] as u32) < 128 by {
        assert(y[i] == b[i]);
    }
    assert(is_ascii_text(y));
    if hash_var(a) == hash_var(b) {
        reveal_strlit("SHADER_");
        let u = ascii_upper_text(x);
        let v = ascii_upper_text(y);
        assert(hash_var(a).skip(7) =~= u);
        assert(hash_var(b).skip(7) =~= v);
        assert forall|i: int| 0 <= i < 8 implies x[i] == y[i] by {
            assert(u[i] == v[i]);
            assert(x[i] == a[i] && y[i] == b[i]);
        }
        assert(x =~= y);
    }
}

/// What a field refers to is what is compiled with the values of the arm that it stands in and of
/// its own suffixes.
pub proof fn law_fields_refer_to_their_values(
    shader_name: Seq<char>,
    config: ShaderPermutationConfig,
    results: Seq<&CompilationResult>,
    selected: Seq<usize>,
    c: int,
)
    requires
        selected.len() == config.permutations@.len(),
        0 <= c < combination_count(option_sizes(field_values(config.field_permutations@))),
    ensures
        ({
            let fields = config.field_permutations@;
            let combo = combination(option_sizes(field_values(fields)), c);
            let field = suffixed_text(field_name_text(shader_name, config.path), fields, combo);
            let shader = embedded(
                results,
                id_text(shader_name, option_values(config), selected + combo),
            );
            value_line(shader_name, config, results, selected)(c) == "            "@ + field
                + ": "@ + shader + ",\n"@
        }),
{
    let sizes = option_sizes(field_values(config.field_permutations@));
    law_combination_bounds(sizes, c);
    law_lookup_matches_compilation(shader_name, config, selected, combination(sizes, c));
}

/// The fields that are declared are the fields that every arm fills.
pub proof fn law_declared_fields_are_filled(
    shader_name: Seq<char>,
    config: ShaderPermutationConfig,
    results: Seq<&CompilationResult>,
    selected: Seq<usize>,
    c: int,
)
    ensures
        ({
            let field = combo_field(shader_name, config.path, config.field_permutations@, c);
            let declared = field_line(shader_name, config.path, config.field_permutations@)(c);
            let filled = value_line(shader_name, config, results, selected)(c);
            &&& ("    pub "@ + field + ": "@).is_prefix_of(declared)
            &&& ("            "@ + field + ": "@).is_prefix_of(filled)
        }),
{
    reveal_strlit(": ");
    reveal_strlit(": &'static [u8],\n");
    let field = combo_field(shader_name, config.path, config.field_permutations@, c);
    let declared = field_line(shader_name, config.path, config.field_permutations@)(c);
    let filled = value_line(shader_name, config, results, selected)(c);
    assert(("    pub "@ + field + ": "@).is_prefix_of(declared));
    assert(("            "@ + field + ": "@).is_prefix_of(filled));
}

/// The line that embeds a shader names the variable of its hash, and the file of the first result
/// that has this hash.
pub proof fn law_embedded_files(results: Seq<&CompilationResult>, k: int) -> (i: int)
    requires
        results.len() <= usize::MAX,
        0 <= k < first_entries(result_hashes(results)).len(),
    ensures
        0 <= i < results.len(),
        forall|j: int|
            0 <= j < i ==> (#[trigger] results[j]).content_hash@ != results[i].content_hash@,
        embed_line(results, first_entries(result_hashes(results)))(k) == "    "@ + hash_var(
            results[i].content_hash@,
        ) + " = \""@ + results[i].file_name@ + "\",\n"@,
{
    let all = result_hashes(results);
    lemma_first_occurrence(all, k);
    let i = first_entries(all)[k].1 as int;
    assert(all[i] == results[i].content_hash@);
    assert forall|j: int| 0 <= j < i implies (#[trigger] results[j]).content_hash@
        != results[i].content_hash@ by {
        assert(all[j] == results[j].content_hash@);
    }
    i
}

/// The choice function matches on its parameters in their order, and each part of a pattern is a
/// variant of the enum of the parameter in its place.
pub proof fn law_patterns_match_parameters(
    options: Seq<(String, PermutationSpec)>,
    combo: Seq<usize>,
    i: int,
)
    ensures
        parameter_piece(options)(i) == scrutinee_piece(options)(i) + ": "@ + enum_name_text(
            options[i].0@,
        ),
        scrutinee_piece(options)(i) == (if i > 0 {
            ", "@
        } else {
            Seq::empty()
        }) + param_name_text(options[i].0@),
        pattern_piece(options, combo)(i) == (if i > 0 {
            ", "@
        } else {
            Seq::empty()
        }) + enum_name_text(options[i].0@) + "::"@
            + options[i].1.variant_names()[combo[i] as int],
{
}

} // verus!

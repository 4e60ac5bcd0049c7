//! The options of a configuration as the generated code sees them.

use crate::shader_build::compile::CompilationResult;
use crate::shader_build::config::{
    define_texts,
    derived_names,
    variant_names_for_values,
    FieldPermutationConfig,
    PermutationSpec,
    ShaderPermutationConfig,
};
use crate::shader_build::names::{
    define_to_enum_name,
    define_to_param_name,
    enum_name_text,
    param_name_text,
};
use crate::shader_build::permutations::{field_values, option_sizes, selected_values};
use crate::shader_build::product::{
    cartesian_product_indices,
    combination,
    combination_count,
    combinations,
    law_combination_bounds,
    rows,
};
use crate::text::{
    comes_before,
    joined,
    lemma_joined_same,
    lemma_order_total,
    lemma_order_transitive,
    optional_text,
    same_text,
    text_before,
    texts,
};
use vstd::prelude::*;
use vstd::string::StringExecFns;

verus! {

/// One value of an option that the program selects from.
#[derive(Debug)]
pub struct PermVariant {
    /// The value as the compiler gets it.
    pub define_value: String,
    /// The name of the enum variant.
    pub variant_name: String,
}

/// An option that the program selects from.
#[derive(Debug)]
pub struct PermutationParam {
    /// The name of its enum.
    pub enum_name: String,
    /// The name of its parameter.
    pub param_name: String,
    /// Its values.
    pub variants: Vec<PermVariant>,
}

/// One value of an option whose values the program gets all.
#[derive(Debug)]
pub struct FieldPermVariant {
    /// The value as the compiler gets it.
    pub define_value: String,
    /// `None` for the default (first) variant.
    pub field_suffix: Option<String>,
}

/// An option whose values the program gets all.
#[derive(Debug)]
pub struct FieldPermParam {
    /// Its values.
    pub variants: Vec<FieldPermVariant>,
}

impl PermutationParam {
    /// Whether this is the parameter for an option.
    pub open spec fn is_param(self, option: (String, PermutationSpec)) -> bool {
        let values = option.1.value_texts();
        let names = option.1.variant_names();
        &&& self.enum_name@ == enum_name_text(option.0@)
        &&& self.param_name@ == param_name_text(option.0@)
        &&& self.variants@.len() == values.len()
        &&& forall|i: int|
            0 <= i < values.len() ==> (#[trigger] self.variants@[i]).define_value@ == values[i]
                && self.variants@[i].variant_name@ == names[i]
    }
}

/// The suffix of value number `i` of an option: none for the default.
pub open spec fn field_suffix(option: FieldPermutationConfig, i: int) -> Option<Seq<char>> {
    if i == 0 {
        None
    } else {
        Some(option.suffix@)
    }
}

impl FieldPermParam {
    /// Whether this is the parameter for an option.
    pub open spec fn is_param(self, option: FieldPermutationConfig) -> bool {
        &&& self.variants@.len() == option.values@.len()
        &&& forall|i: int|
            0 <= i < option.values@.len() ==> (#[trigger] self.variants@[i]).define_value@
                == option.values@[i].define_text() && optional_text(self.variants@[i].field_suffix)
                == field_suffix(option, i)
    }
}

/// Whether `params` are the parameters for the options that the program selects from.
pub open spec fn are_params(
    params: Seq<PermutationParam>,
    options: Seq<(String, PermutationSpec)>,
) -> bool {
    &&& params.len() == options.len()
    &&& forall|i: int| 0 <= i < params.len() ==> (#[trigger] params[i]).is_param(options[i])
}

/// Whether `params` are the parameters for the options whose values the program gets all.
pub open spec fn are_field_params(
    params: Seq<FieldPermParam>,
    options: Seq<(String, FieldPermutationConfig)>,
) -> bool {
    &&& params.len() == options.len()
    &&& forall|i: int| 0 <= i < params.len() ==> (#[trigger] params[i]).is_param(options[i].1)
}

/// Every value has a name.
pub proof fn lemma_names_match(option: PermutationSpec)
    ensures
        option.variant_names().len() == option.value_texts().len(),
{
    if let PermutationSpec::Values(values) = option {
        let given = define_texts(values@);
        if given == seq!["0"@, "1"@] {
            assert(given.len() == 2);
        } else if given == seq!["0"@] {
            assert(given.len() == 1);
        }
    }
}

/// The values of an option with their names.
fn variants_of(option: &PermutationSpec) -> (result: Vec<PermVariant>)
    ensures
        result@.len() == option.value_texts().len(),
        forall|i: int|
            0 <= i < result@.len() ==> (#[trigger] result@[i]).define_value@
                == option.value_texts()[i] && result@[i].variant_name@ == option.variant_names()[i],
{
    let mut variants: Vec<PermVariant> = Vec::new();
    proof {
        lemma_names_match(*option);
    }
    match option {
        PermutationSpec::Values(values) => {
            let names = variant_names_for_values(values);
            let ghost given = define_texts(values@);
            assert(names@.len() == texts(names@).len() == values@.len());
            let mut i: usize = 0;
            while i < values.len()
                invariant
                    i <= values@.len(),
                    names@.len() == values@.len(),
                    given == define_texts(values@),
                    texts(names@) == derived_names(given),
                    variants@.len() == i,
                    forall|k: int|
                        0 <= k < i ==> (#[trigger] variants@[k]).define_value@ == given[k]
                            && variants@[k].variant_name@ == derived_names(given)[k],
                decreases values@.len() - i,
            {
                assert(texts(names@)[i as int] == names@[i as int]@);
                variants.push(
                    PermVariant {
                        define_value: values[i].to_define_string(),
                        variant_name: names[i].clone(),
                    },
                );
                i = i + 1;
            }
        },
        PermutationSpec::Named(pairs) => {
            let mut i: usize = 0;
            while i < pairs.len()
                invariant
                    i <= pairs@.len(),
                    variants@.len() == i,
                    forall|k: int|
                        0 <= k < i ==> (#[trigger] variants@[k]).define_value@
                            == pairs@[k].1.define_text() && variants@[k].variant_name@
                            == pairs@[k].0@,
                decreases pairs@.len() - i,
            {
                variants.push(
                    PermVariant {
                        define_value: pairs[i].1.to_define_string(),
                        variant_name: pairs[i].0.clone(),
                    },
                );
                i = i + 1;
            }
        },
    }
    variants
}

/// The parameters for the options that the program selects from.
pub fn build_permutation_params(config: &ShaderPermutationConfig) -> (result: Vec<PermutationParam>)
    ensures
        are_params(result@, config.permutations@),
{
    let mut params: Vec<PermutationParam> = Vec::new();
    let mut i: usize = 0;
    while i < config.permutations.len()
        invariant
            i <= config.permutations@.len(),
            params@.len() == i,
            forall|k: int|
                0 <= k < i ==> (#[trigger] params@[k]).is_param(config.permutations@[k]),
        decreases config.permutations@.len() - i,
    {
        let define_name = &config.permutations[i].0;
        let param = PermutationParam {
            enum_name: define_to_enum_name(define_name.as_str()),
            param_name: define_to_param_name(define_name.as_str()),
            variants: variants_of(&config.permutations[i].1),
        };
        assert(param.is_param(config.permutations@[i as int]));
        params.push(param);
        i = i + 1;
    }
    params
}

/// The parameter for an option whose values the program gets all.
fn field_param(option: &FieldPermutationConfig) -> (result: FieldPermParam)
    ensures
        result.is_param(*option),
{
    let mut variants: Vec<FieldPermVariant> = Vec::new();
    let mut i: usize = 0;
    while i < option.values.len()
        invariant
            i <= option.values@.len(),
            variants@.len() == i,
            forall|k: int|
                0 <= k < i ==> (#[trigger] variants@[k]).define_value@
                    == option.values@[k].define_text() && optional_text(variants@[k].field_suffix)
                    == field_suffix(*option, k),
        decreases option.values@.len() - i,
    {
        let suffix: Option<String> = if i == 0 {
            None
        } else {
            Some(option.suffix.clone())
        };
        variants.push(
            FieldPermVariant {
                define_value: option.values[i].to_define_string(),
                field_suffix: suffix,
            },
        );
        i = i + 1;
    }
    FieldPermParam { variants }
}

/// The parameters for the options whose values the program gets all.
pub fn build_field_perm_params(config: &ShaderPermutationConfig) -> (result: Vec<FieldPermParam>)
    ensures
        are_field_params(result@, config.field_permutations@),
{
    let mut params: Vec<FieldPermParam> = Vec::new();
    let mut i: usize = 0;
    while i < config.field_permutations.len()
        invariant
            i <= config.field_permutations@.len(),
            params@.len() == i,
            forall|k: int|
                0 <= k < i ==> (#[trigger] params@[k]).is_param(config.field_permutations@[k].1),
        decreases config.field_permutations@.len() - i,
    {
        params.push(field_param(&config.field_permutations[i].1));
        i = i + 1;
    }
    params
}

/// How many values each parameter has.
pub open spec fn param_sizes(params: Seq<PermutationParam>) -> Seq<usize> {
    Seq::new(params.len(), |i: int| params[i].variants@.len() as usize)
}

/// How many values each parameter has.
pub open spec fn field_param_sizes(params: Seq<FieldPermParam>) -> Seq<usize> {
    Seq::new(params.len(), |i: int| params[i].variants@.len() as usize)
}

/// Parameters have as many values as their options.
pub proof fn lemma_param_sizes(
    params: Seq<PermutationParam>,
    options: Seq<(String, PermutationSpec)>,
)
    requires
        are_params(params, options),
    ensures
        param_sizes(params) == option_sizes(selected_values(options)),
{
    let expected = option_sizes(selected_values(options));
    assert forall|k: int| 0 <= k < params.len() implies param_sizes(params)[k] == expected[k] by {
        assert(params[k].is_param(options[k]));
    }
    assert(param_sizes(params) =~= expected);
}

/// Parameters have as many values as their options.
pub proof fn lemma_field_param_sizes(
    params: Seq<FieldPermParam>,
    options: Seq<(String, FieldPermutationConfig)>,
)
    requires
        are_field_params(params, options),
    ensures
        field_param_sizes(params) == option_sizes(field_values(options)),
{
    let expected = option_sizes(field_values(options));
    assert forall|k: int| 0 <= k < params.len() implies field_param_sizes(params)[k]
        == expected[k] by {
        assert(params[k].is_param(options[k].1));
    }
    assert(field_param_sizes(params) =~= expected);
}

/// All combinations of the values of several parameters.
pub fn param_combinations(params: &Vec<PermutationParam>) -> (result: Vec<Vec<usize>>)
    ensures
        rows(result@) == combinations(param_sizes(params@)),
{
    let mut sizes: Vec<usize> = Vec::new();
    let mut i: usize = 0;
    while i < params.len()
        invariant
            i <= params@.len(),
            sizes@.len() == i,
            forall|k: int| 0 <= k < i ==> #[trigger] sizes@[k] == params@[k].variants@.len(),
        decreases params@.len() - i,
    {
        sizes.push(params[i].variants.len());
        i = i + 1;
    }
    assert(sizes@ =~= param_sizes(params@));
    cartesian_product_indices(&sizes)
}

/// All combinations of the values of several parameters.
pub fn field_param_combinations(params: &Vec<FieldPermParam>) -> (result: Vec<Vec<usize>>)
    ensures
        rows(result@) == combinations(field_param_sizes(params@)),
{
    let mut sizes: Vec<usize> = Vec::new();
    let mut i: usize = 0;
    while i < params.len()
        invariant
            i <= params@.len(),
            sizes@.len() == i,
            forall|k: int| 0 <= k < i ==> #[trigger] sizes@[k] == params@[k].variants@.len(),
        decreases params@.len() - i,
    {
        sizes.push(params[i].variants.len());
        i = i + 1;
    }
    assert(sizes@ =~= field_param_sizes(params@));
    cartesian_product_indices(&sizes)
}

/// What option `i` contributes to a field name.
pub open spec fn suffix_piece(
    options: Seq<(String, FieldPermutationConfig)>,
    combo: Seq<usize>,
) -> spec_fn(int) -> Seq<char> {
    |i: int|
        match field_suffix(options[i].1, combo[i] as int) {
            Some(suffix) => "_"@ + suffix,
            None => Seq::empty(),
        }
}

/// The name of a field in a combination of options.
pub open spec fn suffixed_text(
    base: Seq<char>,
    options: Seq<(String, FieldPermutationConfig)>,
    combo: Seq<usize>,
) -> Seq<char> {
    base + joined(combo.len(), suffix_piece(options, combo))
}

/// What suffix `i` contributes to a field name.
pub open spec fn given_suffix_piece(suffixes: Seq<Option<String>>) -> spec_fn(int) -> Seq<char> {
    |i: int|
        match optional_text(suffixes[i]) {
            Some(suffix) => "_"@ + suffix,
            None => Seq::empty(),
        }
}

/// Whether `suffixes` are those of a combination's values.
pub open spec fn are_suffixes(
    suffixes: Seq<Option<String>>,
    params: Seq<FieldPermParam>,
    combo: Seq<usize>,
) -> bool {
    &&& suffixes.len() == combo.len()
    &&& forall|i: int|
        0 <= i < combo.len() ==> optional_text(#[trigger] suffixes[i]) == optional_text(
            params[i].variants@[combo[i] as int].field_suffix,
        )
}

/// Whether a combination selects one value of each parameter.
pub open spec fn selects(combo: Seq<usize>, sizes: Seq<usize>) -> bool {
    &&& combo.len() == sizes.len()
    &&& forall|i: int| 0 <= i < combo.len() ==> #[trigger] combo[i] < sizes[i]
}

/// For each combination the suffixes of its values.
///
/// For a single field perm with values `[0, 1]` and suffix `"sharpen"`:
/// returns `[[None], [Some("sharpen")]]`.
pub fn field_suffix_combinations(field_params: &Vec<FieldPermParam>) -> (result: Vec<
    Vec<Option<String>>,
>)
    ensures
        result@.len() == combination_count(field_param_sizes(field_params@)),
        forall|c: int|
            0 <= c < result@.len() ==> are_suffixes(
                (#[trigger] result@[c])@,
                field_params@,
                combination(field_param_sizes(field_params@), c),
            ),
{
    let combos = field_param_combinations(field_params);
    let ghost sizes = field_param_sizes(field_params@);
    let mut all: Vec<Vec<Option<String>>> = Vec::new();
    let mut c: usize = 0;
    assert(combos@.len() == rows(combos@).len());
    while c < combos.len()
        invariant
            sizes == field_param_sizes(field_params@),
            rows(combos@) == combinations(sizes),
            combos@.len() == combination_count(sizes),
            c <= combos@.len(),
            all@.len() == c,
            forall|k: int|
                0 <= k < c ==> are_suffixes(
                    (#[trigger] all@[k])@,
                    field_params@,
                    combination(sizes, k),
                ),
        decreases combos@.len() - c,
    {
        proof {
            assert(rows(combos@)[c as int] == combination(sizes, c as int));
            law_combination_bounds(sizes, c as int);
        }
        all.push(suffixes_of(field_params, &combos[c]));
        c = c + 1;
    }
    all
}

/// The suffixes of a combination's values.
fn suffixes_of(field_params: &Vec<FieldPermParam>, combo: &Vec<usize>) -> (result: Vec<
    Option<String>,
>)
    requires
        selects(combo@, field_param_sizes(field_params@)),
    ensures
        are_suffixes(result@, field_params@, combo@),
{
    let mut suffixes: Vec<Option<String>> = Vec::new();
    let mut i: usize = 0;
    while i < combo.len()
        invariant
            selects(combo@, field_param_sizes(field_params@)),
            i <= combo@.len(),
            suffixes@.len() == i,
            forall|k: int|
                0 <= k < i ==> optional_text(#[trigger] suffixes@[k]) == optional_text(
                    field_params@[k].variants@[combo@[k] as int].field_suffix,
                ),
        decreases combo@.len() - i,
    {
        assert(combo@[i as int] < field_param_sizes(field_params@)[i as int]);
        let suffix: Option<String> = match &field_params[i].variants[combo[i]].field_suffix {
            Some(suffix) => Some(suffix.clone()),
            None => None,
        };
        suffixes.push(suffix);
        i = i + 1;
    }
    suffixes
}

/// `"accumulate"` + `[Some("sharpen")]` -> `"accumulate_sharpen"`.
pub fn apply_field_suffixes(base: &str, suffixes: &Vec<Option<String>>) -> (result: String)
    ensures
        result@ == base@ + joined(suffixes@.len(), given_suffix_piece(suffixes@)),
{
    let mut name = base.to_owned();
    let mut i: usize = 0;
    assert(base@ + Seq::<char>::empty() =~= base@);
    while i < suffixes.len()
        invariant
            i <= suffixes@.len(),
            name@ == base@ + joined(i as nat, given_suffix_piece(suffixes@)),
        decreases suffixes@.len() - i,
    {
        let ghost so_far = joined(i as nat, given_suffix_piece(suffixes@));
        match &suffixes[i] {
            Some(suffix) => {
                assert(base@ + so_far + "_"@ + suffix@ =~= base@ + (so_far + ("_"@ + suffix@)));
                name.append("_");
                name.append(suffix.as_str());
            },
            None => {
                assert(so_far + Seq::<char>::empty() =~= so_far);
            },
        }
        i = i + 1;
    }
    name
}

/// Suffixes give the same name, whether taken from the options or given.
pub proof fn lemma_same_suffixes(
    suffixes: Seq<Option<String>>,
    params: Seq<FieldPermParam>,
    options: Seq<(String, FieldPermutationConfig)>,
    combo: Seq<usize>,
    n: nat,
)
    requires
        are_field_params(params, options),
        are_suffixes(suffixes, params, combo),
        selects(combo, field_param_sizes(params)),
        n <= combo.len(),
    ensures
        joined(n, given_suffix_piece(suffixes)) == joined(n, suffix_piece(options, combo)),
    decreases n,
{
    if n > 0 {
        lemma_same_suffixes(suffixes, params, options, combo, (n - 1) as nat);
        assert(params[n - 1].is_param(options[n - 1].1));
        assert(combo[n - 1] < field_param_sizes(params)[n - 1]);
        assert(optional_text(suffixes[n - 1]) == optional_text(
            params[n - 1].variants@[combo[n - 1] as int].field_suffix,
        ));
    }
}

/// `names` with `name` in its place, unless it is there.
pub open spec fn with_name(names: Seq<Seq<char>>, name: Seq<char>) -> Seq<Seq<char>>
    decreases names.len(),
{
    if names.len() == 0 {
        seq![name]
    } else if names[0] == name {
        names
    } else if comes_before(name, names[0]) {
        seq![name] + names
    } else {
        seq![names[0]] + with_name(names.drop_first(), name)
    }
}

/// All texts once, in alphabetical order.
pub open spec fn sorted_names(all: Seq<Seq<char>>) -> Seq<Seq<char>>
    decreases all.len(),
{
    if all.len() == 0 {
        Seq::empty()
    } else {
        with_name(sorted_names(all.drop_last()), all.last())
    }
}

/// The shader names of several results.
pub open spec fn shader_name_texts(results: Seq<&CompilationResult>) -> Seq<Seq<char>> {
    Seq::new(results.len(), |i: int| results[i].shader_name@)
}

/// Put a name in its place, unless it is there.
fn insert_name(names: &mut Vec<String>, name: &String)
    ensures
        texts(final(names)@) == with_name(texts(old(names)@), name@),
{
    let ghost all = texts(names@);
    let mut p: usize = 0;
    while p < names.len() && text_before(names[p].as_str(), name.as_str())
        invariant
            all == texts(names@),
            p <= names@.len(),
            forall|k: int| 0 <= k < p ==> comes_before(#[trigger] all[k], name@),
        decreases names@.len() - p,
    {
        assert(all[p as int] == names@[p as int]@);
        p = p + 1;
    }
    proof {
        lemma_with_name(all, name@, p as int);
        if p < names@.len() {
            assert(all[p as int] == names@[p as int]@);
            lemma_order_total(name@, all[p as int]);
        }
    }
    if p < names.len() && same_text(names[p].as_str(), name.as_str()) {
        proof {
            assert(all.skip(p as int)[0] == name@);
            assert(all.take(p as int) + all.skip(p as int) =~= all);
        }
        return;
    }
    let copy = name.clone();
    proof {
        let rest = all.skip(p as int);
        if rest.len() > 0 {
            assert(rest[0] == all[p as int]);
            assert(with_name(rest, name@) == seq![name@] + rest);
        } else {
            assert(rest =~= Seq::empty());
            assert(with_name(rest, name@) =~= seq![name@] + rest);
        }
    }
    names.insert(p, copy);
    assert(texts(names@) =~= all.take(p as int) + (seq![name@] + all.skip(p as int)));
}

/// Names that come before stay where they are.
proof fn lemma_with_name(names: Seq<Seq<char>>, name: Seq<char>, p: int)
    requires
        0 <= p <= names.len(),
        forall|k: int| 0 <= k < p ==> comes_before(#[trigger] names[k], name),
    ensures
        with_name(names, name) == names.take(p) + with_name(names.skip(p), name),
    decreases p,
{
    if p == 0 {
        assert(names.skip(0) =~= names);
        assert(names.take(0) + with_name(names, name) =~= with_name(names, name));
    } else {
        let rest = names.drop_first();
        assert(comes_before(names[0], name));
        lemma_order_total(names[0], name);
        assert forall|k: int| 0 <= k < p - 1 implies comes_before(#[trigger] rest[k], name) by {
            assert(rest[k] == names[k + 1]);
        }
        lemma_with_name(rest, name, p - 1);
        assert(rest.skip(p - 1) =~= names.skip(p));
        assert(seq![names[0]] + (rest.take(p - 1) + with_name(names.skip(p), name))
            =~= names.take(p) + with_name(names.skip(p), name));
    }
}

/// The shader names of several results: each once, in alphabetical order.
pub fn unique_shader_names(results: &Vec<&CompilationResult>) -> (result: Vec<String>)
    ensures
        texts(result@) == sorted_names(shader_name_texts(results@)),
{
    let mut names: Vec<String> = Vec::new();
    let ghost all = shader_name_texts(results@);
    let mut i: usize = 0;
    proof {
        assert(all.take(0) =~= Seq::empty());
        assert(texts(names@) =~= sorted_names(all.take(0)));
    }
    while i < results.len()
        invariant
            i <= results@.len(),
            all == shader_name_texts(results@),
            texts(names@) == sorted_names(all.take(i as int)),
        decreases results@.len() - i,
    {
        proof {
            let longer = all.take(i + 1);
            assert(longer.drop_last() =~= all.take(i as int));
            assert(longer.last() == results@[i as int].shader_name@);
        }
        insert_name(&mut names, &results[i].shader_name);
        i = i + 1;
    }
    assert(all.take(i as int) =~= all);
    names
}

/// Whether texts are in alphabetical order, and no text occurs twice.
pub open spec fn is_sorted(names: Seq<Seq<char>>) -> bool {
    forall|i: int, j: int|
        0 <= i < j < names.len() ==> comes_before(#[trigger] names[i], #[trigger] names[j])
}

/// The sorted names are in order, and are the same names.
pub proof fn law_sorted_names(all: Seq<Seq<char>>)
    ensures
        is_sorted(sorted_names(all)),
        forall|name: Seq<char>| #[trigger]
            sorted_names(all).contains(name) <==> all.contains(name),
    decreases all.len(),
{
    if all.len() > 0 {
        let rest = all.drop_last();
        law_sorted_names(rest);
        lemma_with_name_sorted(sorted_names(rest), all.last());
        assert forall|name: Seq<char>| #[trigger] sorted_names(all).contains(name)
            <==> all.contains(name) by {
            assert(all =~= rest.push(all.last()));
            if rest.contains(name) {
                let k = choose|k: int| 0 <= k < rest.len() && rest[k] == name;
                assert(all[k] == name);
            }
            if name == all.last() {
                assert(all[all.len() - 1] == name);
            }
            if all.contains(name) && name != all.last() {
                let k = choose|k: int| 0 <= k < all.len() && all[k] == name;
                assert(rest[k] == name);
            }
        }
    }
}

/// Putting a name in its place keeps the order.
proof fn lemma_with_name_sorted(names: Seq<Seq<char>>, name: Seq<char>)
    requires
        is_sorted(names),
    ensures
        is_sorted(with_name(names, name)),
        forall|other: Seq<char>| #[trigger]
            with_name(names, name).contains(other) <==> names.contains(other) || other == name,
    decreases names.len(),
{
    let result = with_name(names, name);
    if names.len() == 0 {
        assert(result[0] == name);
    } else if names[0] == name {
        assert(names.contains(name));
    } else if comes_before(name, names[0]) {
        assert forall|i: int, j: int| 0 <= i < j < result.len() implies comes_before(
            #[trigger] result[i],
            #[trigger] result[j],
        ) by {
            assert(result[j] == names[j - 1]);
            if i > 0 {
                assert(result[i] == names[i - 1]);
            } else if j > 1 {
                lemma_order_transitive(name, names[0], names[j - 1]);
            }
        }
        assert forall|other: Seq<char>| #[trigger] result.contains(other) <==> names.contains(other)
            || other == name by {
            if names.contains(other) {
                let k = choose|k: int| 0 <= k < names.len() && names[k] == other;
                assert(result[k + 1] == other);
            }
            if other == name {
                assert(result[0] == name);
            }
            if result.contains(other) && other != name {
                let k = choose|k: int| 0 <= k < result.len() && result[k] == other;
                assert(names[k - 1] == other);
            }
        }
    } else {
        let rest = names.drop_first();
        assert forall|i: int, j: int| 0 <= i < j < rest.len() implies comes_before(
            #[trigger] rest[i],
            #[trigger] rest[j],
        ) by {
            assert(comes_before(names[i + 1], names[j + 1]));
        }
        lemma_with_name_sorted(rest, name);
        lemma_order_total(names[0], name);
        let tail = with_name(rest, name);
        assert forall|i: int, j: int| 0 <= i < j < result.len() implies comes_before(
            #[trigger] result[i],
            #[trigger] result[j],
        ) by {
            assert(result[j] == tail[j - 1]);
            assert(tail.contains(tail[j - 1]));
            if i > 0 {
                assert(result[i] == tail[i - 1]);
            } else if tail[j - 1] != name {
                assert(rest.contains(tail[j - 1]));
                let k = choose|k: int| 0 <= k < rest.len() && rest[k] == tail[j - 1];
                assert(comes_before(names[0], names[k + 1]));
            }
        }
        assert forall|other: Seq<char>| #[trigger] result.contains(other) <==> names.contains(other)
            || other == name by {
            if names.contains(other) {
                let k = choose|k: int| 0 <= k < names.len() && names[k] == other;
                if k == 0 {
                    assert(result[0] == other);
                } else {
                    assert(rest[k - 1] == other);
                    assert(tail.contains(other));
                }
            }
            if other == name {
                assert(tail.contains(other));
            }
            if tail.contains(other) {
                let k = choose|k: int| 0 <= k < tail.len() && tail[k] == other;
                assert(result[k + 1] == other);
            }
            if result.contains(other) {
                let k = choose|k: int| 0 <= k < result.len() && result[k] == other;
                if k > 0 {
                    assert(tail[k - 1] == other);
                    if other != name {
                        assert(rest.contains(other));
                        let m = choose|m: int| 0 <= m < rest.len() && rest[m] == other;
                        assert(names[m + 1] == other);
                    }
                } else {
                    assert(names[0] == other);
                }
            }
        }
    }
}

/// The variants of a parameter are the values of its option in their order, each under the name
/// that the option gives it.
pub proof fn law_variants_in_order(
    params: Seq<PermutationParam>,
    options: Seq<(String, PermutationSpec)>,
    k: int,
    j: int,
)
    requires
        are_params(params, options),
        0 <= k < options.len(),
    ensures
        options[k].1 matches PermutationSpec::Named(pairs) ==> {
            &&& params[k].variants@.len() == pairs@.len()
            &&& 0 <= j < pairs@.len() ==> {
                &&& params[k].variants@[j].variant_name@ == pairs@[j].0@
                &&& params[k].variants@[j].define_value@ == pairs@[j].1.define_text()
            }
        },
        options[k].1 matches PermutationSpec::Values(values) ==> {
            &&& params[k].variants@.len() == values@.len()
            &&& 0 <= j < values@.len() ==> params[k].variants@[j].define_value@
                == values@[j].define_text()
        },
{
    assert(params[k].is_param(options[k]));
}

/// A field whose options all have their default keeps its name, and each option with another value
/// appends an underscore and its suffix, in the order of the options.
pub proof fn law_field_suffixes(
    base: Seq<char>,
    options: Seq<(String, FieldPermutationConfig)>,
    combo: Seq<usize>,
)
    ensures
        combo.len() == 0 ==> suffixed_text(base, options, combo) == base,
        combo.len() > 0 && combo.last() == 0 ==> suffixed_text(base, options, combo)
            == suffixed_text(base, options, combo.drop_last()),
        combo.len() > 0 && combo.last() > 0 ==> suffixed_text(base, options, combo)
            == suffixed_text(base, options, combo.drop_last()) + seq!['_'] + options[combo.len()
            - 1].1.suffix@,
{
    let f = suffix_piece(options, combo);
    if combo.len() == 0 {
        assert(base + Seq::<char>::empty() =~= base);
    } else {
        let n = (combo.len() - 1) as nat;
        let g = suffix_piece(options, combo.drop_last());
        assert forall|i: int| 0 <= i < n implies #[trigger] f(i) == g(i) by {
            assert(combo.drop_last()[i] == combo[i]);
        }
        lemma_joined_same(n, f, g);
        reveal_strlit("_");
        assert(f(n as int) == (if combo.last() == 0 {
            Seq::<char>::empty()
        } else {
            "_"@ + options[combo.len() - 1].1.suffix@
        }));
        let so_far = joined(n, g);
        assert("_"@ =~= seq!['_']);
        assert(base + (so_far + Seq::<char>::empty()) =~= base + so_far);
        assert(base + (so_far + ("_"@ + options[combo.len() - 1].1.suffix@)) =~= base + so_far
            + seq!['_'] + options[combo.len() - 1].1.suffix@);
    }
}

} // verus!

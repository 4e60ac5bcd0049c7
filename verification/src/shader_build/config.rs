//! Permutation configuration: which options a shader is compiled with.

use crate::shader_build::names::{
    is_digit,
    is_lower,
    is_upper,
    is_valid_variant_name,
    is_variant_name,
};
use crate::text::{
    decimal,
    decimal_text,
    decimal_value,
    law_decimal_reads_back,
    law_sign_is_written,
    law_stripping,
    signed_decimal,
    signed_text,
    strip_prefix_or_all,
    strip_suffix_or_all,
    texts,
    without_prefix,
    without_suffix,
};
use vstd::prelude::*;
use vstd::string::StringExecFns;

verus! {

/// A value of an option.
#[derive(Debug)]
pub enum DefineValue {
    /// An integer.
    Integer(i64),
    /// A text, which is used as it is.
    Text(String),
    /// A truth value, which is written as 0 or 1.
    Boolean(bool),
    /// Anything else, already written out.
    Other(String),
}

impl DefineValue {
    /// The value as the compiler gets it.
    pub open spec fn define_text(self) -> Seq<char> {
        match self {
            DefineValue::Integer(i) => signed_text(i as int),
            DefineValue::Text(s) => s@,
            DefineValue::Boolean(b) => if b {
                "1"@
            } else {
                "0"@
            },
            DefineValue::Other(s) => s@,
        }
    }

    /// The value as the compiler gets it.
    pub fn to_define_string(&self) -> (result: String)
        ensures
            result@ == self.define_text(),
    {
        match self {
            DefineValue::Integer(i) => signed_decimal(*i),
            DefineValue::Text(s) => s.clone(),
            DefineValue::Boolean(b) => if *b {
                "1".to_owned()
            } else {
                "0".to_owned()
            },
            DefineValue::Other(s) => s.clone(),
        }
    }
}

/// Where the shaders of a configuration lie and how they are called.
#[derive(Debug)]
pub struct ShaderPathConfig {
    /// The directory below the one of all shader sources.
    pub subdirectory: String,
    /// What the shaders' file names start with.
    pub prefix: Option<String>,
    /// What the shaders' file names end with.
    pub suffix: Option<String>,
}

/// An option that yields further fields in place of an enum.
#[derive(Debug)]
pub struct FieldPermutationConfig {
    /// The values. The first is the default.
    pub values: Vec<DefineValue>,
    /// Suffix appended to struct field names for non-default variants.
    pub suffix: String,
}

/// One permutation: either a plain value list whose variant names
/// are derived (`[0, 1]` -> Off/On), or explicit variant-name -> define-value
/// pairs (`{ Core = 0, Tier2 = 1, Native = 2 }`) in declaration order.
#[derive(Debug)]
pub enum PermutationSpec {
    /// Values whose names are derived.
    Values(Vec<DefineValue>),
    /// Values with their names.
    Named(Vec<(String, DefineValue)>),
}

/// The options of a set of shaders.
#[derive(Debug)]
pub struct ShaderPermutationConfig {
    /// Where the shaders lie.
    pub path: ShaderPathConfig,
    /// Options with one value.
    pub base: Vec<(String, DefineValue)>,
    /// Options with several values, of which the program selects one.
    pub permutations: Vec<(String, PermutationSpec)>,
    /// Options with several values, all of which the program gets.
    pub field_permutations: Vec<(String, FieldPermutationConfig)>,
}

/// What is wrong with a configuration.
#[derive(Debug)]
pub enum ConfigError {
    /// A variant name is not a valid Rust identifier.
    InvalidVariantName {
        /// The option.
        define_name: String,
        /// The name.
        name: String,
    },
    /// Two values of an option are the same.
    DuplicateValues {
        /// The option.
        define_name: String,
        /// All its values.
        values: Vec<String>,
    },
}

/// Several values as the compiler gets them.
pub open spec fn define_texts(values: Seq<DefineValue>) -> Seq<Seq<char>> {
    Seq::new(values.len(), |i: int| values[i].define_text())
}

/// Several values as the compiler gets them.
pub fn define_strings(values: &Vec<DefineValue>) -> (result: Vec<String>)
    ensures
        texts(result@) == define_texts(values@),
{
    let mut strings: Vec<String> = Vec::new();
    let mut i: usize = 0;
    while i < values.len()
        invariant
            i <= values@.len(),
            strings@.len() == i,
            forall|k: int| 0 <= k < i ==> (#[trigger] strings@[k])@ == values@[k].define_text(),
        decreases values@.len() - i,
    {
        strings.push(values[i].to_define_string());
        i = i + 1;
    }
    assert(texts(strings@) =~= define_texts(values@));
    strings
}

impl PermutationSpec {
    /// The values, as the compiler gets them.
    pub open spec fn value_texts(self) -> Seq<Seq<char>> {
        match self {
            PermutationSpec::Values(values) => define_texts(values@),
            PermutationSpec::Named(pairs) => Seq::new(
                pairs@.len(),
                |i: int| pairs@[i].1.define_text(),
            ),
        }
    }

    /// The names of the variants.
    pub open spec fn variant_names(self) -> Seq<Seq<char>> {
        match self {
            PermutationSpec::Values(values) => derived_names(define_texts(values@)),
            PermutationSpec::Named(pairs) => Seq::new(pairs@.len(), |i: int| pairs@[i].0@),
        }
    }

    /// The values, as the compiler gets them.
    pub fn values(&self) -> (result: Vec<String>)
        ensures
            texts(result@) == self.value_texts(),
    {
        match self {
            PermutationSpec::Values(values) => define_strings(values),
            PermutationSpec::Named(pairs) => {
                let mut strings: Vec<String> = Vec::new();
                let mut i: usize = 0;
                while i < pairs.len()
                    invariant
                        i <= pairs@.len(),
                        strings@.len() == i,
                        forall|k: int|
                            0 <= k < i ==> (#[trigger] strings@[k])@ == pairs@[k].1.define_text(),
                    decreases pairs@.len() - i,
                {
                    strings.push(pairs[i].1.to_define_string());
                    i = i + 1;
                }
                assert(texts(strings@) =~= self.value_texts());
                strings
            },
        }
    }
}

/// `[0, 1]` -> `["Off", "On"]`, `[0]` -> `["Off"]`, otherwise `["Value0", "Value1", ...]`.
pub open spec fn derived_names(values: Seq<Seq<char>>) -> Seq<Seq<char>> {
    if values == seq!["0"@, "1"@] {
        seq!["Off"@, "On"@]
    } else if values == seq!["0"@] {
        seq!["Off"@]
    } else {
        Seq::new(values.len(), |i: int| "Value"@ + decimal_text(i as nat))
    }
}

/// `[0, 1]` -> `["Off", "On"]`, `[0]` -> `["Off"]`, otherwise `["Value0", "Value1", ...]`.
///
/// Defines whose values are not a simple on/off toggle should use the
/// [`PermutationSpec::Named`] form instead of relying on the fallback names.
pub fn variant_names_for_values(values: &Vec<DefineValue>) -> (result: Vec<String>)
    ensures
        texts(result@) == derived_names(define_texts(values@)),
{
    let strs = define_strings(values);
    let count: usize = strs.len();
    let ghost given = define_texts(values@);
    assert(texts(strs@) == given);
    let off_on: bool = count == 2 && crate::text::same_text(strs[0].as_str(), "0")
        && crate::text::same_text(strs[1].as_str(), "1");
    let off: bool = count == 1 && crate::text::same_text(strs[0].as_str(), "0");
    proof {
        if count > 0 {
            assert(given[0] == strs@[0]@);
        }
        if count > 1 {
            assert(given[1] == strs@[1]@);
        }
        if off_on {
            assert(given =~= seq!["0"@, "1"@]);
        } else if given == seq!["0"@, "1"@] {
            assert(given.len() == 2 && given[0] == "0"@ && given[1] == "1"@);
        }
        if off {
            assert(given =~= seq!["0"@]);
        } else if given == seq!["0"@] {
            assert(given.len() == 1 && given[0] == "0"@);
        }
    }
    let mut names: Vec<String> = Vec::new();
    if off_on {
        names.push("Off".to_owned());
        names.push("On".to_owned());
    } else if off {
        names.push("Off".to_owned());
    } else {
        let mut i: usize = 0;
        while i < count
            invariant
                i <= count,
                names@.len() == i,
                forall|k: int|
                    0 <= k < i ==> (#[trigger] names@[k])@ == "Value"@ + decimal_text(k as nat),
            decreases count - i,
        {
            let mut name = "Value".to_owned();
            name.append(decimal(i as u64).as_str());
            names.push(name);
            i = i + 1;
        }
    }
    assert(texts(names@) =~= derived_names(given));
    names
}

/// Whether an option has an invalid variant name, or the same value twice.
pub open spec fn is_faulty(spec: PermutationSpec) -> bool {
    ||| spec matches PermutationSpec::Named(pairs) && exists|i: int|
        0 <= i < pairs@.len() && !is_variant_name((#[trigger] pairs@[i]).0@)
    ||| !spec.value_texts().no_duplicates()
}

/// Whether `error` is what is wrong with an option: the first invalid variant name, or the
/// duplicate values where all names are valid.
pub open spec fn is_spec_error(
    error: ConfigError,
    define_name: Seq<char>,
    spec: PermutationSpec,
) -> bool {
    match error {
        ConfigError::InvalidVariantName { define_name: option, name } => {
            &&& option@ == define_name
            &&& spec matches PermutationSpec::Named(pairs) && exists|i: int|
                {
                    &&& 0 <= i < pairs@.len()
                    &&& name@ == (#[trigger] pairs@[i]).0@
                    &&& !is_variant_name(pairs@[i].0@)
                    &&& forall|k: int| 0 <= k < i ==> is_variant_name((#[trigger] pairs@[k]).0@)
                }
        },
        ConfigError::DuplicateValues { define_name: option, values } => {
            &&& option@ == define_name
            &&& texts(values@) == spec.value_texts()
            &&& !spec.value_texts().no_duplicates()
            &&& spec matches PermutationSpec::Named(pairs) ==> forall|k: int|
                0 <= k < pairs@.len() ==> is_variant_name((#[trigger] pairs@[k]).0@)
        },
    }
}

/// Whether no text occurs twice.
fn all_different(strings: &Vec<String>) -> (result: bool)
    ensures
        result == texts(strings@).no_duplicates(),
{
    let ghost all = texts(strings@);
    let mut i: usize = 0;
    while i < strings.len()
        invariant
            all == texts(strings@),
            i <= strings@.len(),
            forall|a: int, b: int|
                0 <= a < b < i ==> #[trigger] all[a] != #[trigger] all[b],
        decreases strings@.len() - i,
    {
        let mut j: usize = 0;
        while j < i
            invariant
                all == texts(strings@),
                j <= i < strings@.len(),
                forall|a: int| 0 <= a < j ==> #[trigger] all[a] != all[i as int],
            decreases i - j,
        {
            if crate::text::same_text(strings[j].as_str(), strings[i].as_str()) {
                assert(all[j as int] == all[i as int]);
                return false;
            }
            assert(all[j as int] == strings@[j as int]@);
            j = j + 1;
        }
        i = i + 1;
    }
    true
}

/// Check one option.
fn validate_spec(define_name: &String, spec: &PermutationSpec) -> (result: Result<(), ConfigError>)
    ensures
        match result {
            Ok(()) => !is_faulty(*spec),
            Err(error) => is_faulty(*spec) && is_spec_error(
                error,
                define_name@,
                *spec,
            ),
        },
{
    match spec {
        PermutationSpec::Named(pairs) => {
            let mut i: usize = 0;
            while i < pairs.len()
                invariant
                    i <= pairs@.len(),
                    *spec == PermutationSpec::Named(*pairs),
                    forall|k: int| 0 <= k < i ==> is_variant_name((#[trigger] pairs@[k]).0@),
                decreases pairs@.len() - i,
            {
                if !is_valid_variant_name(pairs[i].0.as_str()) {
                    let name = pairs[i].0.clone();
                    let option = define_name.clone();
                    let error = ConfigError::InvalidVariantName { define_name: option, name };
                    proof {
                        let pair = spec->Named_0@[i as int];
                        assert(!is_variant_name(pair.0@));
                        assert(is_faulty(*spec));
                        assert(name@ == pair.0@);
                        assert(is_spec_error(error, define_name@, *spec));
                    }
                    return Err(error);
                }
                i = i + 1;
            }
        },
        PermutationSpec::Values(_) => {},
    }
    let values = spec.values();
    if all_different(&values) {
        Ok(())
    } else {
        Err(ConfigError::DuplicateValues { define_name: define_name.clone(), values })
    }
}

/// The names of several pairs.
pub open spec fn pair_names<V>(pairs: Seq<(String, V)>) -> Seq<Seq<char>> {
    Seq::new(pairs.len(), |i: int| pairs[i].0@)
}

/// Whether no name of several pairs occurs twice.
fn pairs_differ<V>(pairs: &Vec<(String, V)>) -> (result: bool)
    ensures
        result == pair_names(pairs@).no_duplicates(),
{
    let mut names: Vec<String> = Vec::new();
    let mut i: usize = 0;
    while i < pairs.len()
        invariant
            i <= pairs@.len(),
            names@.len() == i,
            forall|k: int| 0 <= k < i ==> (#[trigger] names@[k])@ == pairs@[k].0@,
        decreases pairs@.len() - i,
    {
        names.push(pairs[i].0.clone());
        i = i + 1;
    }
    assert(texts(names@) =~= pair_names(pairs@));
    all_different(&names)
}

impl ShaderPermutationConfig {
    /// Whether the variants of option number `i` have different names, where it names them.
    pub open spec fn variants_differ(self, i: int) -> bool {
        self.permutations@[i].1 matches PermutationSpec::Named(pairs) ==> pair_names(
            pairs@,
        ).no_duplicates()
    }

    /// Whether every table of the configuration holds each of its names once.
    pub open spec fn names_differ(self) -> bool {
        &&& pair_names(self.base@).no_duplicates()
        &&& pair_names(self.permutations@).no_duplicates()
        &&& pair_names(self.field_permutations@).no_duplicates()
        &&& forall|i: int|
            0 <= i < self.permutations@.len() ==> #[trigger] self.variants_differ(i)
    }

    /// Whether every table of the configuration holds each of its names once, as tables do that
    /// are read from a file.
    pub fn has_distinct_names(&self) -> (result: bool)
        ensures
            result == self.names_differ(),
    {
        if !pairs_differ(&self.base) || !pairs_differ(&self.permutations) || !pairs_differ(
            &self.field_permutations,
        ) {
            return false;
        }
        let mut i: usize = 0;
        while i < self.permutations.len()
            invariant
                i <= self.permutations@.len(),
                forall|k: int| 0 <= k < i ==> #[trigger] self.variants_differ(k),
            decreases self.permutations@.len() - i,
        {
            if let PermutationSpec::Named(pairs) = &self.permutations[i].1 {
                if !pairs_differ(pairs) {
                    assert(!self.variants_differ(i as int));
                    return false;
                }
            }
            assert(self.variants_differ(i as int));
            i = i + 1;
        }
        true
    }

    /// Whether option number `i` is faulty.
    pub open spec fn is_fault(self, i: int) -> bool {
        is_faulty(self.permutations@[i].1)
    }

    /// Check that variant names are valid and that no option has the same value twice.
    pub fn validate(&self) -> (result: Result<(), ConfigError>)
        requires
            self.names_differ(),
        ensures
            match result {
                Ok(()) => forall|i: int|
                    0 <= i < self.permutations@.len() ==> !#[trigger] self.is_fault(i),
                Err(error) => exists|i: int|
                    {
                        &&& 0 <= i < self.permutations@.len()
                        &&& #[trigger] self.is_fault(i)
                        &&& forall|k: int| 0 <= k < i ==> !#[trigger] self.is_fault(k)
                        &&& is_spec_error(
                            error,
                            self.permutations@[i].0@,
                            self.permutations@[i].1,
                        )
                    },
            },
    {
        let mut i: usize = 0;
        while i < self.permutations.len()
            invariant
                i <= self.permutations@.len(),
                forall|k: int| 0 <= k < i ==> !#[trigger] self.is_fault(k),
            decreases self.permutations@.len() - i,
        {
            match validate_spec(&self.permutations[i].0, &self.permutations[i].1) {
                Ok(()) => {},
                Err(error) => {
                    assert(self.is_fault(i as int));
                    return Err(error);
                },
            }
            assert(!self.is_fault(i as int));
            i = i + 1;
        }
        Ok(())
    }
}

/// The name of a shader's field: its file's stem without the common prefix and suffix.
pub open spec fn field_name_text(shader_name: Seq<char>, path: ShaderPathConfig) -> Seq<char> {
    let name = match path.prefix {
        Some(prefix) => without_prefix(shader_name, prefix@),
        None => shader_name,
    };
    match path.suffix {
        Some(suffix) => without_suffix(name, suffix@),
        None => name,
    }
}

/// The name of a shader's field: its file's stem without the common prefix and suffix.
pub fn derive_field_name(shader_name: &str, path_config: &ShaderPathConfig) -> (result: String)
    ensures
        result@ == field_name_text(shader_name@, *path_config),
{
    let name = match &path_config.prefix {
        Some(prefix) => strip_prefix_or_all(shader_name, prefix.as_str()),
        None => shader_name,
    };
    let name = match &path_config.suffix {
        Some(suffix) => strip_suffix_or_all(name, suffix.as_str()),
        None => name,
    };
    name.to_owned()
}

/// How the compiler gets a value: an integer in decimal, a truth value as 0 or 1, and a text as it
/// is.
pub proof fn law_values_as_text(value: DefineValue)
    ensures
        match value {
            DefineValue::Integer(i) => {
                &&& i >= 0 ==> decimal_value(value.define_text()) == i
                &&& i < 0 ==> value.define_text()[0] as int == 45 && decimal_value(
                    value.define_text().skip(1),
                ) == -i
            },
            DefineValue::Boolean(b) => value.define_text().len() == 1 && decimal_value(
                value.define_text(),
            ) == (if b {
                1int
            } else {
                0int
            }),
            DefineValue::Text(text) => value.define_text() == text@,
            DefineValue::Other(text) => value.define_text() == text@,
        },
{
    match value {
        DefineValue::Integer(i) => {
            law_sign_is_written(i as int);
        },
        DefineValue::Boolean(b) => {
            reveal_strlit("0");
            reveal_strlit("1");
            let text = value.define_text();
            assert(text.drop_last() =~= Seq::empty());
            assert(decimal_value(Seq::<char>::empty()) == 0);
        },
        _ => {},
    }
}

/// The names that are derived for values: `Off` for a lone 0, `Off` and `On` for 0 and 1; always
/// one for each value, no two the same, and each one that Rust allows.
pub proof fn law_derived_names(values: Seq<Seq<char>>)
    ensures
        values.len() == 1 && values[0] == "0"@ ==> derived_names(values) == seq!["Off"@],
        values.len() == 2 && values[0] == "0"@ && values[1] == "1"@ ==> derived_names(values)
            == seq!["Off"@, "On"@],
        derived_names(values).len() == values.len(),
        derived_names(values).no_duplicates(),
        forall|i: int| 0 <= i < values.len() ==> is_variant_name(#[trigger] derived_names(values)[i]),
        // Any other values are numbered from 0 on
        values.len() > 2 || values.len() > 0 && values[0] != "0"@ || values.len() == 2 && values[1]
            != "1"@ ==> forall|i: int|
            0 <= i < values.len() ==> {
                &&& (#[trigger] derived_names(values)[i]).len() > 5
                &&& derived_names(values)[i].take(5) == "Value"@
                &&& decimal_value(derived_names(values)[i].skip(5)) == i
            },
{
    reveal_strlit("Off");
    reveal_strlit("On");
    reveal_strlit("Value");
    let names = derived_names(values);
    let off_on = seq!["0"@, "1"@];
    let off = seq!["0"@];
    if values.len() == 1 && values[0] == "0"@ {
        assert(values =~= off);
        assert(off.len() != off_on.len());
        assert(values != off_on);
    }
    if values.len() == 2 && values[0] == "0"@ && values[1] == "1"@ {
        assert(values =~= off_on);
    }
    if values == off_on {
        assert(values.len() == 2);
        assert("Off"@ != "On"@) by {
            assert("Off"@.len() != "On"@.len());
        }
    } else if values == off {
        assert(values.len() == 1);
    } else {
        assert forall|i: int, j: int| 0 <= i < names.len() && 0 <= j < names.len() && i
            != j implies names[i] != names[j] by {
            law_decimal_reads_back(i as nat);
            law_decimal_reads_back(j as nat);
            if names[i] == names[j] {
                assert(names[i].skip(5) =~= decimal_text(i as nat));
                assert(names[j].skip(5) =~= decimal_text(j as nat));
            }
        }
        assert forall|i: int| 0 <= i < values.len() implies is_variant_name(#[trigger] names[i])
            && names[i].len() > 5 && names[i].take(5) == "Value"@ && decimal_value(names[i].skip(5))
            == i by {
            law_decimal_reads_back(i as nat);
            let name = names[i];
            assert(name.take(5) =~= "Value"@);
            assert(name.skip(5) =~= decimal_text(i as nat));
            assert forall|k: int| 0 < k < name.len() implies ({
                let c = #[trigger] name[k];
                is_upper(c) || is_lower(c) || is_digit(c) || c == '_'
            }) by {
                if k >= 5 {
                    assert(name[k] == decimal_text(i as nat)[k - 5]);
                }
            }
        }
    }
}

/// An option is in order exactly where no two of its values are the same and every variant that it
/// names has a name that Rust allows.
pub proof fn law_option_in_order(spec: PermutationSpec)
    ensures
        !is_faulty(spec) <==> {
            &&& forall|i: int, j: int|
                0 <= i < j < spec.value_texts().len() ==> #[trigger] spec.value_texts()[i]
                    != #[trigger] spec.value_texts()[j]
            &&& spec matches PermutationSpec::Named(pairs) ==> forall|i: int|
                0 <= i < pairs@.len() ==> is_variant_name((#[trigger] pairs@[i]).0@)
        },
{
    let values = spec.value_texts();
    if forall|i: int, j: int|
        0 <= i < j < values.len() ==> #[trigger] values[i] != #[trigger] values[j] {
        assert(values.no_duplicates());
    }
}

/// What the file names of a configuration's shaders have in common is left out of field names.
pub proof fn law_field_name(name: Seq<char>, path: ShaderPathConfig)
    ensures
        match (path.prefix, path.suffix) {
            (Some(prefix), Some(suffix)) => field_name_text(
                prefix@ + (name + suffix@),
                path,
            ) == name,
            (Some(prefix), None) => field_name_text(prefix@ + name, path) == name,
            (None, Some(suffix)) => field_name_text(name + suffix@, path) == name,
            (None, None) => field_name_text(name, path) == name,
        },
{
    if let Some(prefix) = path.prefix {
        law_stripping(name, prefix@);
        if let Some(suffix) = path.suffix {
            law_stripping(name + suffix@, prefix@);
            law_stripping(name, suffix@);
        }
    } else if let Some(suffix) = path.suffix {
        law_stripping(name, suffix@);
    }
}

/// What is said of a faulty option: its first variant name that Rust does not allow, or all its
/// values where every name is allowed.
pub proof fn law_names_are_checked_first(
    error: ConfigError,
    define_name: Seq<char>,
    spec: PermutationSpec,
)
    requires
        is_spec_error(error, define_name, spec),
    ensures
        is_faulty(spec),
        error is InvalidVariantName <==> (spec matches PermutationSpec::Named(pairs) && exists|i: int|
            0 <= i < pairs@.len() && !is_variant_name((#[trigger] pairs@[i]).0@)),
        match error {
            ConfigError::InvalidVariantName { define_name: option, name } => option@ == define_name
                && !is_variant_name(name@),
            ConfigError::DuplicateValues { define_name: option, values } => option@ == define_name
                && texts(values@) == spec.value_texts(),
        },
{
}

} // verus!

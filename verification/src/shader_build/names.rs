//! Rust names for shader options.

use crate::text::{
    joined,
    law_stripping,
    lemma_joined_after,
    lemma_joined_same,
    strip_prefix_or_all,
    without_prefix,
};
use vstd::prelude::*;
use vstd::string::{StrSliceExecFns, StringExecFns};

verus! {

/// Whether a character is one of `A` to `Z`.
pub open spec fn is_upper(c: char) -> bool {
    'A' <= c <= 'Z'
}

/// Whether a character is one of `a` to `z`.
pub open spec fn is_lower(c: char) -> bool {
    'a' <= c <= 'z'
}

/// Whether a character is one of `0` to `9`.
pub open spec fn is_digit(c: char) -> bool {
    '0' <= c <= '9'
}

/// Whether a text is ASCII.
pub open spec fn is_ascii_text(text: Seq<char>) -> bool {
    forall|i: int| 0 <= i < text.len() ==> (#[trigger] text[i] as u32) < 128
}

/// An ASCII character in lower case.
pub open spec fn ascii_lower(c: char) -> char {
    if is_upper(c) {
        ((c as u32) + 32) as char
    } else {
        c
    }
}

/// An ASCII character in upper case.
pub open spec fn ascii_upper(c: char) -> char {
    if is_lower(c) {
        ((c as u32) - 32) as char
    } else {
        c
    }
}

/// An ASCII text in lower case.
pub open spec fn ascii_lower_text(text: Seq<char>) -> Seq<char> {
    Seq::new(text.len(), |i: int| ascii_lower(text[i]))
}

/// An ASCII text in upper case.
pub open spec fn ascii_upper_text(text: Seq<char>) -> Seq<char> {
    Seq::new(text.len(), |i: int| ascii_upper(text[i]))
}

/// A text in lower case.
pub uninterp spec fn lower_text(text: Seq<char>) -> Seq<char>;

/// A text in upper case.
pub uninterp spec fn upper_text(text: Seq<char>) -> Seq<char>;

/// A character in upper case, which may take several characters.
pub uninterp spec fn upper_char_text(c: char) -> Seq<char>;

/// `str::to_lowercase`: a text in lower case, by Unicode's tables. In ASCII that turns `A` to `Z`
/// into `a` to `z` and keeps the rest.
#[verifier::external_body]
fn to_lower(text: &str) -> (result: String)
    ensures
        result@ == lower_text(text@),
        is_ascii_text(text@) ==> result@ == ascii_lower_text(text@),
{
    text.to_lowercase()
}

/// `str::to_uppercase`: a text in upper case, by Unicode's tables. In ASCII that turns `a` to `z`
/// into `A` to `Z` and keeps the rest.
#[verifier::external_body]
pub(crate) fn to_upper(text: &str) -> (result: String)
    ensures
        result@ == upper_text(text@),
        is_ascii_text(text@) ==> result@ == ascii_upper_text(text@),
{
    text.to_uppercase()
}

/// `char::to_uppercase`: a character in upper case, by Unicode's tables. In ASCII that turns `a`
/// to `z` into `A` to `Z` and keeps the rest.
#[verifier::external_body]
fn upper_of_char(c: char) -> (result: String)
    ensures
        result@ == upper_char_text(c),
        (c as u32) < 128 ==> result@ == seq![ascii_upper(c)],
{
    c.to_uppercase().to_string()
}

/// Whether a text can name an enum variant: ASCII letters, digits and underscores, and no digit
/// first.
pub open spec fn is_variant_name(name: Seq<char>) -> bool {
    &&& name.len() > 0
    &&& is_upper(name[0]) || is_lower(name[0]) || name[0] == '_'
    &&& forall|i: int|
        0 < i < name.len() ==> {
            let c = #[trigger] name[i];
            is_upper(c) || is_lower(c) || is_digit(c) || c == '_'
        }
}

/// Whether a character can stand first in a variant name.
fn starts_name(c: char) -> (result: bool)
    ensures
        result == (is_upper(c) || is_lower(c) || c == '_'),
{
    ('A' <= c && c <= 'Z') || ('a' <= c && c <= 'z') || c == '_'
}

/// Valid as a Rust enum variant: an XID-start-ish ASCII identifier.
pub fn is_valid_variant_name(name: &str) -> (result: bool)
    ensures
        result == is_variant_name(name@),
{
    let len: usize = name.unicode_len();
    if len == 0 || !starts_name(name.get_char(0)) {
        return false;
    }
    let mut i: usize = 1;
    while i < len
        invariant
            len == name@.len(),
            1 <= i <= len,
            is_upper(name@[0]) || is_lower(name@[0]) || name@[0] == '_',
            forall|k: int|
                0 < k < i ==> {
                    let c = #[trigger] name@[k];
                    is_upper(c) || is_lower(c) || is_digit(c) || c == '_'
                },
        decreases len - i,
    {
        let c: char = name.get_char(i);
        if !(starts_name(c) || ('0' <= c && c <= '9')) {
            assert(name@[i as int] == c);
            return false;
        }
        i = i + 1;
    }
    true
}

/// What character `i` of a text contributes to a name in which every word starts with a capital
/// and underscores are left out.
pub open spec fn camel_piece(text: Seq<char>) -> spec_fn(int) -> Seq<char> {
    |i: int|
        if text[i] == '_' {
            Seq::empty()
        } else if i == 0 || text[i - 1] == '_' {
            upper_char_text(text[i])
        } else {
            seq![text[i]]
        }
}

/// A text whose words are separated by underscores, written in one with capitals.
pub open spec fn camel_text(text: Seq<char>) -> Seq<char> {
    joined(text.len(), camel_piece(text))
}

/// What character `i` of an ASCII text contributes to such a name.
pub open spec fn ascii_camel_piece(text: Seq<char>) -> spec_fn(int) -> Seq<char> {
    |i: int|
        if text[i] == '_' {
            Seq::empty()
        } else if i == 0 || text[i - 1] == '_' {
            seq![ascii_upper(text[i])]
        } else {
            seq![text[i]]
        }
}

/// An ASCII text whose words are separated by underscores, written in one with capitals.
pub open spec fn ascii_camel_text(text: Seq<char>) -> Seq<char> {
    joined(text.len(), ascii_camel_piece(text))
}

/// A text whose words are separated by underscores, written in one with capitals.
pub fn camel_case(text: &str) -> (result: String)
    ensures
        result@ == camel_text(text@),
        is_ascii_text(text@) ==> result@ == ascii_camel_text(text@),
{
    let len: usize = text.unicode_len();
    let mut name = String::new();
    let mut i: usize = 0;
    let mut starts_word: bool = true;
    while i < len
        invariant
            len == text@.len(),
            i <= len,
            starts_word == (i == 0 || text@[i - 1] == '_'),
            name@ == joined(i as nat, camel_piece(text@)),
            is_ascii_text(text@) ==> name@ == joined(i as nat, ascii_camel_piece(text@)),
        decreases len - i,
    {
        let c: char = text.get_char(i);
        if c == '_' {
            assert(name@ + Seq::<char>::empty() =~= name@);
            starts_word = true;
        } else if starts_word {
            name.append(upper_of_char(c).as_str());
            starts_word = false;
        } else {
            assert(text@.subrange(i as int, i + 1) =~= seq![c]);
            name.append(text.substring_char(i, i + 1));
        }
        i = i + 1;
    }
    name
}

/// `"FFX_HALF"` -> `"Half"`, `"FFX_FSR3UPSCALER_OPTION_HDR_COLOR_INPUT"` ->
/// `"Fsr3upscalerOptionHdrColorInput"`.
pub open spec fn enum_name_text(define_name: Seq<char>) -> Seq<char> {
    camel_text(param_name_text(define_name))
}

/// `"FFX_HALF"` -> `"half"`, `"FFX_FSR3UPSCALER_OPTION_HDR"` -> `"fsr3upscaler_option_hdr"`.
pub open spec fn param_name_text(define_name: Seq<char>) -> Seq<char> {
    lower_text(without_prefix(define_name, "FFX_"@))
}

/// `"FFX_HALF"` -> `"Half"`, `"FFX_FSR3UPSCALER_OPTION_HDR_COLOR_INPUT"` ->
/// `"Fsr3upscalerOptionHdrColorInput"`.
pub fn define_to_enum_name(define_name: &str) -> (result: String)
    ensures
        result@ == enum_name_text(define_name@),
        is_ascii_text(define_name@) ==> result@ == ascii_camel_text(
            ascii_lower_text(without_prefix(define_name@, "FFX_"@)),
        ),
{
    let param_name = define_to_param_name(define_name);
    proof {
        if is_ascii_text(define_name@) {
            let short = without_prefix(define_name@, "FFX_"@);
            assert(is_ascii_text(short));
            assert(is_ascii_text(ascii_lower_text(short)));
        }
    }
    camel_case(param_name.as_str())
}

/// `"FFX_HALF"` -> `"half"`, `"FFX_FSR3UPSCALER_OPTION_HDR"` -> `"fsr3upscaler_option_hdr"`.
pub fn define_to_param_name(define_name: &str) -> (result: String)
    ensures
        result@ == param_name_text(define_name@),
        is_ascii_text(define_name@) ==> result@ == ascii_lower_text(
            without_prefix(define_name@, "FFX_"@),
        ),
{
    let short = strip_prefix_or_all(define_name, "FFX_");
    proof {
        if is_ascii_text(define_name@) {
            assert(is_ascii_text(short@));
        }
    }
    to_lower(short)
}

/// The characters of a variant name, by their code points: digits from 48 on, capitals from 65 on,
/// the underscore at 95, small letters from 97 on; and no digit first.
pub proof fn law_variant_name_characters(name: Seq<char>)
    ensures
        is_variant_name(name) <==> name.len() > 0 && !(48 <= name[0] as int <= 57) && forall|i: int|
            0 <= i < name.len() ==> {
                let c = #[trigger] name[i] as int;
                48 <= c <= 57 || 65 <= c <= 90 || c == 95 || 97 <= c <= 122
            },
{
    if is_variant_name(name) {
        assert forall|i: int| 0 <= i < name.len() implies ({
            let c = #[trigger] name[i] as int;
            48 <= c <= 57 || 65 <= c <= 90 || c == 95 || 97 <= c <= 122
        }) by {}
    }
}

/// Changing case moves letters by 32 and keeps everything else, and the two ways undo each other
/// on letters.
pub proof fn law_ascii_cases(c: char)
    requires
        (c as int) < 128,
    ensures
        ascii_lower(c) as int == (if 65 <= c as int <= 90 {
            c as int + 32
        } else {
            c as int
        }),
        ascii_upper(c) as int == (if 97 <= c as int <= 122 {
            c as int - 32
        } else {
            c as int
        }),
        65 <= c as int <= 90 ==> ascii_upper(ascii_lower(c)) == c,
        97 <= c as int <= 122 ==> ascii_lower(ascii_upper(c)) == c,
{
}

/// Words that an underscore separates are capitalized each for itself.
pub proof fn law_camel_case_by_words(a: Seq<char>, b: Seq<char>)
    ensures
        camel_text(a + seq!['_'] + b) == camel_text(a) + camel_text(b),
{
    let text = a + seq!['_'] + b;
    let m = a.len();
    let f = camel_piece(text);
    lemma_joined_after(m + 1, b.len(), f);
    assert(joined(m + 1, f) == joined(m, f) + f(m as int));
    assert(f(m as int) == Seq::<char>::empty());
    assert(joined(m, f) + Seq::<char>::empty() =~= joined(m, f));
    assert forall|i: int| 0 <= i < m implies #[trigger] f(i) == camel_piece(a)(i) by {
        assert(text[i] == a[i]);
        if i > 0 {
            assert(text[i - 1] == a[i - 1]);
        }
    }
    lemma_joined_same(m, f, camel_piece(a));
    let g = |i: int| f((m + 1) as nat + i);
    assert forall|i: int| 0 <= i < b.len() implies #[trigger] g(i) == camel_piece(b)(i) by {
        assert(text[m + 1 + i] == b[i]);
        if i > 0 {
            assert(text[m + 1 + i - 1] == b[i - 1]);
        } else {
            assert(text[m as int] == '_');
        }
    }
    lemma_joined_same(b.len(), g, camel_piece(b));
    assert(text.len() == m + 1 + b.len());
}

/// A single word gets a capital first and keeps the rest.
pub proof fn law_camel_case_of_word(word: Seq<char>)
    requires
        word.len() > 0,
        !word.contains('_'),
    ensures
        camel_text(word) == upper_char_text(word[0]) + word.skip(1),
{
    lemma_camel_word(word, word.len());
    assert(word.subrange(1, word.len() as int) =~= word.skip(1));
}

/// The first characters of a word.
proof fn lemma_camel_word(word: Seq<char>, n: nat)
    requires
        0 < n <= word.len(),
        !word.contains('_'),
    ensures
        joined(n, camel_piece(word)) == upper_char_text(word[0]) + word.subrange(1, n as int),
    decreases n,
{
    let f = camel_piece(word);
    assert(word[n - 1] != '_') by {
        if word[n - 1] == '_' {
            assert(word.contains('_'));
        }
    }
    if n == 1 {
        assert(joined(0, f) =~= Seq::<char>::empty());
        assert(joined(1, f) =~= f(0));
        assert(upper_char_text(word[0]) + word.subrange(1, 1) =~= upper_char_text(word[0]));
    } else {
        lemma_camel_word(word, (n - 1) as nat);
        assert(word[n - 2] != '_') by {
            if word[n - 2] == '_' {
                assert(word.contains('_'));
            }
        }
        assert(word.subrange(1, n - 1) + seq![word[n - 1]] =~= word.subrange(1, n as int));
        assert(upper_char_text(word[0]) + word.subrange(1, n - 1) + seq![word[n - 1]]
            =~= upper_char_text(word[0]) + (word.subrange(1, n - 1) + seq![word[n - 1]]));
    }
}

/// The name of an option's parameter is the option's name in lower case, without `FFX_` where it
/// starts so; the name of its enum is the same with capitals.
pub proof fn law_option_names(rest: Seq<char>)
    ensures
        param_name_text("FFX_"@ + rest) == lower_text(rest),
        enum_name_text("FFX_"@ + rest) == camel_text(lower_text(rest)),
        !"FFX_"@.is_prefix_of(rest) ==> param_name_text(rest) == lower_text(rest),
        !"FFX_"@.is_prefix_of(rest) ==> enum_name_text(rest) == camel_text(lower_text(rest)),
{
    law_stripping(rest, "FFX_"@);
}

} // verus!

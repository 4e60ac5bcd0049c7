//! Text: numbers written out, and joined pieces.

use vstd::prelude::*;
use vstd::string::{StrSliceExecFns, StringExecFns};

verus! {

/// The decimal digit `d`.
pub open spec fn digit_char(d: nat) -> char {
    (('0' as nat) + d) as char
}

/// `n`, written in decimal.
pub open spec fn decimal_text(n: nat) -> Seq<char>
    decreases n,
{
    if n < 10 {
        seq![digit_char(n)]
    } else {
        decimal_text(n / 10).push(digit_char(n % 10))
    }
}

/// `n`, written in decimal, with a minus sign where it is negative.
pub open spec fn signed_text(n: int) -> Seq<char> {
    if n < 0 {
        seq!['-'] + decimal_text((-n) as nat)
    } else {
        decimal_text(n as nat)
    }
}

/// The lower-case hexadecimal digit `d`.
pub open spec fn hex_char(d: nat) -> char {
    if d < 10 {
        digit_char(d)
    } else {
        (('a' as nat) + (d - 10)) as char
    }
}

/// The lowest `len` hexadecimal digits of `n`.
pub open spec fn hex_text(n: nat, len: nat) -> Seq<char>
    decreases len,
{
    if len == 0 {
        Seq::empty()
    } else {
        hex_text(n / 16, (len - 1) as nat).push(hex_char(n % 16))
    }
}

/// The decimal or hexadecimal digit `d`.
fn digit(d: u64) -> (result: &'static str)
    requires
        d < 16,
    ensures
        result@ == seq![hex_char(d as nat)],
{
    proof {
        reveal_strlit("0");
        reveal_strlit("1");
        reveal_strlit("2");
        reveal_strlit("3");
        reveal_strlit("4");
        reveal_strlit("5");
        reveal_strlit("6");
        reveal_strlit("7");
        reveal_strlit("8");
        reveal_strlit("9");
        reveal_strlit("a");
        reveal_strlit("b");
        reveal_strlit("c");
        reveal_strlit("d");
        reveal_strlit("e");
        reveal_strlit("f");
    }
    match d {
        0 => "0",
        1 => "1",
        2 => "2",
        3 => "3",
        4 => "4",
        5 => "5",
        6 => "6",
        7 => "7",
        8 => "8",
        9 => "9",
        10 => "a",
        11 => "b",
        12 => "c",
        13 => "d",
        14 => "e",
        _ => "f",
    }
}

/// `n`, written in decimal.
pub fn decimal(n: u64) -> (result: String)
    ensures
        result@ == decimal_text(n as nat),
    decreases n,
{
    if n < 10 {
        digit(n).to_owned()
    } else {
        let mut text = decimal(n / 10);
        text.append(digit(n % 10));
        text
    }
}

/// `n`, written in decimal, with a minus sign where it is negative.
pub fn signed_decimal(n: i64) -> (result: String)
    ensures
        result@ == signed_text(n as int),
{
    if n < 0 {
        let mut text = "-".to_owned();
        proof {
            reveal_strlit("-");
        }
        text.append(decimal(-(n as i128) as u64).as_str());
        text
    } else {
        decimal(n as u64)
    }
}

/// The lowest `len` hexadecimal digits of `n`, in lower case.
pub fn hex(n: u64, len: u32) -> (result: String)
    ensures
        result@ == hex_text(n as nat, len as nat),
    decreases len,
{
    if len == 0 {
        String::new()
    } else {
        let mut text = hex(n / 16, len - 1);
        text.append(digit(n % 16));
        text
    }
}

/// `f(0) + f(1) + ... + f(n - 1)`.
pub open spec fn joined(n: nat, f: spec_fn(int) -> Seq<char>) -> Seq<char>
    decreases n,
{
    if n == 0 {
        Seq::empty()
    } else {
        joined((n - 1) as nat, f) + f(n - 1)
    }
}

/// The texts of several strings.
pub open spec fn texts(strings: Seq<String>) -> Seq<Seq<char>> {
    Seq::new(strings.len(), |i: int| strings[i]@)
}

/// The text of a string that may be missing.
pub open spec fn optional_text(string: Option<String>) -> Option<Seq<char>> {
    match string {
        Some(string) => Some(string@),
        None => None,
    }
}

/// Whether `a` comes before `b` in alphabetical order, by code points.
pub open spec fn comes_before(a: Seq<char>, b: Seq<char>) -> bool
    decreases a.len(),
{
    if b.len() == 0 {
        false
    } else if a.len() == 0 {
        true
    } else {
        a[0] < b[0] || (a[0] == b[0] && comes_before(a.drop_first(), b.drop_first()))
    }
}

/// `text` without `prefix`, or all of it where it does not start so.
pub open spec fn without_prefix(text: Seq<char>, prefix: Seq<char>) -> Seq<char> {
    if prefix.is_prefix_of(text) {
        text.skip(prefix.len() as int)
    } else {
        text
    }
}

/// `text` without `suffix`, or all of it where it does not end so.
pub open spec fn without_suffix(text: Seq<char>, suffix: Seq<char>) -> Seq<char> {
    if suffix.is_suffix_of(text) {
        text.take(text.len() - suffix.len())
    } else {
        text
    }
}

/// Whether `part` stands in `text` at `offset`.
fn stands_at(text: &str, part: &str, offset: usize) -> (result: bool)
    requires
        offset + part@.len() <= text@.len(),
    ensures
        result == (text@.subrange(offset as int, offset + part@.len()) == part@),
{
    let text_len: usize = text.unicode_len();
    let len: usize = part.unicode_len();
    let mut i: usize = 0;
    while i < len
        invariant
            text_len == text@.len(),
            len == part@.len(),
            i <= len,
            offset + len <= text_len,
            forall|k: int| 0 <= k < i ==> text@[offset + k] == #[trigger] part@[k],
        decreases len - i,
    {
        if text.get_char(offset + i) != part.get_char(i) {
            assert(text@.subrange(offset as int, offset + part@.len())[i as int] != part@[i as int]);
            return false;
        }
        i = i + 1;
    }
    assert(text@.subrange(offset as int, offset + part@.len()) =~= part@);
    true
}

/// `text` without `prefix`, or all of it where it does not start so.
pub fn strip_prefix_or_all<'a>(text: &'a str, prefix: &str) -> (result: &'a str)
    ensures
        result@ == without_prefix(text@, prefix@),
{
    let len: usize = text.unicode_len();
    let cut: usize = prefix.unicode_len();
    if cut <= len && stands_at(text, prefix, 0) {
        assert(text@.subrange(0, cut as int) =~= prefix@);
        assert(text@.subrange(cut as int, len as int) =~= text@.skip(cut as int));
        text.substring_char(cut, len)
    } else {
        text
    }
}

/// `text` without `suffix`, or all of it where it does not end so.
pub fn strip_suffix_or_all<'a>(text: &'a str, suffix: &str) -> (result: &'a str)
    ensures
        result@ == without_suffix(text@, suffix@),
{
    let len: usize = text.unicode_len();
    let cut: usize = suffix.unicode_len();
    if cut <= len && stands_at(text, suffix, len - cut) {
        assert(text@.subrange(0, len - cut) =~= text@.take(len - cut));
        text.substring_char(0, len - cut)
    } else {
        text
    }
}

/// Whether two texts are the same.
pub fn same_text(a: &str, b: &str) -> (result: bool)
    ensures
        result == (a@ == b@),
{
    if a.unicode_len() != b.unicode_len() {
        return false;
    }
    assert(a@.subrange(0, b@.len() as int) =~= a@);
    stands_at(a, b, 0)
}

/// Whether `a` comes before `b` in alphabetical order, from position `i` on.
fn before_from(a: &str, b: &str, i: usize) -> (result: bool)
    requires
        i <= a@.len(),
        i <= b@.len(),
        a@.len() <= usize::MAX,
    ensures
        result == comes_before(a@.skip(i as int), b@.skip(i as int)),
    decreases a@.len() - i,
{
    let a_len: usize = a.unicode_len();
    let b_len: usize = b.unicode_len();
    if i == b_len {
        return false;
    }
    if i == a_len {
        return true;
    }
    let x: char = a.get_char(i);
    let y: char = b.get_char(i);
    proof {
        assert(a@.skip(i as int).drop_first() =~= a@.skip(i + 1));
        assert(b@.skip(i as int).drop_first() =~= b@.skip(i + 1));
    }
    if x == y {
        before_from(a, b, i + 1)
    } else {
        x < y
    }
}

/// Whether `a` comes before `b` in alphabetical order.
pub fn text_before(a: &str, b: &str) -> (result: bool)
    ensures
        result == comes_before(a@, b@),
{
    let _len: usize = a.unicode_len();
    assert(a@.skip(0) =~= a@);
    assert(b@.skip(0) =~= b@);
    before_from(a, b, 0)
}

/// Alphabetical order is total: of two different texts, one comes before the other, and not the
/// other way round.
pub proof fn lemma_order_total(a: Seq<char>, b: Seq<char>)
    ensures
        comes_before(a, b) ==> !comes_before(b, a) && a != b,
        !comes_before(a, b) && !comes_before(b, a) ==> a == b,
    decreases a.len(),
{
    if a.len() > 0 && b.len() > 0 {
        lemma_order_total(a.drop_first(), b.drop_first());
        if a[0] == b[0] && a.drop_first() == b.drop_first() {
            assert(a =~= seq![a[0]] + a.drop_first());
            assert(b =~= seq![b[0]] + b.drop_first());
        }
    } else if a.len() == 0 && b.len() == 0 {
        assert(a =~= b);
    }
}

/// Alphabetical order is transitive.
pub proof fn lemma_order_transitive(a: Seq<char>, b: Seq<char>, c: Seq<char>)
    requires
        comes_before(a, b),
        comes_before(b, c),
    ensures
        comes_before(a, c),
    decreases a.len(),
{
    if a.len() > 0 && a[0] == b[0] && b[0] == c[0] {
        lemma_order_transitive(a.drop_first(), b.drop_first(), c.drop_first());
    }
}

/// The number that decimal digits stand for.
pub open spec fn decimal_value(text: Seq<char>) -> int
    decreases text.len(),
{
    if text.len() == 0 {
        0
    } else {
        10 * decimal_value(text.drop_last()) + (text.last() as int - 48)
    }
}

/// A number written in decimal can be read back, and takes digits alone, of which the first is no
/// zero unless it is the only one.
pub proof fn law_decimal_reads_back(n: nat)
    ensures
        decimal_value(decimal_text(n)) == n,
        decimal_text(n).len() > 0,
        forall|i: int|
            0 <= i < decimal_text(n).len() ==> 48 <= (#[trigger] decimal_text(n)[i] as int) <= 57,
        decimal_text(n).len() > 1 ==> decimal_text(n)[0] as int != 48,
    decreases n,
{
    let text = decimal_text(n);
    if n < 10 {
        assert(text.drop_last() =~= Seq::empty());
        assert(decimal_value(Seq::<char>::empty()) == 0);
        assert(text.last() as int == 48 + n);
    } else {
        let shorter = decimal_text(n / 10);
        law_decimal_reads_back(n / 10);
        assert(text.drop_last() =~= shorter);
        assert(text.last() as int == 48 + n % 10);
        assert(text[0] == shorter[0]);
        if shorter.len() == 1 {
            assert(shorter[0] as int != 48) by {
                assert(n / 10 >= 1);
                assert(shorter.drop_last() =~= Seq::empty());
                assert(decimal_value(Seq::<char>::empty()) == 0);
            }
        }
    }
}

/// A negative number is written as a minus sign and its magnitude, any other without a sign.
pub proof fn law_sign_is_written(n: int)
    ensures
        n < 0 ==> signed_text(n)[0] as int == 45 && decimal_value(signed_text(n).skip(1)) == -n,
        n >= 0 ==> decimal_value(signed_text(n)) == n,
{
    if n < 0 {
        law_decimal_reads_back((-n) as nat);
        assert(signed_text(n).skip(1) =~= decimal_text((-n) as nat));
    } else {
        law_decimal_reads_back(n as nat);
    }
}

/// The number that hexadecimal digits in lower case stand for.
pub open spec fn hex_value(text: Seq<char>) -> int
    decreases text.len(),
{
    if text.len() == 0 {
        0
    } else {
        let last = text.last() as int;
        16 * hex_value(text.drop_last()) + (if last >= 97 {
            last - 97 + 10
        } else {
            last - 48
        })
    }
}

/// The hexadecimal digits of a number can be read back, up to what the digits can hold.
pub proof fn law_hex_reads_back(n: nat, len: nat)
    ensures
        hex_text(n, len).len() == len,
        hex_value(hex_text(n, len)) == n as int % vstd::arithmetic::power::pow(16, len),
    decreases len,
{
    vstd::arithmetic::power::lemma_pow0(16);
    if len > 0 {
        let text = hex_text(n, len);
        let shorter = hex_text(n / 16, (len - 1) as nat);
        law_hex_reads_back(n / 16, (len - 1) as nat);
        assert(text.drop_last() =~= shorter);
        let power = vstd::arithmetic::power::pow(16, (len - 1) as nat);
        vstd::arithmetic::power::lemma_pow_positive(16, (len - 1) as nat);
        vstd::arithmetic::power::lemma_pow1(16);
        vstd::arithmetic::power::lemma_pow_adds(16, 1, (len - 1) as nat);
        vstd::arithmetic::div_mod::lemma_mod_breakdown(n as int, 16, power);
        let d = n % 16;
        assert(text.last() == hex_char(d));
        assert((if text.last() as int >= 97 {
            text.last() as int - 97 + 10
        } else {
            text.last() as int - 48
        }) == d);
    }
}

/// The first place where two texts differ decides which one comes before the other: by the smaller
/// code point, or by ending there.
pub proof fn law_first_difference_decides(a: Seq<char>, b: Seq<char>, i: int)
    requires
        0 <= i <= a.len(),
        i < b.len(),
        forall|k: int| 0 <= k < i ==> #[trigger] a[k] == b[k],
        i == a.len() || (a[i] as int) < b[i] as int,
    ensures
        comes_before(a, b),
        !comes_before(b, a),
    decreases i,
{
    if i > 0 {
        let x = a.drop_first();
        let y = b.drop_first();
        assert(a[0] == b[0]);
        assert forall|k: int| 0 <= k < i - 1 implies #[trigger] x[k] == y[k] by {
            assert(a[k + 1] == b[k + 1]);
        }
        law_first_difference_decides(x, y, i - 1);
    }
}

/// A prefix is taken off a text that starts with it, and a suffix off one that ends with it; any
/// other text stays as it is.
pub proof fn law_stripping(text: Seq<char>, part: Seq<char>)
    ensures
        without_prefix(part + text, part) == text,
        without_suffix(text + part, part) == text,
        (text.len() < part.len() || text.take(part.len() as int) != part) ==> without_prefix(
            text,
            part,
        ) == text,
        (text.len() < part.len() || text.skip(text.len() - part.len()) != part) ==> without_suffix(
            text,
            part,
        ) == text,
{
    assert(part.is_prefix_of(part + text));
    assert((part + text).skip(part.len() as int) =~= text);
    assert((text + part).skip(text.len() as int) =~= part);
    assert(part.is_suffix_of(text + part));
    assert((text + part).take(text.len() as int) =~= text);
    if part.is_prefix_of(text) {
        assert(text.take(part.len() as int) =~= part);
    }
    if part.is_suffix_of(text) {
        assert(text.skip(text.len() - part.len()) =~= part);
    }
}

/// Pieces that are the same give the same text.
pub proof fn lemma_joined_same(
    n: nat,
    f: spec_fn(int) -> Seq<char>,
    g: spec_fn(int) -> Seq<char>,
)
    requires
        forall|i: int| 0 <= i < n ==> #[trigger] f(i) == g(i),
    ensures
        joined(n, f) == joined(n, g),
    decreases n,
{
    if n > 0 {
        lemma_joined_same((n - 1) as nat, f, g);
        assert(f(n - 1) == g(n - 1));
    }
}

/// The pieces after the first ones.
pub proof fn lemma_joined_after(m: nat, n: nat, f: spec_fn(int) -> Seq<char>)
    ensures
        joined(m + n, f) == joined(m, f) + joined(n, |i: int| f(m + i)),
    decreases n,
{
    let g = |i: int| f(m + i);
    if n == 0 {
        assert(joined(m, f) + Seq::<char>::empty() =~= joined(m, f));
    } else {
        lemma_joined_after(m, (n - 1) as nat, f);
        assert(g(n - 1) == f(m + n - 1));
        assert(joined(m, f) + joined((n - 1) as nat, g) + g(n - 1) =~= joined(m, f) + (joined(
            (n - 1) as nat,
            g,
        ) + g(n - 1)));
    }
}

} // verus!

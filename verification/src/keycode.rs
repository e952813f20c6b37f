//! Classification of keycode strings.
//!
//! A keycode string is either a plain code (looked up in the keycode
//! reference), a tap-dance reference `TD(name)`, a simple layer-switch
//! reference (`TO(n)`, `MO(n)`, `TG(n)`, `DF(n)`, `TT(n)`, `OSL(n)`), or a
//! layer-tap reference `LT(n,code)` carrying an embedded code.

use vstd::prelude::*;

verus! {

/// Whether a character is a decimal digit.
pub open spec fn is_digit_char(c: char) -> bool {
    48 <= (c as u32) && (c as u32) <= 57
}

/// The numeric value of a digit character.
pub open spec fn digit_val(c: char) -> nat {
    ((c as u32) - 48) as nat
}

/// Whether every character of a sequence is a decimal digit.
pub open spec fn all_digits(s: Seq<char>) -> bool {
    forall|i: int| 0 <= i < s.len() ==> is_digit_char(#[trigger] s[i])
}

/// The value of a sequence of decimal digits.
pub open spec fn dec_value(s: Seq<char>) -> nat
    decreases s.len(),
{
    if s.len() == 0 {
        0
    } else {
        10 * dec_value(s.drop_last()) + digit_val(s.last())
    }
}

/// Whether a sequence is a digit run of one to three digits.
///
/// Layer numbers are small; a longer digit run is not read as a
/// layer-switch argument.
pub open spec fn short_digit_run(s: Seq<char>) -> bool {
    1 <= s.len() <= 3 && all_digits(s)
}

/// Whether a code is a tap-dance reference `TD(name)`.
pub open spec fn is_td_ref(s: Seq<char>) -> bool {
    s.len() >= 4 && s[0] == 'T' && s[1] == 'D' && s[2] == '(' && s[s.len() - 1] == ')'
}

/// The name inside a tap-dance reference.
pub open spec fn td_name(s: Seq<char>) -> Seq<char> {
    s.subrange(3, s.len() - 1)
}

/// Whether a code has the shape `ab(digits)` for a two-letter
/// layer-switch form.
pub open spec fn layer2_shape(s: Seq<char>, a: char, b: char) -> bool {
    s.len() >= 5 && s[0] == a && s[1] == b && s[2] == '(' && s[s.len() - 1] == ')'
        && short_digit_run(s.subrange(3, s.len() - 1))
}

/// Whether a code has the shape `OSL(digits)`.
pub open spec fn osl_shape(s: Seq<char>) -> bool {
    s.len() >= 6 && s[0] == 'O' && s[1] == 'S' && s[2] == 'L' && s[3] == '(' && s[s.len() - 1]
        == ')' && short_digit_run(s.subrange(4, s.len() - 1))
}

/// Whether a code is a simple layer-switch reference without an
/// embedded code.
pub open spec fn is_simple_layer_ref(s: Seq<char>) -> bool {
    layer2_shape(s, 'T', 'O') || layer2_shape(s, 'M', 'O') || layer2_shape(s, 'T', 'G')
        || layer2_shape(s, 'D', 'F') || layer2_shape(s, 'T', 'T') || osl_shape(s)
}

/// The digit run of a simple layer-switch reference.
pub open spec fn simple_layer_digits(s: Seq<char>) -> Seq<char> {
    if osl_shape(s) {
        s.subrange(4, s.len() - 1)
    } else {
        s.subrange(3, s.len() - 1)
    }
}

/// The index just past the digit run starting at `i`.
pub open spec fn digit_run_end(s: Seq<char>, i: int) -> int
    decreases s.len() - i,
{
    if 0 <= i < s.len() && is_digit_char(s[i]) {
        digit_run_end(s, i + 1)
    } else {
        i
    }
}

/// Whether a code is a layer-tap reference `LT(digits,code)`.
pub open spec fn is_lt_ref(s: Seq<char>) -> bool {
    s.len() >= 6 && s[0] == 'L' && s[1] == 'T' && s[2] == '(' && s[s.len() - 1] == ')'
        && 3 < digit_run_end(s, 3) <= 6 && digit_run_end(s, 3) < s.len() - 1
        && s[digit_run_end(s, 3)] == ','
}

/// The digit run of a layer-tap reference.
pub open spec fn lt_digits(s: Seq<char>) -> Seq<char> {
    s.subrange(3, digit_run_end(s, 3))
}

/// The embedded code of a layer-tap reference.
pub open spec fn lt_inner(s: Seq<char>) -> Seq<char> {
    s.subrange(digit_run_end(s, 3) + 1, s.len() - 1)
}

/// Whether a code is any layer-switch reference, and its target layer.
pub open spec fn is_layer_ref(s: Seq<char>) -> bool {
    is_simple_layer_ref(s) || is_lt_ref(s)
}

/// The target layer number of a layer-switch reference.
pub open spec fn layer_target(s: Seq<char>) -> nat {
    if is_lt_ref(s) {
        dec_value(lt_digits(s))
    } else {
        dec_value(simple_layer_digits(s))
    }
}

/// The classification of a keycode string.
pub enum CodeClass {
    /// A plain code, to be looked up in the keycode reference.
    Plain,
    /// A tap-dance reference with the referenced action's name.
    TapDance(String),
    /// A layer-switch reference with its target layer and, for a
    /// layer-tap form, the embedded code.
    LayerSwitch(u32, Option<String>),
}

/// Whether a classification matches what the classification spec
/// functions say of the code.
pub open spec fn class_matches(s: Seq<char>, r: CodeClass) -> bool {
    if is_td_ref(s) {
        r matches CodeClass::TapDance(n) && n@ == td_name(s)
    } else if is_lt_ref(s) {
        r matches CodeClass::LayerSwitch(t, inner) && t == layer_target(s) && (inner matches Some(
            c,
        ) && c@ == lt_inner(s))
    } else if is_simple_layer_ref(s) {
        r matches CodeClass::LayerSwitch(t, inner) && t == layer_target(s) && inner is None
    } else {
        r is Plain
    }
}

/// Digit runs of up to three digits have values below a thousand.
proof fn lemma_dec_value_bound(s: Seq<char>)
    requires
        all_digits(s),
    ensures
        s.len() == 0 ==> dec_value(s) == 0,
        s.len() <= 1 ==> dec_value(s) < 10,
        s.len() <= 2 ==> dec_value(s) < 100,
        s.len() <= 3 ==> dec_value(s) < 1000,
    decreases s.len(),
{
    if s.len() > 0 {
        assert(all_digits(s.drop_last())) by {
            assert(forall|i: int|
                0 <= i < s.len() - 1 ==> #[trigger] s.drop_last()[i] == s[i]);
        }
        lemma_dec_value_bound(s.drop_last());
    }
}

/// A digit run ends at the first non-digit, or at the end of the
/// sequence.
proof fn lemma_digit_run_end(s: Seq<char>, i: int)
    requires
        0 <= i <= s.len(),
    ensures
        i <= digit_run_end(s, i) <= s.len(),
        all_digits(s.subrange(i, digit_run_end(s, i))),
        digit_run_end(s, i) < s.len() ==> !is_digit_char(s[digit_run_end(s, i)]),
        forall|j: int| i <= j < digit_run_end(s, i) ==> is_digit_char(#[trigger] s[j]),
    decreases s.len() - i,
{
    if i < s.len() && is_digit_char(s[i]) {
        lemma_digit_run_end(s, i + 1);
        assert(all_digits(s.subrange(i, digit_run_end(s, i)))) by {
            assert(forall|j: int|
                0 <= j < digit_run_end(s, i) - i ==> #[trigger] s.subrange(
                    i,
                    digit_run_end(s, i),
                )[j] == s[i + j]);
        }
    } else {
        assert(s.subrange(i, i) =~= Seq::<char>::empty());
    }
}

/// A digit run whose characters are known ends exactly at the first
/// non-digit.
proof fn lemma_digit_run_end_is(s: Seq<char>, i: int, k: int)
    requires
        0 <= i <= k <= s.len(),
        forall|j: int| i <= j < k ==> is_digit_char(#[trigger] s[j]),
        k < s.len() ==> !is_digit_char(s[k]),
    ensures
        digit_run_end(s, i) == k,
    decreases k - i,
{
    if i < k {
        lemma_digit_run_end_is(s, i + 1, k);
    }
}

/// If the digit run from `i` does not reach the closing parenthesis,
/// or is too long, the argument span is not a short digit run.
proof fn lemma_run_not_short(s: Seq<char>, i: int, e: int)
    requires
        0 <= i < s.len(),
        !is_digit_char(s[s.len() - 1]),
        e == digit_run_end(s, i),
        !(e == s.len() - 1 && s.len() - 1 - i <= 3),
    ensures
        !short_digit_run(s.subrange(i, s.len() - 1)),
{
    if short_digit_run(s.subrange(i, s.len() - 1)) {
        assert forall|j: int| i <= j < s.len() - 1 implies is_digit_char(#[trigger] s[j]) by {
            assert(is_digit_char(s.subrange(i, s.len() - 1)[j - i]));
        }
        lemma_digit_run_end_is(s, i, s.len() - 1);
    }
}

/// Whether the character at an index is a decimal digit.
fn is_digit_at(code: &str, i: usize) -> (b: bool)
    requires
        i < code@.len(),
    ensures
        b == is_digit_char(code@[i as int]),
{
    let c = code.get_char(i);
    (c as u32) >= 48 && (c as u32) <= 57
}

/// The value of a digit run, computed left to right.
fn dec_value_exec(code: &str, from: usize, to: usize) -> (v: u32)
    requires
        from <= to <= code@.len(),
        to - from <= 3,
        all_digits(code@.subrange(from as int, to as int)),
    ensures
        v == dec_value(code@.subrange(from as int, to as int)),
{
    let mut v: u32 = 0;
    let mut i: usize = from;
    while i < to
        invariant
            from <= i <= to <= code@.len(),
            to - from <= 3,
            all_digits(code@.subrange(from as int, to as int)),
            v == dec_value(code@.subrange(from as int, i as int)),
        decreases to - i,
    {
        let c = code.get_char(i);
        proof {
            assert(forall|j: int|
                0 <= j < i - from + 1 ==> #[trigger] code@.subrange(from as int, i + 1)[j]
                    == code@.subrange(from as int, to as int)[j]);
            assert(all_digits(code@.subrange(from as int, i + 1)));
            assert(code@.subrange(from as int, i + 1).drop_last() =~= code@.subrange(
                from as int,
                i as int,
            ));
            assert(code@.subrange(from as int, i + 1).last() == code@.subrange(
                from as int,
                to as int,
            )[i - from]);
            lemma_dec_value_bound(code@.subrange(from as int, i as int));
            lemma_dec_value_bound(code@.subrange(from as int, i + 1));
        }
        v = v * 10 + ((c as u32) - 48);
        i = i + 1;
    }
    proof {
        assert(code@.subrange(from as int, i as int) =~= code@.subrange(from as int, to as int));
    }
    v
}

/// The index just past the digit run starting at `from`.
fn digit_run_end_exec(code: &str, from: usize) -> (e: usize)
    requires
        from <= code@.len(),
    ensures
        e == digit_run_end(code@, from as int),
        from <= e <= code@.len(),
        all_digits(code@.subrange(from as int, e as int)),
        e < code@.len() ==> !is_digit_char(code@[e as int]),
{
    proof {
        lemma_digit_run_end(code@, from as int);
    }
    let n = code.unicode_len();
    let mut i: usize = from;
    while i < n && is_digit_at(code, i)
        invariant
            from <= i <= n == code@.len(),
            digit_run_end(code@, from as int) == digit_run_end(code@, i as int),
        decreases n - i,
    {
        i = i + 1;
    }
    proof {
        lemma_digit_run_end(code@, from as int);
        assert(all_digits(code@.subrange(from as int, i as int))) by {
            assert(forall|j: int|
                0 <= j < i - from ==> #[trigger] code@.subrange(from as int, i as int)[j]
                    == code@[from + j]);
        }
    }
    i
}

/// Classifies a keycode string as plain, tap-dance reference, or
/// layer-switch reference.
pub fn classify_code(code: &str) -> (r: CodeClass)
    ensures
        class_matches(code@, r),
{
    let n = code.unicode_len();
    if n >= 4 {
        let c0 = code.get_char(0);
        let c1 = code.get_char(1);
        let c2 = code.get_char(2);
        let last = code.get_char(n - 1);
        if c0 == 'T' && c1 == 'D' && c2 == '(' && last == ')' {
            let name = code.substring_char(3, n - 1);
            return CodeClass::TapDance(String::from_str(name));
        }
        if n >= 6 && c0 == 'L' && c1 == 'T' && c2 == '(' && last == ')' {
            let e = digit_run_end_exec(code, 3);
            if 3 < e && e <= 6 && e < n - 1 && code.get_char(e) == ',' {
                let v = dec_value_exec(code, 3, e);
                let inner = code.substring_char(e + 1, n - 1);
                proof {
                    assert(lt_digits(code@) =~= code@.subrange(3, e as int));
                }
                return CodeClass::LayerSwitch(v, Some(String::from_str(inner)));
            }
        }
        if n >= 5 && c2 == '(' && last == ')' && ((c0 == 'T' && c1 == 'O') || (c0 == 'M' && c1
            == 'O') || (c0 == 'T' && c1 == 'G') || (c0 == 'D' && c1 == 'F') || (c0 == 'T' && c1
            == 'T')) {
            let e = digit_run_end_exec(code, 3);
            if e == n - 1 && n - 1 - 3 <= 3 {
                let v = dec_value_exec(code, 3, n - 1);
                proof {
                    assert(code@.subrange(3, code@.len() - 1) =~= code@.subrange(3, e as int));
                }
                return CodeClass::LayerSwitch(v, None);
            }
            proof {
                lemma_run_not_short(code@, 3, e as int);
            }
        }
        if n >= 6 && c0 == 'O' && c1 == 'S' && c2 == 'L' && last == ')' {
            let c3 = code.get_char(3);
            if c3 == '(' {
                let e = digit_run_end_exec(code, 4);
                if e == n - 1 && n - 1 - 4 <= 3 {
                    let v = dec_value_exec(code, 4, n - 1);
                    proof {
                        assert(code@.subrange(4, code@.len() - 1) =~= code@.subrange(4, e as int));
                    }
                    return CodeClass::LayerSwitch(v, None);
                }
                proof {
                    lemma_run_not_short(code@, 4, e as int);
                }
            }
        }
    }
    CodeClass::Plain
}

} // verus!

use crate::text::dec_digits;
use crate::text::dec_str;
use crate::text::digit_char;
use crate::vector4i::Vector4i;
use vstd::prelude::*;
use vstd::string::StrSliceExecFns;
use vstd::string::StringExecFns;

verus! {

/// Malformed input for [`Vector4i::from_json`]: the text is not a JSON
/// mapping with exactly the integer-valued keys `"x"`, `"y"`, `"z"`, `"w"`.
#[derive(Clone, Copy, PartialEq, Eq, Structural, Hash, Debug)]
pub struct DecodeError;

/// The four characters `"k":` that introduce the member for key `k` in the
/// canonical encoding.
pub open spec fn key_prefix(k: char) -> Seq<char> {
    seq!['"', k, '"', ':']
}

/// The canonical JSON encoding of a vector: a mapping with the keys `x`,
/// `y`, `z`, `w` in that order, each bound to a decimal signed integer, with
/// no spacing.
pub open spec fn spec_to_json(v: Vector4i) -> Seq<char> {
    seq!['{'] + key_prefix('x') + dec_str(v.x as int) + seq![','] + key_prefix('y') + dec_str(
        v.y as int,
    ) + seq![','] + key_prefix('z') + dec_str(v.z as int) + seq![','] + key_prefix('w') + dec_str(
        v.w as int,
    ) + seq!['}']
}

/// JSON whitespace.
pub open spec fn is_ws(c: char) -> bool {
    c == ' ' || c == '\t' || c == '\n' || c == '\r'
}

/// A decimal digit character.
pub open spec fn is_digit(c: char) -> bool {
    '0' as int <= c as int <= '9' as int
}

/// The numeric value of a decimal digit character.
pub open spec fn digit_val(c: char) -> int {
    c as int - '0' as int
}

/// A character that can stand between the quotes of a member key.
pub open spec fn is_key_char(c: char) -> bool {
    c == 'x' || c == 'y' || c == 'z' || c == 'w'
}

/// The first position at or after `i` that does not hold whitespace.
pub open spec fn skip_ws(s: Seq<char>, i: int) -> int
    decreases s.len() - i,
{
    if 0 <= i < s.len() && is_ws(s[i]) {
        skip_ws(s, i + 1)
    } else {
        i
    }
}

/// The first position at or after `i` that does not hold a digit.
pub open spec fn digits_end(s: Seq<char>, i: int) -> int
    decreases s.len() - i,
{
    if 0 <= i < s.len() && is_digit(s[i]) {
        digits_end(s, i + 1)
    } else {
        i
    }
}

/// The value of the digit run `s[i..j)`, read most significant first.
pub open spec fn digits_val(s: Seq<char>, i: int, j: int) -> int
    decreases j - i,
{
    if i < j {
        digits_val(s, i, j - 1) * 10 + digit_val(s[j - 1])
    } else {
        0
    }
}

/// Parses a JSON integer at position `i`: an optional minus sign and a digit
/// run without a redundant leading zero. Returns the value and the position
/// after the digits.
pub open spec fn parse_int(s: Seq<char>, i: int) -> Option<(int, int)> {
    let neg = 0 <= i < s.len() && s[i] == '-';
    let d = if neg {
        i + 1
    } else {
        i
    };
    if 0 <= d < s.len() && is_digit(s[d]) {
        let e = digits_end(s, d);
        if s[d] == '0' && e != d + 1 {
            None
        } else {
            let m = digits_val(s, d, e);
            Some(
                (
                    if neg {
                        -m
                    } else {
                        m
                    },
                    e,
                ),
            )
        }
    } else {
        None
    }
}

/// Parses one member at position `i`: optional whitespace, a quoted
/// single-character key, optional whitespace, a colon, optional whitespace,
/// and an integer that fits in `i32`. Returns the key, the value and the
/// position after the digits.
pub open spec fn parse_member(s: Seq<char>, i: int) -> Option<(char, i32, int)> {
    let k = skip_ws(s, i);
    if k + 2 < s.len() && s[k] == '"' && is_key_char(s[k + 1]) && s[k + 2] == '"' {
        let c = skip_ws(s, k + 3);
        if c < s.len() && s[c] == ':' {
            match parse_int(s, skip_ws(s, c + 1)) {
                Some((val, j)) => if i32::MIN <= val <= i32::MAX {
                    Some((s[k + 1], val as i32, j))
                } else {
                    None
                },
                None => None,
            }
        } else {
            None
        }
    } else {
        None
    }
}

/// True when the four keys are pairwise different.
pub open spec fn keys_distinct(k1: char, k2: char, k3: char, k4: char) -> bool {
    k1 != k2 && k1 != k3 && k1 != k4 && k2 != k3 && k2 != k4 && k3 != k4
}

/// The value bound to key `t` among the four parsed members.
pub open spec fn key_val(
    k1: char,
    v1: i32,
    k2: char,
    v2: i32,
    k3: char,
    v3: i32,
    k4: char,
    v4: i32,
    t: char,
) -> i32 {
    if k1 == t {
        v1
    } else if k2 == t {
        v2
    } else if k3 == t {
        v3
    } else {
        v4
    }
}

/// Builds the vector from four parsed members. The keys may come in any
/// order but must be pairwise different; since each key is one of `x`, `y`,
/// `z`, `w`, distinctness means every component is present exactly once.
pub open spec fn assemble(
    k1: char,
    v1: i32,
    k2: char,
    v2: i32,
    k3: char,
    v3: i32,
    k4: char,
    v4: i32,
) -> Option<Vector4i> {
    if keys_distinct(k1, k2, k3, k4) {
        Some(
            Vector4i {
                x: key_val(k1, v1, k2, v2, k3, v3, k4, v4, 'x'),
                y: key_val(k1, v1, k2, v2, k3, v3, k4, v4, 'y'),
                z: key_val(k1, v1, k2, v2, k3, v3, k4, v4, 'z'),
                w: key_val(k1, v1, k2, v2, k3, v3, k4, v4, 'w'),
            },
        )
    } else {
        None
    }
}

/// Decodes a JSON mapping with exactly four members, one per component key,
/// in any order, tolerating whitespace between tokens. Anything else — a
/// missing or repeated key, a non-integer or out-of-range value, trailing
/// text — decodes to nothing.
pub open spec fn spec_from_json(s: Seq<char>) -> Option<Vector4i> {
    let o = skip_ws(s, 0);
    if o < s.len() && s[o] == '{' {
        match parse_member(s, o + 1) {
            Some((k1, v1, i1)) => {
                let c1 = skip_ws(s, i1);
                if c1 < s.len() && s[c1] == ',' {
                    match parse_member(s, c1 + 1) {
                        Some((k2, v2, i2)) => {
                            let c2 = skip_ws(s, i2);
                            if c2 < s.len() && s[c2] == ',' {
                                match parse_member(s, c2 + 1) {
                                    Some((k3, v3, i3)) => {
                                        let c3 = skip_ws(s, i3);
                                        if c3 < s.len() && s[c3] == ',' {
                                            match parse_member(s, c3 + 1) {
                                                Some((k4, v4, i4)) => {
                                                    let e = skip_ws(s, i4);
                                                    if e < s.len() && s[e] == '}' && skip_ws(
                                                        s,
                                                        e + 1,
                                                    ) == s.len() {
                                                        assemble(k1, v1, k2, v2, k3, v3, k4, v4)
                                                    } else {
                                                        None
                                                    }
                                                },
                                                None => None,
                                            }
                                        } else {
                                            None
                                        }
                                    },
                                    None => None,
                                }
                            } else {
                                None
                            }
                        },
                        None => None,
                    }
                } else {
                    None
                }
            },
            None => None,
        }
    } else {
        None
    }
}

/// Positions at or after `i` and before `digits_end(s, i)` hold digits, and
/// the end position is the sequence's end or holds a non-digit.
proof fn lemma_digits_end_props(s: Seq<char>, i: int)
    requires
        0 <= i <= s.len(),
    ensures
        i <= digits_end(s, i) <= s.len(),
        forall|k: int| i <= k < digits_end(s, i) ==> is_digit(#[trigger] s[k]),
        digits_end(s, i) == s.len() || !is_digit(s[digits_end(s, i)]),
    decreases s.len() - i,
{
    if i < s.len() && is_digit(s[i]) {
        lemma_digits_end_props(s, i + 1);
    }
}

/// The value of a digit run is never negative.
proof fn lemma_digits_val_nonneg(s: Seq<char>, i: int, j: int)
    requires
        0 <= i <= j <= s.len(),
        forall|k: int| i <= k < j ==> is_digit(#[trigger] s[k]),
    ensures
        0 <= digits_val(s, i, j),
    decreases j - i,
{
    if i < j {
        lemma_digits_val_nonneg(s, i, j - 1);
    }
}

/// Extending a digit run to the right never decreases its value.
proof fn lemma_digits_val_monotone(s: Seq<char>, i: int, j: int, e: int)
    requires
        0 <= i <= j <= e <= s.len(),
        forall|k: int| i <= k < e ==> is_digit(#[trigger] s[k]),
    ensures
        digits_val(s, i, j) <= digits_val(s, i, e),
    decreases e - j,
{
    if j < e {
        lemma_digits_val_monotone(s, i, j, e - 1);
        lemma_digits_val_nonneg(s, i, e - 1);
    }
}

/// Each digit character carries its digit value.
proof fn lemma_digit_char_val(d: int)
    requires
        0 <= d < 10,
    ensures
        is_digit(digit_char(d)),
        digit_val(digit_char(d)) == d,
{
}

/// The decimal digits of a number are nonempty, all digit characters, and
/// never start with a redundant zero.
proof fn lemma_dec_digits_props(n: nat)
    ensures
        dec_digits(n).len() >= 1,
        forall|k: int| 0 <= k < dec_digits(n).len() ==> is_digit(#[trigger] dec_digits(n)[k]),
        n >= 10 ==> dec_digits(n)[0] != '0',
    decreases n,
{
    if n < 10 {
        lemma_digit_char_val(n as int);
    } else {
        lemma_dec_digits_props(n / 10);
        lemma_digit_char_val((n % 10) as int);
        assert forall|k: int| 0 <= k < dec_digits(n).len() implies is_digit(
            #[trigger] dec_digits(n)[k],
        ) by {
            if k < dec_digits(n / 10).len() {
                assert(dec_digits(n)[k] == dec_digits(n / 10)[k]);
            } else {
                assert(dec_digits(n)[k] == digit_char((n % 10) as int));
            }
        }
        if n / 10 < 10 {
            assert(dec_digits(n)[0] == digit_char((n / 10) as int));
            lemma_digit_char_val((n / 10) as int);
        } else {
            assert(dec_digits(n)[0] == dec_digits(n / 10)[0]);
        }
    }
}

/// A digit run that stops exactly at `j` has `j` as its digits end.
proof fn lemma_digits_end_at(s: Seq<char>, i: int, j: int)
    requires
        0 <= i <= j <= s.len(),
        forall|k: int| i <= k < j ==> is_digit(#[trigger] s[k]),
        j == s.len() || !is_digit(s[j]),
    ensures
        digits_end(s, i) == j,
    decreases j - i,
{
    if i < j {
        lemma_digits_end_at(s, i + 1, j);
    }
}

/// Reading back the decimal digits of `n` yields `n`.
proof fn lemma_digits_val_of_dec(s: Seq<char>, i: int, n: nat)
    requires
        0 <= i,
        i + dec_digits(n).len() <= s.len(),
        s.subrange(i, i + dec_digits(n).len() as int) == dec_digits(n),
    ensures
        digits_val(s, i, i + dec_digits(n).len() as int) == n,
    decreases n,
{
    let l = dec_digits(n).len() as int;
    if n < 10 {
        lemma_digit_char_val(n as int);
        assert(s[i] == s.subrange(i, i + l)[0]);
        assert(dec_digits(n)[0] == digit_char(n as int));
        assert(digits_val(s, i, i + 1) == digits_val(s, i, i) * 10 + digit_val(s[i]));
    } else {
        let lp = dec_digits(n / 10).len() as int;
        assert(dec_digits(n) == dec_digits(n / 10).push(digit_char((n % 10) as int)));
        assert forall|k: int| 0 <= k < lp implies s.subrange(i, i + lp)[k] == #[trigger] dec_digits(
            n / 10,
        )[k] by {
            assert(s.subrange(i, i + lp)[k] == s[i + k]);
            assert(s.subrange(i, i + l)[k] == s[i + k]);
            assert(dec_digits(n)[k] == dec_digits(n / 10)[k]);
        }
        assert(s.subrange(i, i + lp) =~= dec_digits(n / 10));
        lemma_digits_val_of_dec(s, i, n / 10);
        lemma_digit_char_val((n % 10) as int);
        assert(s[i + l - 1] == s.subrange(i, i + l)[l - 1]);
        assert(dec_digits(n)[l - 1] == digit_char((n % 10) as int));
        assert(digits_val(s, i, i + l) == digits_val(s, i, i + l - 1) * 10 + digit_val(
            s[i + l - 1],
        ));
        vstd::arithmetic::div_mod::lemma_fundamental_div_mod(n as int, 10);
    }
}

/// Parsing the canonical decimal rendering of `value` at position `i` yields
/// `value`, provided no digit immediately follows it.
proof fn lemma_parse_int_of_dec(s: Seq<char>, i: int, value: int)
    requires
        0 <= i,
        i + dec_str(value).len() <= s.len(),
        s.subrange(i, i + dec_str(value).len() as int) == dec_str(value),
        i + dec_str(value).len() == s.len() || !is_digit(s[i + dec_str(value).len()]),
    ensures
        parse_int(s, i) == Some((value, i + dec_str(value).len() as int)),
{
    let l = dec_str(value).len() as int;
    if value < 0 {
        let m = (-value) as nat;
        lemma_dec_digits_props(m);
        let dl = dec_digits(m).len() as int;
        assert(s[i] == s.subrange(i, i + l)[0]);
        assert(dec_str(value)[0] == '-');
        assert forall|k: int| 0 <= k < dl implies s.subrange(i + 1, i + 1 + dl)[k]
            == #[trigger] dec_digits(m)[k] by {
            assert(s.subrange(i + 1, i + 1 + dl)[k] == s[i + 1 + k]);
            assert(s.subrange(i, i + l)[k + 1] == s[i + (k + 1)]);
            assert(dec_str(value)[k + 1] == dec_digits(m)[k]);
        }
        assert(s.subrange(i + 1, i + 1 + dl) =~= dec_digits(m));
        assert forall|k: int| i + 1 <= k < i + 1 + dl implies is_digit(#[trigger] s[k]) by {
            assert(s[k] == s.subrange(i + 1, i + 1 + dl)[k - i - 1]);
            assert(is_digit(dec_digits(m)[k - i - 1]));
        }
        lemma_digits_end_at(s, i + 1, i + 1 + dl);
        lemma_digits_val_of_dec(s, i + 1, m);
        if s[i + 1] == '0' {
            assert(dec_digits(m)[0] == s.subrange(i + 1, i + 1 + dl)[0]);
            assert(m < 10);
        }
    } else {
        let m = value as nat;
        lemma_dec_digits_props(m);
        let dl = dec_digits(m).len() as int;
        assert forall|k: int| 0 <= k < dl implies s.subrange(i, i + dl)[k] == #[trigger] dec_digits(
            m,
        )[k] by {
            assert(s.subrange(i, i + dl)[k] == s[i + k]);
            assert(s.subrange(i, i + l)[k] == s[i + k]);
        }
        assert(s.subrange(i, i + dl) =~= dec_digits(m));
        assert forall|k: int| i <= k < i + dl implies is_digit(#[trigger] s[k]) by {
            assert(s[k] == s.subrange(i, i + dl)[k - i]);
            assert(is_digit(dec_digits(m)[k - i]));
        }
        lemma_digits_end_at(s, i, i + dl);
        lemma_digits_val_of_dec(s, i, m);
        assert(s[i] == s.subrange(i, i + dl)[0]);
        assert(is_digit(s[i]));
        assert(s[i] != '-');
        if s[i] == '0' {
            assert(dec_digits(m)[0] == s.subrange(i, i + dl)[0]);
            assert(m < 10);
        }
    }
}

/// Parsing one member of the canonical encoding — a quoted key, a colon and
/// a decimal value with no spacing — yields that key and value, provided no
/// digit immediately follows.
proof fn lemma_parse_member_of_canonical(s: Seq<char>, i: int, key: char, value: i32)
    requires
        is_key_char(key),
        0 <= i,
        i + 4 + dec_str(value as int).len() <= s.len(),
        s.subrange(i, i + 4) == key_prefix(key),
        s.subrange(i + 4, i + 4 + dec_str(value as int).len() as int) == dec_str(value as int),
        i + 4 + dec_str(value as int).len() == s.len() || !is_digit(
            s[i + 4 + dec_str(value as int).len()],
        ),
    ensures
        parse_member(s, i) == Some((key, value, i + 4 + dec_str(value as int).len() as int)),
{
    let l = dec_str(value as int).len() as int;
    assert(s[i] == '"' && s[i + 1] == key && s[i + 2] == '"' && s[i + 3] == ':') by {
        assert(s.subrange(i, i + 4)[0] == s[i]);
        assert(s.subrange(i, i + 4)[1] == s[i + 1]);
        assert(s.subrange(i, i + 4)[2] == s[i + 2]);
        assert(s.subrange(i, i + 4)[3] == s[i + 3]);
    }
    assert(skip_ws(s, i) == i);
    assert(skip_ws(s, i + 3) == i + 3);
    assert(s[i + 4] == dec_str(value as int)[0]) by {
        assert(s.subrange(i + 4, i + 4 + l)[0] == s[i + 4]);
    }
    if value >= 0 {
        lemma_dec_digits_props(value as nat);
        assert(dec_str(value as int)[0] == dec_digits(value as nat)[0]);
        assert(is_digit(s[i + 4]));
    }
    assert(!is_ws(s[i + 4]));
    assert(skip_ws(s, i + 4) == i + 4);
    lemma_parse_int_of_dec(s, i + 4, value as int);
}

/// Serialization round-trip law: decoding the canonical JSON encoding of any
/// vector yields exactly that vector.
#[verifier::rlimit(100)]
pub proof fn lemma_json_round_trip(v: Vector4i)
    ensures
        spec_from_json(spec_to_json(v)) == Some(v),
{
    let s = spec_to_json(v);
    let lx = dec_str(v.x as int).len() as int;
    let ly = dec_str(v.y as int).len() as int;
    let lz = dec_str(v.z as int).len() as int;
    let lw = dec_str(v.w as int).len() as int;
    lemma_dec_digits_props(abs_nat(v.x as int));
    lemma_dec_digits_props(abs_nat(v.y as int));
    lemma_dec_digits_props(abs_nat(v.z as int));
    lemma_dec_digits_props(abs_nat(v.w as int));
    let a1: int = 1;
    let i1 = a1 + 4 + lx;
    let a2 = i1 + 1;
    let i2 = a2 + 4 + ly;
    let a3 = i2 + 1;
    let i3 = a3 + 4 + lz;
    let a4 = i3 + 1;
    let i4 = a4 + 4 + lw;
    assert(s.len() == i4 + 1);
    assert(s[0] == '{');
    assert(s[i1] == ',');
    assert(s[i2] == ',');
    assert(s[i3] == ',');
    assert(s[i4] == '}');
    assert(skip_ws(s, 0) == 0);
    assert(s.subrange(a1, a1 + 4) =~= key_prefix('x'));
    assert(s.subrange(a1 + 4, i1) =~= dec_str(v.x as int));
    lemma_parse_member_of_canonical(s, a1, 'x', v.x);
    assert(skip_ws(s, i1) == i1);
    assert(s.subrange(a2, a2 + 4) =~= key_prefix('y'));
    assert(s.subrange(a2 + 4, i2) =~= dec_str(v.y as int));
    lemma_parse_member_of_canonical(s, a2, 'y', v.y);
    assert(skip_ws(s, i2) == i2);
    assert(s.subrange(a3, a3 + 4) =~= key_prefix('z'));
    assert(s.subrange(a3 + 4, i3) =~= dec_str(v.z as int));
    lemma_parse_member_of_canonical(s, a3, 'z', v.z);
    assert(skip_ws(s, i3) == i3);
    assert(s.subrange(a4, a4 + 4) =~= key_prefix('w'));
    assert(s.subrange(a4 + 4, i4) =~= dec_str(v.w as int));
    lemma_parse_member_of_canonical(s, a4, 'w', v.w);
    assert(skip_ws(s, i4) == i4);
    assert(skip_ws(s, i4 + 1) == s.len());
    assert(spec_from_json(s) == assemble('x', v.x, 'y', v.y, 'z', v.z, 'w', v.w));
    assert(assemble('x', v.x, 'y', v.y, 'z', v.z, 'w', v.w) == Some(v));
}

/// The absolute value of an integer, as a natural number.
spec fn abs_nat(a: int) -> nat {
    if a >= 0 {
        a as nat
    } else {
        (-a) as nat
    }
}

fn is_ws_exec(c: char) -> (b: bool)
    ensures
        b == is_ws(c),
{
    c == ' ' || c == '\t' || c == '\n' || c == '\r'
}

fn is_digit_exec(c: char) -> (b: bool)
    ensures
        b == is_digit(c),
{
    let u = c as u32;
    48 <= u && u <= 57
}

/// Collects the characters of a string slice.
fn str_chars(s: &str) -> (v: Vec<char>)
    ensures
        v@ == s@,
{
    let n = s.unicode_len();
    let mut v: Vec<char> = Vec::new();
    let mut i: usize = 0;
    while i < n
        invariant
            i <= n,
            n == s@.len(),
            v@ == s@.subrange(0, i as int),
        decreases n - i,
    {
        let c = s.get_char(i);
        v.push(c);
        proof {
            assert(v@ =~= s@.subrange(0, i as int + 1));
        }
        i = i + 1;
    }
    proof {
        assert(v@ =~= s@);
    }
    v
}

fn skip_ws_exec(v: &Vec<char>, i: usize) -> (j: usize)
    requires
        i <= v@.len(),
    ensures
        j as int == skip_ws(v@, i as int),
        i <= j <= v@.len(),
{
    let mut j = i;
    while j < v.len() && is_ws_exec(v[j])
        invariant
            i <= j <= v@.len(),
            skip_ws(v@, i as int) == skip_ws(v@, j as int),
        decreases v@.len() - j,
    {
        j = j + 1;
    }
    j
}

fn digits_end_exec(v: &Vec<char>, i: usize) -> (j: usize)
    requires
        i <= v@.len(),
    ensures
        j as int == digits_end(v@, i as int),
        i <= j <= v@.len(),
{
    let mut j = i;
    while j < v.len() && is_digit_exec(v[j])
        invariant
            i <= j <= v@.len(),
            digits_end(v@, i as int) == digits_end(v@, j as int),
        decreases v@.len() - j,
    {
        j = j + 1;
    }
    j
}

/// Parses one member, as [`parse_member`] describes it.
#[verifier::loop_isolation(false)]
fn parse_member_exec(v: &Vec<char>, i: usize) -> (r: Option<(char, i32, usize)>)
    requires
        i <= v@.len(),
    ensures
        match r {
            Some(t) => {
                &&& parse_member(v@, i as int) == Some((t.0, t.1, t.2 as int))
                &&& t.2 <= v@.len()
            },
            None => parse_member(v@, i as int) is None,
        },
{
    let n = v.len();
    let k = skip_ws_exec(v, i);
    if n < 3 || k >= n - 2 {
        return None;
    }
    if v[k] != '"' {
        return None;
    }
    let kc = v[k + 1];
    if !(kc == 'x' || kc == 'y' || kc == 'z' || kc == 'w') {
        return None;
    }
    if v[k + 2] != '"' {
        return None;
    }
    let c = skip_ws_exec(v, k + 3);
    if c >= n {
        return None;
    }
    if v[c] != ':' {
        return None;
    }
    let p0 = skip_ws_exec(v, c + 1);
    let mut p = p0;
    let neg = p < n && v[p] == '-';
    if neg {
        p = p + 1;
    }
    if p >= n {
        return None;
    }
    if !is_digit_exec(v[p]) {
        return None;
    }
    let d = p;
    let e = digits_end_exec(v, d);
    proof {
        lemma_digits_end_props(v@, d as int);
    }
    if v[d] == '0' && e != d + 1 {
        return None;
    }
    let mut acc: u64 = 0;
    let mut j = d;
    while j < e
        invariant
            d <= j <= e,
            e <= v@.len(),
            e as int == digits_end(v@, d as int),
            forall|q: int| d <= q < e ==> is_digit(#[trigger] v@[q]),
            acc == digits_val(v@, d as int, j as int),
            acc <= 0x8000_0000u64,
        decreases e - j,
    {
        let u = v[j] as u32;
        let dig = (u - 48) as u64;
        acc = acc * 10 + dig;
        j = j + 1;
        if acc > 0x8000_0000u64 {
            proof {
                assert(digits_val(v@, d as int, j as int) == digits_val(
                    v@,
                    d as int,
                    j as int - 1,
                ) * 10 + digit_val(v@[j as int - 1]));
                assert(acc == digits_val(v@, d as int, j as int));
                lemma_digits_val_monotone(v@, d as int, j as int, e as int);
                assert(digits_val(v@, d as int, e as int) > 0x8000_0000);
            }
            return None;
        }
    }
    let val: i32 = if neg {
        (-(acc as i64)) as i32
    } else {
        if acc > 0x7FFF_FFFFu64 {
            return None;
        }
        acc as i32
    };
    Some((kc, val, e))
}

impl Vector4i {
    /// Decodes a vector from the JSON mapping shape that [`spec_from_json`]
    /// describes: exactly the keys `"x"`, `"y"`, `"z"`, `"w"`, in any order,
    /// each bound to an integer that fits in `i32`. Returns a decode error
    /// exactly on the inputs that the spec decodes to nothing: a missing,
    /// repeated or unknown key, a non-integer or out-of-range value, or
    /// trailing text.
    pub fn from_json(s: &str) -> (r: Result<Vector4i, DecodeError>)
        ensures
            match r {
                Ok(v) => spec_from_json(s@) == Some(v),
                Err(_) => spec_from_json(s@) is None,
            },
    {
        let v = str_chars(s);
        let n = v.len();
        let o = skip_ws_exec(&v, 0);
        if o >= n {
            return Err(DecodeError);
        }
        if v[o] != '{' {
            return Err(DecodeError);
        }
        let m1 = parse_member_exec(&v, o + 1);
        let (k1, v1, i1) = match m1 {
            Some(t) => t,
            None => {
                return Err(DecodeError);
            },
        };
        let c1 = skip_ws_exec(&v, i1);
        if c1 >= n || v[c1] != ',' {
            return Err(DecodeError);
        }
        let m2 = parse_member_exec(&v, c1 + 1);
        let (k2, v2, i2) = match m2 {
            Some(t) => t,
            None => {
                return Err(DecodeError);
            },
        };
        let c2 = skip_ws_exec(&v, i2);
        if c2 >= n || v[c2] != ',' {
            return Err(DecodeError);
        }
        let m3 = parse_member_exec(&v, c2 + 1);
        let (k3, v3, i3) = match m3 {
            Some(t) => t,
            None => {
                return Err(DecodeError);
            },
        };
        let c3 = skip_ws_exec(&v, i3);
        if c3 >= n || v[c3] != ',' {
            return Err(DecodeError);
        }
        let m4 = parse_member_exec(&v, c3 + 1);
        let (k4, v4, i4) = match m4 {
            Some(t) => t,
            None => {
                return Err(DecodeError);
            },
        };
        let e = skip_ws_exec(&v, i4);
        if e >= n || v[e] != '}' {
            return Err(DecodeError);
        }
        if skip_ws_exec(&v, e + 1) != n {
            return Err(DecodeError);
        }
        if k1 == k2 || k1 == k3 || k1 == k4 || k2 == k3 || k2 == k4 || k3 == k4 {
            return Err(DecodeError);
        }
        let x = if k1 == 'x' {
            v1
        } else if k2 == 'x' {
            v2
        } else if k3 == 'x' {
            v3
        } else {
            v4
        };
        let y = if k1 == 'y' {
            v1
        } else if k2 == 'y' {
            v2
        } else if k3 == 'y' {
            v3
        } else {
            v4
        };
        let z = if k1 == 'z' {
            v1
        } else if k2 == 'z' {
            v2
        } else if k3 == 'z' {
            v3
        } else {
            v4
        };
        let w = if k1 == 'w' {
            v1
        } else if k2 == 'w' {
            v2
        } else if k3 == 'w' {
            v3
        } else {
            v4
        };
        Ok(Vector4i { x, y, z, w })
    }

    /// Encodes the vector in its canonical JSON form
    /// `{"x":..,"y":..,"z":..,"w":..}`.
    pub fn to_json(&self) -> (s: String)
        ensures
            s@ == spec_to_json(*self),
    {
        let mut s = String::new();
        s.append("{\"x\":");
        crate::text::push_dec_i32(&mut s, self.x);
        s.append(",\"y\":");
        crate::text::push_dec_i32(&mut s, self.y);
        s.append(",\"z\":");
        crate::text::push_dec_i32(&mut s, self.z);
        s.append(",\"w\":");
        crate::text::push_dec_i32(&mut s, self.w);
        s.append("}");
        proof {
            reveal_strlit("{\"x\":");
            reveal_strlit(",\"y\":");
            reveal_strlit(",\"z\":");
            reveal_strlit(",\"w\":");
            reveal_strlit("}");
            assert(s@ =~= spec_to_json(*self));
        }
        s
    }
}

} // verus!

use crate::vector4i::Vector4i;
use vstd::prelude::*;
use vstd::string::StringExecFns;

verus! {

/// The character for one decimal digit value.
pub open spec fn digit_char(d: int) -> char {
    if d == 0 {
        '0'
    } else if d == 1 {
        '1'
    } else if d == 2 {
        '2'
    } else if d == 3 {
        '3'
    } else if d == 4 {
        '4'
    } else if d == 5 {
        '5'
    } else if d == 6 {
        '6'
    } else if d == 7 {
        '7'
    } else if d == 8 {
        '8'
    } else {
        '9'
    }
}

/// The decimal digits of a natural number, most significant first, with no
/// leading zeros (`0` itself is the single digit `0`).
pub open spec fn dec_digits(n: nat) -> Seq<char>
    decreases n,
{
    if n < 10 {
        seq![digit_char(n as int)]
    } else {
        dec_digits(n / 10).push(digit_char((n % 10) as int))
    }
}

/// The canonical decimal rendering of an integer: a minus sign for negative
/// values followed by the digits of its absolute value.
pub open spec fn dec_str(v: int) -> Seq<char> {
    if v < 0 {
        seq!['-'] + dec_digits((-v) as nat)
    } else {
        dec_digits(v as nat)
    }
}

/// One digit as a string slice.
fn digit_str(d: u32) -> (r: &'static str)
    requires
        d < 10,
    ensures
        r@ == seq![digit_char(d as int)],
{
    proof {
        reveal_strlit("0");
        reveal_strlit("1");
        reveal_strlit("2");
        reveal_strlit("3");
        reveal_strlit("4");
        reveal_strlit("5");
        reveal_strlit("6");
        reveal_strlit("7");
        reveal_strlit("8");
        reveal_strlit("9");
    }
    if d == 0 {
        "0"
    } else if d == 1 {
        "1"
    } else if d == 2 {
        "2"
    } else if d == 3 {
        "3"
    } else if d == 4 {
        "4"
    } else if d == 5 {
        "5"
    } else if d == 6 {
        "6"
    } else if d == 7 {
        "7"
    } else if d == 8 {
        "8"
    } else {
        "9"
    }
}

/// Appends the decimal digits of `n` to `out`.
fn push_dec_u32(out: &mut String, n: u32)
    ensures
        final(out)@ == old(out)@ + dec_digits(n as nat),
    decreases n,
{
    if n < 10 {
        out.append(digit_str(n));
    } else {
        push_dec_u32(out, n / 10);
        out.append(digit_str(n % 10));
    }
}

/// Appends the canonical decimal rendering of `v` to `out`.
pub fn push_dec_i32(out: &mut String, v: i32)
    ensures
        final(out)@ == old(out)@ + dec_str(v as int),
{
    if v < 0 {
        out.append("-");
        proof {
            reveal_strlit("-");
            assert("-"@ =~= seq!['-']);
        }
        let m: u32 = (-(v as i64)) as u32;
        assert(m as nat == -(v as int));
        push_dec_u32(out, m);
        proof {
            assert(old(out)@ + seq!['-'] + dec_digits(m as nat) =~= old(out)@ + dec_str(v as int));
        }
    } else {
        push_dec_u32(out, v as u32);
    }
}

/// The canonical text rendering of a vector: `(x, y, z, w)` with a comma and
/// a space between decimal signed components.
pub open spec fn spec_text(v: Vector4i) -> Seq<char> {
    seq!['('] + dec_str(v.x as int) + seq![',', ' '] + dec_str(v.y as int) + seq![',', ' ']
        + dec_str(v.z as int) + seq![',', ' '] + dec_str(v.w as int) + seq![')']
}

impl Vector4i {
    /// Renders the vector as `(x, y, z, w)`: decimal signed components with
    /// no leading zeros, separated by `", "`.
    pub fn to_text(&self) -> (s: String)
        ensures
            s@ == spec_text(*self),
    {
        let mut s = String::new();
        s.append("(");
        push_dec_i32(&mut s, self.x);
        s.append(", ");
        push_dec_i32(&mut s, self.y);
        s.append(", ");
        push_dec_i32(&mut s, self.z);
        s.append(", ");
        push_dec_i32(&mut s, self.w);
        s.append(")");
        proof {
            reveal_strlit("(");
            reveal_strlit(", ");
            reveal_strlit(")");
            assert("("@ =~= seq!['(']);
            assert(", "@ =~= seq![',', ' ']);
            assert(")"@ =~= seq![')']);
            assert(s@ =~= spec_text(*self));
        }
        s
    }
}

} // verus!

//! Facts about decimal numerals, and the law that formatting a parsed amount
//! gives the numeral back in normal form.

use crate::units::{
    decimal_value, digit_char, digit_value, digits_value, dot_pos, format_spec, frac_len, frac_part,
    has_dot, int_part, is_digit, minimal, nat_digits, parse_spec, strip_zeros, units_text,
    valid_decimal,
    zero_pad,
};
use vstd::arithmetic::div_mod::lemma_fundamental_div_mod_converse;
use vstd::arithmetic::power::{lemma_pow_adds, lemma_pow_positive, pow};
use vstd::prelude::*;

verus! {

pub open spec fn all_digits(t: Seq<char>) -> bool {
    forall|i: int| 0 <= i < t.len() ==> is_digit(#[trigger] t[i])
}

pub open spec fn zeros(k: nat) -> Seq<char> {
    Seq::new(k, |i: int| '0')
}

proof fn lemma_digit_char(c: char)
    requires
        is_digit(c),
    ensures
        digit_value(c) < 10,
        digit_char(digit_value(c)) == c,
{
    let ds = seq!['0', '1', '2', '3', '4', '5', '6', '7', '8', '9'];
    assert(ds[digit_value(c) as int] == c);
}

/// `t` without its leading zeros.
pub open spec fn lead_strip(t: Seq<char>) -> Seq<char>
    decreases t.len(),
{
    if t.len() > 0 && t[0] == '0' {
        lead_strip(t.drop_first())
    } else {
        t
    }
}

/// An integer numeral without leading zeros; "0" for one with no other digit.
pub open spec fn int_norm(t: Seq<char>) -> Seq<char> {
    if lead_strip(t).len() == 0 {
        seq!['0']
    } else {
        lead_strip(t)
    }
}

proof fn lemma_zeros_value(k: nat)
    ensures
        digits_value(zeros(k)) == 0,
    decreases k,
{
    if k > 0 {
        assert(zeros(k).drop_last() =~= zeros((k - 1) as nat));
        lemma_zeros_value((k - 1) as nat);
    }
}

proof fn lemma_value_zero(t: Seq<char>)
    requires
        all_digits(t),
        digits_value(t) == 0,
    ensures
        t =~= zeros(t.len()),
    decreases t.len(),
{
    if t.len() > 0 {
        assert(is_digit(t[t.len() - 1]));
        lemma_digit_char(t.last());
        lemma_value_zero(t.drop_last());
        assert(t =~= t.drop_last().push(t.last()));
    }
}

proof fn lemma_concat_value(a: Seq<char>, b: Seq<char>)
    ensures
        digits_value(a + b) == digits_value(a) * pow(10, b.len()) + digits_value(b),
    decreases b.len(),
{
    reveal(pow);
    if b.len() == 0 {
        assert(a + b =~= a);
    } else {
        assert((a + b).drop_last() =~= a + b.drop_last());
        assert((a + b).last() == b.last());
        lemma_concat_value(a, b.drop_last());
        let x = digits_value(a) as int;
        let p = pow(10, (b.len() - 1) as nat);
        let y = digits_value(b.drop_last()) as int;
        assert((x * p + y) * 10 == x * (10 * p) + y * 10) by (nonlinear_arith);
    }
}

proof fn lemma_value_bound(t: Seq<char>)
    requires
        all_digits(t),
    ensures
        digits_value(t) < pow(10, t.len()),
    decreases t.len(),
{
    reveal(pow);
    if t.len() > 0 {
        assert(is_digit(t[t.len() - 1]));
        lemma_digit_char(t.last());
        lemma_value_bound(t.drop_last());
        let x = digits_value(t.drop_last()) as int;
        let p = pow(10, (t.len() - 1) as nat);
        let d = digit_value(t.last()) as int;
        assert(x * 10 + d < 10 * p) by (nonlinear_arith)
            requires
                x < p,
                d < 10,
        ;
    }
}

proof fn lemma_lead_strip(t: Seq<char>)
    ensures
        t =~= zeros((t.len() - lead_strip(t).len()) as nat) + lead_strip(t),
        lead_strip(t).len() == 0 || lead_strip(t)[0] != '0',
    decreases t.len(),
{
    if t.len() > 0 && t[0] == '0' {
        let r = t.drop_first();
        lemma_lead_strip(r);
        let j = (r.len() - lead_strip(r).len()) as nat;
        assert(zeros(j + 1) =~= seq!['0'] + zeros(j));
        assert(t =~= seq!['0'] + r);
    }
}

/// The digits of a value written without a leading zero are the numeral itself.
proof fn lemma_digits_of_value(t: Seq<char>)
    requires
        all_digits(t),
        t.len() > 0,
        t[0] != '0',
    ensures
        nat_digits(digits_value(t)) == t,
    decreases t.len(),
{
    assert(is_digit(t[t.len() - 1]));
    lemma_digit_char(t.last());
    if t.len() == 1 {
        assert(t.drop_last() =~= Seq::<char>::empty());
        assert(digits_value(t.drop_last()) == 0);
        assert(digits_value(t) == digit_value(t.last()));
        assert(nat_digits(digits_value(t)) == seq![digit_char(digit_value(t.last()))]);
        assert(t =~= seq![t.last()]);
    } else {
        let u = t.drop_last();
        assert(u[0] == t[0]);
        lemma_digits_of_value(u);
        if digits_value(u) == 0 {
            lemma_value_zero(u);
            assert(u[0] == '0');
        }
        let v = digits_value(t) as int;
        lemma_fundamental_div_mod_converse(v, 10, digits_value(u) as int, digit_value(t.last()) as int);
        assert(v >= 10);
        assert(nat_digits(v as nat) == nat_digits(digits_value(u)).push(digit_char(digit_value(t.last()))));
        assert(t =~= u.push(t.last()));
    }
}

proof fn lemma_int_norm(t: Seq<char>)
    requires
        all_digits(t),
    ensures
        nat_digits(digits_value(t)) == int_norm(t),
    decreases t.len(),
{
    if t.len() == 0 {
        assert(seq![digit_char(0)] =~= seq!['0']);
    } else if t[0] == '0' {
        let r = t.drop_first();
        assert(t =~= seq!['0'] + r);
        lemma_concat_value(seq!['0'], r);
        assert(seq!['0'].drop_last() =~= Seq::<char>::empty());
        assert(seq!['0'].last() == '0');
        assert(digits_value(seq!['0'].drop_last()) == 0);
        assert(digits_value(seq!['0']) == 0);
        let z = digits_value(seq!['0']) as int;
        let pr = pow(10, r.len());
        assert(z * pr == 0) by (nonlinear_arith)
            requires
                z == 0,
        ;
        assert(digits_value(seq!['0'] + r) == digits_value(r));
        assert(digits_value(t) == digits_value(r));
        assert(lead_strip(t) == lead_strip(r));
        assert forall|i: int| 0 <= i < r.len() implies is_digit(#[trigger] r[i]) by {
            assert(r[i] == t[i + 1]);
        }
        lemma_int_norm(r);
    } else {
        lemma_digits_of_value(t);
    }
}

/// A numeral of `t.len()` digits is the zero-padded digits of its value.
proof fn lemma_zero_pad(t: Seq<char>)
    requires
        all_digits(t),
        t.len() > 0,
    ensures
        zero_pad(nat_digits(digits_value(t)), t.len()) == t,
{
    let u = lead_strip(t);
    let j = (t.len() - u.len()) as nat;
    lemma_lead_strip(t);
    lemma_concat_value(zeros(j), u);
    lemma_zeros_value(j);
    if u.len() == 0 {
        assert(seq![digit_char(0)] =~= seq!['0']);
        assert(zero_pad(seq!['0'], t.len()) =~= t);
    } else {
        assert forall|i: int| 0 <= i < u.len() implies is_digit(#[trigger] u[i]) by {
            assert(u[i] == t[j + i]);
        }
        lemma_digits_of_value(u);
        if u.len() < t.len() {
            assert(zero_pad(u, t.len()) =~= t);
        } else {
            assert(u =~= t);
        }
    }
}

proof fn lemma_strip_zeros_concat(p: Seq<char>, q: Seq<char>)
    ensures
        strip_zeros(p + q) == (if strip_zeros(q).len() > 0 {
            p + strip_zeros(q)
        } else {
            strip_zeros(p)
        }),
    decreases q.len(),
{
    if q.len() == 0 {
        assert(p + q =~= p);
    } else if q.last() == '0' {
        assert((p + q).drop_last() =~= p + q.drop_last());
        lemma_strip_zeros_concat(p, q.drop_last());
    }
}

proof fn lemma_strip_zeros_prefix(q: Seq<char>)
    ensures
        strip_zeros(q) =~= q.subrange(0, strip_zeros(q).len() as int),
        strip_zeros(q).len() <= q.len(),
    decreases q.len(),
{
    if q.len() > 0 && q.last() == '0' {
        lemma_strip_zeros_prefix(q.drop_last());
    }
}

proof fn lemma_strip_zeros_of_zeros(k: nat)
    ensures
        strip_zeros(zeros(k)).len() == 0,
    decreases k,
{
    if k > 0 {
        assert(zeros(k).drop_last() =~= zeros((k - 1) as nat));
        lemma_strip_zeros_of_zeros((k - 1) as nat);
    }
}

/// The normal form of a decimal numeral: the integer part without leading
/// zeros ("0" when no other digit is left), then the fraction without
/// trailing zeros, with its point only when a fraction digit is left.
pub open spec fn normalize(s: Seq<char>) -> Seq<char> {
    let f = strip_zeros(frac_part(s));
    if f.len() > 0 {
        int_norm(int_part(s)) + seq!['.'] + f
    } else {
        int_norm(int_part(s))
    }
}

proof fn lemma_parts_are_digits(s: Seq<char>)
    requires
        valid_decimal(s),
    ensures
        all_digits(int_part(s)),
        all_digits(frac_part(s)),
{
    let ip = int_part(s);
    let fp = frac_part(s);
    if has_dot(s) {
        let p = dot_pos(s);
        assert forall|i: int| 0 <= i < ip.len() implies is_digit(#[trigger] ip[i]) by {
            assert(ip[i] == s[i]);
            if s[i] == '.' {
                assert(i == p);
            }
        }
        assert forall|i: int| 0 <= i < fp.len() implies is_digit(#[trigger] fp[i]) by {
            assert(fp[i] == s[p + 1 + i]);
            if s[p + 1 + i] == '.' {
                assert(p + 1 + i == p);
            }
        }
    } else {
        assert forall|i: int| 0 <= i < ip.len() implies is_digit(#[trigger] ip[i]) by {
            assert(ip[i] == s[i]);
        }
    }
}

/// Formatting a parsed amount at the same decimal count gives the numeral
/// back in normal form.
pub proof fn lemma_format_parse_round_trip(s: Seq<char>, decimals: nat)
    requires
        parse_spec(s, decimals) is Ok,
    ensures
        match parse_spec(s, decimals) {
            Ok(v) => format_spec(v, decimals) == Some(normalize(s)),
            Err(_) => false,
        },
{
    let ip = int_part(s);
    let fp = frac_part(s);
    let fl = fp.len();
    let k = (decimals - fl) as nat;
    lemma_parts_are_digits(s);
    let tail = fp + zeros(k);
    assert forall|i: int| 0 <= i < tail.len() implies is_digit(#[trigger] tail[i]) by {
        if i >= fl {
            assert(tail[i] == '0');
        }
    }
    let i_val = digits_value(ip) as int;
    let f_val = digits_value(fp) as int;
    let a = pow(10, fl);
    let b = pow(10, k);
    lemma_concat_value(ip, fp);
    lemma_concat_value(fp, zeros(k));
    lemma_zeros_value(k);
    lemma_pow_adds(10, fl, k);
    lemma_pow_positive(10, decimals);
    lemma_value_bound(tail);
    let r = f_val * b;
    let v = decimal_value(s, decimals) as int;
    lemma_pow_positive(10, k);
    lemma_pow_positive(10, fl);
    let dvv = digits_value(ip + fp) as int;
    assert(dvv == i_val * a + f_val);
    assert(frac_len(s) == fl);
    assert(v == dvv * b);
    assert(v == (i_val * a + f_val) * b);
    assert((i_val * a + f_val) * b == i_val * (a * b) + f_val * b) by (nonlinear_arith);
    let m = pow(10, decimals);
    assert(m == a * b);
    lemma_fundamental_div_mod_converse(v, m, i_val, r);
    lemma_int_norm(ip);
    let x = int_norm(ip);
    let text = units_text(v as nat, decimals);
    if decimals > 0 {
        lemma_zero_pad(tail);
        assert(text =~= (x + seq!['.'] + fp) + zeros(k));
        lemma_strip_zeros_concat(x + seq!['.'] + fp, zeros(k));
        lemma_strip_zeros_of_zeros(k);
        lemma_strip_zeros_concat(x + seq!['.'], fp);
        let f = strip_zeros(fp);
        if f.len() > 0 {
            lemma_strip_zeros_prefix(fp);
            assert(f.last() == fp[f.len() - 1]);
            assert((x + seq!['.'] + f).last() == f.last());
            assert(strip_zeros(text) == x + seq!['.'] + f);
            assert(minimal(text) == normalize(s));
        } else {
            assert((x + seq!['.']).last() == '.');
            assert(strip_zeros(x + seq!['.']) == x + seq!['.']);
            assert((x + seq!['.']).drop_last() =~= x);
            assert(strip_zeros(text) == x + seq!['.']);
            assert(minimal(text) == normalize(s));
        }
    } else {
        assert(fp.len() == 0);
        assert(r == 0);
        assert(seq![digit_char(0)] =~= seq!['0']);
        assert(text =~= (x + seq!['.']) + seq!['0']);
        assert(seq!['0'].drop_last() =~= Seq::<char>::empty());
        assert(strip_zeros(seq!['0'].drop_last()).len() == 0);
        assert(strip_zeros(seq!['0']).len() == 0);
        lemma_strip_zeros_concat(x + seq!['.'], seq!['0']);
        assert((x + seq!['.']).last() == '.');
        assert(strip_zeros(x + seq!['.']) == x + seq!['.']);
        assert((x + seq!['.']).drop_last() =~= x);
        assert(strip_zeros(fp).len() == 0);
        assert(strip_zeros(text) == x + seq!['.']);
        assert(minimal(text) == x);
        assert(minimal(text) == normalize(s));
    }
    assert(parse_spec(s, decimals) == Ok::<nat, crate::units::ParseError>(v as nat));
}

} // verus!

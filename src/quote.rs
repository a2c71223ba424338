//! The fee and output amount of a candidate wrap or unwrap.

use crate::pair::{
    matches_symbol, resolve,
    token_opt_view, token_pair_to_wrapper, wrapper_opt_view, wrapper_views, find_opt, TokenInfo,
    TokenType, TokenView, TokenWrapperInfo, WrapperView,
};
use crate::uint::{
    uint_bound, uint_checked_div, uint_checked_mul, uint_checked_pow, uint_checked_sub,
    uint_from_u64, uint_is_zero, Uint256,
};
use crate::units::{format_amount, format_spec, parse_amount, parse_spec};
use vstd::arithmetic::power::{lemma_pow_positive, pow};
use vstd::prelude::*;

verus! {

/// Fee rates are parts of this many.
pub const FEE_DENOMINATOR: u64 = 1000;

/// A computed quote. A field that could not be computed is blank.
#[derive(Clone, Debug)]
pub struct AmountQuote {
    pub fee_amount: String,
    pub output_amount: String,
}

/// The fee rate for converting from the given side of the wrapper.
pub open spec fn fee_rate(from: TokenView, w: WrapperView) -> nat {
    if from.token_type == TokenType::DToken {
        w.in_bps as nat
    } else {
        w.out_bps as nat
    }
}

/// The fee on `amount` (scaled to `from_decimals`) at `rate` parts per
/// thousand, rescaled to `to_decimals`; `None` where a step leaves 256 bits.
pub open spec fn fee_raw(amount: nat, rate: nat, from_decimals: nat, to_decimals: nat) -> Option<nat> {
    if amount * rate >= uint_bound() {
        None
    } else {
        let f = amount * rate / (FEE_DENOMINATOR as nat);
        if from_decimals > to_decimals {
            let p = pow(10, (from_decimals - to_decimals) as nat) as nat;
            if p >= uint_bound() {
                None
            } else {
                Some(f / p)
            }
        } else if from_decimals < to_decimals {
            let p = pow(10, (to_decimals - from_decimals) as nat) as nat;
            if p >= uint_bound() || f * p >= uint_bound() {
                None
            } else {
                Some(f * p)
            }
        } else {
            Some(f)
        }
    }
}

pub open spec fn blank_or(t: Option<Seq<char>>) -> Seq<char> {
    match t {
        Some(t) => t,
        None => Seq::empty(),
    }
}

/// The (fee, output) texts for a non-zero parsed amount. The output is the
/// amount less the fee, both taken as numbers at `to_decimals`; it is blank
/// where the fee exceeds the amount.
pub open spec fn quote_fields(amount: nat, rate: nat, from_decimals: nat, to_decimals: nat) -> (
    Seq<char>,
    Seq<char>,
) {
    match fee_raw(amount, rate, from_decimals, to_decimals) {
        None => (Seq::empty(), Seq::empty()),
        Some(f) => (
            blank_or(format_spec(f, to_decimals)),
            if amount >= f {
                blank_or(format_spec((amount - f) as nat, to_decimals))
            } else {
                Seq::empty()
            },
        ),
    }
}

/// The quote for an amount text, a pair and its wrapper; `None` is the
/// empty quote: a token or the wrapper absent, the text not an amount, or
/// the amount zero.
pub open spec fn quote_spec(
    text: Seq<char>,
    from: Option<TokenView>,
    to: Option<TokenView>,
    wrapper: Option<WrapperView>,
) -> Option<(Seq<char>, Seq<char>)> {
    match (from, to, wrapper) {
        (Some(f), Some(t), Some(w)) => match parse_spec(text, f.decimals as nat) {
            Ok(v) => if v == 0 {
                None
            } else {
                Some(quote_fields(v, fee_rate(f, w), f.decimals as nat, t.decimals as nat))
            },
            Err(_) => None,
        },
        _ => None,
    }
}

/// The fee on `amount` at `rate` parts per thousand, rescaled from
/// `from_decimals` to `to_decimals` with floor division.
pub fn scaled_fee(amount: Uint256, rate: u64, from_decimals: u64, to_decimals: u64) -> (r: Option<
    Uint256,
>)
    ensures
        match r {
            Some(x) => fee_raw(amount.value(), rate as nat, from_decimals as nat, to_decimals as nat)
                == Some(x.value()),
            None => fee_raw(
                amount.value(),
                rate as nat,
                from_decimals as nat,
                to_decimals as nat,
            ) is None,
        },
{
    let prod = match uint_checked_mul(amount, uint_from_u64(rate)) {
        Some(p) => p,
        None => return None,
    };
    let fee = match uint_checked_div(prod, uint_from_u64(FEE_DENOMINATOR)) {
        Some(q) => q,
        None => return None,
    };
    if from_decimals > to_decimals {
        let k = from_decimals - to_decimals;
        proof {
            lemma_pow_positive(10, k as nat);
        }
        match uint_checked_pow(uint_from_u64(10), k) {
            Some(p) => uint_checked_div(fee, p),
            None => None,
        }
    } else if from_decimals < to_decimals {
        let k = to_decimals - from_decimals;
        match uint_checked_pow(uint_from_u64(10), k) {
            Some(p) => uint_checked_mul(fee, p),
            None => None,
        }
    } else {
        Some(fee)
    }
}

fn text_or_blank(t: Option<String>) -> (r: String)
    ensures
        r@ == blank_or(
            match t {
                Some(s) => Some(s@),
                None => None,
            },
        ),
{
    match t {
        Some(s) => s,
        None => String::new(),
    }
}

/// Computes the fee and output amount for converting `raw_amount_text` of
/// `from` into `to` under `wrapper`. Returns `None` (no quote) when a token
/// or the wrapper is absent, the text is not an amount at `from`'s decimals,
/// or the amount is zero.
pub fn compute_quote(
    raw_amount_text: &str,
    from: &Option<TokenInfo>,
    to: &Option<TokenInfo>,
    wrapper: &Option<TokenWrapperInfo>,
) -> (r: Option<AmountQuote>)
    ensures
        match r {
            Some(q) => quote_spec(
                raw_amount_text@,
                token_opt_view(*from),
                token_opt_view(*to),
                wrapper_opt_view(*wrapper),
            ) == Some((q.fee_amount@, q.output_amount@)),
            None => quote_spec(
                raw_amount_text@,
                token_opt_view(*from),
                token_opt_view(*to),
                wrapper_opt_view(*wrapper),
            ) is None,
        },
{
    let f = match from {
        Some(f) => f,
        None => return None,
    };
    let t = match to {
        Some(t) => t,
        None => return None,
    };
    let w = match wrapper {
        Some(w) => w,
        None => return None,
    };
    let amount = match parse_amount(raw_amount_text, f.decimals) {
        Ok(v) => v,
        Err(_) => return None,
    };
    if uint_is_zero(&amount) {
        return None;
    }
    let rate = if f.token_type == TokenType::DToken {
        w.fees.in_bps
    } else {
        w.fees.out_bps
    };
    let (fee_amount, output_amount) = match scaled_fee(amount, rate, f.decimals, t.decimals) {
        None => (String::new(), String::new()),
        Some(fee) => {
            let fee_text = text_or_blank(format_amount(fee, t.decimals));
            let out_text = match uint_checked_sub(amount, fee) {
                Some(o) => text_or_blank(format_amount(o, t.decimals)),
                None => String::new(),
            };
            (fee_text, out_text)
        },
    };
    Some(AmountQuote { fee_amount, output_amount })
}

/// The quote for the current selection: looks up the wrapper joining the
/// pair in `wrappers`, then computes as `compute_quote` does.
pub fn quote_for_pair(
    raw_amount_text: &str,
    from: &Option<TokenInfo>,
    to: &Option<TokenInfo>,
    wrappers: &[TokenWrapperInfo],
) -> (r: Option<AmountQuote>)
    ensures
        match r {
            Some(q) => quote_spec(
                raw_amount_text@,
                token_opt_view(*from),
                token_opt_view(*to),
                find_opt(wrapper_views(wrappers@), token_opt_view(*from), token_opt_view(*to)),
            ) == Some((q.fee_amount@, q.output_amount@)),
            None => quote_spec(
                raw_amount_text@,
                token_opt_view(*from),
                token_opt_view(*to),
                find_opt(wrapper_views(wrappers@), token_opt_view(*from), token_opt_view(*to)),
            ) is None,
        },
{
    let wrapper = token_pair_to_wrapper(from, to, wrappers);
    compute_quote(raw_amount_text, from, to, &wrapper)
}

/// An amount of zero gives no quote, whatever the pair and wrapper.
pub proof fn lemma_zero_amount_no_quote(
    from: Option<TokenView>,
    to: Option<TokenView>,
    wrapper: Option<WrapperView>,
)
    ensures
        quote_spec(seq!['0'], from, to, wrapper) is None,
{
    let s = seq!['0'];
    assert(!crate::units::has_dot(s));
    assert(crate::units::int_part(s) + crate::units::frac_part(s) =~= s);
    assert(crate::units::digits_value(s.drop_last()) == 0);
    assert(crate::units::digits_value(s) == 0);
    assert(!crate::units::has_dot(s));
    assert(crate::units::is_digit(s[0]));
    if let (Some(f), Some(t), Some(w)) = (from, to, wrapper) {
        assert(crate::units::decimal_value(s, f.decimals as nat) == 0);
    }
}

/// An empty amount text gives no quote, whatever the pair and wrapper.
pub proof fn lemma_empty_text_no_quote(
    from: Option<TokenView>,
    to: Option<TokenView>,
    wrapper: Option<WrapperView>,
)
    ensures
        quote_spec(Seq::empty(), from, to, wrapper) is None,
{
}

/// Without a wrapper for the pair there is no quote.
pub proof fn lemma_no_wrapper_no_quote(
    text: Seq<char>,
    from: Option<TokenView>,
    to: Option<TokenView>,
)
    ensures
        quote_spec(text, from, to, None) is None,
{
}

/// A symbol that no wrapper names resolves to no pair, and the quote for
/// that selection is empty for every amount text.
pub proof fn lemma_absent_symbol(ws: Seq<WrapperView>, sym: Seq<char>, text: Seq<char>)
    requires
        forall|j: int| 0 <= j < ws.len() ==> !matches_symbol(#[trigger] ws[j], sym),
    ensures
        resolve(ws, sym) == (None::<TokenView>, None::<TokenView>),
        quote_spec(
            text,
            resolve(ws, sym).0,
            resolve(ws, sym).1,
            find_opt(ws, resolve(ws, sym).0, resolve(ws, sym).1),
        ) is None,
    decreases ws.len(),
{
    if ws.len() > 0 {
        let rest = ws.drop_first();
        assert forall|j: int| 0 <= j < rest.len() implies !matches_symbol(#[trigger] rest[j], sym) by {
            assert(rest[j] == ws[j + 1]);
        }
        assert(!matches_symbol(ws[0], sym));
        lemma_absent_symbol(rest, sym, text);
    }
}

} // verus!

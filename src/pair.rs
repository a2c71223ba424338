//! Wrapper descriptors, the pair resolver and the wrapper lookup.

use vstd::prelude::*;

verus! {

/// Which side of a wrapper a token is: the base token (`DToken`) or the
/// wrapped token (`CAsset`).
#[derive(Clone, Copy, Debug, PartialEq, Eq, Structural)]
pub enum TokenType {
    DToken,
    CAsset,
}

/// A wrapper's fee rates, in parts per thousand.
#[derive(Clone, Copy, Debug)]
pub struct Fees {
    /// Charged when converting base to wrapped.
    pub in_bps: u64,
    /// Charged when converting wrapped to base.
    pub out_bps: u64,
}

/// One base-token/wrapped-token pair and its fees. The `d_token_*` fields
/// describe the base side, the `c_asset_*` fields the wrapped side.
#[derive(Clone, Debug)]
pub struct TokenWrapperInfo {
    pub wrapper: String,
    pub d_token_symbol: String,
    pub d_token_address: String,
    pub d_token_decimals: u64,
    pub c_asset_symbol: String,
    pub c_asset_address: String,
    pub c_asset_decimals: u64,
    pub fees: Fees,
}

/// One side of a resolved pair.
#[derive(Clone, Debug)]
pub struct TokenInfo {
    pub symbol: String,
    pub address: String,
    pub decimals: u64,
    pub token_type: TokenType,
}

pub struct WrapperView {
    pub wrapper: Seq<char>,
    pub d_token_symbol: Seq<char>,
    pub d_token_address: Seq<char>,
    pub d_token_decimals: u64,
    pub c_asset_symbol: Seq<char>,
    pub c_asset_address: Seq<char>,
    pub c_asset_decimals: u64,
    pub in_bps: u64,
    pub out_bps: u64,
}

pub struct TokenView {
    pub symbol: Seq<char>,
    pub address: Seq<char>,
    pub decimals: u64,
    pub token_type: TokenType,
}

impl View for TokenWrapperInfo {
    type V = WrapperView;

    open spec fn view(&self) -> WrapperView {
        WrapperView {
            wrapper: self.wrapper@,
            d_token_symbol: self.d_token_symbol@,
            d_token_address: self.d_token_address@,
            d_token_decimals: self.d_token_decimals,
            c_asset_symbol: self.c_asset_symbol@,
            c_asset_address: self.c_asset_address@,
            c_asset_decimals: self.c_asset_decimals,
            in_bps: self.fees.in_bps,
            out_bps: self.fees.out_bps,
        }
    }
}

impl View for TokenInfo {
    type V = TokenView;

    open spec fn view(&self) -> TokenView {
        TokenView {
            symbol: self.symbol@,
            address: self.address@,
            decimals: self.decimals,
            token_type: self.token_type,
        }
    }
}

pub open spec fn wrapper_views(ws: Seq<TokenWrapperInfo>) -> Seq<WrapperView> {
    ws.map_values(|w: TokenWrapperInfo| w@)
}

pub open spec fn token_opt_view(t: Option<TokenInfo>) -> Option<TokenView> {
    match t {
        Some(t) => Some(t@),
        None => None,
    }
}

pub open spec fn wrapper_opt_view(w: Option<TokenWrapperInfo>) -> Option<WrapperView> {
    match w {
        Some(w) => Some(w@),
        None => None,
    }
}

/// The base side of a wrapper as a token.
pub open spec fn base_token(w: WrapperView) -> TokenView {
    TokenView {
        symbol: w.d_token_symbol,
        address: w.d_token_address,
        decimals: w.d_token_decimals,
        token_type: TokenType::DToken,
    }
}

/// The wrapped side of a wrapper as a token.
pub open spec fn wrapped_token(w: WrapperView) -> TokenView {
    TokenView {
        symbol: w.c_asset_symbol,
        address: w.c_asset_address,
        decimals: w.c_asset_decimals,
        token_type: TokenType::CAsset,
    }
}

pub open spec fn matches_symbol(w: WrapperView, sym: Seq<char>) -> bool {
    w.d_token_symbol == sym || w.c_asset_symbol == sym
}

/// The pair a matching wrapper gives: from the side named by `sym` to the other.
pub open spec fn pair_for(w: WrapperView, sym: Seq<char>) -> (Option<TokenView>, Option<TokenView>) {
    if w.d_token_symbol == sym {
        (Some(base_token(w)), Some(wrapped_token(w)))
    } else {
        (Some(wrapped_token(w)), Some(base_token(w)))
    }
}

/// The pair given by the first wrapper that names `sym` on either side.
pub open spec fn resolve(ws: Seq<WrapperView>, sym: Seq<char>) -> (
    Option<TokenView>,
    Option<TokenView>,
)
    decreases ws.len(),
{
    if ws.len() == 0 {
        (None, None)
    } else if matches_symbol(ws[0], sym) {
        pair_for(ws[0], sym)
    } else {
        resolve(ws.drop_first(), sym)
    }
}

/// The wrapper joins the two tokens' addresses, in either order.
pub open spec fn joins(w: WrapperView, a: TokenView, b: TokenView) -> bool {
    (w.c_asset_address == a.address && w.d_token_address == b.address) || (w.c_asset_address
        == b.address && w.d_token_address == a.address)
}

/// The first wrapper that joins the two tokens.
pub open spec fn find(ws: Seq<WrapperView>, a: TokenView, b: TokenView) -> Option<WrapperView>
    decreases ws.len(),
{
    if ws.len() == 0 {
        None
    } else if joins(ws[0], a, b) {
        Some(ws[0])
    } else {
        find(ws.drop_first(), a, b)
    }
}

pub open spec fn find_opt(ws: Seq<WrapperView>, a: Option<TokenView>, b: Option<TokenView>) -> Option<
    WrapperView,
> {
    match (a, b) {
        (Some(a), Some(b)) => find(ws, a, b),
        _ => None,
    }
}

impl TokenWrapperInfo {
    /// A copy with the same contents.
    pub fn duplicate(&self) -> (r: TokenWrapperInfo)
        ensures
            r@ == self@,
    {
        TokenWrapperInfo {
            wrapper: self.wrapper.clone(),
            d_token_symbol: self.d_token_symbol.clone(),
            d_token_address: self.d_token_address.clone(),
            d_token_decimals: self.d_token_decimals,
            c_asset_symbol: self.c_asset_symbol.clone(),
            c_asset_address: self.c_asset_address.clone(),
            c_asset_decimals: self.c_asset_decimals,
            fees: Fees { in_bps: self.fees.in_bps, out_bps: self.fees.out_bps },
        }
    }

    /// The base side as a token.
    pub fn base(&self) -> (r: TokenInfo)
        ensures
            r@ == base_token(self@),
    {
        TokenInfo {
            symbol: self.d_token_symbol.clone(),
            address: self.d_token_address.clone(),
            decimals: self.d_token_decimals,
            token_type: TokenType::DToken,
        }
    }

    /// The wrapped side as a token.
    pub fn wrapped(&self) -> (r: TokenInfo)
        ensures
            r@ == wrapped_token(self@),
    {
        TokenInfo {
            symbol: self.c_asset_symbol.clone(),
            address: self.c_asset_address.clone(),
            decimals: self.c_asset_decimals,
            token_type: TokenType::CAsset,
        }
    }
}

/// Resolves a selected symbol to a (from, to) pair: the first wrapper that
/// names the symbol on either side decides; from is the side so named.
/// `(None, None)` when no wrapper names it.
pub fn update_pair(from: &String, wrappers: &[TokenWrapperInfo]) -> (r: (
    Option<TokenInfo>,
    Option<TokenInfo>,
))
    ensures
        (token_opt_view(r.0), token_opt_view(r.1)) == resolve(wrapper_views(wrappers@), from@),
{
    let ghost vs = wrapper_views(wrappers@);
    assert(vs.subrange(0, vs.len() as int) =~= vs);
    let mut i: usize = 0;
    while i < wrappers.len()
        invariant
            i <= wrappers@.len(),
            vs == wrapper_views(wrappers@),
            resolve(vs, from@) == resolve(vs.subrange(i as int, vs.len() as int), from@),
        decreases wrappers@.len() - i,
    {
        let ghost rest = vs.subrange(i as int, vs.len() as int);
        assert(rest.drop_first() =~= vs.subrange(i + 1, vs.len() as int));
        let w = &wrappers[i];
        if w.d_token_symbol == *from {
            return (Some(w.base()), Some(w.wrapped()));
        }
        if w.c_asset_symbol == *from {
            return (Some(w.wrapped()), Some(w.base()));
        }
        i = i + 1;
    }
    (None, None)
}

/// The wrapper whose two addresses are those of the two tokens, in either
/// order; `None` when a token is absent or no wrapper joins them.
pub fn token_pair_to_wrapper(
    token_a: &Option<TokenInfo>,
    token_b: &Option<TokenInfo>,
    wrappers: &[TokenWrapperInfo],
) -> (r: Option<TokenWrapperInfo>)
    ensures
        wrapper_opt_view(r) == find_opt(
            wrapper_views(wrappers@),
            token_opt_view(*token_a),
            token_opt_view(*token_b),
        ),
{
    let a = match token_a {
        Some(a) => a,
        None => return None,
    };
    let b = match token_b {
        Some(b) => b,
        None => return None,
    };
    let ghost vs = wrapper_views(wrappers@);
    assert(vs.subrange(0, vs.len() as int) =~= vs);
    let mut i: usize = 0;
    while i < wrappers.len()
        invariant
            i <= wrappers@.len(),
            vs == wrapper_views(wrappers@),
            token_opt_view(*token_a) == Some(a@),
            token_opt_view(*token_b) == Some(b@),
            find(vs, a@, b@) == find(vs.subrange(i as int, vs.len() as int), a@, b@),
        decreases wrappers@.len() - i,
    {
        let ghost rest = vs.subrange(i as int, vs.len() as int);
        assert(rest.drop_first() =~= vs.subrange(i + 1, vs.len() as int));
        let w = &wrappers[i];
        assert(rest[0] == w@);
        if (w.c_asset_address == a.address && w.d_token_address == b.address) || (w.c_asset_address
            == b.address && w.d_token_address == a.address) {
            let d = w.duplicate();
            return Some(d);
        }
        i = i + 1;
    }
    None
}

/// Reverses the direction of a pair.
pub fn flip_pair(pair: (Option<TokenInfo>, Option<TokenInfo>)) -> (r: (
    Option<TokenInfo>,
    Option<TokenInfo>,
))
    ensures
        r.0 == pair.1,
        r.1 == pair.0,
{
    (pair.1, pair.0)
}

/// Resolving a wrapper's wrapped symbol gives the mirror image of resolving
/// its base symbol: from and to swap. This holds where no earlier wrapper
/// names either symbol and the two symbols differ.
pub proof fn lemma_resolve_mirror(ws: Seq<WrapperView>, i: int)
    requires
        0 <= i < ws.len(),
        ws[i].d_token_symbol != ws[i].c_asset_symbol,
        forall|j: int|
            0 <= j < i ==> !matches_symbol(#[trigger] ws[j], ws[i].d_token_symbol)
                && !matches_symbol(ws[j], ws[i].c_asset_symbol),
    ensures
        resolve(ws, ws[i].c_asset_symbol) == (
            resolve(ws, ws[i].d_token_symbol).1,
            resolve(ws, ws[i].d_token_symbol).0,
        ),
    decreases i,
{
    if i > 0 {
        let rest = ws.drop_first();
        assert forall|j: int| 0 <= j < i - 1 implies !matches_symbol(
            #[trigger] rest[j],
            rest[i - 1].d_token_symbol,
        ) && !matches_symbol(rest[j], rest[i - 1].c_asset_symbol) by {
            assert(rest[j] == ws[j + 1]);
        }
        lemma_resolve_mirror(rest, i - 1);
        assert(!matches_symbol(ws[0], ws[i].d_token_symbol));
        assert(!matches_symbol(ws[0], ws[i].c_asset_symbol));
    }
}

/// The wrapper lookup does not depend on the order of the two tokens.
pub proof fn lemma_find_undirected(ws: Seq<WrapperView>, a: Option<TokenView>, b: Option<TokenView>)
    ensures
        find_opt(ws, a, b) == find_opt(ws, b, a),
    decreases ws.len(),
{
    if let (Some(x), Some(y)) = (a, b) {
        if ws.len() > 0 {
            assert(joins(ws[0], x, y) == joins(ws[0], y, x));
            lemma_find_undirected(ws.drop_first(), a, b);
        }
    }
}

} // verus!

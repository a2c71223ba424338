use swap_core::pair::{flip_pair, token_pair_to_wrapper, update_pair, Fees, TokenType, TokenWrapperInfo};

fn wrapper(base: &str, wrapped: &str, bd: u64, wd: u64, fin: u64, fout: u64) -> TokenWrapperInfo {
    TokenWrapperInfo {
        wrapper: format!("0xwrap{}", base),
        d_token_symbol: base.to_string(),
        d_token_address: format!("0x{}", base),
        d_token_decimals: bd,
        c_asset_symbol: wrapped.to_string(),
        c_asset_address: format!("0x{}", wrapped),
        c_asset_decimals: wd,
        fees: Fees { in_bps: fin, out_bps: fout },
    }
}

fn list() -> Vec<TokenWrapperInfo> {
    vec![wrapper("USDT", "dUSDT", 6, 18, 5, 3), wrapper("BTC", "dBTC", 8, 18, 2, 1)]
}

#[test]
fn resolve_on_base_symbol() {
    let (from, to) = update_pair(&"BTC".to_string(), &list());
    let from = from.unwrap();
    let to = to.unwrap();
    assert_eq!(from.symbol, "BTC");
    assert_eq!(from.address, "0xBTC");
    assert_eq!(from.decimals, 8);
    assert_eq!(from.token_type, TokenType::DToken);
    assert_eq!(to.symbol, "dBTC");
    assert_eq!(to.decimals, 18);
    assert_eq!(to.token_type, TokenType::CAsset);
}

#[test]
fn resolve_on_wrapped_symbol_is_mirror() {
    let ws = list();
    let (bf, bt) = update_pair(&"USDT".to_string(), &ws);
    let (wf, wt) = update_pair(&"dUSDT".to_string(), &ws);
    let (bf, bt, wf, wt) = (bf.unwrap(), bt.unwrap(), wf.unwrap(), wt.unwrap());
    assert_eq!(wf.symbol, bt.symbol);
    assert_eq!(wf.address, bt.address);
    assert_eq!(wf.token_type, bt.token_type);
    assert_eq!(wt.symbol, bf.symbol);
    assert_eq!(wt.decimals, bf.decimals);
    assert_eq!(wt.token_type, bf.token_type);
}

#[test]
fn resolve_absent_symbol_is_none() {
    let (from, to) = update_pair(&"ETH".to_string(), &list());
    assert!(from.is_none());
    assert!(to.is_none());
    let (from, to) = update_pair(&"USDT".to_string(), &[]);
    assert!(from.is_none() && to.is_none());
}

#[test]
fn resolve_first_match_wins() {
    let ws = vec![wrapper("USDT", "dUSDT", 6, 18, 5, 3), wrapper("USDT", "xUSDT", 6, 8, 1, 1)];
    let (_, to) = update_pair(&"USDT".to_string(), &ws);
    assert_eq!(to.unwrap().symbol, "dUSDT");
}

#[test]
fn lookup_is_undirected() {
    let ws = list();
    let (from, to) = update_pair(&"dBTC".to_string(), &ws);
    let w1 = token_pair_to_wrapper(&from, &to, &ws).unwrap();
    let w2 = token_pair_to_wrapper(&to, &from, &ws).unwrap();
    assert_eq!(w1.d_token_symbol, "BTC");
    assert_eq!(w2.d_token_symbol, "BTC");
    assert_eq!(w1.fees.in_bps, 2);
}

#[test]
fn lookup_needs_both_tokens_and_a_match() {
    let ws = list();
    let (from, to) = update_pair(&"BTC".to_string(), &ws);
    assert!(token_pair_to_wrapper(&from, &None, &ws).is_none());
    assert!(token_pair_to_wrapper(&None, &to, &ws).is_none());
    let (other, _) = update_pair(&"USDT".to_string(), &ws);
    assert!(token_pair_to_wrapper(&from, &other, &ws).is_none());
}

#[test]
fn flip_swaps_direction() {
    let (from, to) = update_pair(&"BTC".to_string(), &list());
    let (a, b) = flip_pair((from, to));
    assert_eq!(a.unwrap().symbol, "dBTC");
    assert_eq!(b.unwrap().symbol, "BTC");
}

use swap_core::pair::{update_pair, Fees, TokenInfo, TokenType, TokenWrapperInfo};
use swap_core::quote::{compute_quote, quote_for_pair, scaled_fee};
use swap_core::uint::Uint256;

fn wrapper(base: &str, wrapped: &str, bd: u64, wd: u64, fin: u64, fout: u64) -> TokenWrapperInfo {
    TokenWrapperInfo {
        wrapper: format!("0xwrap{}", base),
        d_token_symbol: base.to_string(),
        d_token_address: format!("0x{}", base),
        d_token_decimals: bd,
        c_asset_symbol: wrapped.to_string(),
        c_asset_address: format!("0x{}", wrapped),
        c_asset_decimals: wd,
        fees: Fees { in_bps: fin, out_bps: fout },
    }
}

fn token(symbol: &str, decimals: u64, token_type: TokenType) -> Option<TokenInfo> {
    Some(TokenInfo { symbol: symbol.to_string(), address: format!("0x{}", symbol), decimals, token_type })
}

#[test]
fn usdt_to_wrapped_scenario() {
    let ws = vec![wrapper("USDT", "dUSDT", 6, 18, 5, 3)];
    let (from, to) = update_pair(&"USDT".to_string(), &ws);
    let q = quote_for_pair("100", &from, &to, &ws).unwrap();
    // fee 100_000_000 * 5 / 1000 = 500_000, times 10^12 = 5 * 10^17 at 18 decimals
    assert_eq!(q.fee_amount, "0.5");
    // 100_000_000 - 5 * 10^17 is negative: the output stays blank
    assert_eq!(q.output_amount, "");
}

#[test]
fn equal_decimals_scenario() {
    let w = Some(wrapper("AAA", "dAAA", 18, 18, 30, 30));
    let from = token("AAA", 18, TokenType::DToken);
    let to = token("dAAA", 18, TokenType::CAsset);
    let q = compute_quote("1.0", &from, &to, &w).unwrap();
    assert_eq!(q.fee_amount, "0.03");
    assert_eq!(q.output_amount, "0.97");
}

#[test]
fn wrapped_side_uses_out_fee_and_scales_down() {
    let ws = vec![wrapper("USDT", "dUSDT", 6, 18, 5, 3)];
    let (from, to) = update_pair(&"dUSDT".to_string(), &ws);
    let q = quote_for_pair("1", &from, &to, &ws).unwrap();
    // 10^18 * 3 / 1000 = 3 * 10^15, divided by 10^12 = 3000 at 6 decimals
    assert_eq!(q.fee_amount, "0.003");
    // 10^18 - 3000, read at 6 decimals
    assert_eq!(q.output_amount, "999999999999.997");
}

#[test]
fn zero_amount_gives_no_quote() {
    let ws = vec![wrapper("USDT", "dUSDT", 6, 18, 5, 3)];
    let (from, to) = update_pair(&"USDT".to_string(), &ws);
    assert!(quote_for_pair("0", &from, &to, &ws).is_none());
    assert!(quote_for_pair("0.000", &from, &to, &ws).is_none());
}

#[test]
fn empty_amount_gives_no_quote() {
    let ws = vec![wrapper("USDT", "dUSDT", 6, 18, 5, 3)];
    let (from, to) = update_pair(&"USDT".to_string(), &ws);
    assert!(quote_for_pair("", &from, &to, &ws).is_none());
}

#[test]
fn unparsable_amount_gives_no_quote() {
    let ws = vec![wrapper("USDT", "dUSDT", 6, 18, 5, 3)];
    let (from, to) = update_pair(&"USDT".to_string(), &ws);
    assert!(quote_for_pair("1.2345678", &from, &to, &ws).is_none());
    assert!(quote_for_pair("x", &from, &to, &ws).is_none());
}

#[test]
fn no_wrapper_gives_no_quote() {
    let from = token("AAA", 18, TokenType::DToken);
    let to = token("dAAA", 18, TokenType::CAsset);
    assert!(compute_quote("1", &from, &to, &None).is_none());
    let ws = vec![wrapper("USDT", "dUSDT", 6, 18, 5, 3)];
    assert!(quote_for_pair("1", &from, &to, &ws).is_none());
}

#[test]
fn absent_symbol_gives_no_pair_and_no_quote() {
    let ws = vec![wrapper("USDT", "dUSDT", 6, 18, 5, 3)];
    let (from, to) = update_pair(&"ETH".to_string(), &ws);
    assert!(from.is_none() && to.is_none());
    assert!(quote_for_pair("5", &from, &to, &ws).is_none());
}

#[test]
fn fee_rounds_down() {
    let amount = Uint256 { limbs: [999, 0, 0, 0] };
    assert_eq!(scaled_fee(amount, 1, 0, 0).unwrap().limbs, [0, 0, 0, 0]);
    assert_eq!(scaled_fee(amount, 5, 0, 0).unwrap().limbs, [4, 0, 0, 0]);
    assert_eq!(scaled_fee(amount, 5, 0, 2).unwrap().limbs, [400, 0, 0, 0]);
    assert_eq!(scaled_fee(amount, 500, 2, 0).unwrap().limbs, [4, 0, 0, 0]);
}

#[test]
fn fee_overflow_is_none() {
    let amount = Uint256 { limbs: [0, 0, 0, 1 << 63] };
    assert!(scaled_fee(amount, 2, 0, 0).is_none());
    let one = Uint256 { limbs: [1000, 0, 0, 0] };
    assert!(scaled_fee(one, 1, 0, 100).is_none());
}

use alloy_sol_types::SolValue;
use r55::abi::{parse_bool_result, parse_hex_result};
use r55::contract::{read_calldata, Context, Contract, Outcome, ERC20};
use r55::storage::Address;

fn addr(b: u8) -> Address {
    Address::from_low_byte(b)
}

fn address_word(a: &Address) -> Vec<u8> {
    let mut w = vec![0u8; 12];
    w.extend_from_slice(&a.bytes);
    w
}

fn u64_word(v: u64) -> Vec<u8> {
    let mut w = vec![0u8; 24];
    w.extend_from_slice(&v.to_be_bytes());
    w
}

fn call(selector: u32, words: &[Vec<u8>]) -> Vec<u8> {
    let mut data = selector.to_le_bytes().to_vec();
    for w in words {
        data.extend_from_slice(w);
    }
    data
}

fn output(o: Outcome) -> Vec<u8> {
    match o {
        Outcome::Return(v) => v,
        Outcome::Revert => panic!("call reverted"),
    }
}

fn is_revert(o: &Outcome) -> bool {
    matches!(o, Outcome::Revert)
}

fn balance(token: &ERC20, ctx: &mut Context, a: &Address) -> u64 {
    parse_hex_result(&output(token.call_with_data(ctx, &call(0, &[address_word(a)]))))
}

#[test]
fn mint_then_read() {
    let token = ERC20::new(0);
    let mut ctx = Context::new(addr(7));
    let tx1 = token.call_with_data(&mut ctx, &call(2, &[address_word(&addr(1)), u64_word(42)]));
    let out1 = output(tx1);
    assert_eq!(out1, true.abi_encode());
    assert!(parse_bool_result(&out1));
    let out2 = output(token.call_with_data(&mut ctx, &call(0, &[address_word(&addr(1))])));
    assert_eq!(out2, 42u64.abi_encode());
    assert_eq!(parse_hex_result(&out2), 42);
}

#[test]
fn transfer_success() {
    let token = ERC20::new(0);
    let mut ctx = Context::new(addr(7));
    output(token.call_with_data(&mut ctx, &call(2, &[address_word(&addr(1)), u64_word(100)])));
    let out = output(token.call_with_data(
        &mut ctx,
        &call(1, &[address_word(&addr(1)), address_word(&addr(2)), u64_word(30)]),
    ));
    assert!(parse_bool_result(&out));
    assert_eq!(balance(&token, &mut ctx, &addr(1)), 70);
    assert_eq!(balance(&token, &mut ctx, &addr(2)), 30);
}

#[test]
fn transfer_posts_log() {
    let token = ERC20::new(0);
    let mut ctx = Context::new(addr(7));
    output(token.call_with_data(&mut ctx, &call(2, &[address_word(&addr(1)), u64_word(5000)])));
    output(token.call_with_data(
        &mut ctx,
        &call(1, &[address_word(&addr(1)), address_word(&addr(2)), u64_word(750)]),
    ));
    assert_eq!(ctx.logs.len(), 1);
    let log = &ctx.logs[0];
    assert_eq!(log.len(), 48);
    assert_eq!(&log[..20], &addr(1).bytes);
    assert_eq!(&log[20..40], &addr(2).bytes);
    assert_eq!(u64::from_le_bytes(log[40..48].try_into().unwrap()), 750);
}

#[test]
fn transfer_insufficient_funds_reverts() {
    let token = ERC20::new(0);
    let mut ctx = Context::new(addr(7));
    let r = token.call_with_data(
        &mut ctx,
        &call(1, &[address_word(&addr(3)), address_word(&addr(4)), u64_word(1)]),
    );
    assert!(is_revert(&r));
    assert_eq!(balance(&token, &mut ctx, &addr(3)), 0);
    assert_eq!(balance(&token, &mut ctx, &addr(4)), 0);
    assert!(ctx.logs.is_empty());
}

#[test]
fn transfer_to_self_reverts() {
    let token = ERC20::new(0);
    let mut ctx = Context::new(addr(7));
    output(token.call_with_data(&mut ctx, &call(2, &[address_word(&addr(1)), u64_word(10)])));
    let r = token.call_with_data(
        &mut ctx,
        &call(1, &[address_word(&addr(1)), address_word(&addr(1)), u64_word(1)]),
    );
    assert!(is_revert(&r));
    assert_eq!(balance(&token, &mut ctx, &addr(1)), 10);
}

#[test]
fn unauthorized_mint_reverts() {
    let token = ERC20::new(0);
    let mut ctx = Context::new(addr(8));
    let r = token.call_with_data(&mut ctx, &call(2, &[address_word(&addr(1)), u64_word(100)]));
    assert!(is_revert(&r));
    assert_eq!(balance(&token, &mut ctx, &addr(1)), 0);
}

#[test]
fn mint_overflow_reverts() {
    let token = ERC20::new(0);
    let mut ctx = Context::new(addr(7));
    output(token.call_with_data(&mut ctx, &call(2, &[address_word(&addr(1)), u64_word(u64::MAX)])));
    let r = token.call_with_data(&mut ctx, &call(2, &[address_word(&addr(1)), u64_word(1)]));
    assert!(is_revert(&r));
    assert_eq!(balance(&token, &mut ctx, &addr(1)), u64::MAX);
}

#[test]
fn unknown_selector_reverts_without_writes() {
    let token = ERC20::new(0);
    let mut ctx = Context::new(addr(7));
    let r = token.call_with_data(&mut ctx, &[0xff, 0xff, 0xff, 0xff]);
    assert!(is_revert(&r));
    let r3 = token.call_with_data(&mut ctx, &call(3, &[address_word(&addr(1))]));
    assert!(is_revert(&r3));
    assert!(ctx.logs.is_empty());
    assert_eq!(balance(&token, &mut ctx, &addr(1)), 0);
}

#[test]
fn empty_and_short_calldata_revert() {
    let token = ERC20::new(0);
    let mut ctx = Context::new(addr(7));
    assert!(is_revert(&token.call_with_data(&mut ctx, &[])));
    assert!(is_revert(&token.call_with_data(&mut ctx, &[0, 0, 0])));
    assert!(is_revert(&token.call_with_data(&mut ctx, &[0, 0, 0, 0])));
}

#[test]
fn malformed_arguments_revert() {
    let token = ERC20::new(0);
    let mut ctx = Context::new(addr(7));
    let mut dirty = address_word(&addr(1));
    dirty[0] = 1;
    assert!(is_revert(&token.call_with_data(&mut ctx, &call(0, &[dirty]))));
    let mut long = call(0, &[address_word(&addr(1))]);
    long.push(0);
    assert!(is_revert(&token.call_with_data(&mut ctx, &long)));
    let mut wide = u64_word(1);
    wide[23] = 1;
    assert!(is_revert(&token.call_with_data(&mut ctx, &call(2, &[address_word(&addr(1)), wide]))));
}

#[test]
fn argument_words_match_outside_encoder() {
    let a = alloy_core::primitives::Address::from(addr(1).bytes);
    assert_eq!((a, 42u64).abi_encode(), [address_word(&addr(1)), u64_word(42)].concat());
    assert_eq!(false.abi_encode(), vec![0u8; 32]);
}

#[test]
fn call_reads_calldata_region() {
    let token = ERC20::new(0);
    let mut ctx = Context::new(addr(7));
    let data = call(2, &[address_word(&addr(1)), u64_word(5)]);
    let mut region = (data.len() as u64).to_le_bytes().to_vec();
    region.extend_from_slice(&data);
    region.extend_from_slice(&[0u8; 16]);
    assert_eq!(read_calldata(&region), Some(&data[..]));
    let out = output(token.call(&mut ctx, &region));
    assert!(parse_bool_result(&out));
    assert_eq!(balance(&token, &mut ctx, &addr(1)), 5);
    let mut bad = (1000u64).to_le_bytes().to_vec();
    bad.extend_from_slice(&data);
    assert_eq!(read_calldata(&bad), None);
    assert!(is_revert(&token.call(&mut ctx, &bad)));
    assert!(is_revert(&token.call(&mut ctx, &[1, 2, 3])));
}

#[test]
fn default_token_uses_mapping_id_zero() {
    let token = ERC20::default();
    let explicit = ERC20::new(0);
    let mut ctx = Context::new(addr(7));
    output(token.call_with_data(&mut ctx, &call(2, &[address_word(&addr(1)), u64_word(11)])));
    assert_eq!(balance(&explicit, &mut ctx, &addr(1)), 11);
    let other = ERC20::new(1);
    assert_eq!(balance(&other, &mut ctx, &addr(1)), 0);
}

#[test]
fn result_parsers() {
    assert_eq!(parse_hex_result(&u64_word(0x0102_0304_0506_0708)), 0x0102_0304_0506_0708);
    assert!(parse_bool_result(&true.abi_encode()));
    assert!(!parse_bool_result(&false.abi_encode()));
    assert!(!parse_bool_result(&[1u8]));
}

use wallet_last_tx::timefmt::{format_timestamp, parse_hex_u64, render_instant};
use wallet_last_tx::wallet::{
    classify_wallet_entry, identify_input, is_address_input, mask_private_key, parse_chain_list,
    with_hex_prefix, WalletEntry,
};

#[test]
fn hex_timestamp_decodes() {
    assert_eq!(parse_hex_u64("5f5e1000"), Some(1_600_000_000));
    assert_eq!(parse_hex_u64("0"), Some(0));
    assert_eq!(parse_hex_u64("ffffffffffffffff"), Some(u64::MAX));
    assert_eq!(parse_hex_u64("+1f"), Some(31));
}

#[test]
fn hex_timestamp_rejections() {
    assert_eq!(parse_hex_u64(""), None);
    assert_eq!(parse_hex_u64("+"), None);
    assert_eq!(parse_hex_u64("xyz"), None);
    assert_eq!(parse_hex_u64("12 34"), None);
    // One digit past 64 bits overflows.
    assert_eq!(parse_hex_u64("10000000000000000"), None);
}

#[test]
fn timestamp_formats_deterministically() {
    // 0x5f5e1000 is Unix second 1600000000: a fixed instant, rendered as a
    // 16-character local-zone string, the same on every call.
    let first = format_timestamp("0x5f5e1000");
    let second = format_timestamp("0x5f5e1000");
    assert_eq!(first, second);
    assert_eq!(first.chars().count(), 16);
    assert_ne!(first, "时间解析失败");
    assert_ne!(first, "时间格式错误");
    // The prefix is optional.
    assert_eq!(format_timestamp("5f5e1000"), first);
}

#[test]
fn timestamp_parse_failure_is_sentinel() {
    assert_eq!(format_timestamp("not-hex"), "时间解析失败");
    assert_eq!(format_timestamp(""), "时间解析失败");
    assert_eq!(format_timestamp("0x"), "时间解析失败");
}

#[test]
fn identify_prefixed_address() {
    let addr = "0x1234567890abcdef1234567890abcdef12345678";
    let (t, is_key) = identify_input(addr);
    assert_eq!(t, addr);
    assert!(!is_key);
    assert!(is_address_input(t));
}

#[test]
fn identify_bare_address() {
    let addr = "1234567890abcdef1234567890abcdef12345678";
    let (t, is_key) = identify_input(addr);
    assert_eq!(t, addr);
    assert!(!is_key);
    assert!(is_address_input(t));
}

#[test]
fn identify_private_keys() {
    let key66 = "0x1234567890abcdef1234567890abcdef1234567890abcdef1234567890abcdef";
    let (t, is_key) = identify_input(key66);
    assert_eq!(t, key66);
    assert!(is_key);

    let key64 = "1234567890abcdef1234567890abcdef1234567890abcdef1234567890abcdef";
    let (_, is_key) = identify_input(key64);
    assert!(is_key);
}

#[test]
fn identify_trims_whitespace() {
    let (t, is_key) = identify_input("  0x1234567890abcdef1234567890abcdef12345678\n");
    assert_eq!(t, "0x1234567890abcdef1234567890abcdef12345678");
    assert!(!is_key);
}

#[test]
fn identify_rejects_odd_shapes() {
    // Wrong length, and non-hex characters in a key-length string.
    let (_, is_key) = identify_input("0xdeadbeef");
    assert!(!is_key);
    let (_, is_key) =
        identify_input("zz34567890abcdef1234567890abcdef1234567890abcdef1234567890abcdef");
    assert!(!is_key);
}

#[test]
fn mask_short_key_whole() {
    assert_eq!(mask_private_key("0xabcdef"), "0xabcdef");
    assert_eq!(mask_private_key(""), "");
}

#[test]
fn mask_long_key() {
    let key = "0x1234567890abcdef1234567890abcdef1234567890abcdef1234567890abcdef";
    assert_eq!(mask_private_key(key), "0x1234...cdef");
    let bare = "1234567890abcdef1234567890abcdef1234567890abcdef1234567890abcdef";
    assert_eq!(mask_private_key(bare), "123456...cdef");
}

#[test]
fn entry_classification_normalizes() {
    match classify_wallet_entry("1234567890abcdef1234567890abcdef12345678") {
        WalletEntry::Address(a) => {
            assert_eq!(a, "0x1234567890abcdef1234567890abcdef12345678");
        }
        _ => panic!("a bare address is normalized, not taken for a key"),
    }
    match classify_wallet_entry(
        " 1234567890abcdef1234567890abcdef1234567890abcdef1234567890abcdef ",
    ) {
        WalletEntry::PrivateKey(k) => {
            assert_eq!(k, "1234567890abcdef1234567890abcdef1234567890abcdef1234567890abcdef");
        }
        _ => panic!("a 64-character hex string is a private key"),
    }
}

#[test]
fn prefixing_is_idempotent_on_prefixed_text() {
    assert_eq!(with_hex_prefix("0xabc"), "0xabc");
    assert_eq!(with_hex_prefix("abc"), "0xabc");
}

#[test]
fn render_instant_folds_range_failure() {
    assert_eq!(render_instant(None), "时间格式错误");
    assert_eq!(render_instant(Some("2020-09-13 12:26".to_string())), "2020-09-13 12:26");
}

#[test]
fn chain_list_parses() {
    assert_eq!(
        parse_chain_list("eth,bsc,polygon"),
        vec!["eth".to_string(), "bsc".to_string(), "polygon".to_string()]
    );
    // Pieces are trimmed and empty pieces are dropped.
    assert_eq!(
        parse_chain_list(" eth , ,bsc,,polygon "),
        vec!["eth".to_string(), "bsc".to_string(), "polygon".to_string()]
    );
    assert_eq!(parse_chain_list(""), Vec::<String>::new());
    assert_eq!(parse_chain_list(" , ,"), Vec::<String>::new());
}

use evm_rpc::nonce::NonceCounter;
use evm_rpc::rpc::{json_array, logs_filter_params, string_params, Request};
use evm_rpc::utils::{
    decimal_to_hex, get_timeout_string, hex_to_decimal, hex_to_string, is_ipfs_cid,
    is_nft_storage_link, is_profane, make_cmd_args, shorten_hex, util_get_list_blocks_range,
    util_get_method_hash,
};

#[test]
fn nonces_increase_and_never_repeat() {
    let mut c = NonceCounter::new();
    let a = c.get_nonce();
    let b = c.get_nonce();
    let d = c.get_nonce();
    assert_eq!(a, 1);
    assert!(a < b && b < d);
}

#[test]
fn hex_and_decimal_conversions() {
    assert_eq!(decimal_to_hex(255), "0xff");
    assert_eq!(decimal_to_hex(0), "0x0");
    assert_eq!(hex_to_decimal("0xff".to_string()), Some(255));
    assert_eq!(hex_to_decimal("0xFF".to_string()), Some(255));
    assert_eq!(hex_to_decimal("0x0".to_string()), Some(0));
    assert_eq!(hex_to_decimal("0xffffffffffffffff".to_string()), Some(u64::MAX));
    assert_eq!(hex_to_decimal("0x10000000000000000".to_string()), None);
    assert_eq!(hex_to_decimal("0x".to_string()), None);
    assert_eq!(hex_to_decimal("0xg1".to_string()), None);
    assert_eq!(hex_to_decimal("".to_string()), None);
}

#[test]
fn shorten_hex_keeps_the_tail() {
    let owner = "0x000000000000000000000000abcdefabcdefabcdefabcdefabcdefabcdefabcd";
    assert_eq!(shorten_hex(owner, 40), "0xabcdefabcdefabcdefabcdefabcdefabcdefabcd");
    assert_eq!(shorten_hex("0x1234", 0), "0x");
}

#[test]
fn method_hash_is_first_four_bytes() {
    assert_eq!(util_get_method_hash("0xa9059cbb0000".to_string()).unwrap(), "0xa9059cbb");
    assert_eq!(util_get_method_hash("A9059CBB".to_string()).unwrap(), "0xa9059cbb");
    assert!(util_get_method_hash("0xa905".to_string()).is_none());
    assert!(util_get_method_hash("0xzz".to_string()).is_none());
}

#[test]
fn block_range_is_half_open() {
    assert_eq!(util_get_list_blocks_range(3, 6), vec![3, 4, 5]);
    assert!(util_get_list_blocks_range(6, 3).is_empty());
}

#[test]
fn command_arguments_carry_timeout_and_api() {
    assert_eq!(get_timeout_string(30), "30s");
    let args = make_cmd_args(vec!["dag".to_string(), "get".to_string()], "/ip4/1".to_string(), 5);
    assert_eq!(args, vec!["dag", "get", "--timeout", "5s", "--api", "/ip4/1"]);
}

#[test]
fn links_and_words() {
    assert!(is_nft_storage_link(""));
    assert!(is_nft_storage_link("https://nftstorage.link/ipfs/bafy"));
    assert!(!is_nft_storage_link("https://example.com"));
    assert!(is_ipfs_cid("/ipfs/Qm"));
    assert!(!is_ipfs_cid("ipfs/Qm"));
    assert!(!is_profane("anything at all"));
}

#[test]
fn hex_text_is_cleaned() {
    // "\0\0a b\\c\0" as hex
    assert_eq!(hex_to_string("0x00006120625c6300".to_string()).unwrap(), "abc");
    assert!(hex_to_string("0xff".to_string()).is_none());
    assert!(hex_to_string("0x0".to_string()).is_none());
}

#[test]
fn request_command_line() {
    let req = Request::new("eth_blockNumber".to_string(), json_array(&vec![]), 9);
    let args = req.as_sys_string(&"http://node".to_string());
    assert_eq!(
        args,
        vec![
            "-s",
            "-X",
            "POST",
            "-H",
            "Content-Type: application/json",
            "-d",
            r#"{"jsonrpc":"2.0", "method":"eth_blockNumber", "params":[], "id":9}"#,
            "http://node",
        ]
    );
}

#[test]
fn params_are_json_arrays() {
    assert_eq!(
        string_params(&vec!["0xab".to_string(), "latest".to_string()]),
        r#"["0xab","latest"]"#
    );
    assert_eq!(string_params(&vec!["a\"b".to_string()]), r#"["a\"b"]"#);
    assert_eq!(json_array(&vec!["\"0x1\"".to_string(), "true".to_string()]), r#"["0x1",true]"#);
    assert_eq!(
        logs_filter_params("0x1", "0x2", "0xc0", &vec!["0xt".to_string()]),
        r#"[{"address":"0xc0","fromBlock":"0x1","toBlock":"0x2","topics":["0xt"]}]"#
    );
}

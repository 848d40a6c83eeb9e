use evm_rpc::abi::ContractInterface;
use evm_rpc::decoder::{decode_abi, decode_batch_logs, decode_log, DecodeError};
use evm_rpc::models::TxLog;

const TOKEN_ABI: &str = r#"[
  {"type":"event","name":"Transfer","anonymous":false,"inputs":[
    {"name":"from","type":"address","indexed":true},
    {"name":"to","type":"address","indexed":true},
    {"name":"value","type":"uint256","indexed":false}]},
  {"type":"event","name":"Approval","anonymous":false,"inputs":[
    {"name":"owner","type":"address","indexed":true},
    {"name":"spender","type":"address","indexed":true},
    {"name":"value","type":"uint256","indexed":false}]},
  {"type":"function","name":"transfer","inputs":[
    {"name":"to","type":"address"},{"name":"value","type":"uint256"}],
    "outputs":[{"name":"","type":"bool"}],"stateMutability":"nonpayable"},
  {"type":"function","name":"balanceOf","inputs":[{"name":"owner","type":"address"}],
    "outputs":[{"name":"","type":"uint256"}],"stateMutability":"view"}
]"#;

const TRANSFER_SIG: &str = "0xddf252ad1be2c89b69c2b068fc378daa952ba7f163c4a11628f55a4df523b3ef";
const APPROVAL_SIG: &str = "0x8c5be1e5ebec7d5bd14f71427d1e84f3dd0314c0f7b2291e5b200ac8c7c3b925";
const FROM_TOPIC: &str = "0x0000000000000000000000001111111111111111111111111111111111111111";
const TO_TOPIC: &str = "0x000000000000000000000000AbCdEf0000000000000000000000000000000022";

fn iface() -> ContractInterface {
    match ContractInterface::load(TOKEN_ABI) {
        Ok(i) => i,
        Err(_) => panic!("the token ABI should load"),
    }
}

fn word(value_hex: &str) -> String {
    format!("0x{:0>64}", value_hex)
}

fn record(sig: &str, data: String) -> TxLog {
    TxLog {
        topics: vec![sig.to_string(), FROM_TOPIC.to_string(), TO_TOPIC.to_string()],
        data,
        transaction_hash: "0xabc".to_string(),
        block_number: 42,
    }
}

#[test]
fn transfer_decodes_addresses_and_exact_uint() {
    let ev = decode_log(&iface(), &record(TRANSFER_SIG, word("d3c21bcecceda1000000"))).unwrap();
    assert!(ev.success);
    assert_eq!(ev.event_name, "Transfer");
    assert_eq!(ev.params.len(), 3);
    assert_eq!(ev.params[0].name, "from");
    assert_eq!(ev.params[0].kind, "address");
    assert_eq!(ev.params[0].value, "0x1111111111111111111111111111111111111111");
    assert_eq!(ev.params[1].kind, "address");
    assert_eq!(ev.params[1].value, "0xabcdef0000000000000000000000000000000022");
    assert_eq!(ev.params[2].name, "value");
    assert_eq!(ev.params[2].kind, "uint");
    assert_eq!(ev.params[2].value, "1000000000000000000000000");
    assert_eq!(ev.block_number, 42);
    assert_eq!(ev.transaction_hash, "0xabc");
    assert_eq!(ev.error_msg, "");
}

#[test]
fn transfer_json_view_holds_the_fields() {
    let ev = decode_log(&iface(), &record(TRANSFER_SIG, word("3e8"))).unwrap();
    assert_eq!(
        ev.data,
        r#"{"from":"0x1111111111111111111111111111111111111111","to":"0xabcdef0000000000000000000000000000000022","value":1000}"#
    );
}

#[test]
fn unmatched_signature_is_a_soft_failure() {
    let sig = "0x1234567890123456789012345678901234567890123456789012345678901234";
    let ev = decode_log(&iface(), &record(sig, word("1"))).unwrap();
    assert!(!ev.success);
    assert_eq!(ev.event_name, "");
    assert!(ev.params.is_empty());
    assert_eq!(ev.data, "null");
    assert_eq!(ev.block_number, 0);
}

#[test]
fn log_without_topics_is_refused() {
    let log = TxLog { topics: vec![], data: "0x".to_string(), transaction_hash: String::new(), block_number: 1 };
    assert!(matches!(decode_log(&iface(), &log), Err(DecodeError::NoTopics)));
}

#[test]
fn malformed_topic_is_refused() {
    let mut log = record(TRANSFER_SIG, word("1"));
    log.topics[1] = "0xzz".to_string();
    assert!(matches!(decode_log(&iface(), &log), Err(DecodeError::BadTopic)));
}

#[test]
fn malformed_data_is_refused() {
    let log = record(TRANSFER_SIG, "0xabc".to_string());
    assert!(matches!(decode_log(&iface(), &log), Err(DecodeError::BadData)));
}

#[test]
fn short_data_does_not_decode() {
    let log = record(TRANSFER_SIG, "0x01".to_string());
    assert!(matches!(decode_log(&iface(), &log), Err(DecodeError::Undecodable)));
}

#[test]
fn batch_keeps_every_record_in_order() {
    let other = "0x1234567890123456789012345678901234567890123456789012345678901234";
    let logs = vec![
        record(TRANSFER_SIG, word("1")),
        record(APPROVAL_SIG, word("2")),
        record(other, word("3")),
        record(TRANSFER_SIG, word("4")),
        record(other, word("5")),
    ];
    let out = decode_batch_logs(&iface(), &logs).unwrap();
    let flags: Vec<bool> = out.iter().map(|e| e.success).collect();
    assert_eq!(flags, vec![true, true, false, true, false]);
    assert_eq!(out[1].event_name, "Approval");
    assert_eq!(out[3].params[2].value, "4");
}

#[test]
fn batch_of_nothing_is_empty() {
    assert!(decode_batch_logs(&iface(), &vec![]).unwrap().is_empty());
}

#[test]
fn abi_values_decode_to_text() {
    let data = format!("{:0>64}{:0>64}", "1", "ff");
    let out = decode_abi(vec!["bool".to_string(), "tuple".to_string(), "int".to_string()], data).unwrap();
    assert_eq!(out, vec!["true".to_string(), "ff".to_string()]);
}

#[test]
fn abi_decode_refuses_bad_hex() {
    assert!(decode_abi(vec!["bool".to_string()], "0xzz".to_string()).is_none());
}

#[test]
fn topics_with_blanks_read_as_hashes() {
    let mut log = record(TRANSFER_SIG, word("7"));
    log.topics[1] = format!("0x{} {}\n", "0".repeat(24), "1".repeat(40));
    let ev = decode_log(&iface(), &log).unwrap();
    assert_eq!(ev.params[0].value, "0x1111111111111111111111111111111111111111");
}

#[test]
fn document_operations_read_the_abi_once() {
    let ev = evm_rpc::service::decode_logs(TOKEN_ABI, &record(TRANSFER_SIG, word("2"))).unwrap();
    assert_eq!(ev.event_name, "Transfer");
    let all = evm_rpc::service::decode_batch_logs(TOKEN_ABI, &vec![record(APPROVAL_SIG, word("1"))]).unwrap();
    assert!(all[0].success);
    assert!(matches!(
        evm_rpc::service::decode_logs("[{", &record(TRANSFER_SIG, word("2"))),
        Err(evm_rpc::service::ServiceError::Abi(_))
    ));
    let p = evm_rpc::service::contract_call_params(TOKEN_ABI, "balanceOf", "0x2222222222222222222222222222222222222222",
        &vec![evm_rpc::models::TxParam { value_type: "address".to_string(), value: "0x1111111111111111111111111111111111111111".to_string() }]).unwrap();
    assert!(p.starts_with(r#"[{"to":"0x2222222222222222222222222222222222222222","data":"0x70a08231"#));
}

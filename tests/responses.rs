use evm_rpc::results::{
    check_response_block_string, check_response_log_string, check_response_string,
    check_response_transaction_string, JsonRpcResult, RpcFailure, TestResult,
};
use evm_rpc::records::{TxSerde, TxSerdeLogs};

#[test]
fn empty_response_is_transport_failure() {
    let r = check_response_string(String::new(), &7).unwrap();
    assert_eq!(r.id, 7);
    assert_eq!(r.result, "");
    assert_eq!(r.jsonrpc, "2.0");
    assert_eq!(
        r.error,
        r#"{"jsonrpc":"2.0","id":7,"error":{"code":-32700,"message":"Curl connection failed"}}"#
    );
}

#[test]
fn empty_log_response_is_transport_failure() {
    let r = check_response_log_string(String::new(), &12).unwrap();
    assert_eq!(r.id, 12);
    assert!(r.result.is_empty());
    assert!(r.error.contains("-32700"));
}

#[test]
fn error_body_is_passed_on_whole() {
    let body = r#"{"jsonrpc":"2.0","id":3,"error":{"code":-32601,"message":"Method not found"}}"#;
    let r = check_response_string(body.to_string(), &9).unwrap();
    assert_eq!(r.id, 3);
    assert_eq!(r.error, body);
    assert_eq!(r.result, "");
}

#[test]
fn error_marker_anywhere_makes_an_error() {
    let body = r#"{"jsonrpc":"2.0","id":4,"result":"no error here"}"#;
    let r = check_response_string(body.to_string(), &4).unwrap();
    assert_eq!(r.error, body);
    assert_eq!(r.result, "");
}

#[test]
fn error_body_without_id_fails_to_parse() {
    let r = check_response_string("error".to_string(), &1);
    assert_eq!(r.unwrap_err(), RpcFailure::ParseFailure);
}

#[test]
fn scalar_result_is_read() {
    let r = check_response_string(r#"{"jsonrpc":"2.0","id":5,"result":"0x1b4"}"#.to_string(), &5).unwrap();
    assert_eq!(r.id, 5);
    assert_eq!(r.result, "0x1b4");
    assert_eq!(r.error, "");
}

#[test]
fn non_string_scalar_result_fails_to_parse() {
    let r = check_response_string(r#"{"jsonrpc":"2.0","id":5,"result":12}"#.to_string(), &5);
    assert!(r.is_err());
    let r = check_response_string("not json".to_string(), &5);
    assert!(r.is_err());
}

#[test]
fn log_results_are_read_with_decimal_block_numbers() {
    let body = r#"{"jsonrpc":"2.0","id":8,"result":[
        {"topics":["0xaa","0xbb"],"data":"0x01","transactionHash":"0xt1","blockNumber":"0x10"},
        {"data":null,"blockNumber":"0xff"}]}"#;
    let r = check_response_log_string(body.to_string(), &8).unwrap();
    assert_eq!(r.id, 8);
    assert_eq!(r.result.len(), 2);
    assert_eq!(r.result[0].topics, vec!["0xaa".to_string(), "0xbb".to_string()]);
    assert_eq!(r.result[0].data, "0x01");
    assert_eq!(r.result[0].transaction_hash, "0xt1");
    assert_eq!(r.result[0].block_number, 16);
    assert!(r.result[1].topics.is_empty());
    assert_eq!(r.result[1].data, "");
    assert_eq!(r.result[1].block_number, 255);
}

#[test]
fn log_without_block_number_fails_to_parse() {
    let body = r#"{"jsonrpc":"2.0","id":8,"result":[{"data":"0x"}]}"#;
    assert!(check_response_log_string(body.to_string(), &8).is_err());
}

#[test]
fn block_transactions_are_read() {
    let body = r#"{"jsonrpc":"2.0","id":2,"result":{"number":"0x1","transactions":[
        {"hash":"0xh1","from":"0xf1","to":null,"value":"0x0","input":"0x"},
        {"hash":"0xh2","logs":[{"topics":["0xcc"],"blockNumber":"0x2"}]}]}}"#;
    let r = check_response_block_string(body.to_string(), &2).unwrap();
    assert_eq!(r.id, 2);
    assert_eq!(r.transactions.len(), 2);
    assert_eq!(r.transactions[0].hash, "0xh1");
    assert_eq!(r.transactions[0].from, "0xf1");
    assert_eq!(r.transactions[0].to, "");
    assert_eq!(r.transactions[0].gas, "");
    assert!(r.transactions[0].logs.is_empty());
    assert_eq!(r.transactions[1].logs.len(), 1);
    assert_eq!(r.transactions[1].logs[0].block_number, 2);
}

#[test]
fn transaction_receipt_is_read() {
    let body = r#"{"jsonrpc":"2.0","id":6,"result":{"blockHash":"0xbh","blockNumber":"0x5","transactionIndex":"0x0",
        "logs":[{"topics":[],"data":"0x","transactionHash":"0xth","blockNumber":"0x5"}]}}"#;
    let r = check_response_transaction_string(body.to_string(), &6).unwrap();
    assert_eq!(r.id, 6);
    assert_eq!(r.transaction.block_hash, "0xbh");
    assert_eq!(r.transaction.block_number, "0x5");
    assert_eq!(r.transaction.transaction_index, "0x0");
    assert_eq!(r.transaction.logs[0].transaction_hash, "0xth");
    assert_eq!(r.transaction.logs[0].block_number, 5);
}

#[test]
fn transaction_error_carries_an_empty_transaction() {
    let body = r#"{"jsonrpc":"2.0","id":6,"error":{"code":1,"message":"x"}}"#;
    let r = check_response_transaction_string(body.to_string(), &1).unwrap();
    assert_eq!(r.id, 6);
    assert_eq!(r.transaction.hash, "");
    assert_eq!(r.transaction.from, "");
    assert_eq!(r.transaction.block_hash, "");
    assert_eq!(r.error, body);
}

#[test]
fn missing_receipt_fails_to_parse() {
    let body = r#"{"jsonrpc":"2.0","id":6,"result":null}"#;
    assert!(check_response_transaction_string(body.to_string(), &6).is_err());
}

#[test]
fn test_result_follows_outcome() {
    let ok = TestResult::from_result(Ok("fine".to_string()));
    assert!(ok.test_passed);
    assert_eq!(ok.error, "fine");
    let bad = TestResult::from_result(Err("broken".to_string()));
    assert!(!bad.test_passed);
    assert_eq!(bad.error, "broken");
}

#[test]
fn from_res_reads_classified_texts() {
    let ok = JsonRpcResult::from_res(Ok(r#"{"id":11,"result":"0x0"}"#.to_string())).unwrap();
    assert_eq!(ok.id, 11);
    assert_eq!(ok.result, "0x0");
    let err = JsonRpcResult::from_res(Err(r#"{"id":12,"error":{}}"#.to_string())).unwrap();
    assert_eq!(err.id, 12);
    assert_eq!(err.result, "");
    assert_eq!(JsonRpcResult::from_res(Err("{}".to_string())).unwrap_err(), RpcFailure::ParseFailure);
}

#[test]
fn serde_shaped_fields_turn_into_records() {
    let fields = TxSerdeLogs::read(r#"{"topics":null,"blockNumber":"0x2a","transactionHash":"0xt"}"#).unwrap();
    assert!(fields.topics.is_none());
    assert!(fields.data.is_none());
    let log = fields.to_tx_log().unwrap();
    assert_eq!(log.block_number, 42);
    assert_eq!(log.transaction_hash, "0xt");
    assert!(TxSerdeLogs::read(r#"{"data":5}"#).is_none());
    let tx = TxSerde::read(r#"{"hash":"0xh","logs":[{"blockNumber":"zz"}]}"#).unwrap();
    assert_eq!(tx.hash.as_deref(), Some("0xh"));
    assert!(tx.to_tx().is_none());
}

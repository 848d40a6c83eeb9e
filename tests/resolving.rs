use evm_rpc::abi::{decode_input_to_get_method_name, ContractInterface};
use evm_rpc::calls::{contract_view_call_params, encode_call, EncodeError};
use evm_rpc::models::TxParam;

const ABI: &str = r#"[
  {"type":"function","name":"transfer","inputs":[
    {"name":"to","type":"address"},{"name":"value","type":"uint256"}],
    "outputs":[{"name":"","type":"bool"}],"stateMutability":"nonpayable"},
  {"type":"function","name":"balanceOf","inputs":[{"name":"owner","type":"address"}],
    "outputs":[{"name":"","type":"uint256"}],"stateMutability":"view"},
  {"type":"function","name":"name","inputs":[],
    "outputs":[{"name":"","type":"string"}],"stateMutability":"view"}
]"#;

fn iface() -> ContractInterface {
    match ContractInterface::load(ABI) {
        Ok(i) => i,
        Err(_) => panic!("the ABI should load"),
    }
}

fn param(kind: &str, value: &str) -> TxParam {
    TxParam { value_type: kind.to_string(), value: value.to_string() }
}

#[test]
fn selector_resolves_to_function_name() {
    let input = "0xa9059cbb0000000000000000000000001111111111111111111111111111111111111111";
    assert_eq!(decode_input_to_get_method_name(&iface(), input.to_string()).unwrap(), "transfer");
    assert_eq!(decode_input_to_get_method_name(&iface(), "0x70a08231".to_string()).unwrap(), "balanceOf");
}

#[test]
fn selector_resolves_without_prefix() {
    assert_eq!(decode_input_to_get_method_name(&iface(), "a9059cbb".to_string()).unwrap(), "transfer");
    assert_eq!(decode_input_to_get_method_name(&iface(), "12345678".to_string()).unwrap(), "");
}

#[test]
fn unknown_selector_resolves_to_empty() {
    assert_eq!(decode_input_to_get_method_name(&iface(), "0xdeadbeef00".to_string()).unwrap(), "");
}

#[test]
fn short_or_malformed_calldata_is_refused() {
    assert!(decode_input_to_get_method_name(&iface(), "0xa905".to_string()).is_none());
    assert!(decode_input_to_get_method_name(&iface(), "0xzzzzzzzz".to_string()).is_none());
    assert!(decode_input_to_get_method_name(&iface(), "0".to_string()).is_none());
}

#[test]
fn malformed_abi_is_refused() {
    assert!(ContractInterface::load("{not json").is_err());
}

#[test]
fn call_is_encoded_with_selector() {
    let data = encode_call(
        &iface(),
        "transfer",
        &vec![param("address", "0x1111111111111111111111111111111111111111"), param("uint", "1000")],
    )
    .unwrap();
    assert_eq!(data.len(), 4 + 64);
    assert_eq!(&data[0..4], &[0xa9, 0x05, 0x9c, 0xbb]);
    assert_eq!(data[4 + 31], 0x11);
    assert_eq!(data[4 + 63], 0xe8);
    assert_eq!(data[4 + 62], 0x03);
}

#[test]
fn unknown_function_is_refused() {
    assert_eq!(encode_call(&iface(), "mint", &vec![]), Err(EncodeError::UnknownFunction));
}

#[test]
fn malformed_address_and_uint_are_refused() {
    assert_eq!(encode_call(&iface(), "balanceOf", &vec![param("address", "0x12")]), Err(EncodeError::BadAddress));
    assert_eq!(
        encode_call(&iface(), "transfer", &vec![param("address", "0x1111111111111111111111111111111111111111"), param("uint", "12a")]),
        Err(EncodeError::BadUint)
    );
}

#[test]
fn mismatched_arguments_do_not_encode() {
    assert_eq!(encode_call(&iface(), "balanceOf", &vec![]), Err(EncodeError::Unencodable));
    assert_eq!(encode_call(&iface(), "balanceOf", &vec![param("text", "hello")]), Err(EncodeError::Unencodable));
}

#[test]
fn view_call_params_frame_the_call() {
    let p = contract_view_call_params(&iface(), "name", "0x2222222222222222222222222222222222222222", &vec![]).unwrap();
    assert_eq!(p, r#"[{"to":"0x2222222222222222222222222222222222222222","data":"0x06fdde03"},"latest"]"#);
    assert_eq!(
        contract_view_call_params(&iface(), "name", "nope", &vec![]),
        Err(EncodeError::BadAddress)
    );
}

const OVERLOADED: &str = r#"[
  {"type":"function","name":"f","inputs":[{"name":"a","type":"uint256"}],"outputs":[]},
  {"type":"function","name":"f","inputs":[{"name":"a","type":"address"}],"outputs":[]},
  {"type":"event","name":"E","anonymous":false,"inputs":[{"name":"a","type":"uint256","indexed":false}]},
  {"type":"event","name":"E","anonymous":false,"inputs":[{"name":"b","type":"bool","indexed":false}]}
]"#;

#[test]
fn every_overload_is_kept() {
    let i = ContractInterface::load(OVERLOADED).unwrap_or_else(|_| panic!("loads"));
    assert_eq!(i.functions.len(), 2);
    assert_eq!(i.events.len(), 2);
    // f(address) is the second definition; its selector must resolve too
    let sel: String = i.functions[1].selector.iter().map(|b| format!("{:02x}", b)).collect();
    assert_eq!(decode_input_to_get_method_name(&i, format!("0x{}", sel)).unwrap(), "f");
    assert_eq!(encode_call(&i, "f", &vec![param("uint", "1")]).unwrap().len(), 36);
}

#[test]
fn second_event_overload_decodes() {
    let i = ContractInterface::load(OVERLOADED).unwrap_or_else(|_| panic!("loads"));
    let sig: String = i.events[1].signature.iter().map(|b| format!("{:02x}", b)).collect();
    let log = evm_rpc::models::TxLog {
        topics: vec![format!("0x{}", sig)],
        data: format!("0x{:0>64}", "1"),
        transaction_hash: "0xt".to_string(),
        block_number: 3,
    };
    let ev = evm_rpc::decoder::decode_log(&i, &log).unwrap();
    assert!(ev.success);
    assert_eq!(ev.event_name, "E");
    assert_eq!(ev.params[0].name, "b");
    assert_eq!(ev.params[0].value, "true");
}

#[test]
fn faulting_type_text_is_refused() {
    let doc = r#"[{"type":"function","name":"g","inputs":[{"name":"a","type":"5]"}],"outputs":[]}]"#;
    assert!(matches!(ContractInterface::load(doc), Err(evm_rpc::abi::AbiLoadError::Malformed)));
    let doc = r#"[{"type":"function","name":"g","inputs":[{"name":"a","type":"uint256[]"}],"outputs":[]}]"#;
    assert!(ContractInterface::load(doc).is_ok());
}

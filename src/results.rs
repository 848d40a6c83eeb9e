//! Classifying raw JSON-RPC responses into typed results.
use vstd::prelude::*;
use crate::json::{
    find_member, json_items, json_members, json_string, json_u64, member, read_items,
    read_members, read_string, read_u64, strings_view,
};
use crate::records::{
    all_some, block_fields_of, log_record_of, read_log_records, read_tx_record, tx_of_fields,
    tx_record_of, ResultSerde, Tx, TxFieldsView, TxLogView, TxView,
};
use crate::models::TxLog;
use crate::text::{chars_of, contains, contains_chars, decimal_text, digits_of, string_of};

verus! {

/// The JSON-RPC version every result carries.
pub const JSON_RPC: &'static str = "2.0";

/// A result whose payload is a bare string. Exactly one of `result` and `error` is filled.
#[derive(Debug, Clone)]
pub struct JsonRpcResult {
    pub jsonrpc: String,
    pub result: String,
    pub error: String,
    pub id: u64,
}

/// A result whose payload is a list of logs.
#[derive(Debug, Clone)]
pub struct JsonRpcLogResult {
    pub jsonrpc: String,
    pub result: Vec<TxLog>,
    pub error: String,
    pub id: u64,
}

/// A result whose payload is the transactions of a block.
#[derive(Debug, Clone)]
pub struct JsonRpcBlockResult {
    pub jsonrpc: String,
    pub transactions: Vec<Tx>,
    pub error: String,
    pub id: u64,
}

/// A result whose payload is one transaction.
#[derive(Debug, Clone)]
pub struct JsonRpcTransactionResult {
    pub jsonrpc: String,
    pub transaction: Tx,
    pub error: String,
    pub id: u64,
}

/// Why a response could not be read: it is not JSON of the expected shape.
#[derive(Debug, Clone, Copy, PartialEq, Eq, Structural)]
pub enum RpcFailure {
    ParseFailure,
}

/// How a raw response is classified.
pub enum ResponseClass {
    /// The transport gave nothing back.
    TransportFailure,
    /// The text holds the error marker; it is passed on whole.
    RpcError,
    /// The text is read for its `result`.
    Success,
}

/// The marker whose presence anywhere in a response makes it an error.
pub open spec fn error_marker() -> Seq<char> {
    "error"@
}

pub open spec fn class_of(response: Seq<char>) -> ResponseClass {
    if response.len() == 0 {
        ResponseClass::TransportFailure
    } else if contains(response, error_marker()) {
        ResponseClass::RpcError
    } else {
        ResponseClass::Success
    }
}

/// The error text made up for a transport failure on request `id`.
pub open spec fn transport_failure_text(id: u64) -> Seq<char> {
    "{\"jsonrpc\":\"2.0\",\"id\":"@ + decimal_text(id as nat)
        + ",\"error\":{\"code\":-32700,\"message\":\"Curl connection failed\"}}"@
}

/// The `id` member of a response object.
pub open spec fn response_id(text: Seq<char>) -> Option<u64> {
    match json_members(text) {
        Some(ms) => match member(ms, "id"@) {
            Some(t) => json_u64(t),
            None => None,
        },
        None => None,
    }
}

/// The `result` member of a response object, as JSON text.
pub open spec fn response_result(text: Seq<char>) -> Option<Seq<char>> {
    match json_members(text) {
        Some(ms) => member(ms, "result"@),
        None => None,
    }
}

/// Classifies a raw response.
pub fn classify(response: &str) -> (r: ResponseClass)
    ensures
        r == class_of(response@),
{
    let chars = chars_of(response);
    if chars.len() == 0 {
        return ResponseClass::TransportFailure;
    }
    let marker = chars_of("error");
    if contains_chars(&chars, &marker) {
        ResponseClass::RpcError
    } else {
        ResponseClass::Success
    }
}

/// The error text made up for a transport failure on request `id`.
pub fn transport_failure(id: u64) -> (r: String)
    ensures
        r@ == transport_failure_text(id),
{
    let mut out = "{\"jsonrpc\":\"2.0\",\"id\":".to_string();
    let digits = string_of(&digits_of(id, 10));
    out.append(digits.as_str());
    out.append(",\"error\":{\"code\":-32700,\"message\":\"Curl connection failed\"}}");
    out
}

/// Reads the `id` member of a response object.
pub fn read_response_id(text: &str) -> (r: Option<u64>)
    ensures
        r == response_id(text@),
{
    let ms = read_members(text)?;
    let t = find_member(&ms, "id")?;
    read_u64(t.as_str())
}

/// Reads the `id` member and the `result` member (as JSON text) of a response object.
pub fn read_response_parts(text: &str) -> (r: Option<(u64, String)>)
    ensures
        match (response_id(text@), response_result(text@)) {
            (Some(id), Some(res)) => r matches Some(p) && p.0 == id && p.1@ == res,
            _ => r is None,
        },
{
    let id = read_response_id(text)?;
    let ms = read_members(text)?;
    let res = find_member(&ms, "result")?;
    Some((id, res))
}

impl JsonRpcResult {
    /// Reads a response already classified: an error text for its `id`, a success text for
    /// its `id` and string `result`.
    pub fn from_res(raw_result: Result<String, String>) -> (r: Result<JsonRpcResult, RpcFailure>)
        ensures
            match raw_result {
                Err(e) => match response_id(e@) {
                    Some(i) => r matches Ok(x) && x.id == i && x.error == e && x.result@.len() == 0
                        && x.jsonrpc@ == "2.0"@,
                    None => r == Err::<JsonRpcResult, RpcFailure>(RpcFailure::ParseFailure),
                },
                Ok(t) => match (response_id(t@), response_result(t@)) {
                    (Some(i), Some(res)) => match json_string(res) {
                        Some(s) => r matches Ok(x) && x.id == i && x.result@ == s && x.error@.len()
                            == 0 && x.jsonrpc@ == "2.0"@,
                        None => r == Err::<JsonRpcResult, RpcFailure>(RpcFailure::ParseFailure),
                    },
                    _ => r == Err::<JsonRpcResult, RpcFailure>(RpcFailure::ParseFailure),
                },
            },
    {
        proof {
            reveal_strlit("2.0");
        }
        match raw_result {
            Err(err) => match read_response_id(err.as_str()) {
                Some(i) => Ok(JsonRpcResult {
                    jsonrpc: JSON_RPC.to_string(),
                    result: String::new(),
                    error: err,
                    id: i,
                }),
                None => Err(RpcFailure::ParseFailure),
            },
            Ok(res) => {
                let (i, t) = match read_response_parts(res.as_str()) {
                    Some(p) => p,
                    None => {
                        return Err(RpcFailure::ParseFailure);
                    },
                };
                match read_string(t.as_str()) {
                    Some(s) => Ok(JsonRpcResult {
                        jsonrpc: JSON_RPC.to_string(),
                        result: s,
                        error: String::new(),
                        id: i,
                    }),
                    None => Err(RpcFailure::ParseFailure),
                }
            },
        }
    }
}

/// Classifies a response whose payload is a bare string. An empty response is the
/// transport failure of request `id`; one that holds `error` is passed on as the error with
/// the id it carries; any other is read for its `id` and string `result`.
pub fn check_response_string(response: String, id: &u64) -> (r: Result<JsonRpcResult, RpcFailure>)
    ensures
        match class_of(response@) {
            ResponseClass::TransportFailure => r matches Ok(x) && x.id == *id && x.error@
                == transport_failure_text(*id) && x.result@.len() == 0 && x.jsonrpc@ == "2.0"@,
            ResponseClass::RpcError => match response_id(response@) {
                Some(i) => r matches Ok(x) && x.id == i && x.error == response && x.result@.len()
                    == 0 && x.jsonrpc@ == "2.0"@,
                None => r == Err::<JsonRpcResult, RpcFailure>(RpcFailure::ParseFailure),
            },
            ResponseClass::Success => match (response_id(response@), response_result(response@)) {
                (Some(i), Some(t)) => match json_string(t) {
                    Some(s) => r matches Ok(x) && x.id == i && x.result@ == s && x.error@.len()
                        == 0 && x.jsonrpc@ == "2.0"@,
                    None => r == Err::<JsonRpcResult, RpcFailure>(RpcFailure::ParseFailure),
                },
                _ => r == Err::<JsonRpcResult, RpcFailure>(RpcFailure::ParseFailure),
            },
        },
{
    proof {
        reveal_strlit("2.0");
    }
    match classify(response.as_str()) {
        ResponseClass::TransportFailure => Ok(JsonRpcResult {
            jsonrpc: JSON_RPC.to_string(),
            result: String::new(),
            error: transport_failure(*id),
            id: *id,
        }),
        ResponseClass::RpcError => JsonRpcResult::from_res(Err(response)),
        ResponseClass::Success => JsonRpcResult::from_res(Ok(response)),
    }
}

/// The logs of a successful response whose `result` is an array of log objects.
pub open spec fn logs_payload(text: Seq<char>) -> Option<Seq<TxLogView>> {
    match response_result(text) {
        Some(t) => match json_items(t) {
            Some(items) => all_some(items, |x: Seq<char>| log_record_of(x)),
            None => None,
        },
        None => None,
    }
}

impl JsonRpcLogResult {
    /// Reads a response already classified: an error text for its `id`, a success text for
    /// its `id` and the logs of its `result`.
    pub fn from_res(raw_result: Result<String, String>) -> (r: Result<JsonRpcLogResult, RpcFailure>)
        ensures
            match raw_result {
                Err(e) => match response_id(e@) {
                    Some(i) => r matches Ok(x) && x.id == i && x.error == e && x.result@.len() == 0
                        && x.jsonrpc@ == "2.0"@,
                    None => r == Err::<JsonRpcLogResult, RpcFailure>(RpcFailure::ParseFailure),
                },
                Ok(t) => match (response_id(t@), logs_payload(t@)) {
                    (Some(i), Some(logs)) => r matches Ok(x) && x.id == i && x.result@.map_values(
                        |l: TxLog| l@,
                    ) == logs && x.error@.len() == 0 && x.jsonrpc@ == "2.0"@,
                    _ => r == Err::<JsonRpcLogResult, RpcFailure>(RpcFailure::ParseFailure),
                },
            },
    {
        proof {
            reveal_strlit("2.0");
        }
        match raw_result {
            Err(err) => match read_response_id(err.as_str()) {
                Some(i) => Ok(JsonRpcLogResult {
                    jsonrpc: JSON_RPC.to_string(),
                    result: Vec::new(),
                    error: err,
                    id: i,
                }),
                None => Err(RpcFailure::ParseFailure),
            },
            Ok(res) => {
                let (i, t) = match read_response_parts(res.as_str()) {
                    Some(p) => p,
                    None => {
                        return Err(RpcFailure::ParseFailure);
                    },
                };
                let items = match read_items(t.as_str()) {
                    Some(v) => v,
                    None => {
                        return Err(RpcFailure::ParseFailure);
                    },
                };
                match read_log_records(&items) {
                    Some(logs) => Ok(JsonRpcLogResult {
                        jsonrpc: JSON_RPC.to_string(),
                        result: logs,
                        error: String::new(),
                        id: i,
                    }),
                    None => Err(RpcFailure::ParseFailure),
                }
            },
        }
    }
}

/// Classifies a response whose payload is a list of logs, as `check_response_string` does;
/// a successful one is read for its `id` and the logs of its `result`, each block number
/// turned from hex to its value.
pub fn check_response_log_string(response: String, id: &u64) -> (r: Result<JsonRpcLogResult, RpcFailure>)
    ensures
        match class_of(response@) {
            ResponseClass::TransportFailure => r matches Ok(x) && x.id == *id && x.error@
                == transport_failure_text(*id) && x.result@.len() == 0 && x.jsonrpc@ == "2.0"@,
            ResponseClass::RpcError => match response_id(response@) {
                Some(i) => r matches Ok(x) && x.id == i && x.error == response && x.result@.len()
                    == 0 && x.jsonrpc@ == "2.0"@,
                None => r == Err::<JsonRpcLogResult, RpcFailure>(RpcFailure::ParseFailure),
            },
            ResponseClass::Success => match (response_id(response@), logs_payload(response@)) {
                (Some(i), Some(logs)) => r matches Ok(x) && x.id == i && x.result@.map_values(
                    |l: TxLog| l@,
                ) == logs && x.error@.len() == 0 && x.jsonrpc@ == "2.0"@,
                _ => r == Err::<JsonRpcLogResult, RpcFailure>(RpcFailure::ParseFailure),
            },
        },
{
    proof {
        reveal_strlit("2.0");
    }
    match classify(response.as_str()) {
        ResponseClass::TransportFailure => Ok(JsonRpcLogResult {
            jsonrpc: JSON_RPC.to_string(),
            result: Vec::new(),
            error: transport_failure(*id),
            id: *id,
        }),
        ResponseClass::RpcError => JsonRpcLogResult::from_res(Err(response)),
        ResponseClass::Success => JsonRpcLogResult::from_res(Ok(response)),
    }
}

/// The transactions of a successful response whose `result` is a block object.
pub open spec fn block_payload(text: Seq<char>) -> Option<Seq<TxView>> {
    match response_result(text) {
        Some(t) => match block_fields_of(t) {
            Some(fields) => all_some(fields, |f: TxFieldsView| tx_of_fields(f)),
            None => None,
        },
        None => None,
    }
}

impl JsonRpcBlockResult {
    /// Reads a response already classified: an error text for its `id`, a success text for
    /// its `id` and the transactions of the block in its `result`.
    pub fn from_res(raw_result: Result<String, String>) -> (r: Result<JsonRpcBlockResult, RpcFailure>)
        ensures
            match raw_result {
                Err(e) => match response_id(e@) {
                    Some(i) => r matches Ok(x) && x.id == i && x.error == e
                        && x.transactions@.len() == 0 && x.jsonrpc@ == "2.0"@,
                    None => r == Err::<JsonRpcBlockResult, RpcFailure>(RpcFailure::ParseFailure),
                },
                Ok(t) => match (response_id(t@), block_payload(t@)) {
                    (Some(i), Some(txs)) => r matches Ok(x) && x.id == i
                        && x.transactions@.map_values(|t: Tx| t@) == txs && x.error@.len() == 0
                        && x.jsonrpc@ == "2.0"@,
                    _ => r == Err::<JsonRpcBlockResult, RpcFailure>(RpcFailure::ParseFailure),
                },
            },
    {
        proof {
            reveal_strlit("2.0");
        }
        match raw_result {
            Err(err) => match read_response_id(err.as_str()) {
                Some(i) => Ok(JsonRpcBlockResult {
                    jsonrpc: JSON_RPC.to_string(),
                    transactions: Vec::new(),
                    error: err,
                    id: i,
                }),
                None => Err(RpcFailure::ParseFailure),
            },
            Ok(res) => {
                let (i, t) = match read_response_parts(res.as_str()) {
                    Some(p) => p,
                    None => {
                        return Err(RpcFailure::ParseFailure);
                    },
                };
                let block = match ResultSerde::read(t.as_str()) {
                    Some(b) => b,
                    None => {
                        return Err(RpcFailure::ParseFailure);
                    },
                };
                match block.to_txs() {
                    Some(txs) => Ok(JsonRpcBlockResult {
                        jsonrpc: JSON_RPC.to_string(),
                        transactions: txs,
                        error: String::new(),
                        id: i,
                    }),
                    None => Err(RpcFailure::ParseFailure),
                }
            },
        }
    }
}

/// Classifies a response whose payload is a block, as `check_response_string` does; a
/// successful one is read for its `id` and the transactions of its `result`.
pub fn check_response_block_string(response: String, id: &u64) -> (r: Result<JsonRpcBlockResult, RpcFailure>)
    ensures
        match class_of(response@) {
            ResponseClass::TransportFailure => r matches Ok(x) && x.id == *id && x.error@
                == transport_failure_text(*id) && x.transactions@.len() == 0 && x.jsonrpc@ == "2.0"@,
            ResponseClass::RpcError => match response_id(response@) {
                Some(i) => r matches Ok(x) && x.id == i && x.error == response
                    && x.transactions@.len() == 0 && x.jsonrpc@ == "2.0"@,
                None => r == Err::<JsonRpcBlockResult, RpcFailure>(RpcFailure::ParseFailure),
            },
            ResponseClass::Success => match (response_id(response@), block_payload(response@)) {
                (Some(i), Some(txs)) => r matches Ok(x) && x.id == i
                    && x.transactions@.map_values(|t: Tx| t@) == txs && x.error@.len() == 0
                    && x.jsonrpc@ == "2.0"@,
                _ => r == Err::<JsonRpcBlockResult, RpcFailure>(RpcFailure::ParseFailure),
            },
        },
{
    proof {
        reveal_strlit("2.0");
    }
    match classify(response.as_str()) {
        ResponseClass::TransportFailure => Ok(JsonRpcBlockResult {
            jsonrpc: JSON_RPC.to_string(),
            transactions: Vec::new(),
            error: transport_failure(*id),
            id: *id,
        }),
        ResponseClass::RpcError => JsonRpcBlockResult::from_res(Err(response)),
        ResponseClass::Success => JsonRpcBlockResult::from_res(Ok(response)),
    }
}

/// The transaction of a successful response whose `result` is a transaction object.
pub open spec fn transaction_payload(text: Seq<char>) -> Option<TxView> {
    match response_result(text) {
        Some(t) => tx_record_of(t),
        None => None,
    }
}

/// A transaction whose every field is empty.
pub open spec fn empty_tx_view() -> TxView {
    TxView {
        block_hash: Seq::empty(),
        block_number: Seq::empty(),
        from: Seq::empty(),
        gas: Seq::empty(),
        gas_price: Seq::empty(),
        hash: Seq::empty(),
        input: Seq::empty(),
        nonce: Seq::empty(),
        to: Seq::empty(),
        transaction_index: Seq::empty(),
        value: Seq::empty(),
        logs: Seq::empty(),
    }
}

/// A transaction whose every field is empty.
pub fn empty_tx() -> (r: Tx)
    ensures
        r@ == empty_tx_view(),
{
    let t = Tx {
        block_hash: String::new(),
        block_number: String::new(),
        from: String::new(),
        gas: String::new(),
        gas_price: String::new(),
        hash: String::new(),
        input: String::new(),
        nonce: String::new(),
        to: String::new(),
        transaction_index: String::new(),
        value: String::new(),
        logs: Vec::new(),
    };
    proof {
        assert(t@.logs =~= Seq::<crate::records::TxLogView>::empty());
        assert(t@ =~= empty_tx_view());
    }
    t
}

impl JsonRpcTransactionResult {
    /// Reads a response already classified: an error text for its `id` (with an empty
    /// transaction), a success text for its `id` and the transaction in its `result`.
    pub fn from_res(raw_result: Result<String, String>) -> (r: Result<JsonRpcTransactionResult, RpcFailure>)
        ensures
            match raw_result {
                Err(e) => match response_id(e@) {
                    Some(i) => r matches Ok(x) && x.id == i && x.error == e
                        && x.transaction@ == empty_tx_view()
                        && x.jsonrpc@ == "2.0"@,
                    None => r == Err::<JsonRpcTransactionResult, RpcFailure>(RpcFailure::ParseFailure),
                },
                Ok(t) => match (response_id(t@), transaction_payload(t@)) {
                    (Some(i), Some(tx)) => r matches Ok(x) && x.id == i && x.transaction@ == tx
                        && x.error@.len() == 0 && x.jsonrpc@ == "2.0"@,
                    _ => r == Err::<JsonRpcTransactionResult, RpcFailure>(RpcFailure::ParseFailure),
                },
            },
    {
        proof {
            reveal_strlit("2.0");
        }
        match raw_result {
            Err(err) => match read_response_id(err.as_str()) {
                Some(i) => Ok(JsonRpcTransactionResult {
                    jsonrpc: JSON_RPC.to_string(),
                    transaction: empty_tx(),
                    error: err,
                    id: i,
                }),
                None => Err(RpcFailure::ParseFailure),
            },
            Ok(res) => {
                let (i, t) = match read_response_parts(res.as_str()) {
                    Some(p) => p,
                    None => {
                        return Err(RpcFailure::ParseFailure);
                    },
                };
                match read_tx_record(t.as_str()) {
                    Some(tx) => Ok(JsonRpcTransactionResult {
                        jsonrpc: JSON_RPC.to_string(),
                        transaction: tx,
                        error: String::new(),
                        id: i,
                    }),
                    None => Err(RpcFailure::ParseFailure),
                }
            },
        }
    }
}

/// Classifies a response whose payload is one transaction, as `check_response_string` does;
/// a successful one is read for its `id` and the transaction of its `result`. An error
/// result carries an empty transaction.
pub fn check_response_transaction_string(response: String, id: &u64) -> (r: Result<
    JsonRpcTransactionResult,
    RpcFailure,
>)
    ensures
        match class_of(response@) {
            ResponseClass::TransportFailure => r matches Ok(x) && x.id == *id && x.error@
                == transport_failure_text(*id) && x.transaction@ == empty_tx_view() && x.jsonrpc@ == "2.0"@,
            ResponseClass::RpcError => match response_id(response@) {
                Some(i) => r matches Ok(x) && x.id == i && x.error == response
                    && x.transaction@ == empty_tx_view()
                    && x.jsonrpc@ == "2.0"@,
                None => r == Err::<JsonRpcTransactionResult, RpcFailure>(RpcFailure::ParseFailure),
            },
            ResponseClass::Success => match (response_id(response@), transaction_payload(response@)) {
                (Some(i), Some(tx)) => r matches Ok(x) && x.id == i && x.transaction@ == tx
                    && x.error@.len() == 0 && x.jsonrpc@ == "2.0"@,
                _ => r == Err::<JsonRpcTransactionResult, RpcFailure>(RpcFailure::ParseFailure),
            },
        },
{
    proof {
        reveal_strlit("2.0");
    }
    match classify(response.as_str()) {
        ResponseClass::TransportFailure => Ok(JsonRpcTransactionResult {
            jsonrpc: JSON_RPC.to_string(),
            transaction: empty_tx(),
            error: transport_failure(*id),
            id: *id,
        }),
        ResponseClass::RpcError => JsonRpcTransactionResult::from_res(Err(response)),
        ResponseClass::Success => JsonRpcTransactionResult::from_res(Ok(response)),
    }
}

/// Whether a check passed, with its message.
#[derive(Debug, Clone)]
pub struct TestResult {
    pub test_passed: bool,
    pub error: String,
}

impl TestResult {
    /// A passed check carries the success text, a failed one the error text.
    pub fn from_result(result: Result<String, String>) -> (r: TestResult)
        ensures
            match result {
                Ok(s) => r.test_passed && r.error == s,
                Err(e) => !r.test_passed && r.error == e,
            },
    {
        match result {
            Ok(res) => TestResult { test_passed: true, error: res },
            Err(err) => TestResult { test_passed: false, error: err },
        }
    }
}

} // verus!

//! The records that the decoder and the response classifier hand out.
use vstd::prelude::*;

verus! {

/// One raw event log: its topics (hex text, the first naming the event), its data as hex
/// text, the transaction that emitted it and the block it stands in.
#[derive(Debug, Clone, Default)]
pub struct TxLog {
    pub topics: Vec<String>,
    pub data: String,
    pub transaction_hash: String,
    pub block_number: u64,
}

/// One decoded parameter: its name, its kind (`uint`, `int`, `address`, `bool`, `bytes` or
/// `string`) and its value as text.
#[derive(Debug, Clone)]
pub struct DataLogParam {
    pub name: String,
    pub kind: String,
    pub value: String,
}

pub struct ParamView {
    pub name: Seq<char>,
    pub kind: Seq<char>,
    pub value: Seq<char>,
}

impl View for DataLogParam {
    type V = ParamView;

    open spec fn view(&self) -> ParamView {
        ParamView { name: self.name@, kind: self.kind@, value: self.value@ }
    }
}

/// The outcome of decoding one log. `success` is false when no event of the interface
/// carries the log's signature; `data` is the decoded parameters as a JSON object text.
#[derive(Debug, Clone)]
pub struct EventLogParamResult {
    pub event_name: String,
    pub params: Vec<DataLogParam>,
    pub success: bool,
    pub error_msg: String,
    pub data: String,
    pub block_number: u64,
    pub transaction_hash: String,
}

pub struct EventView {
    pub event_name: Seq<char>,
    pub params: Seq<ParamView>,
    pub success: bool,
    pub error_msg: Seq<char>,
    pub data: Seq<char>,
    pub block_number: u64,
    pub transaction_hash: Seq<char>,
}

impl View for EventLogParamResult {
    type V = EventView;

    open spec fn view(&self) -> EventView {
        EventView {
            event_name: self.event_name@,
            params: self.params@.map_values(|p: DataLogParam| p@),
            success: self.success,
            error_msg: self.error_msg@,
            data: self.data@,
            block_number: self.block_number,
            transaction_hash: self.transaction_hash@,
        }
    }
}

/// A call argument: its kind (`address`, `uint`, anything else reads as a string) and its
/// text.
#[derive(Debug, Clone)]
pub struct TxParam {
    pub value_type: String,
    pub value: String,
}

/// A method name as it stands in an ABI entry.
#[derive(Debug, Clone)]
pub struct Abi {
    pub method: String,
}

} // verus!

//! The operations on an ABI document: read it once, then decode logs or encode a call with it.
use vstd::prelude::*;
use crate::abi::{interface_view, load_outcome, AbiLoadError, ContractInterface};
use crate::calls::{call_data, contract_view_call_params, EncodeError};
use crate::decoder::{decode_batch_logs as decode_all, decode_log, decode_outcome, DecodeError};
use crate::hexcodec::fixed_hex;
use crate::models::{EventLogParamResult, EventView, TxLog, TxParam};
use crate::rpc::call_params_text;

verus! {

/// Why an operation on an ABI document failed.
#[derive(Debug, Clone, Copy, PartialEq, Eq, Structural)]
pub enum ServiceError {
    Abi(AbiLoadError),
    Decode(DecodeError),
    Encode(EncodeError),
}

pub open spec fn decoded_view(r: Result<EventLogParamResult, ServiceError>) -> Result<EventView, DecodeError> {
    match r {
        Ok(ev) => Ok(ev@),
        Err(ServiceError::Decode(d)) => Err(d),
        Err(_) => Err(DecodeError::Undecodable),
    }
}

/// Decodes one log against the ABI document `abi_doc`.
pub fn decode_logs(abi_doc: &str, tx_log: &TxLog) -> (r: Result<EventLogParamResult, ServiceError>)
    ensures
        match load_outcome(abi_doc@) {
            Err(e) => r == Err::<EventLogParamResult, ServiceError>(ServiceError::Abi(e)),
            Ok(v) => !(r matches Err(ServiceError::Abi(_))) && !(r matches Err(ServiceError::Encode(_)))
                && exists|i: ContractInterface| i.wf() && interface_view(i) == v
                && decode_outcome(i.events@, *tx_log, decoded_view(r)),
        },
{
    let interface = match ContractInterface::load(abi_doc) {
        Ok(i) => i,
        Err(e) => {
            return Err(ServiceError::Abi(e));
        },
    };
    match decode_log(&interface, tx_log) {
        Ok(ev) => Ok(ev),
        Err(d) => Err(ServiceError::Decode(d)),
    }
}

/// Decodes every log of `tx_logs` against the ABI document `abi_doc`, read once, in order.
pub fn decode_batch_logs(abi_doc: &str, tx_logs: &Vec<TxLog>) -> (r: Result<Vec<EventLogParamResult>, ServiceError>)
    ensures
        match load_outcome(abi_doc@) {
            Err(e) => r == Err::<Vec<EventLogParamResult>, ServiceError>(ServiceError::Abi(e)),
            Ok(v) => exists|i: ContractInterface| i.wf() && interface_view(i) == v && match r {
                Ok(evs) => evs@.len() == tx_logs@.len() && forall|k: int| 0 <= k < evs@.len()
                    ==> decode_outcome(i.events@, #[trigger] tx_logs@[k], Ok(evs@[k]@)),
                Err(ServiceError::Decode(d)) => exists|k: int| 0 <= k < tx_logs@.len()
                    && decode_outcome(i.events@, #[trigger] tx_logs@[k], Err(d)),
                Err(_) => false,
            },
        },
{
    let interface = match ContractInterface::load(abi_doc) {
        Ok(i) => i,
        Err(e) => {
            return Err(ServiceError::Abi(e));
        },
    };
    match decode_all(&interface, tx_logs) {
        Ok(evs) => Ok(evs),
        Err(d) => Err(ServiceError::Decode(d)),
    }
}

/// The parameters of a read-only call at the latest block of `method_name` on the contract at
/// `contract_address`, with the function taken from the ABI document `abi_doc`.
pub fn contract_call_params(
    abi_doc: &str,
    method_name: &str,
    contract_address: &str,
    tx_params: &Vec<TxParam>,
) -> (r: Result<String, ServiceError>)
    ensures
        match load_outcome(abi_doc@) {
            Err(e) => r == Err::<String, ServiceError>(ServiceError::Abi(e)),
            Ok(v) => exists|i: ContractInterface| i.wf() && interface_view(i) == v && match call_data(
                i.functions@,
                method_name@,
                tx_params@,
            ) {
                Err(e) => r == Err::<String, ServiceError>(ServiceError::Encode(e)),
                Ok(d) => match fixed_hex(contract_address@, 20) {
                    Some(to) => r matches Ok(s) && s@ == call_params_text(to, d, "latest"@),
                    None => r == Err::<String, ServiceError>(ServiceError::Encode(EncodeError::BadAddress)),
                },
            },
        },
{
    let interface = match ContractInterface::load(abi_doc) {
        Ok(i) => i,
        Err(e) => {
            return Err(ServiceError::Abi(e));
        },
    };
    match contract_view_call_params(&interface, method_name, contract_address, tx_params) {
        Ok(s) => Ok(s),
        Err(e) => Err(ServiceError::Encode(e)),
    }
}

} // verus!

//! Encoding a named contract function call from typed text arguments.
use vstd::prelude::*;
use crate::abi::{ContractInterface, FunctionEntry, selector_of};
use crate::json::strings_view;
use ethabi::param_type::Reader;
use ethabi::{Function, Param, Token};
use ethereum_types::U256;
use crate::hexcodec::{
    fixed_hex, parse_h160, parse_u256_decimal, u256_bound, u256_value,
};
use crate::models::TxParam;
use crate::rpc::{call_params, call_params_text};
use crate::text::{all_decimal, decimal_value};

verus! {

/// A call argument ready for encoding.
#[derive(Debug, Clone)]
pub enum CallArg {
    Address([u8; 20]),
    Uint([u64; 4]),
    Text(String),
}

/// Why a call could not be encoded.
#[derive(Debug, Clone, Copy, PartialEq, Eq, Structural)]
pub enum EncodeError {
    /// The interface has no function of that name.
    UnknownFunction,
    /// An address argument (or the contract address) is not 20 bytes of hex.
    BadAddress,
    /// A `uint` argument is not a decimal number below 2^256.
    BadUint,
    /// The arguments do not fit the function's parameter types.
    Unencodable,
}

pub enum CallArgView {
    Address(Seq<u8>),
    Uint(nat),
    Text(Seq<char>),
}

impl View for CallArg {
    type V = CallArgView;

    open spec fn view(&self) -> CallArgView {
        match self {
            CallArg::Address(b) => CallArgView::Address(b@),
            CallArg::Uint(l) => CallArgView::Uint(u256_value(l@)),
            CallArg::Text(s) => CallArgView::Text(s@),
        }
    }
}

pub open spec fn args_view(args: Seq<CallArg>) -> Seq<CallArgView> {
    args.map_values(|a: CallArg| a@)
}

/// The ABI encoding of call arguments (ethabi::encode of their tokens).
pub uninterp spec fn encoded_args(args: Seq<CallArgView>) -> Seq<u8>;

/// Whether call arguments fit parameter kinds (ethabi's Token::types_check).
pub uninterp spec fn args_fit(kinds: Seq<Seq<char>>, args: Seq<CallArgView>) -> bool;

/// Relies on ethabi::Function::encode_input, on the function built from `name` and `kinds`
/// (read by ethabi's param_type::Reader, which the safe kinds keep from faulting): refused
/// when the arguments do not fit the kinds,
/// else the selector followed by ethabi::encode of the arguments.
#[verifier::external_body]
#[allow(deprecated)]
fn encode_input(name: &String, kinds: &Vec<String>, args: &Vec<CallArg>) -> (r: Option<Vec<u8>>)
    requires
        crate::abi::safe_kinds(strings_view(kinds@)),
    ensures
        r is Some <==> (selector_of(name@, strings_view(kinds@)) is Some && args_fit(
            strings_view(kinds@),
            args_view(args@),
        )),
        r matches Some(v) ==> v@.len() >= 4 && selector_of(name@, strings_view(kinds@)) == Some(
            v@.take(4),
        ) && v@.skip(4) == encoded_args(args_view(args@)),
{
    let inputs = kinds.iter().map(|k| Some(Param { name: String::new(), kind:
        Reader::read(k).ok()?, internal_type: None }));
    let f = Function { name: name.clone(), inputs: inputs.collect::<Option<_>>()?, outputs:
        vec![], constant: None, state_mutability: Default::default() };
    let tokens: Vec<Token> = args.iter().map(|a| match a {
        CallArg::Address(b) => Token::Address((*b).into()),
        CallArg::Uint(l) => Token::Uint(U256(*l)),
        CallArg::Text(s) => Token::String(s.clone()),
    }).collect();
    f.encode_input(&tokens).ok()
}

/// Text for a 256-bit unsigned integer: decimal digits whose value is below 2^256.
pub open spec fn uint_text_ok(s: Seq<char>) -> bool {
    all_decimal(s) && decimal_value(s) < u256_bound()
}

/// The first function of `fs` named `name`.
pub open spec fn function_named(fs: Seq<FunctionEntry>, name: Seq<char>) -> Option<FunctionEntry>
    decreases fs.len(),
{
    if fs.len() == 0 {
        None
    } else if fs[0].name@ == name {
        Some(fs[0])
    } else {
        function_named(fs.skip(1), name)
    }
}

/// The argument a call parameter gives by its kind, or the error it gives.
pub open spec fn arg_of(p: TxParam) -> Result<CallArgView, EncodeError> {
    if p.value_type@ == "address"@ {
        match fixed_hex(p.value@, 20) {
            Some(b) => Ok(CallArgView::Address(b)),
            None => Err(EncodeError::BadAddress),
        }
    } else if p.value_type@ == "uint"@ {
        if uint_text_ok(p.value@) {
            Ok(CallArgView::Uint(decimal_value(p.value@)))
        } else {
            Err(EncodeError::BadUint)
        }
    } else {
        Ok(CallArgView::Text(p.value@))
    }
}

/// The arguments the parameters give in order, or the error of the first that gives none.
pub open spec fn args_of(ps: Seq<TxParam>) -> Result<Seq<CallArgView>, EncodeError>
    decreases ps.len(),
{
    if ps.len() == 0 {
        Ok(Seq::empty())
    } else {
        match args_of(ps.drop_last()) {
            Err(e) => Err(e),
            Ok(rest) => match arg_of(ps.last()) {
                Err(e) => Err(e),
                Ok(a) => Ok(rest.push(a)),
            },
        }
    }
}

proof fn lemma_args_error_stays(ps: Seq<TxParam>, k: int, e: EncodeError)
    requires
        0 <= k <= ps.len(),
        args_of(ps.take(k)) == Err::<Seq<CallArgView>, EncodeError>(e),
    ensures
        args_of(ps) == Err::<Seq<CallArgView>, EncodeError>(e),
    decreases ps.len() - k,
{
    if k < ps.len() {
        assert(ps.take(k + 1).drop_last() =~= ps.take(k));
        lemma_args_error_stays(ps, k + 1, e);
    } else {
        assert(ps.take(k) =~= ps);
    }
}

/// The call data for `name` with parameters `ps`: the selector of the first function of that
/// name followed by the encoded arguments, or the error the call gives.
pub open spec fn call_data(fs: Seq<FunctionEntry>, name: Seq<char>, ps: Seq<TxParam>) -> Result<Seq<u8>, EncodeError> {
    match function_named(fs, name) {
        None => Err(EncodeError::UnknownFunction),
        Some(f) => match args_of(ps) {
            Err(e) => Err(e),
            Ok(args) => if args_fit(strings_view(f.inputs@), args) {
                Ok(f.selector@ + encoded_args(args))
            } else {
                Err(EncodeError::Unencodable)
            },
        },
    }
}

/// Turns one call parameter into an argument by its kind: `address` reads 20 bytes of hex,
/// `uint` a decimal number, any other kind is a string.
pub fn to_call_arg(p: &TxParam) -> (r: Result<CallArg, EncodeError>)
    ensures
        match r {
            Ok(a) => arg_of(*p) == Ok::<CallArgView, EncodeError>(a@),
            Err(e) => arg_of(*p) == Err::<CallArgView, EncodeError>(e),
        },
{
    proof {
        reveal_strlit("address");
        reveal_strlit("uint");
        assert("address"@.len() != "uint"@.len());
    }
    if crate::json::same_text(&p.value_type, "address") {
        match parse_h160(p.value.as_str()) {
            Some(b) => Ok(CallArg::Address(b)),
            None => Err(EncodeError::BadAddress),
        }
    } else if crate::json::same_text(&p.value_type, "uint") {
        match parse_u256_decimal(p.value.as_str()) {
            Some(l) => Ok(CallArg::Uint(l)),
            None => Err(EncodeError::BadUint),
        }
    } else {
        Ok(CallArg::Text(p.value.clone()))
    }
}

/// Encodes a call of the function `method_name` of `interface` (the first definition under
/// that name) with `tx_params`, converted in order; the first parameter that does not
/// convert gives the error.
pub fn encode_call(interface: &ContractInterface, method_name: &str, tx_params: &Vec<TxParam>) -> (r: Result<Vec<u8>, EncodeError>)
    requires
        interface.wf(),
    ensures
        (r == Err::<Vec<u8>, EncodeError>(EncodeError::UnknownFunction)) == (function_named(
            interface.functions@,
            method_name@,
        ) is None),
        r matches Ok(v) ==> v@.len() >= 4,
        match call_data(interface.functions@, method_name@, tx_params@) {
            Ok(d) => r matches Ok(v) && v@ == d,
            Err(e) => r == Err::<Vec<u8>, EncodeError>(e),
        },
{
    proof {
        reveal_strlit("address");
        reveal_strlit("uint");
    }
    let mut j: usize = 0;
    proof {
        assert(interface.functions@.skip(0) =~= interface.functions@);
    }
    while j < interface.functions.len()
        invariant
            j <= interface.functions@.len(),
            interface.wf(),
            function_named(interface.functions@, method_name@) == function_named(
                interface.functions@.skip(j as int),
                method_name@,
            ),
        decreases interface.functions@.len() - j,
    {
        if crate::json::same_text(&interface.functions[j].name, method_name) {
            proof {
                assert(interface.functions@.skip(j as int)[0] == interface.functions@[j as int]);
            }
            let ghost ps = tx_params@;
            let mut args: Vec<CallArg> = Vec::new();
            let mut i: usize = 0;
            proof {
                assert(ps.take(0) =~= Seq::<TxParam>::empty());
                assert(args_view(args@) =~= Seq::<CallArgView>::empty());
            }
            while i < tx_params.len()
                invariant
                    ps == tx_params@,
                    i <= ps.len(),
                    function_named(interface.functions@, method_name@) == Some(interface.functions@[j as int]),
                    j < interface.functions@.len(),
                    interface.wf(),
                    args_of(ps.take(i as int)) == Ok::<Seq<CallArgView>, EncodeError>(args_view(args@)),
                decreases ps.len() - i,
            {
                proof {
                    assert(ps.take(i + 1).drop_last() =~= ps.take(i as int));
                    assert(ps.take(i + 1).last() == ps[i as int]);
                }
                match to_call_arg(&tx_params[i]) {
                    Ok(a) => {
                        let ghost before = args@;
                        args.push(a);
                        proof {
                            assert(args_view(args@) =~= args_view(before).push(a@));
                        }
                    },
                    Err(e) => {
                        proof {
                            lemma_args_error_stays(ps, i + 1, e);
                        }
                        return Err(e);
                    },
                }
                i = i + 1;
            }
            proof {
                assert(ps.take(i as int) =~= ps);
            }
            let f = &interface.functions[j];
            proof {
                assert(interface.functions@[j as int] == *f);
                assert(selector_of(f.name@, strings_view(f.inputs@)) == Some(f.selector@));
            }
            return match encode_input(&f.name, &f.inputs, &args) {
                Some(v) => {
                    proof {
                        assert(v@ =~= v@.take(4) + v@.skip(4));
                        assert(v@.take(4) == f.selector@);
                    }
                    Ok(v)
                },
                None => Err(EncodeError::Unencodable),
            };
        }
        proof {
            assert(interface.functions@.skip(j as int)[0] == interface.functions@[j as int]);
            assert(interface.functions@.skip(j as int).skip(1) =~= interface.functions@.skip(j + 1));
        }
        j = j + 1;
    }
    Err(EncodeError::UnknownFunction)
}

/// The parameters of a read-only call at the latest block of `method_name` on the contract
/// at `contract_address`: the call is encoded first, then the address is read.
pub fn contract_view_call_params(
    interface: &ContractInterface,
    method_name: &str,
    contract_address: &str,
    tx_params: &Vec<TxParam>,
) -> (r: Result<String, EncodeError>)
    requires
        interface.wf(),
    ensures
        (r == Err::<String, EncodeError>(EncodeError::UnknownFunction)) == (function_named(
            interface.functions@,
            method_name@,
        ) is None),
        match call_data(interface.functions@, method_name@, tx_params@) {
            Err(e) => r == Err::<String, EncodeError>(e),
            Ok(d) => match fixed_hex(contract_address@, 20) {
                Some(to) => r matches Ok(s) && s@ == call_params_text(to, d, "latest"@),
                None => r == Err::<String, EncodeError>(EncodeError::BadAddress),
            },
        },
{
    let data = encode_call(interface, method_name, tx_params)?;
    let to = match parse_h160(contract_address) {
        Some(b) => b,
        None => {
            return Err(EncodeError::BadAddress);
        },
    };
    let s = call_params(&to, &data, "latest");
    Ok(s)
}

} // verus!

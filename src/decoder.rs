//! Decoding raw event logs against a contract interface into named, typed parameters.
use vstd::prelude::*;
use crate::abi::{ContractInterface, EventDef, EventDefView, EventEntry};
use crate::hexcodec::{
    decode_hex_after_prefix, fixed_hex, hex_after_prefix, hex_encode, hex_encoded,
    parse_h256, u256_decimal, u256_value,
};
use crate::models::{DataLogParam, EventLogParamResult, EventView, ParamView, TxLog};
use crate::text::{decimal_text};

verus! {

/// A decoded value as the decoder reads it. 256-bit integers are four 64-bit limbs, least
/// significant first; `Other` stands for every kind that is not formatted (tuples, arrays,
/// fixed-size byte strings).
#[derive(Debug, Clone)]
pub enum TokenValue {
    Uint([u64; 4]),
    Int([u64; 4]),
    Address([u8; 20]),
    Bool(bool),
    Bytes(Vec<u8>),
    Text(String),
    Other,
}

/// A decoded value as plain values: integers by their 256-bit value.
pub enum TokenView {
    Uint(nat),
    Int(nat),
    Address(Seq<u8>),
    Bool(bool),
    Bytes(Seq<u8>),
    Text(Seq<char>),
    Other,
}

impl View for TokenValue {
    type V = TokenView;

    open spec fn view(&self) -> TokenView {
        match self {
            TokenValue::Uint(l) => TokenView::Uint(u256_value(l@)),
            TokenValue::Int(l) => TokenView::Int(u256_value(l@)),
            TokenValue::Address(a) => TokenView::Address(a@),
            TokenValue::Bool(b) => TokenView::Bool(*b),
            TokenValue::Bytes(b) => TokenView::Bytes(b@),
            TokenValue::Text(t) => TokenView::Text(t@),
            TokenValue::Other => TokenView::Other,
        }
    }
}

pub open spec fn tokens_view(ts: Seq<(String, TokenValue)>) -> Seq<(Seq<char>, TokenView)> {
    ts.map_values(|t: (String, TokenValue)| (t.0@, t.1@))
}

/// A value of the JSON object view: a number written in decimal digits, a string or a flag.
#[derive(Debug, Clone)]
pub enum JsonField {
    Number(String),
    Text(String),
    Flag(bool),
}

pub enum JsonFieldView {
    Number(Seq<char>),
    Text(Seq<char>),
    Flag(bool),
}

impl View for JsonField {
    type V = JsonFieldView;

    open spec fn view(&self) -> JsonFieldView {
        match self {
            JsonField::Number(d) => JsonFieldView::Number(d@),
            JsonField::Text(s) => JsonFieldView::Text(s@),
            JsonField::Flag(b) => JsonFieldView::Flag(*b),
        }
    }
}

/// Why a log could not be decoded.
#[derive(Debug, Clone, Copy, PartialEq, Eq, Structural)]
pub enum DecodeError {
    /// The log has no topic, so no event signature.
    NoTopics,
    /// A topic is not a 32-byte hash in hex.
    BadTopic,
    /// The data is not hex after its `0x`.
    BadData,
    /// The topics and data do not fit the matched event's parameters.
    Undecodable,
}

/// The text of a JSON object holding `fields` (a later field replaces an earlier one of the
/// same name), as serde_json writes it.
pub uninterp spec fn json_object_of(fields: Seq<(Seq<char>, JsonFieldView)>) -> Seq<char>;

/// What ethabi's Event::parse_log gives for the event `name` with definition `def`, the
/// log's topics and its data: each parameter's name with its value, in declaration order.
pub uninterp spec fn log_tokens(
    name: Seq<char>,
    def: EventDefView,
    topics: Seq<Seq<u8>>,
    data: Seq<u8>,
) -> Option<Seq<(Seq<char>, TokenView)>>;

pub open spec fn hashes_view(hs: Seq<[u8; 32]>) -> Seq<Seq<u8>> {
    hs.map_values(|h: [u8; 32]| h@)
}

#[verifier::external_type_specification]
#[verifier::external_body]
pub struct ExToken(ethabi::Token);

/// Relies on the variants of ethabi::Token: one arm each, moving the fields (integers as
/// their limbs, an address as its bytes).
#[verifier::external_body]
fn token_value(t: ethabi::Token) -> (r: TokenValue) {
    match t {
        ethabi::Token::Uint(u) => TokenValue::Uint(u.0),
        ethabi::Token::Int(u) => TokenValue::Int(u.0),
        ethabi::Token::Address(a) => TokenValue::Address(a.0),
        ethabi::Token::Bool(b) => TokenValue::Bool(b),
        ethabi::Token::Bytes(b) => TokenValue::Bytes(b),
        ethabi::Token::String(s) => TokenValue::Text(s),
        _ => TokenValue::Other,
    }
}

/// Relies on ethabi::Event::parse_log, on the event built from `name` and `def` (kinds read by
/// ethabi's param_type::Reader, which the safe kinds keep from faulting); each decoded token
/// is taken apart by `token_value`.
#[verifier::external_body]
fn parse_event_log(name: &String, def: &EventDef, topics: &Vec<[u8; 32]>, data: &Vec<u8>) -> (r:
    Option<Vec<(String, TokenValue)>>)
    requires
        crate::abi::safe_kinds(crate::abi::event_kinds(def@)),
    ensures
        match r {
            Some(v) => log_tokens(name@, def@, hashes_view(topics@), data@) == Some(tokens_view(v@)),
            None => log_tokens(name@, def@, hashes_view(topics@), data@) is None,
        },
{
    let ps = def.inputs.iter().map(|p| Some(ethabi::EventParam { name: p.name.clone(), kind:
        ethabi::param_type::Reader::read(&p.kind).ok()?, indexed: p.indexed }));
    let e = ethabi::Event { name: name.clone(), inputs: ps.collect::<Option<_>>()?, anonymous: def.anonymous };
    let raw = ethabi::RawLog { topics: topics.iter().map(|t| (*t).into()).collect(), data: data.clone() };
    Some(e.parse_log(raw).ok()?.params.into_iter().map(|p| (p.name, token_value(p.value))).collect())
}

/// Relies on serde_json's Map, collected from the fields in order (a later field replaces an
/// earlier one of the same name; numbers read by Number's FromStr), and on Value's Display.
#[verifier::external_body]
fn json_object_text(fields: &Vec<(String, JsonField)>) -> (r: String)
    ensures
        r@ == json_object_of(fields@.map_values(|f: (String, JsonField)| (f.0@, f.1@))),
{
    let m: serde_json::Map<String, serde_json::Value> = fields.iter().map(|(name, f)| (name.clone(), match f {
        JsonField::Number(d) => d.parse().map(serde_json::Value::Number).unwrap_or(serde_json::Value::Null),
        JsonField::Text(s) => serde_json::Value::String(s.clone()),
        JsonField::Flag(b) => serde_json::Value::Bool(*b),
    })).collect();
    serde_json::Value::Object(m).to_string()
}

/// The kind tag and the value text of a decoded value, or nothing for a kind that is not
/// formatted.
pub open spec fn kind_and_text(v: TokenView) -> Option<(Seq<char>, Seq<char>)> {
    match v {
        TokenView::Uint(n) => Some(("uint"@, decimal_text(n))),
        TokenView::Int(n) => Some(("int"@, decimal_text(n))),
        TokenView::Address(a) => Some(("address"@, "0x"@ + hex_encoded(a))),
        TokenView::Bool(b) => Some(("bool"@, if b { "true"@ } else { "false"@ })),
        TokenView::Bytes(b) => Some(("bytes"@, hex_encoded(b))),
        TokenView::Text(s) => Some(("string"@, s)),
        TokenView::Other => None,
    }
}

/// The entry of the JSON object view for a decoded value: signed integers and unformatted
/// kinds have none.
pub open spec fn json_field_of(v: TokenView) -> Option<JsonFieldView> {
    match v {
        TokenView::Uint(n) => Some(JsonFieldView::Number(decimal_text(n))),
        TokenView::Address(a) => Some(JsonFieldView::Text("0x"@ + hex_encoded(a))),
        TokenView::Bool(b) => Some(JsonFieldView::Flag(b)),
        TokenView::Bytes(b) => Some(JsonFieldView::Text(hex_encoded(b))),
        TokenView::Text(s) => Some(JsonFieldView::Text(s)),
        _ => None,
    }
}

/// The structured parameter list for decoded values, in order, unformatted kinds left out.
pub open spec fn formatted_params(ts: Seq<(Seq<char>, TokenView)>) -> Seq<ParamView>
    decreases ts.len(),
{
    if ts.len() == 0 {
        Seq::empty()
    } else {
        let rest = formatted_params(ts.drop_last());
        match kind_and_text(ts.last().1) {
            Some(kt) => rest.push(ParamView { name: ts.last().0, kind: kt.0, value: kt.1 }),
            None => rest,
        }
    }
}

/// The fields of the JSON object view for decoded values, in order.
pub open spec fn json_fields(ts: Seq<(Seq<char>, TokenView)>) -> Seq<(Seq<char>, JsonFieldView)>
    decreases ts.len(),
{
    if ts.len() == 0 {
        Seq::empty()
    } else {
        let rest = json_fields(ts.drop_last());
        match json_field_of(ts.last().1) {
            Some(f) => rest.push((ts.last().0, f)),
            None => rest,
        }
    }
}

/// The outcome for a log that matched the event `name` and decoded to `ts`.
pub open spec fn matched_view(name: Seq<char>, ts: Seq<(Seq<char>, TokenView)>, log: TxLog) -> EventView {
    EventView {
        event_name: name,
        params: formatted_params(ts),
        success: true,
        error_msg: Seq::empty(),
        data: json_object_of(json_fields(ts)),
        block_number: log.block_number,
        transaction_hash: log.transaction_hash@,
    }
}

/// The outcome for a log whose signature no event of the interface carries.
pub open spec fn unmatched_view() -> EventView {
    EventView {
        event_name: Seq::empty(),
        params: Seq::empty(),
        success: false,
        error_msg: Seq::empty(),
        data: "null"@,
        block_number: 0,
        transaction_hash: Seq::empty(),
    }
}

/// `"0x"` followed by the lowercase hex digits of `b`.
fn prefixed_hex(b: &[u8]) -> (r: String)
    ensures
        r@ == "0x"@ + hex_encoded(b@),
{
    let mut out = "0x".to_string();
    let digits = hex_encode(b);
    out.append(digits.as_str());
    out
}

/// The structured parameter for one decoded value, or nothing for a kind that is not
/// formatted.
pub fn format_param(name: &String, v: &TokenValue) -> (r: Option<DataLogParam>)
    ensures
        match kind_and_text(v@) {
            Some(kt) => r matches Some(p) && p@ == (ParamView { name: name@, kind: kt.0, value: kt.1 }),
            None => r is None,
        },
{
    let (kind, value) = match v {
        TokenValue::Uint(l) => ("uint".to_string(), u256_decimal(*l)),
        TokenValue::Int(l) => ("int".to_string(), u256_decimal(*l)),
        TokenValue::Address(a) => ("address".to_string(), prefixed_hex(a)),
        TokenValue::Bool(b) => ("bool".to_string(), if *b { "true".to_string() } else { "false".to_string() }),
        TokenValue::Bytes(b) => ("bytes".to_string(), hex_encode(b.as_slice())),
        TokenValue::Text(t) => ("string".to_string(), t.clone()),
        TokenValue::Other => {
            return None;
        },
    };
    Some(DataLogParam { name: name.clone(), kind, value })
}

/// The entry of the JSON object view for one decoded value, if it has one.
pub fn json_field(v: &TokenValue) -> (r: Option<JsonField>)
    ensures
        match json_field_of(v@) {
            Some(f) => r matches Some(g) && g@ == f,
            None => r is None,
        },
{
    match v {
        TokenValue::Uint(l) => Some(JsonField::Number(u256_decimal(*l))),
        TokenValue::Address(a) => Some(JsonField::Text(prefixed_hex(a))),
        TokenValue::Bool(b) => Some(JsonField::Flag(*b)),
        TokenValue::Bytes(b) => Some(JsonField::Text(hex_encode(b.as_slice()))),
        TokenValue::Text(t) => Some(JsonField::Text(t.clone())),
        _ => None,
    }
}

/// The outcome for a log that matched the event `name` and decoded to `tokens`: the
/// formatted parameters, their JSON object view, and the log's block and transaction.
pub fn assemble_event(name: &String, tokens: &Vec<(String, TokenValue)>, log: &TxLog) -> (r:
    EventLogParamResult)
    ensures
        r@ == matched_view(name@, tokens_view(tokens@), *log),
{
    let mut params: Vec<DataLogParam> = Vec::new();
    let mut fields: Vec<(String, JsonField)> = Vec::new();
    let mut i: usize = 0;
    while i < tokens.len()
        invariant
            i <= tokens@.len(),
            params@.map_values(|p: DataLogParam| p@) == formatted_params(tokens_view(tokens@).take(i as int)),
            fields@.map_values(|f: (String, JsonField)| (f.0@, f.1@)) == json_fields(
                tokens_view(tokens@).take(i as int),
            ),
        decreases tokens@.len() - i,
    {
        let (pname, v) = &tokens[i];
        proof {
            assert(tokens_view(tokens@).take(i + 1).drop_last() =~= tokens_view(tokens@).take(i as int));
            assert(tokens_view(tokens@).take(i + 1).last() == (tokens@[i as int].0@, tokens@[i as int].1@));
        }
        match format_param(pname, v) {
            Some(p) => {
                params.push(p);
                proof {
                    assert(params@.map_values(|p: DataLogParam| p@) =~= formatted_params(
                        tokens_view(tokens@).take(i + 1),
                    ));
                }
            },
            None => {
                proof {
                    assert(params@.map_values(|p: DataLogParam| p@) =~= formatted_params(
                        tokens_view(tokens@).take(i + 1),
                    ));
                }
            },
        }
        match json_field(v) {
            Some(f) => {
                fields.push((pname.clone(), f));
                proof {
                    assert(fields@.map_values(|f: (String, JsonField)| (f.0@, f.1@)) =~= json_fields(
                        tokens_view(tokens@).take(i + 1),
                    ));
                }
            },
            None => {
                proof {
                    assert(fields@.map_values(|f: (String, JsonField)| (f.0@, f.1@)) =~= json_fields(
                        tokens_view(tokens@).take(i + 1),
                    ));
                }
            },
        }
        i = i + 1;
    }
    proof {
        assert(tokens_view(tokens@).take(i as int) =~= tokens_view(tokens@));
    }
    let data = json_object_text(&fields);
    EventLogParamResult {
        event_name: name.clone(),
        params,
        success: true,
        error_msg: String::new(),
        data,
        block_number: log.block_number,
        transaction_hash: log.transaction_hash.clone(),
    }
}

/// The outcome for a log whose signature no event of the interface carries.
pub fn unmatched_event() -> (r: EventLogParamResult)
    ensures
        r@ == unmatched_view(),
{
    let r = EventLogParamResult {
        event_name: String::new(),
        params: Vec::new(),
        success: false,
        error_msg: String::new(),
        data: "null".to_string(),
        block_number: 0,
        transaction_hash: String::new(),
    };
    proof {
        assert(r@.params =~= Seq::<ParamView>::empty());
    }
    r
}

/// The first event of `es` whose signature hash is `sig`.
pub open spec fn event_for(es: Seq<EventEntry>, sig: Seq<u8>) -> Option<EventEntry>
    decreases es.len(),
{
    if es.len() == 0 {
        None
    } else if es[0].signature@ == sig {
        Some(es[0])
    } else {
        event_for(es.skip(1), sig)
    }
}

/// The hashes that the topics of `log` are written as.
pub open spec fn topic_hashes(log: TxLog) -> Seq<Seq<u8>> {
    log.topics@.map_values(|t: String| fixed_hex(t@, 32).unwrap())
}

/// Every topic of `log` is a 32-byte hash in hex.
pub open spec fn topics_read(log: TxLog) -> bool {
    forall|i: int| 0 <= i < log.topics@.len() ==> (#[trigger] fixed_hex(log.topics@[i]@, 32)) is Some
}

/// What decoding `log` against `events` yields.
pub open spec fn decode_outcome(events: Seq<EventEntry>, log: TxLog, r: Result<EventView, DecodeError>) -> bool {
    if log.topics@.len() == 0 {
        r == Err::<EventView, DecodeError>(DecodeError::NoTopics)
    } else if !topics_read(log) {
        r == Err::<EventView, DecodeError>(DecodeError::BadTopic)
    } else {
        match event_for(events, topic_hashes(log)[0]) {
            None => r == Ok::<EventView, DecodeError>(unmatched_view()),
            Some(e) => match hex_after_prefix(log.data@) {
                None => r == Err::<EventView, DecodeError>(DecodeError::BadData),
                Some(d) => match log_tokens(e.name@, e.def@, topic_hashes(log), d) {
                    None => r == Err::<EventView, DecodeError>(DecodeError::Undecodable),
                    Some(ts) => r == Ok::<EventView, DecodeError>(matched_view(e.name@, ts, log)),
                },
            },
        }
    }
}

pub open spec fn result_view(r: Result<EventLogParamResult, DecodeError>) -> Result<EventView, DecodeError> {
    match r {
        Ok(ev) => Ok(ev@),
        Err(e) => Err(e),
    }
}

/// Decodes one log against `interface`: its first topic picks the event (the first whose
/// signature hash it is), whose definition decodes the other topics and the data; a log that
/// no event matches is a result with `success` false, not an error.
pub fn decode_log(interface: &ContractInterface, tx_log: &TxLog) -> (r: Result<EventLogParamResult, DecodeError>)
    requires
        interface.wf(),
    ensures
        decode_outcome(interface.events@, *tx_log, result_view(r)),
{
    if tx_log.topics.len() == 0 {
        return Err(DecodeError::NoTopics);
    }
    let ghost topics = tx_log.topics@;
    let mut hashes: Vec<[u8; 32]> = Vec::new();
    let mut i: usize = 0;
    while i < tx_log.topics.len()
        invariant
            topics == tx_log.topics@,
            i <= topics.len(),
            hashes@.len() == i,
            forall|k: int| 0 <= k < i ==> fixed_hex(topics[k]@, 32) == Some(#[trigger] hashes@[k]@),
        decreases topics.len() - i,
    {
        let ghost old_hashes = hashes@;
        match parse_h256(tx_log.topics[i].as_str()) {
            Some(h) => {
                hashes.push(h);
                proof {
                    assert forall|k: int| 0 <= k < i + 1 implies fixed_hex(topics[k]@, 32) == Some(#[trigger] hashes@[k]@) by {
                        if k < i {
                            assert(hashes@[k] == old_hashes[k]);
                        }
                    }
                }
            },
            None => {
                proof {
                    assert(!topics_read(*tx_log)) by {
                        assert(fixed_hex(tx_log.topics@[i as int]@, 32) is None);
                    }
                }
                return Err(DecodeError::BadTopic);
            },
        }
        i = i + 1;
    }
    proof {
        assert forall|k: int| 0 <= k < tx_log.topics@.len() implies (#[trigger] fixed_hex(tx_log.topics@[k]@, 32)) is Some by {
            assert(fixed_hex(topics[k]@, 32) == Some(hashes@[k]@));
        }
        assert(hashes_view(hashes@) =~= topic_hashes(*tx_log));
    }
    let sig = hashes[0];
    let mut j: usize = 0;
    proof {
        assert(interface.events@.skip(0) =~= interface.events@);
    }
    while j < interface.events.len()
        invariant
            j <= interface.events@.len(),
            interface.wf(),
            tx_log.topics@.len() > 0,
            topics_read(*tx_log),
            sig@ == topic_hashes(*tx_log)[0],
            hashes_view(hashes@) == topic_hashes(*tx_log),
            event_for(interface.events@, sig@) == event_for(interface.events@.skip(j as int), sig@),
        decreases interface.events@.len() - j,
    {
        if same_hash(&interface.events[j].signature, &sig) {
            proof {
                assert(interface.events@.skip(j as int)[0] == interface.events@[j as int]);
            }
            let entry = &interface.events[j];
            let data = match decode_hex_after_prefix(tx_log.data.as_str()) {
                Some(d) => d,
                None => {
                    return Err(DecodeError::BadData);
                },
            };
            let tokens = match parse_event_log(&entry.name, &entry.def, &hashes, &data) {
                Some(t) => t,
                None => {
                    return Err(DecodeError::Undecodable);
                },
            };
            let ev = assemble_event(&entry.name, &tokens, tx_log);
            return Ok(ev);
        }
        proof {
            assert(interface.events@.skip(j as int).skip(1) =~= interface.events@.skip(j + 1));
        }
        j = j + 1;
    }
    Ok(unmatched_event())
}

/// Decoding a log whose topics all read as hashes succeeds exactly when some event of the
/// interface carries the log's signature; otherwise the outcome is the `success`-false result.
pub proof fn lemma_success_iff_matched(events: Seq<EventEntry>, log: TxLog, ev: EventView)
    requires
        log.topics@.len() > 0,
        topics_read(log),
        decode_outcome(events, log, Ok(ev)),
    ensures
        ev.success == (event_for(events, topic_hashes(log)[0]) is Some),
        event_for(events, topic_hashes(log)[0]) is None ==> ev == unmatched_view(),
{
}

/// Whether two 32-byte hashes are equal.
fn same_hash(a: &[u8; 32], b: &[u8; 32]) -> (r: bool)
    ensures
        r == (a@ == b@),
{
    let mut i: usize = 0;
    while i < 32
        invariant
            i <= 32,
            a@.len() == 32,
            b@.len() == 32,
            forall|k: int| 0 <= k < i ==> a@[k] == b@[k],
        decreases 32 - i,
    {
        if a[i] != b[i] {
            return false;
        }
        i = i + 1;
    }
    proof {
        assert(a@ =~= b@);
    }
    true
}

/// Decodes every log of `tx_logs` against one interface, in order. A log that no event
/// matches gives its `success`-false result and the batch goes on; an undecodable log stops
/// it with its error.
pub fn decode_batch_logs(interface: &ContractInterface, tx_logs: &Vec<TxLog>) -> (r: Result<
    Vec<EventLogParamResult>,
    DecodeError,
>)
    requires
        interface.wf(),
    ensures
        match r {
            Ok(v) => v@.len() == tx_logs@.len() && forall|i: int|
                0 <= i < v@.len() ==> decode_outcome(
                    interface.events@,
                    #[trigger] tx_logs@[i],
                    Ok(v@[i]@),
                ),
            Err(e) => exists|i: int|
                0 <= i < tx_logs@.len() && decode_outcome(
                    interface.events@,
                    #[trigger] tx_logs@[i],
                    Err(e),
                ),
        },
{
    let mut out: Vec<EventLogParamResult> = Vec::new();
    let mut i: usize = 0;
    while i < tx_logs.len()
        invariant
            i <= tx_logs@.len(),
            interface.wf(),
            out@.len() == i,
            forall|k: int| 0 <= k < i ==> decode_outcome(
                interface.events@,
                #[trigger] tx_logs@[k],
                Ok(out@[k]@),
            ),
        decreases tx_logs@.len() - i,
    {
        match decode_log(interface, &tx_logs[i]) {
            Ok(ev) => {
                out.push(ev);
            },
            Err(e) => {
                proof {
                    assert(decode_outcome(interface.events@, tx_logs@[i as int], Err(e)));
                }
                return Err(e);
            },
        }
        i = i + 1;
    }
    Ok(out)
}

/// A parameter type that `decode_abi` reads.
#[derive(Debug, Clone, Copy, PartialEq, Eq, Structural)]
pub enum AbiKind {
    Text,
    Address,
    Bytes,
    Int256,
    Bool,
}

/// The text of each value that ABI data decodes to against `kinds`.
pub uninterp spec fn abi_decoded_texts(kinds: Seq<AbiKind>, data: Seq<u8>) -> Option<Seq<Seq<char>>>;

/// Relies on ethabi::decode (one token per type, in order) and on Token's Display.
#[verifier::external_body]
fn abi_decode(kinds: &Vec<AbiKind>, data: &Vec<u8>) -> (r: Option<Vec<String>>)
    ensures
        match r {
            Some(v) => abi_decoded_texts(kinds@, data@) == Some(crate::json::strings_view(v@))
                && v@.len() == kinds@.len(),
            None => abi_decoded_texts(kinds@, data@) is None,
        },
{
    let types: Vec<ethabi::ParamType> = kinds.iter().map(|k| match k {
        AbiKind::Text => ethabi::ParamType::String,
        AbiKind::Address => ethabi::ParamType::Address,
        AbiKind::Bytes => ethabi::ParamType::Bytes,
        AbiKind::Int256 => ethabi::ParamType::Int(256),
        AbiKind::Bool => ethabi::ParamType::Bool,
    }).collect();
    let tokens = ethabi::decode(&types, data).ok()?;
    Some(tokens.iter().map(|t| t.to_string()).collect())
}

/// The kind a type name stands for: `string`, `address`, `bytes`, `int256` or `int`, `bool`.
pub open spec fn abi_kind_of(name: Seq<char>) -> Option<AbiKind> {
    if name == "string"@ {
        Some(AbiKind::Text)
    } else if name == "address"@ {
        Some(AbiKind::Address)
    } else if name == "bytes"@ {
        Some(AbiKind::Bytes)
    } else if name == "int256"@ || name == "int"@ {
        Some(AbiKind::Int256)
    } else if name == "bool"@ {
        Some(AbiKind::Bool)
    } else {
        None
    }
}

/// The kinds that a list of type names stands for, in order; unknown names are left out.
pub open spec fn abi_kinds_of(names: Seq<Seq<char>>) -> Seq<AbiKind>
    decreases names.len(),
{
    if names.len() == 0 {
        Seq::empty()
    } else {
        let rest = abi_kinds_of(names.drop_last());
        match abi_kind_of(names.last()) {
            Some(k) => rest.push(k),
            None => rest,
        }
    }
}

fn abi_kind(name: &String) -> (r: Option<AbiKind>)
    ensures
        r == abi_kind_of(name@),
{
    if crate::json::same_text(name, "string") {
        Some(AbiKind::Text)
    } else if crate::json::same_text(name, "address") {
        Some(AbiKind::Address)
    } else if crate::json::same_text(name, "bytes") {
        Some(AbiKind::Bytes)
    } else if crate::json::same_text(name, "int256") || crate::json::same_text(name, "int") {
        Some(AbiKind::Int256)
    } else if crate::json::same_text(name, "bool") {
        Some(AbiKind::Bool)
    } else {
        None
    }
}

/// Decodes hex ABI data (without `0x`) against a list of type names, giving the text of
/// each value; type names other than `string`, `address`, `bytes`, `int256`, `int` and
/// `bool` are left out. `None` when the data is not hex or does not decode.
pub fn decode_abi(abi: Vec<String>, data: String) -> (r: Option<Vec<String>>)
    ensures
        match crate::hexcodec::hex_decoded(data@) {
            Some(b) => match abi_decoded_texts(abi_kinds_of(crate::json::strings_view(abi@)), b) {
                Some(texts) => r matches Some(v) && crate::json::strings_view(v@) == texts
                    && v@.len() == abi_kinds_of(crate::json::strings_view(abi@)).len(),
                None => r is None,
            },
            None => r is None,
        },
{
    let ghost names = crate::json::strings_view(abi@);
    let mut kinds: Vec<AbiKind> = Vec::new();
    let mut i: usize = 0;
    while i < abi.len()
        invariant
            names == crate::json::strings_view(abi@),
            i <= abi@.len(),
            kinds@ == abi_kinds_of(names.take(i as int)),
        decreases abi@.len() - i,
    {
        proof {
            assert(names.take(i + 1).drop_last() =~= names.take(i as int));
            assert(names.take(i + 1).last() == abi@[i as int]@);
        }
        match abi_kind(&abi[i]) {
            Some(k) => {
                kinds.push(k);
            },
            None => {},
        }
        i = i + 1;
    }
    proof {
        assert(names.take(i as int) =~= names);
    }
    let bytes = crate::hexcodec::hex_decode(data.as_str())?;
    abi_decode(&kinds, &bytes)
}

} // verus!

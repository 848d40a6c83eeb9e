//! Transactions and logs as an Ethereum node reports them, read from JSON texts.
use vstd::prelude::*;
use crate::json::{
    find_member, json_items, json_members, json_opt_string, json_opt_strings, member,
    read_items, read_members, read_opt_string, read_opt_strings, strings_view,
};
use crate::models::TxLog;
use crate::utils::{hex_quantity, hex_to_decimal};

verus! {

/// The fields of a log object as they are written; an absent or null field is `None`.
#[derive(Debug, Clone, Default)]
pub struct TxSerdeLogs {
    pub topics: Option<Vec<String>>,
    pub data: Option<String>,
    pub transaction_hash: Option<String>,
    pub block_number: Option<String>,
}

/// The fields of a transaction object as they are written; an absent or null field is
/// `None`, absent logs are none.
#[derive(Debug, Clone, Default)]
pub struct TxSerde {
    pub block_hash: Option<String>,
    pub block_number: Option<String>,
    pub from: Option<String>,
    pub gas: Option<String>,
    pub gas_price: Option<String>,
    pub hash: Option<String>,
    pub input: Option<String>,
    pub nonce: Option<String>,
    pub to: Option<String>,
    pub transaction_index: Option<String>,
    pub logs: Vec<TxSerdeLogs>,
    pub value: Option<String>,
}

/// The transactions of a block object.
#[derive(Debug, Clone, Default)]
pub struct ResultSerde {
    pub transactions: Vec<TxSerde>,
}

/// A transaction with every absent field read as empty text.
#[derive(Debug, Clone, Default)]
pub struct Tx {
    pub block_hash: String,
    pub block_number: String,
    pub from: String,
    pub gas: String,
    pub gas_price: String,
    pub hash: String,
    pub input: String,
    pub nonce: String,
    pub to: String,
    pub transaction_index: String,
    pub value: String,
    pub logs: Vec<TxLog>,
}

pub struct TxLogView {
    pub topics: Seq<Seq<char>>,
    pub data: Seq<char>,
    pub transaction_hash: Seq<char>,
    pub block_number: u64,
}

impl View for TxLog {
    type V = TxLogView;

    open spec fn view(&self) -> TxLogView {
        TxLogView {
            topics: strings_view(self.topics@),
            data: self.data@,
            transaction_hash: self.transaction_hash@,
            block_number: self.block_number,
        }
    }
}

pub struct TxView {
    pub block_hash: Seq<char>,
    pub block_number: Seq<char>,
    pub from: Seq<char>,
    pub gas: Seq<char>,
    pub gas_price: Seq<char>,
    pub hash: Seq<char>,
    pub input: Seq<char>,
    pub nonce: Seq<char>,
    pub to: Seq<char>,
    pub transaction_index: Seq<char>,
    pub value: Seq<char>,
    pub logs: Seq<TxLogView>,
}

impl View for Tx {
    type V = TxView;

    open spec fn view(&self) -> TxView {
        TxView {
            block_hash: self.block_hash@,
            block_number: self.block_number@,
            from: self.from@,
            gas: self.gas@,
            gas_price: self.gas_price@,
            hash: self.hash@,
            input: self.input@,
            nonce: self.nonce@,
            to: self.to@,
            transaction_index: self.transaction_index@,
            value: self.value@,
            logs: self.logs@.map_values(|l: TxLog| l@),
        }
    }
}

pub open spec fn opt_view(o: Option<String>) -> Option<Seq<char>> {
    match o {
        Some(s) => Some(s@),
        None => None,
    }
}

pub open spec fn opt_strings(o: Option<Vec<String>>) -> Option<Seq<Seq<char>>> {
    match o {
        Some(v) => Some(strings_view(v@)),
        None => None,
    }
}

pub struct LogFieldsView {
    pub topics: Option<Seq<Seq<char>>>,
    pub data: Option<Seq<char>>,
    pub transaction_hash: Option<Seq<char>>,
    pub block_number: Option<Seq<char>>,
}

impl View for TxSerdeLogs {
    type V = LogFieldsView;

    open spec fn view(&self) -> LogFieldsView {
        LogFieldsView {
            topics: opt_strings(self.topics),
            data: opt_view(self.data),
            transaction_hash: opt_view(self.transaction_hash),
            block_number: opt_view(self.block_number),
        }
    }
}

pub struct TxFieldsView {
    pub block_hash: Option<Seq<char>>,
    pub block_number: Option<Seq<char>>,
    pub from: Option<Seq<char>>,
    pub gas: Option<Seq<char>>,
    pub gas_price: Option<Seq<char>>,
    pub hash: Option<Seq<char>>,
    pub input: Option<Seq<char>>,
    pub nonce: Option<Seq<char>>,
    pub to: Option<Seq<char>>,
    pub transaction_index: Option<Seq<char>>,
    pub logs: Seq<LogFieldsView>,
    pub value: Option<Seq<char>>,
}

impl View for TxSerde {
    type V = TxFieldsView;

    open spec fn view(&self) -> TxFieldsView {
        TxFieldsView {
            block_hash: opt_view(self.block_hash),
            block_number: opt_view(self.block_number),
            from: opt_view(self.from),
            gas: opt_view(self.gas),
            gas_price: opt_view(self.gas_price),
            hash: opt_view(self.hash),
            input: opt_view(self.input),
            nonce: opt_view(self.nonce),
            to: opt_view(self.to),
            transaction_index: opt_view(self.transaction_index),
            logs: self.logs@.map_values(|l: TxSerdeLogs| l@),
            value: opt_view(self.value),
        }
    }
}

impl View for ResultSerde {
    type V = Seq<TxFieldsView>;

    open spec fn view(&self) -> Seq<TxFieldsView> {
        self.transactions@.map_values(|t: TxSerde| t@)
    }
}

/// `f` applied to each element, when it gives a value for every one.
pub open spec fn all_some<A, B>(s: Seq<A>, f: spec_fn(A) -> Option<B>) -> Option<Seq<B>>
    decreases s.len(),
{
    if s.len() == 0 {
        Some(Seq::empty())
    } else {
        match (all_some(s.drop_last(), f), f(s.last())) {
            (Some(rest), Some(b)) => Some(rest.push(b)),
            _ => None,
        }
    }
}

/// When `f` gives nothing for the element at `i`, `all_some` gives nothing.
pub proof fn lemma_all_some_fails_on<A, B>(s: Seq<A>, f: spec_fn(A) -> Option<B>, i: int)
    requires
        0 <= i < s.len(),
        f(s[i]) is None,
    ensures
        all_some(s, f) is None,
    decreases s.len(),
{
    if i < s.len() - 1 {
        lemma_all_some_fails_on(s.drop_last(), f, i);
    }
}

/// A string field of an object: `Some(None)` when absent or null, `None` when of another
/// type.
pub open spec fn str_field(ms: Seq<(Seq<char>, Seq<char>)>, key: Seq<char>) -> Option<Option<Seq<char>>> {
    match member(ms, key) {
        None => Some(None),
        Some(t) => json_opt_string(t),
    }
}

/// A field holding an array of strings: `Some(None)` when absent or null, `None` when of
/// another type.
pub open spec fn strs_field(ms: Seq<(Seq<char>, Seq<char>)>, key: Seq<char>) -> Option<Option<Seq<Seq<char>>>> {
    match member(ms, key) {
        None => Some(None),
        Some(t) => json_opt_strings(t),
    }
}

pub open spec fn or_empty<A>(o: Option<Seq<A>>) -> Seq<A> {
    match o {
        Some(s) => s,
        None => Seq::empty(),
    }
}

/// The fields of a JSON log object text.
pub open spec fn log_fields_of(text: Seq<char>) -> Option<LogFieldsView> {
    match json_members(text) {
        None => None,
        Some(ms) => match (
            strs_field(ms, "topics"@),
            str_field(ms, "data"@),
            str_field(ms, "transactionHash"@),
            str_field(ms, "blockNumber"@),
        ) {
            (Some(t), Some(d), Some(h), Some(b)) => Some(
                LogFieldsView { topics: t, data: d, transaction_hash: h, block_number: b },
            ),
            _ => None,
        },
    }
}

/// The log that fields describe: absent text fields are empty, and the block number is the
/// value of its hex quantity.
pub open spec fn log_of_fields(f: LogFieldsView) -> Option<TxLogView> {
    match hex_quantity(or_empty(f.block_number)) {
        Some(n) => Some(
            TxLogView {
                topics: or_empty(f.topics),
                data: or_empty(f.data),
                transaction_hash: or_empty(f.transaction_hash),
                block_number: n,
            },
        ),
        None => None,
    }
}

/// The log that a JSON log object text describes.
pub open spec fn log_record_of(text: Seq<char>) -> Option<TxLogView> {
    match log_fields_of(text) {
        Some(f) => log_of_fields(f),
        None => None,
    }
}

/// The fields of a JSON transaction object text; absent logs are none.
pub open spec fn tx_fields_of(text: Seq<char>) -> Option<TxFieldsView> {
    match json_members(text) {
        None => None,
        Some(ms) => {
            let logs = match member(ms, "logs"@) {
                None => Some(Seq::<LogFieldsView>::empty()),
                Some(t) => match json_items(t) {
                    Some(items) => all_some(items, |x: Seq<char>| log_fields_of(x)),
                    None => None,
                },
            };
            match (
                str_field(ms, "blockHash"@),
                str_field(ms, "blockNumber"@),
                str_field(ms, "from"@),
                str_field(ms, "gas"@),
                str_field(ms, "gasPrice"@),
                str_field(ms, "hash"@),
                str_field(ms, "input"@),
                str_field(ms, "nonce"@),
                str_field(ms, "to"@),
                str_field(ms, "transactionIndex"@),
                str_field(ms, "value"@),
                logs,
            ) {
                (
                    Some(a),
                    Some(b),
                    Some(c),
                    Some(d),
                    Some(e),
                    Some(f),
                    Some(g),
                    Some(h),
                    Some(i),
                    Some(j),
                    Some(k),
                    Some(l),
                ) => Some(
                    TxFieldsView {
                        block_hash: a,
                        block_number: b,
                        from: c,
                        gas: d,
                        gas_price: e,
                        hash: f,
                        input: g,
                        nonce: h,
                        to: i,
                        transaction_index: j,
                        logs: l,
                        value: k,
                    },
                ),
                _ => None,
            }
        },
    }
}

/// The transaction that fields describe: absent text fields are empty, each log as
/// `log_of_fields` gives it.
pub open spec fn tx_of_fields(f: TxFieldsView) -> Option<TxView> {
    match all_some(f.logs, |l: LogFieldsView| log_of_fields(l)) {
        Some(logs) => Some(
            TxView {
                block_hash: or_empty(f.block_hash),
                block_number: or_empty(f.block_number),
                from: or_empty(f.from),
                gas: or_empty(f.gas),
                gas_price: or_empty(f.gas_price),
                hash: or_empty(f.hash),
                input: or_empty(f.input),
                nonce: or_empty(f.nonce),
                to: or_empty(f.to),
                transaction_index: or_empty(f.transaction_index),
                value: or_empty(f.value),
                logs,
            },
        ),
        None => None,
    }
}

/// The transaction that a JSON transaction object text describes.
pub open spec fn tx_record_of(text: Seq<char>) -> Option<TxView> {
    match tx_fields_of(text) {
        Some(f) => tx_of_fields(f),
        None => None,
    }
}

/// The transactions of a JSON block object text.
pub open spec fn block_fields_of(text: Seq<char>) -> Option<Seq<TxFieldsView>> {
    match json_members(text) {
        Some(ms) => match member(ms, "transactions"@) {
            Some(t) => match json_items(t) {
                Some(items) => all_some(items, |x: Seq<char>| tx_fields_of(x)),
                None => None,
            },
            None => None,
        },
        None => None,
    }
}

fn opt_or_empty(o: Option<String>) -> (r: String)
    ensures
        r@ == or_empty(opt_view(o)),
{
    match o {
        Some(s) => s,
        None => String::new(),
    }
}

fn str_field_exec(ms: &Vec<(String, String)>, key: &str) -> (r: Option<Option<String>>)
    ensures
        match str_field(crate::json::members_view(ms@), key@) {
            Some(o) => r matches Some(x) && opt_view(x) == o,
            None => r is None,
        },
{
    match find_member(ms, key) {
        None => Some(None),
        Some(t) => read_opt_string(t.as_str()),
    }
}

impl TxSerdeLogs {
    /// Reads the fields of a JSON log object text.
    pub fn read(text: &str) -> (r: Option<TxSerdeLogs>)
        ensures
            match log_fields_of(text@) {
                Some(f) => r matches Some(l) && l@ == f,
                None => r is None,
            },
    {
        let ms = read_members(text)?;
        let topics = match find_member(&ms, "topics") {
            None => None,
            Some(t) => read_opt_strings(t.as_str())?,
        };
        let data = str_field_exec(&ms, "data")?;
        let transaction_hash = str_field_exec(&ms, "transactionHash")?;
        let block_number = str_field_exec(&ms, "blockNumber")?;
        Some(TxSerdeLogs { topics, data, transaction_hash, block_number })
    }

    /// The log these fields describe. `None` when the block number is not a hex quantity.
    pub fn to_tx_log(&self) -> (r: Option<TxLog>)
        ensures
            match log_of_fields(self@) {
                Some(v) => r matches Some(l) && l@ == v,
                None => r is None,
            },
    {
        let block = opt_or_empty(self.block_number.clone());
        let block_number = hex_to_decimal(block)?;
        let topics = match &self.topics {
            Some(v) => v.clone(),
            None => {
                let v: Vec<String> = Vec::new();
                proof {
                    assert(strings_view(v@) =~= Seq::<Seq<char>>::empty());
                }
                v
            },
        };
        Some(TxLog {
            topics,
            data: opt_or_empty(self.data.clone()),
            transaction_hash: opt_or_empty(self.transaction_hash.clone()),
            block_number,
        })
    }
}

/// Reads each JSON log object text of `items`, in order.
fn read_log_fields(items: &Vec<String>) -> (r: Option<Vec<TxSerdeLogs>>)
    ensures
        match all_some(strings_view(items@), |x: Seq<char>| log_fields_of(x)) {
            Some(v) => r matches Some(ls) && ls@.map_values(|l: TxSerdeLogs| l@) == v,
            None => r is None,
        },
{
    let ghost texts = strings_view(items@);
    let ghost f = |x: Seq<char>| log_fields_of(x);
    let mut out: Vec<TxSerdeLogs> = Vec::new();
    let mut i: usize = 0;
    while i < items.len()
        invariant
            texts == strings_view(items@),
            f == (|x: Seq<char>| log_fields_of(x)),
            i <= items@.len(),
            all_some(texts.take(i as int), f) == Some(out@.map_values(|l: TxSerdeLogs| l@)),
        decreases items@.len() - i,
    {
        proof {
            assert(texts.take(i + 1).drop_last() =~= texts.take(i as int));
            assert(texts.take(i + 1).last() == items@[i as int]@);
        }
        match TxSerdeLogs::read(items[i].as_str()) {
            Some(l) => {
                out.push(l);
                proof {
                    assert(out@.map_values(|l: TxSerdeLogs| l@) =~= all_some(texts.take(i + 1), f).unwrap());
                }
            },
            None => {
                proof {
                    lemma_all_some_fails_on(texts, f, i as int);
                }
                return None;
            },
        }
        i = i + 1;
    }
    proof {
        assert(texts.take(i as int) =~= texts);
    }
    Some(out)
}

/// Turns each set of log fields into a log, in order.
fn logs_from_fields(fields: &Vec<TxSerdeLogs>) -> (r: Option<Vec<TxLog>>)
    ensures
        match all_some(fields@.map_values(|l: TxSerdeLogs| l@), |l: LogFieldsView| log_of_fields(l)) {
            Some(v) => r matches Some(ls) && ls@.map_values(|l: TxLog| l@) == v,
            None => r is None,
        },
{
    let ghost views = fields@.map_values(|l: TxSerdeLogs| l@);
    let ghost f = |l: LogFieldsView| log_of_fields(l);
    let mut out: Vec<TxLog> = Vec::new();
    let mut i: usize = 0;
    while i < fields.len()
        invariant
            views == fields@.map_values(|l: TxSerdeLogs| l@),
            f == (|l: LogFieldsView| log_of_fields(l)),
            i <= fields@.len(),
            all_some(views.take(i as int), f) == Some(out@.map_values(|l: TxLog| l@)),
        decreases fields@.len() - i,
    {
        proof {
            assert(views.take(i + 1).drop_last() =~= views.take(i as int));
            assert(views.take(i + 1).last() == fields@[i as int]@);
        }
        match fields[i].to_tx_log() {
            Some(l) => {
                out.push(l);
                proof {
                    assert(out@.map_values(|l: TxLog| l@) =~= all_some(views.take(i + 1), f).unwrap());
                }
            },
            None => {
                proof {
                    lemma_all_some_fails_on(views, f, i as int);
                }
                return None;
            },
        }
        i = i + 1;
    }
    proof {
        assert(views.take(i as int) =~= views);
    }
    Some(out)
}

/// Reads a JSON log object text into a log.
pub fn read_log_record(text: &str) -> (r: Option<TxLog>)
    ensures
        match log_record_of(text@) {
            Some(v) => r matches Some(l) && l@ == v,
            None => r is None,
        },
{
    let fields = TxSerdeLogs::read(text)?;
    fields.to_tx_log()
}

/// Reads each JSON log object text of `items` into a log, in order.
pub fn read_log_records(items: &Vec<String>) -> (r: Option<Vec<TxLog>>)
    ensures
        match all_some(strings_view(items@), |x: Seq<char>| log_record_of(x)) {
            Some(v) => r matches Some(logs) && logs@.map_values(|l: TxLog| l@) == v,
            None => r is None,
        },
{
    let ghost texts = strings_view(items@);
    let ghost f = |x: Seq<char>| log_record_of(x);
    let mut out: Vec<TxLog> = Vec::new();
    let mut i: usize = 0;
    while i < items.len()
        invariant
            texts == strings_view(items@),
            f == (|x: Seq<char>| log_record_of(x)),
            i <= items@.len(),
            all_some(texts.take(i as int), f) == Some(out@.map_values(|l: TxLog| l@)),
        decreases items@.len() - i,
    {
        proof {
            assert(texts.take(i + 1).drop_last() =~= texts.take(i as int));
            assert(texts.take(i + 1).last() == items@[i as int]@);
        }
        match read_log_record(items[i].as_str()) {
            Some(l) => {
                out.push(l);
                proof {
                    assert(out@.map_values(|l: TxLog| l@) =~= all_some(texts.take(i + 1), f).unwrap());
                }
            },
            None => {
                proof {
                    lemma_all_some_fails_on(texts, f, i as int);
                }
                return None;
            },
        }
        i = i + 1;
    }
    proof {
        assert(texts.take(i as int) =~= texts);
    }
    Some(out)
}

impl TxSerde {
    /// Reads the fields of a JSON transaction object text.
    pub fn read(text: &str) -> (r: Option<TxSerde>)
        ensures
            match tx_fields_of(text@) {
                Some(f) => r matches Some(t) && t@ == f,
                None => r is None,
            },
    {
        let ms = read_members(text)?;
        let logs = match find_member(&ms, "logs") {
            None => {
                let v: Vec<TxSerdeLogs> = Vec::new();
                proof {
                    assert(v@.map_values(|l: TxSerdeLogs| l@) =~= Seq::<LogFieldsView>::empty());
                }
                Some(v)
            },
            Some(t) => match read_items(t.as_str()) {
                Some(items) => read_log_fields(&items),
                None => None,
            },
        };
        let block_hash = str_field_exec(&ms, "blockHash")?;
        let block_number = str_field_exec(&ms, "blockNumber")?;
        let from = str_field_exec(&ms, "from")?;
        let gas = str_field_exec(&ms, "gas")?;
        let gas_price = str_field_exec(&ms, "gasPrice")?;
        let hash = str_field_exec(&ms, "hash")?;
        let input = str_field_exec(&ms, "input")?;
        let nonce = str_field_exec(&ms, "nonce")?;
        let to = str_field_exec(&ms, "to")?;
        let transaction_index = str_field_exec(&ms, "transactionIndex")?;
        let value = str_field_exec(&ms, "value")?;
        let logs = logs?;
        Some(TxSerde {
            block_hash,
            block_number,
            from,
            gas,
            gas_price,
            hash,
            input,
            nonce,
            to,
            transaction_index,
            logs,
            value,
        })
    }

    /// The transaction these fields describe: absent text fields are empty, each log turned
    /// as `TxSerdeLogs::to_tx_log` does. `None` when a log's block number is not a hex
    /// quantity.
    pub fn to_tx(&self) -> (r: Option<Tx>)
        ensures
            match tx_of_fields(self@) {
                Some(v) => r matches Some(t) && t@ == v,
                None => r is None,
            },
    {
        let logs = logs_from_fields(&self.logs)?;
        Some(Tx {
            block_hash: opt_or_empty(self.block_hash.clone()),
            block_number: opt_or_empty(self.block_number.clone()),
            from: opt_or_empty(self.from.clone()),
            gas: opt_or_empty(self.gas.clone()),
            gas_price: opt_or_empty(self.gas_price.clone()),
            hash: opt_or_empty(self.hash.clone()),
            input: opt_or_empty(self.input.clone()),
            nonce: opt_or_empty(self.nonce.clone()),
            to: opt_or_empty(self.to.clone()),
            transaction_index: opt_or_empty(self.transaction_index.clone()),
            value: opt_or_empty(self.value.clone()),
            logs,
        })
    }
}

/// Reads a JSON transaction object text into a transaction.
pub fn read_tx_record(text: &str) -> (r: Option<Tx>)
    ensures
        match tx_record_of(text@) {
            Some(v) => r matches Some(t) && t@ == v,
            None => r is None,
        },
{
    let fields = TxSerde::read(text)?;
    fields.to_tx()
}

impl ResultSerde {
    /// Reads the transactions of a JSON block object text.
    pub fn read(text: &str) -> (r: Option<ResultSerde>)
        ensures
            match block_fields_of(text@) {
                Some(f) => r matches Some(b) && b@ == f,
                None => r is None,
            },
    {
        let ms = read_members(text)?;
        let t = find_member(&ms, "transactions")?;
        let items = read_items(t.as_str())?;
        let ghost texts = strings_view(items@);
        let ghost f = |x: Seq<char>| tx_fields_of(x);
        proof {
            assert(block_fields_of(text@) == all_some(texts, f));
        }
        let mut out: Vec<TxSerde> = Vec::new();
        let mut i: usize = 0;
        while i < items.len()
            invariant
                texts == strings_view(items@),
                block_fields_of(text@) == all_some(texts, f),
                f == (|x: Seq<char>| tx_fields_of(x)),
                i <= items@.len(),
                all_some(texts.take(i as int), f) == Some(out@.map_values(|t: TxSerde| t@)),
            decreases items@.len() - i,
        {
            proof {
                assert(texts.take(i + 1).drop_last() =~= texts.take(i as int));
                assert(texts.take(i + 1).last() == items@[i as int]@);
            }
            match TxSerde::read(items[i].as_str()) {
                Some(tx) => {
                    out.push(tx);
                    proof {
                        assert(out@.map_values(|t: TxSerde| t@) =~= all_some(texts.take(i + 1), f).unwrap());
                    }
                },
                None => {
                    proof {
                        lemma_all_some_fails_on(texts, f, i as int);
                    }
                    return None;
                },
            }
            i = i + 1;
        }
        proof {
            assert(texts.take(i as int) =~= texts);
        }
        Some(ResultSerde { transactions: out })
    }

    /// The transactions of the block, each as `TxSerde::to_tx` gives it, in order.
    pub fn to_txs(&self) -> (r: Option<Vec<Tx>>)
        ensures
            match all_some(self@, |t: TxFieldsView| tx_of_fields(t)) {
                Some(v) => r matches Some(txs) && txs@.map_values(|t: Tx| t@) == v,
                None => r is None,
            },
    {
        let ghost views = self@;
        let ghost f = |t: TxFieldsView| tx_of_fields(t);
        let mut out: Vec<Tx> = Vec::new();
        let mut i: usize = 0;
        while i < self.transactions.len()
            invariant
                views == self@,
                f == (|t: TxFieldsView| tx_of_fields(t)),
                i <= self.transactions@.len(),
                all_some(views.take(i as int), f) == Some(out@.map_values(|t: Tx| t@)),
            decreases self.transactions@.len() - i,
        {
            proof {
                assert(views.take(i + 1).drop_last() =~= views.take(i as int));
                assert(views.take(i + 1).last() == self.transactions@[i as int]@);
            }
            match self.transactions[i].to_tx() {
                Some(t) => {
                    out.push(t);
                    proof {
                        assert(out@.map_values(|t: Tx| t@) =~= all_some(views.take(i + 1), f).unwrap());
                    }
                },
                None => {
                    proof {
                        lemma_all_some_fails_on(views, f, i as int);
                    }
                    return None;
                },
            }
            i = i + 1;
        }
        proof {
            assert(views.take(i as int) =~= views);
        }
        Some(out)
    }
}

} // verus!

//! JSON-RPC 2.0 requests: the envelope, its parameters as JSON text, and the command line
//! that carries it to a node.
use vstd::prelude::*;
use crate::json::{json_quoted, quote, strings_view};
use crate::text::{decimal_text, digits_of, string_of};
use crate::hexcodec::{hex_encode, hex_encoded};

verus! {

/// A JSON-RPC request. `params` is the JSON text of the parameter array; `id` is fixed when
/// the request is made.
#[derive(Debug, Clone)]
pub struct Request {
    pub jsonrpc: String,
    pub method: String,
    pub params: String,
    pub id: u64,
}

/// The body of a request as it is sent.
pub open spec fn request_body(jsonrpc: Seq<char>, method: Seq<char>, params: Seq<char>, id: u64) -> Seq<char> {
    "{\"jsonrpc\":\""@ + jsonrpc + "\", \"method\":\""@ + method + "\", \"params\":"@ + params
        + ", \"id\":"@ + decimal_text(id as nat) + "}"@
}

impl Request {
    /// A version 2.0 request.
    pub fn new(method: String, params: String, id: u64) -> (r: Request)
        ensures
            r.jsonrpc@ == "2.0"@,
            r.method == method,
            r.params == params,
            r.id == id,
    {
        Request { jsonrpc: crate::results::JSON_RPC.to_string(), method, params, id }
    }

    /// The arguments of a silent POST of the request body as JSON to `url`.
    pub fn as_sys_string(&self, url: &String) -> (r: Vec<String>)
        ensures
            strings_view(r@) == seq![
                "-s"@,
                "-X"@,
                "POST"@,
                "-H"@,
                "Content-Type: application/json"@,
                "-d"@,
                request_body(self.jsonrpc@, self.method@, self.params@, self.id),
                url@,
            ],
    {
        let mut body = "{\"jsonrpc\":\"".to_string();
        body.append(self.jsonrpc.as_str());
        body.append("\", \"method\":\"");
        body.append(self.method.as_str());
        body.append("\", \"params\":");
        body.append(self.params.as_str());
        body.append(", \"id\":");
        let id = string_of(&digits_of(self.id, 10));
        body.append(id.as_str());
        body.append("}");
        let mut v: Vec<String> = Vec::new();
        v.push("-s".to_string());
        v.push("-X".to_string());
        v.push("POST".to_string());
        v.push("-H".to_string());
        v.push("Content-Type: application/json".to_string());
        v.push("-d".to_string());
        v.push(body);
        v.push(url.clone());
        proof {
            assert(strings_view(v@) =~= seq![
                "-s"@,
                "-X"@,
                "POST"@,
                "-H"@,
                "Content-Type: application/json"@,
                "-d"@,
                request_body(self.jsonrpc@, self.method@, self.params@, self.id),
                url@,
            ]);
        }
        v
    }
}

/// JSON texts separated by commas.
pub open spec fn comma_joined(items: Seq<Seq<char>>) -> Seq<char>
    decreases items.len(),
{
    if items.len() == 0 {
        Seq::empty()
    } else if items.len() == 1 {
        items[0]
    } else {
        comma_joined(items.drop_last()) + ","@ + items.last()
    }
}

/// The JSON array of the given item texts.
pub open spec fn json_array_text(items: Seq<Seq<char>>) -> Seq<char> {
    "["@ + comma_joined(items) + "]"@
}

/// The JSON array text of the items, each already JSON text.
pub fn json_array(items: &Vec<String>) -> (r: String)
    ensures
        r@ == json_array_text(strings_view(items@)),
{
    let ghost texts = strings_view(items@);
    let mut inner = String::new();
    let mut i: usize = 0;
    while i < items.len()
        invariant
            texts == strings_view(items@),
            i <= items@.len(),
            inner@ == comma_joined(texts.take(i as int)),
        decreases items@.len() - i,
    {
        proof {
            assert(texts.take(i + 1).drop_last() =~= texts.take(i as int));
        }
        if i > 0 {
            inner.append(",");
        }
        inner.append(items[i].as_str());
        proof {
            if i == 0 {
                assert(texts.take(1)[0] == items@[0]@);
            }
        }
        i = i + 1;
    }
    proof {
        assert(texts.take(i as int) =~= texts);
    }
    let mut out = "[".to_string();
    out.append(inner.as_str());
    out.append("]");
    out
}

/// The JSON array text of the given strings.
pub fn string_params(values: &Vec<String>) -> (r: String)
    ensures
        r@ == json_array_text(strings_view(values@).map_values(|s: Seq<char>| json_quoted(s))),
{
    let mut quoted: Vec<String> = Vec::new();
    let mut i: usize = 0;
    while i < values.len()
        invariant
            i <= values@.len(),
            strings_view(quoted@) == strings_view(values@).take(i as int).map_values(
                |s: Seq<char>| json_quoted(s),
            ),
        decreases values@.len() - i,
    {
        let q = quote(values[i].as_str());
        let ghost before = quoted@;
        quoted.push(q);
        proof {
            assert(strings_view(quoted@) =~= strings_view(before).push(q@));
            assert(strings_view(values@).take(i + 1) =~= strings_view(values@).take(i as int).push(
                values@[i as int]@,
            ));
        }
        i = i + 1;
    }
    proof {
        assert(strings_view(values@).take(i as int) =~= strings_view(values@));
    }
    json_array(&quoted)
}

/// The parameter text of a read-only call of `to` with call data `data` at block `tag`.
pub open spec fn call_params_text(to: Seq<u8>, data: Seq<u8>, tag: Seq<char>) -> Seq<char> {
    "[{\"to\":\"0x"@ + hex_encoded(to) + "\",\"data\":\"0x"@ + hex_encoded(data) + "\"},"@
        + json_quoted(tag) + "]"@
}

/// The parameter text of a read-only call of `to` with call data `data` at block `tag`.
pub fn call_params(to: &[u8; 20], data: &Vec<u8>, tag: &str) -> (r: String)
    ensures
        r@ == call_params_text(to@, data@, tag@),
{
    let mut out = "[{\"to\":\"0x".to_string();
    let t = hex_encode(to);
    out.append(t.as_str());
    out.append("\",\"data\":\"0x");
    let d = hex_encode(data.as_slice());
    out.append(d.as_str());
    out.append("\"},");
    let q = quote(tag);
    out.append(q.as_str());
    out.append("]");
    out
}

/// The parameter text of a log query over a block range, a contract address and topics.
pub open spec fn logs_filter_text(from: Seq<char>, to: Seq<char>, address: Seq<char>, topics: Seq<Seq<char>>) -> Seq<char> {
    "[{\"address\":"@ + json_quoted(address) + ",\"fromBlock\":"@ + json_quoted(from)
        + ",\"toBlock\":"@ + json_quoted(to) + ",\"topics\":"@ + json_array_text(
        topics.map_values(|s: Seq<char>| json_quoted(s)),
    ) + "}]"@
}

/// The parameter text of a log query over a block range, a contract address and topics.
pub fn logs_filter_params(from_block: &str, to_block: &str, address: &str, topics: &Vec<String>) -> (r: String)
    ensures
        r@ == logs_filter_text(from_block@, to_block@, address@, strings_view(topics@)),
{
    let mut out = "[{\"address\":".to_string();
    let a = quote(address);
    out.append(a.as_str());
    out.append(",\"fromBlock\":");
    let f = quote(from_block);
    out.append(f.as_str());
    out.append(",\"toBlock\":");
    let t = quote(to_block);
    out.append(t.as_str());
    out.append(",\"topics\":");
    let ts = string_params(topics);
    out.append(ts.as_str());
    out.append("}]");
    out
}

} // verus!

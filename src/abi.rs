//! A contract interface read from an ABI document: its functions with their selectors and
//! its events with their signature hashes. Selector resolution works on it.
use vstd::prelude::*;
use crate::hexcodec::{decode_hex_optional_prefix, hex_decoded, strip_0x};
use crate::json::strings_view;
use crate::text::{chars_of, is_decimal_digit};

verus! {

/// The parameters of an event: name, kind (ABI type text such as `uint256`) and indexed flag.
#[derive(Debug, Clone)]
pub struct EventParamDef {
    pub name: String,
    pub kind: String,
    pub indexed: bool,
}

/// An event definition: its parameters in declaration order, and whether it is anonymous.
#[derive(Debug, Clone)]
pub struct EventDef {
    pub inputs: Vec<EventParamDef>,
    pub anonymous: bool,
}

pub open spec fn event_params_view(ps: Seq<EventParamDef>) -> Seq<(Seq<char>, Seq<char>, bool)> {
    ps.map_values(|p: EventParamDef| (p.name@, p.kind@, p.indexed))
}

pub struct EventDefView {
    pub inputs: Seq<(Seq<char>, Seq<char>, bool)>,
    pub anonymous: bool,
}

impl View for EventDef {
    type V = EventDefView;

    open spec fn view(&self) -> EventDefView {
        EventDefView { inputs: event_params_view(self.inputs@), anonymous: self.anonymous }
    }
}

/// The kinds of an event's parameters, in order.
pub open spec fn event_kinds(e: EventDefView) -> Seq<Seq<char>> {
    e.inputs.map_values(|p: (Seq<char>, Seq<char>, bool)| p.1)
}

/// One function definition of the interface, as the kinds of its inputs, with its selector.
pub struct FunctionEntry {
    pub name: String,
    pub inputs: Vec<String>,
    pub selector: [u8; 4],
}

/// One event definition of the interface, with its signature hash.
pub struct EventEntry {
    pub name: String,
    pub def: EventDef,
    pub signature: [u8; 32],
}

/// What an ABI document declares: one entry per definition, names in ascending order and the
/// definitions under one name in document order.
pub struct ContractInterface {
    pub functions: Vec<FunctionEntry>,
    pub events: Vec<EventEntry>,
}

/// Why an ABI document could not be read.
#[derive(Debug, Clone, Copy, PartialEq, Eq, Structural)]
pub enum AbiLoadError {
    /// The text is not an ABI document this reader takes.
    Malformed,
    /// A parameter kind has no canonical signature.
    BadKind,
}

/// Position `i` of `s` follows a `[` and then only decimal digits.
pub open spec fn group_open(s: Seq<char>, i: int) -> bool
    decreases i,
{
    if i <= 0 || i > s.len() {
        false
    } else if s[i - 1] == '[' {
        true
    } else if is_decimal_digit(s[i - 1]) {
        group_open(s, i - 1)
    } else {
        false
    }
}

/// A parameter kind that ethabi's type reader takes without fault: ASCII, and every `]`
/// closes a `[` followed only by digits.
pub open spec fn safe_kind(k: Seq<char>) -> bool {
    &&& forall|i: int| 0 <= i < k.len() ==> (#[trigger] k[i] as u32) < 128
    &&& forall|i: int| 0 <= i < k.len() && #[trigger] k[i] == ']' ==> group_open(k, i)
}

/// Position `i` of `s` lies inside a string: an odd number of `"` come before it.
pub open spec fn quote_open(s: Seq<char>, i: int) -> bool
    decreases i,
{
    if i <= 0 || i > s.len() {
        false
    } else {
        quote_open(s, i - 1) != (s[i - 1] == '"')
    }
}

/// A document whose every string is a safe kind as written: ASCII, no escapes, and every `]`
/// inside a string closes a `[` followed only by digits.
pub open spec fn safe_document(s: Seq<char>) -> bool {
    &&& forall|i: int| 0 <= i < s.len() ==> (#[trigger] s[i] as u32) < 128 && s[i] != '\\'
    &&& forall|i: int| 0 <= i < s.len() && #[trigger] s[i] == ']' && quote_open(s, i) ==> group_open(s, i)
}

/// Whether a document is safe for ethabi's reader.
pub fn is_safe_document(doc: &str) -> (r: bool)
    ensures
        r == safe_document(doc@),
{
    let cs = chars_of(doc);
    let mut open = false;
    let mut grp = false;
    let mut i: usize = 0;
    while i < cs.len()
        invariant
            cs@ == doc@,
            i <= cs@.len(),
            open == quote_open(doc@, i as int),
            grp == group_open(doc@, i as int),
            forall|k: int| 0 <= k < i ==> (#[trigger] doc@[k] as u32) < 128 && doc@[k] != '\\',
            forall|k: int| 0 <= k < i && #[trigger] doc@[k] == ']' && quote_open(doc@, k) ==> group_open(doc@, k),
        decreases cs@.len() - i,
    {
        let c = cs[i];
        if (c as u32) >= 128 || c == '\\' {
            return false;
        }
        if c == ']' && open && !grp {
            return false;
        }
        open = open != (c == '"');
        grp = if c == '[' {
            true
        } else if '0' <= c && c <= '9' {
            grp
        } else {
            false
        };
        i = i + 1;
    }
    true
}

/// What ethabi reads from an ABI document: each function name with the input kinds of its
/// definitions, and each event name with its definitions, in document order under a name.
pub uninterp spec fn abi_document(doc: Seq<char>) -> Option<(
    Seq<(Seq<char>, Seq<Seq<Seq<char>>>)>,
    Seq<(Seq<char>, Seq<EventDefView>)>,
)>;

/// The four-byte selector of a function from its name and input kinds.
pub uninterp spec fn selector_of(name: Seq<char>, kinds: Seq<Seq<char>>) -> Option<Seq<u8>>;

/// The 32-byte signature hash of an event from its name and parameter kinds.
pub uninterp spec fn signature_of(name: Seq<char>, kinds: Seq<Seq<char>>) -> Option<Seq<u8>>;

pub open spec fn function_groups_view(g: Seq<(String, Vec<Vec<String>>)>) -> Seq<(Seq<char>, Seq<Seq<Seq<char>>>)> {
    g.map_values(|x: (String, Vec<Vec<String>>)| (x.0@, defs_view(x.1@)))
}

pub open spec fn defs_view(d: Seq<Vec<String>>) -> Seq<Seq<Seq<char>>> {
    d.map_values(|k: Vec<String>| strings_view(k@))
}

pub open spec fn event_groups_view(g: Seq<(String, Vec<EventDef>)>) -> Seq<(Seq<char>, Seq<EventDefView>)> {
    g.map_values(|x: (String, Vec<EventDef>)| (x.0@, event_defs_view(x.1@)))
}

pub open spec fn event_defs_view(d: Seq<EventDef>) -> Seq<EventDefView> {
    d.map_values(|e: EventDef| e@)
}

pub open spec fn safe_kinds(ks: Seq<Seq<char>>) -> bool {
    forall|k: int| 0 <= k < ks.len() ==> safe_kind(#[trigger] ks[k])
}

/// Relies on ethabi::Contract::load, then reads each definition's parameter kinds (with
/// ParamType's Display, which writes ASCII names and `[N]` / `[]` array suffixes), names and
/// indexed flags from its fields. A safe document keeps ethabi's type reader from faulting.
#[verifier::external_body]
fn load_document(doc: &str) -> (r: Option<(Vec<(String, Vec<Vec<String>>)>, Vec<(String, Vec<EventDef>)>)>)
    requires
        safe_document(doc@),
    ensures
        match r {
            Some(p) => abi_document(doc@) == Some((function_groups_view(p.0@), event_groups_view(p.1@))),
            None => abi_document(doc@) is None,
        },
        r matches Some(p) ==> (forall|i: int, j: int| 0 <= i < p.0@.len() && 0 <= j < p.0@[i].1@.len()
            ==> safe_kinds(strings_view(#[trigger] p.0@[i].1@[j]@))) && (forall|i: int, j: int|
            0 <= i < p.1@.len() && 0 <= j < p.1@[i].1@.len() ==> safe_kinds(event_kinds(
            #[trigger] p.1@[i].1@[j]@,
        ))),
{
    let c = ethabi::Contract::load(doc.as_bytes()).ok()?;
    let fs = c.functions.into_iter().map(|(n, v)| (n, v.into_iter().map(|f| f.inputs.iter()
        .map(|p| p.kind.to_string()).collect()).collect())).collect();
    let es = c.events.into_iter().map(|(n, v)| (n, v.into_iter().map(|e| EventDef {
        inputs: e.inputs.into_iter().map(|p| EventParamDef { name: p.name, kind: p.kind
            .to_string(), indexed: p.indexed }).collect(), anonymous: e.anonymous }).collect()))
        .collect();
    Some((fs, es))
}

/// Relies on ethabi::short_signature over the kinds read by ethabi's param_type::Reader.
#[verifier::external_body]
fn function_selector(name: &String, kinds: &Vec<String>) -> (r: Option<[u8; 4]>)
    requires
        safe_kinds(strings_view(kinds@)),
    ensures
        match r {
            Some(s) => selector_of(name@, strings_view(kinds@)) == Some(s@),
            None => selector_of(name@, strings_view(kinds@)) is None,
        },
{
    let types: Vec<ethabi::ParamType> = kinds.iter().map(|k| ethabi::param_type::Reader::read(k))
        .collect::<Result<_, _>>().ok()?;
    Some(ethabi::short_signature(name, &types))
}

/// Relies on ethabi::long_signature over the kinds read by ethabi's param_type::Reader.
#[verifier::external_body]
fn event_signature(name: &String, def: &EventDef) -> (r: Option<[u8; 32]>)
    requires
        safe_kinds(event_kinds(def@)),
    ensures
        match r {
            Some(s) => signature_of(name@, event_kinds(def@)) == Some(s@),
            None => signature_of(name@, event_kinds(def@)) is None,
        },
{
    let types: Vec<ethabi::ParamType> = def.inputs.iter().map(|p| ethabi::param_type::Reader::read(
        &p.kind)).collect::<Result<_, _>>().ok()?;
    Some(ethabi::long_signature(name, &types).0)
}

pub struct FunctionEntryView {
    pub name: Seq<char>,
    pub inputs: Seq<Seq<char>>,
    pub selector: Seq<u8>,
}

pub struct EventEntryView {
    pub name: Seq<char>,
    pub def: EventDefView,
    pub signature: Seq<u8>,
}

impl View for FunctionEntry {
    type V = FunctionEntryView;

    open spec fn view(&self) -> FunctionEntryView {
        FunctionEntryView { name: self.name@, inputs: strings_view(self.inputs@), selector: self.selector@ }
    }
}

impl View for EventEntry {
    type V = EventEntryView;

    open spec fn view(&self) -> EventEntryView {
        EventEntryView { name: self.name@, def: self.def@, signature: self.signature@ }
    }
}

pub open spec fn join<A>(a: Option<Seq<A>>, b: Option<Seq<A>>) -> Option<Seq<A>> {
    match (a, b) {
        (Some(x), Some(y)) => Some(x + y),
        _ => None,
    }
}

/// The entries for the definitions under one name, in order, or nothing when a selector
/// cannot be formed.
pub open spec fn function_defs_entries(name: Seq<char>, defs: Seq<Seq<Seq<char>>>) -> Option<Seq<FunctionEntryView>>
    decreases defs.len(),
{
    if defs.len() == 0 {
        Some(Seq::empty())
    } else {
        join(function_defs_entries(name, defs.drop_last()), match selector_of(name, defs.last()) {
            Some(s) => Some(seq![FunctionEntryView { name, inputs: defs.last(), selector: s }]),
            None => None,
        })
    }
}

pub open spec fn function_entries(gs: Seq<(Seq<char>, Seq<Seq<Seq<char>>>)>) -> Option<Seq<FunctionEntryView>>
    decreases gs.len(),
{
    if gs.len() == 0 {
        Some(Seq::empty())
    } else {
        join(function_entries(gs.drop_last()), function_defs_entries(gs.last().0, gs.last().1))
    }
}

/// The entries for the event definitions under one name, in order, or nothing when a
/// signature cannot be formed.
pub open spec fn event_defs_entries(name: Seq<char>, defs: Seq<EventDefView>) -> Option<Seq<EventEntryView>>
    decreases defs.len(),
{
    if defs.len() == 0 {
        Some(Seq::empty())
    } else {
        join(event_defs_entries(name, defs.drop_last()), match signature_of(name, event_kinds(defs.last())) {
            Some(s) => Some(seq![EventEntryView { name, def: defs.last(), signature: s }]),
            None => None,
        })
    }
}

pub open spec fn event_entries(gs: Seq<(Seq<char>, Seq<EventDefView>)>) -> Option<Seq<EventEntryView>>
    decreases gs.len(),
{
    if gs.len() == 0 {
        Some(Seq::empty())
    } else {
        join(event_entries(gs.drop_last()), event_defs_entries(gs.last().0, gs.last().1))
    }
}

proof fn lemma_join_assoc<A>(a: Option<Seq<A>>, b: Option<Seq<A>>, c: Option<Seq<A>>)
    ensures
        join(join(a, b), c) == join(a, join(b, c)),
{
    if a is Some && b is Some && c is Some {
        assert(a.unwrap() + b.unwrap() + c.unwrap() =~= a.unwrap() + (b.unwrap() + c.unwrap()));
    }
}

proof fn lemma_join_empty<A>(a: Option<Seq<A>>)
    ensures
        join(a, Some(Seq::<A>::empty())) == a,
        join(Some(Seq::<A>::empty()), a) == a,
{
    if a is Some {
        assert(a.unwrap() + Seq::<A>::empty() =~= a.unwrap());
        assert(Seq::<A>::empty() + a.unwrap() =~= a.unwrap());
    }
}

pub open spec fn functions_valid(fs: Seq<FunctionEntry>) -> bool {
    forall|i: int| 0 <= i < fs.len() ==> selector_of((#[trigger] fs[i]).name@, strings_view(fs[i].inputs@))
        == Some(fs[i].selector@) && safe_kinds(strings_view(fs[i].inputs@))
}

pub open spec fn events_valid(es: Seq<EventEntry>) -> bool {
    forall|i: int| 0 <= i < es.len() ==> signature_of((#[trigger] es[i]).name@, event_kinds(es[i].def@))
        == Some(es[i].signature@) && safe_kinds(event_kinds(es[i].def@))
}

/// The entries for the definitions under one function name, in order.
fn function_group_entries(name: &String, defs: Vec<Vec<String>>) -> (r: Option<Vec<FunctionEntry>>)
    requires
        forall|j: int| 0 <= j < defs@.len() ==> safe_kinds(strings_view(#[trigger] defs@[j]@)),
    ensures
        match function_defs_entries(name@, defs_view(defs@)) {
            Some(v) => r matches Some(es) && es@.map_values(|f: FunctionEntry| f@) == v
                && functions_valid(es@),
            None => r is None,
        },
{
    let ghost dv = defs_view(defs@);
    let mut rest = defs;
    let mut out: Vec<FunctionEntry> = Vec::new();
    proof {
        assert(dv.take(rest@.len() as int) =~= dv);
        assert(out@.map_values(|f: FunctionEntry| f@) =~= Seq::<FunctionEntryView>::empty());
        lemma_join_empty(function_defs_entries(name@, dv));
    }
    while rest.len() > 0
        invariant
            rest@.len() <= dv.len(),
            dv == defs_view(defs@),
            defs_view(rest@) == dv.take(rest@.len() as int),
            forall|j: int| 0 <= j < rest@.len() ==> safe_kinds(strings_view(#[trigger] rest@[j]@)),
            function_defs_entries(name@, dv) == join(
                function_defs_entries(name@, dv.take(rest@.len() as int)),
                Some(out@.map_values(|f: FunctionEntry| f@)),
            ),
            functions_valid(out@),
        decreases rest.len(),
    {
        let ghost k = rest@.len() as int;
        let ghost before = out@.map_values(|f: FunctionEntry| f@);
        let ghost old_defs = rest@;
        let inputs = rest.pop().unwrap();
        proof {
            assert(dv.take(k).drop_last() =~= dv.take(k - 1));
            assert(defs_view(rest@) =~= dv.take(k - 1));
            assert(dv.take(k).last() == strings_view(inputs@));
            assert(safe_kinds(strings_view(old_defs[k - 1]@)));
        }
        match function_selector(name, &inputs) {
            Some(selector) => {
                let e = FunctionEntry { name: name.clone(), inputs, selector };
                let ghost ev = e@;
                let ghost old_out = out@;
                out.insert(0, e);
                proof {
                    lemma_join_assoc(function_defs_entries(name@, dv.take(k - 1)), Some(seq![ev]), Some(before));
                    assert(out@.map_values(|f: FunctionEntry| f@) =~= seq![ev] + before);
                    assert forall|i: int| 0 <= i < out@.len() implies selector_of((#[trigger] out@[i]).name@, strings_view(out@[i].inputs@))
                        == Some(out@[i].selector@) && safe_kinds(strings_view(out@[i].inputs@)) by {
                        if i > 0 {
                            assert(out@[i] == old_out[i - 1]);
                        }
                    }
                }
            },
            None => {
                proof {
                    assert(selector_of(name@, dv.take(k).last()) is None);
                    assert(function_defs_entries(name@, dv.take(k)) is None);
                    assert(function_defs_entries(name@, dv) is None);
                }
                return None;
            },
        }
    }
    proof {
        assert(dv.take(0) =~= Seq::<Seq<Seq<char>>>::empty());
        lemma_join_empty(Some(out@.map_values(|f: FunctionEntry| f@)));
    }
    Some(out)
}

/// The entries for the definitions under one event name, in order.
fn event_group_entries(name: &String, defs: Vec<EventDef>) -> (r: Option<Vec<EventEntry>>)
    requires
        forall|j: int| 0 <= j < defs@.len() ==> safe_kinds(event_kinds(#[trigger] defs@[j]@)),
    ensures
        match event_defs_entries(name@, event_defs_view(defs@)) {
            Some(v) => r matches Some(es) && es@.map_values(|e: EventEntry| e@) == v
                && events_valid(es@),
            None => r is None,
        },
{
    let ghost dv = event_defs_view(defs@);
    let mut rest = defs;
    let mut out: Vec<EventEntry> = Vec::new();
    proof {
        assert(dv.take(rest@.len() as int) =~= dv);
        assert(out@.map_values(|e: EventEntry| e@) =~= Seq::<EventEntryView>::empty());
        lemma_join_empty(event_defs_entries(name@, dv));
    }
    while rest.len() > 0
        invariant
            rest@.len() <= dv.len(),
            dv == event_defs_view(defs@),
            event_defs_view(rest@) == dv.take(rest@.len() as int),
            forall|j: int| 0 <= j < rest@.len() ==> safe_kinds(event_kinds(#[trigger] rest@[j]@)),
            event_defs_entries(name@, dv) == join(
                event_defs_entries(name@, dv.take(rest@.len() as int)),
                Some(out@.map_values(|e: EventEntry| e@)),
            ),
            events_valid(out@),
        decreases rest.len(),
    {
        let ghost k = rest@.len() as int;
        let ghost before = out@.map_values(|e: EventEntry| e@);
        let ghost old_defs = rest@;
        let def = rest.pop().unwrap();
        proof {
            assert(dv.take(k).drop_last() =~= dv.take(k - 1));
            assert(event_defs_view(rest@) =~= dv.take(k - 1));
            assert(dv.take(k).last() == def@);
            assert(safe_kinds(event_kinds(old_defs[k - 1]@)));
        }
        match event_signature(name, &def) {
            Some(signature) => {
                let e = EventEntry { name: name.clone(), def, signature };
                let ghost ev = e@;
                let ghost old_out = out@;
                out.insert(0, e);
                proof {
                    lemma_join_assoc(event_defs_entries(name@, dv.take(k - 1)), Some(seq![ev]), Some(before));
                    assert(out@.map_values(|e: EventEntry| e@) =~= seq![ev] + before);
                    assert forall|i: int| 0 <= i < out@.len() implies signature_of((#[trigger] out@[i]).name@, event_kinds(out@[i].def@))
                        == Some(out@[i].signature@) && safe_kinds(event_kinds(out@[i].def@)) by {
                        if i > 0 {
                            assert(out@[i] == old_out[i - 1]);
                        }
                    }
                }
            },
            None => {
                proof {
                    assert(signature_of(name@, event_kinds(dv.take(k).last())) is None);
                    assert(event_defs_entries(name@, dv.take(k)) is None);
                    assert(event_defs_entries(name@, dv) is None);
                }
                return None;
            },
        }
    }
    proof {
        assert(dv.take(0) =~= Seq::<EventDefView>::empty());
        lemma_join_empty(Some(out@.map_values(|e: EventEntry| e@)));
    }
    Some(out)
}

/// What reading a document gives: its entries, or the error.
pub open spec fn load_outcome(doc: Seq<char>) -> Result<(Seq<FunctionEntryView>, Seq<EventEntryView>), AbiLoadError> {
    if !safe_document(doc) {
        Err(AbiLoadError::Malformed)
    } else {
        match abi_document(doc) {
            None => Err(AbiLoadError::Malformed),
            Some(d) => match (function_entries(d.0), event_entries(d.1)) {
                (Some(fs), Some(es)) => Ok((fs, es)),
                _ => Err(AbiLoadError::BadKind),
            },
        }
    }
}

pub open spec fn interface_view(i: ContractInterface) -> (Seq<FunctionEntryView>, Seq<EventEntryView>) {
    (i.functions@.map_values(|f: FunctionEntry| f@), i.events@.map_values(|e: EventEntry| e@))
}

impl ContractInterface {
    /// Each entry's selector or signature hash is the one its definition gives, and its
    /// kinds are safe for ethabi's type reader.
    pub open spec fn wf(&self) -> bool {
        functions_valid(self.functions@) && events_valid(self.events@)
    }

    /// Reads an ABI document, keeping every definition. A document that is not safe for
    /// ethabi's type reader is refused as malformed.
    pub fn load(doc: &str) -> (r: Result<ContractInterface, AbiLoadError>)
        ensures
            match load_outcome(doc@) {
                Ok(v) => r matches Ok(i) && i.wf() && interface_view(i) == v,
                Err(e) => r == Err::<ContractInterface, AbiLoadError>(e),
            },
            !safe_document(doc@) ==> r == Err::<ContractInterface, AbiLoadError>(AbiLoadError::Malformed),
            safe_document(doc@) ==> match abi_document(doc@) {
                None => r == Err::<ContractInterface, AbiLoadError>(AbiLoadError::Malformed),
                Some(d) => match (function_entries(d.0), event_entries(d.1)) {
                    (Some(fs), Some(es)) => r matches Ok(i) && i.wf() && i.functions@.map_values(
                        |f: FunctionEntry| f@,
                    ) == fs && i.events@.map_values(|e: EventEntry| e@) == es,
                    _ => r == Err::<ContractInterface, AbiLoadError>(AbiLoadError::BadKind),
                },
            },
    {
        if !is_safe_document(doc) {
            return Err(AbiLoadError::Malformed);
        }
        let (fgroups, egroups) = match load_document(doc) {
            Some(p) => p,
            None => {
                return Err(AbiLoadError::Malformed);
            },
        };
        let ghost fg = function_groups_view(fgroups@);
        let ghost eg = event_groups_view(egroups@);
        let ghost fg0 = fgroups@;
        let ghost eg0 = egroups@;
        let mut fgroups = fgroups;
        let mut egroups = egroups;
        let mut functions: Vec<FunctionEntry> = Vec::new();
        proof {
            assert(fg.take(fgroups@.len() as int) =~= fg);
            assert(functions@.map_values(|f: FunctionEntry| f@) =~= Seq::<FunctionEntryView>::empty());
            lemma_join_empty(function_entries(fg));
        }
        while fgroups.len() > 0
            invariant
                fgroups@.len() <= fg.len(),
                safe_document(doc@),
                abi_document(doc@) == Some((fg, eg)),
                fgroups@ == fg0.take(fgroups@.len() as int),
                fg == function_groups_view(fg0),
                forall|i: int, j: int| 0 <= i < fg0.len() && 0 <= j < fg0[i].1@.len()
                    ==> safe_kinds(strings_view(#[trigger] fg0[i].1@[j]@)),
                function_entries(fg) == join(
                    function_entries(fg.take(fgroups@.len() as int)),
                    Some(functions@.map_values(|f: FunctionEntry| f@)),
                ),
                functions_valid(functions@),
            decreases fgroups.len(),
        {
            let ghost k = fgroups@.len() as int;
            let ghost before = functions@.map_values(|f: FunctionEntry| f@);
            let (name, defs) = fgroups.pop().unwrap();
            proof {
                assert(fg.take(k).drop_last() =~= fg.take(k - 1));
                assert(fg.take(k).last() == (name@, defs_view(defs@)));
                assert(fg0[k - 1] == (name, defs));
                assert forall|j: int| 0 <= j < defs@.len() implies safe_kinds(strings_view(#[trigger] defs@[j]@)) by {
                    assert(fg0[k - 1].1@[j] == defs@[j]);
                }
                lemma_join_assoc(function_entries(fg.take(k - 1)), function_defs_entries(name@, defs_view(defs@)), Some(before));
            }
            match function_group_entries(&name, defs) {
                Some(group) => {
                    let mut group = group;
                    let ghost gv = group@;
                    let ghost old_functions = functions@;
                    group.append(&mut functions);
                    functions = group;
                    proof {
                        assert(functions@.map_values(|f: FunctionEntry| f@) =~= gv.map_values(|f: FunctionEntry| f@) + before);
                        assert forall|i: int| 0 <= i < functions@.len() implies selector_of((#[trigger] functions@[i]).name@, strings_view(functions@[i].inputs@))
                            == Some(functions@[i].selector@) && safe_kinds(strings_view(functions@[i].inputs@)) by {
                            if i < gv.len() {
                                assert(functions@[i] == gv[i]);
                            } else {
                                assert(functions@[i] == old_functions[i - gv.len()]);
                            }
                        }
                    }
                },
                None => {
                    proof {
                        assert(function_entries(fg.take(k)) is None);
                    }
                    return Err(AbiLoadError::BadKind);
                },
            }
        }
        let mut events: Vec<EventEntry> = Vec::new();
        proof {
            assert(fg.take(0) =~= Seq::<(Seq<char>, Seq<Seq<Seq<char>>>)>::empty());
            lemma_join_empty(Some(functions@.map_values(|f: FunctionEntry| f@)));
            assert(eg.take(egroups@.len() as int) =~= eg);
            assert(events@.map_values(|e: EventEntry| e@) =~= Seq::<EventEntryView>::empty());
            lemma_join_empty(event_entries(eg));
        }
        while egroups.len() > 0
            invariant
                egroups@.len() <= eg.len(),
                safe_document(doc@),
                abi_document(doc@) == Some((fg, eg)),
                function_entries(fg) == Some(functions@.map_values(|f: FunctionEntry| f@)),
                functions_valid(functions@),
                egroups@ == eg0.take(egroups@.len() as int),
                eg == event_groups_view(eg0),
                forall|i: int, j: int| 0 <= i < eg0.len() && 0 <= j < eg0[i].1@.len()
                    ==> safe_kinds(event_kinds(#[trigger] eg0[i].1@[j]@)),
                event_entries(eg) == join(
                    event_entries(eg.take(egroups@.len() as int)),
                    Some(events@.map_values(|e: EventEntry| e@)),
                ),
                events_valid(events@),
            decreases egroups.len(),
        {
            let ghost k = egroups@.len() as int;
            let ghost before = events@.map_values(|e: EventEntry| e@);
            let (name, defs) = egroups.pop().unwrap();
            proof {
                assert(eg.take(k).drop_last() =~= eg.take(k - 1));
                assert(eg.take(k).last() == (name@, event_defs_view(defs@)));
                assert(eg0[k - 1] == (name, defs));
                assert forall|j: int| 0 <= j < defs@.len() implies safe_kinds(event_kinds(#[trigger] defs@[j]@)) by {
                    assert(eg0[k - 1].1@[j] == defs@[j]);
                }
                lemma_join_assoc(event_entries(eg.take(k - 1)), event_defs_entries(name@, event_defs_view(defs@)), Some(before));
            }
            match event_group_entries(&name, defs) {
                Some(group) => {
                    let mut group = group;
                    let ghost gv = group@;
                    let ghost old_events = events@;
                    group.append(&mut events);
                    events = group;
                    proof {
                        assert(events@.map_values(|e: EventEntry| e@) =~= gv.map_values(|e: EventEntry| e@) + before);
                        assert forall|i: int| 0 <= i < events@.len() implies signature_of((#[trigger] events@[i]).name@, event_kinds(events@[i].def@))
                            == Some(events@[i].signature@) && safe_kinds(event_kinds(events@[i].def@)) by {
                            if i < gv.len() {
                                assert(events@[i] == gv[i]);
                            } else {
                                assert(events@[i] == old_events[i - gv.len()]);
                            }
                        }
                    }
                },
                None => {
                    proof {
                        assert(event_entries(eg.take(k)) is None);
                    }
                    return Err(AbiLoadError::BadKind);
                },
            }
        }
        proof {
            assert(eg.take(0) =~= Seq::<(Seq<char>, Seq<EventDefView>)>::empty());
            lemma_join_empty(Some(events@.map_values(|e: EventEntry| e@)));
        }
        Ok(ContractInterface { functions, events })
    }
}

/// The name of the first function whose selector is `sel`, or empty text when none has it.
pub open spec fn resolved_name(fs: Seq<FunctionEntry>, sel: Seq<u8>) -> Seq<char>
    decreases fs.len(),
{
    if fs.len() == 0 {
        Seq::empty()
    } else if fs[0].selector@ == sel {
        fs[0].name@
    } else {
        resolved_name(fs.skip(1), sel)
    }
}

/// Whether two selectors are equal.
fn same_selector(a: &[u8; 4], b: &[u8; 4]) -> (r: bool)
    ensures
        r == (a@ == b@),
{
    let r = a[0] == b[0] && a[1] == b[1] && a[2] == b[2] && a[3] == b[3];
    proof {
        if r {
            assert(a@ =~= b@);
        }
    }
    r
}

/// The name of the function that call data invokes: the first of `interface` whose selector
/// equals the data's first four bytes, or empty text when none does. `None` when the data is
/// not hex after its first two characters or holds fewer than four bytes.
pub fn decode_input_to_get_method_name(interface: &ContractInterface, input: String) -> (r: Option<
    String,
>)
    ensures
        match hex_decoded(strip_0x(input@)) {
            Some(b) if b.len() >= 4 => r matches Some(name) && name@ == resolved_name(
                interface.functions@,
                b.take(4),
            ),
            _ => r is None,
        },
{
    let bytes = match decode_hex_optional_prefix(input.as_str()) {
        Some(b) => b,
        None => {
            return None;
        },
    };
    if bytes.len() < 4 {
        return None;
    }
    let sel: [u8; 4] = [bytes[0], bytes[1], bytes[2], bytes[3]];
    proof {
        assert(sel@ =~= bytes@.take(4));
    }
    let mut i: usize = 0;
    proof {
        assert(interface.functions@.skip(0) =~= interface.functions@);
    }
    while i < interface.functions.len()
        invariant
            i <= interface.functions@.len(),
            hex_decoded(strip_0x(input@)) == Some(bytes@),
            sel@ == bytes@.take(4),
            bytes@.len() >= 4,
            resolved_name(interface.functions@, sel@) == resolved_name(interface.functions@.skip(i as int), sel@),
        decreases interface.functions@.len() - i,
    {
        if same_selector(&interface.functions[i].selector, &sel) {
            let name = interface.functions[i].name.clone();
            proof {
                assert(interface.functions@.skip(i as int)[0] == interface.functions@[i as int]);
            }
            return Some(name);
        }
        proof {
            assert(interface.functions@.skip(i as int).skip(1) =~= interface.functions@.skip(i + 1));
        }
        i = i + 1;
    }
    Some(String::new())
}

/// Call data that starts with the selector of the function at `i` resolves to that
/// function's name when no earlier function has the same selector.
pub proof fn lemma_resolves_to_matching_function(fs: Seq<FunctionEntry>, sel: Seq<u8>, i: int)
    requires
        0 <= i < fs.len(),
        fs[i].selector@ == sel,
        forall|k: int| 0 <= k < i ==> (#[trigger] fs[k]).selector@ != sel,
    ensures
        resolved_name(fs, sel) == fs[i].name@,
    decreases i,
{
    if i > 0 {
        assert forall|k: int| 0 <= k < i - 1 implies (#[trigger] fs.skip(1)[k]).selector@ != sel by {
            assert(fs.skip(1)[k] == fs[k + 1]);
        }
        lemma_resolves_to_matching_function(fs.skip(1), sel, i - 1);
    }
}

/// Call data whose selector no function has resolves to empty text.
pub proof fn lemma_unknown_selector_resolves_empty(fs: Seq<FunctionEntry>, sel: Seq<u8>)
    requires
        forall|k: int| 0 <= k < fs.len() ==> (#[trigger] fs[k]).selector@ != sel,
    ensures
        resolved_name(fs, sel) == Seq::<char>::empty(),
    decreases fs.len(),
{
    if fs.len() > 0 {
        assert forall|k: int| 0 <= k < fs.len() - 1 implies (#[trigger] fs.skip(1)[k]).selector@ != sel by {
            assert(fs.skip(1)[k] == fs[k + 1]);
        }
        lemma_unknown_selector_resolves_empty(fs.skip(1), sel);
    }
}

} // verus!

use vstd::prelude::*;

use crate::ValidationError;
use crate::parse::{KeyValue, has_eq, key_of, value_of, url_parse_ok, parse_key_value, parse_url};

verus! {

/// The four HTTP verbs this client can issue.
#[derive(Clone, Copy, Debug, PartialEq, Eq, Structural)]
pub enum Method {
    Get,
    Post,
    Put,
    Delete,
}

/// The validated, typed representation of one command-line request:
/// a verb, a syntactically valid absolute URL, and (for the verbs that
/// carry a body) the key/value pairs in command-line order.
#[derive(Debug)]
pub enum Request {
    Get { url: String },
    Post { url: String, body: Vec<KeyValue> },
    Put { url: String, body: Vec<KeyValue> },
    Delete { url: String },
}

impl Request {
    /// The verb of this request.
    pub open spec fn req_method(self) -> Method {
        match self {
            Request::Get { .. } => Method::Get,
            Request::Post { .. } => Method::Post,
            Request::Put { .. } => Method::Put,
            Request::Delete { .. } => Method::Delete,
        }
    }

    /// The target URL of this request.
    pub open spec fn req_url(self) -> Seq<char> {
        match self {
            Request::Get { url } => url@,
            Request::Post { url, .. } => url@,
            Request::Put { url, .. } => url@,
            Request::Delete { url } => url@,
        }
    }

    /// The body pairs of this request, empty for the body-less verbs.
    pub open spec fn req_body(self) -> Seq<KeyValue> {
        match self {
            Request::Get { .. } => Seq::empty(),
            Request::Post { body, .. } => body@,
            Request::Put { body, .. } => body@,
            Request::Delete { .. } => Seq::empty(),
        }
    }

    /// A request is well formed when its URL passed validation and each
    /// body pair came out of a first-`=` split.
    pub open spec fn wf(self) -> bool {
        &&& url_parse_ok(self.req_url())
        &&& forall|i: int| 0 <= i < self.req_body().len() ==> self.req_body()[i].wf()
    }

    /// Read the verb.
    pub fn method(&self) -> (m: Method)
        ensures
            m == self.req_method(),
    {
        match self {
            Request::Get { .. } => Method::Get,
            Request::Post { .. } => Method::Post,
            Request::Put { .. } => Method::Put,
            Request::Delete { .. } => Method::Delete,
        }
    }

    /// Read the target URL.
    pub fn url(&self) -> (u: &String)
        ensures
            u@ == self.req_url(),
    {
        match self {
            Request::Get { url } => url,
            Request::Post { url, .. } => url,
            Request::Put { url, .. } => url,
            Request::Delete { url } => url,
        }
    }

    /// Build a GET request from a raw URL argument.
    pub fn get(url: &str) -> (r: Result<Request, ValidationError>)
        ensures
            r is Ok <==> url_parse_ok(url@),
            r matches Ok(req) ==> req matches Request::Get { url: u } && u@ == url@ && req.wf(),
            r matches Err(e) ==> e matches ValidationError::MalformedUrl(orig) && orig@ == url@,
    {
        let u = parse_url(url)?;
        Ok(Request::Get { url: u })
    }

    /// Build a DELETE request from a raw URL argument.
    pub fn delete(url: &str) -> (r: Result<Request, ValidationError>)
        ensures
            r is Ok <==> url_parse_ok(url@),
            r matches Ok(req) ==> req matches Request::Delete { url: u } && u@ == url@ && req.wf(),
            r matches Err(e) ==> e matches ValidationError::MalformedUrl(orig) && orig@ == url@,
    {
        let u = parse_url(url)?;
        Ok(Request::Delete { url: u })
    }

    /// Build a POST request from a raw URL argument and raw `key=value`
    /// arguments, validating each and failing on the first bad one.
    pub fn post(url: &str, body: &Vec<String>) -> (r: Result<Request, ValidationError>)
        ensures
            r is Ok <==> url_parse_ok(url@) && (forall|i: int|
                0 <= i < body@.len() ==> has_eq(body@[i]@)),
            r matches Ok(req) ==> req matches Request::Post { url: u, body: kvs }
                && u@ == url@
                && parsed_pairs(kvs@, body@)
                && req.wf(),
            r matches Err(e) ==> first_arg_error(e, url@, body@),
    {
        let u = parse_url(url)?;
        let kvs = parse_pairs(body)?;
        Ok(Request::Post { url: u, body: kvs })
    }

    /// Build a PUT request from a raw URL argument and raw `key=value`
    /// arguments, validating each and failing on the first bad one.
    pub fn put(url: &str, body: &Vec<String>) -> (r: Result<Request, ValidationError>)
        ensures
            r is Ok <==> url_parse_ok(url@) && (forall|i: int|
                0 <= i < body@.len() ==> has_eq(body@[i]@)),
            r matches Ok(req) ==> req matches Request::Put { url: u, body: kvs }
                && u@ == url@
                && parsed_pairs(kvs@, body@)
                && req.wf(),
            r matches Err(e) ==> first_arg_error(e, url@, body@),
    {
        let u = parse_url(url)?;
        let kvs = parse_pairs(body)?;
        Ok(Request::Put { url: u, body: kvs })
    }
}

/// `kvs` is exactly the pairwise first-`=` decomposition of the raw
/// arguments `raw`.
pub open spec fn parsed_pairs(kvs: Seq<KeyValue>, raw: Seq<String>) -> bool {
    &&& kvs.len() == raw.len()
    &&& forall|i: int| 0 <= i < raw.len() ==> (#[trigger] kvs[i]).key@ == key_of(raw[i]@)
        && kvs[i].value@ == value_of(raw[i]@)
}

/// The error a constructor reports: a bad URL is reported first; with a
/// valid URL, the first raw pair without `=` is reported.
pub open spec fn first_arg_error(e: ValidationError, url: Seq<char>, raw: Seq<String>) -> bool {
    ||| (!url_parse_ok(url) && (e matches ValidationError::MalformedUrl(orig) && orig@ == url))
    ||| (url_parse_ok(url) && exists|i: int|
        0 <= i < raw.len() && !has_eq(#[trigger] raw[i]@)
            && (forall|j: int| 0 <= j < i ==> has_eq(#[trigger] raw[j]@))
            && (e matches ValidationError::MalformedKeyValue(orig) && orig@ == raw[i]@))
}

/// Decompose each raw `key=value` argument, in order, failing on the
/// first argument that holds no `=`.
fn parse_pairs(raw: &Vec<String>) -> (r: Result<Vec<KeyValue>, ValidationError>)
    ensures
        r is Ok <==> forall|i: int| 0 <= i < raw@.len() ==> has_eq(raw@[i]@),
        r matches Ok(kvs) ==> parsed_pairs(kvs@, raw@)
            && forall|i: int| 0 <= i < kvs@.len() ==> (#[trigger] kvs@[i]).wf(),
        r matches Err(e) ==> exists|i: int|
            0 <= i < raw@.len() && !has_eq(#[trigger] raw@[i]@)
                && (forall|j: int| 0 <= j < i ==> has_eq(#[trigger] raw@[j]@))
                && (e matches ValidationError::MalformedKeyValue(orig) && orig@ == raw@[i]@),
{
    let mut kvs: Vec<KeyValue> = Vec::new();
    let mut i: usize = 0;
    while i < raw.len()
        invariant
            i <= raw@.len(),
            kvs@.len() == i,
            forall|j: int| 0 <= j < i ==> has_eq(#[trigger] raw@[j]@),
            forall|j: int| 0 <= j < i ==> (#[trigger] kvs@[j]).key@ == key_of(raw@[j]@)
                && kvs@[j].value@ == value_of(raw@[j]@) && kvs@[j].wf(),
        decreases raw@.len() - i,
    {
        match parse_key_value(raw[i].as_str()) {
            Ok(kv) => kvs.push(kv),
            Err(e) => {
                return Err(e);
            },
        }
        i += 1;
    }
    Ok(kvs)
}

/// No two pairs share a key.
pub open spec fn distinct_keys(kvs: Seq<KeyValue>) -> bool {
    forall|i: int, j: int| 0 <= i < j < kvs.len() ==> kvs[i].key@ != kvs[j].key@
}

/// The form mapping that a sequence of pairs submits: each pair is put
/// in left to right, so on a duplicate key the last occurrence wins.
pub open spec fn form_map(kvs: Seq<KeyValue>) -> Map<Seq<char>, Seq<char>>
    decreases kvs.len(),
{
    if kvs.len() == 0 {
        Map::empty()
    } else {
        form_map(kvs.drop_last()).insert(kvs.last().key@, kvs.last().value@)
    }
}

/// A key is in the form mapping exactly when some pair carries it.
pub proof fn lemma_form_map_dom(kvs: Seq<KeyValue>, k: Seq<char>)
    ensures
        form_map(kvs).contains_key(k) <==> exists|i: int| 0 <= i < kvs.len()
            && (#[trigger] kvs[i]).key@ == k,
    decreases kvs.len(),
{
    if kvs.len() > 0 {
        lemma_form_map_dom(kvs.drop_last(), k);
        if form_map(kvs).contains_key(k) && kvs.last().key@ != k {
            let i = choose|i: int| 0 <= i < kvs.drop_last().len()
                && (#[trigger] kvs.drop_last()[i]).key@ == k;
            assert(kvs[i].key@ == k);
        }
        if exists|i: int| 0 <= i < kvs.len() && (#[trigger] kvs[i]).key@ == k {
            let i = choose|i: int| 0 <= i < kvs.len() && (#[trigger] kvs[i]).key@ == k;
            if i < kvs.len() - 1 {
                assert(kvs.drop_last()[i].key@ == k);
            }
        }
    }
}

/// Last write wins: the form mapping sends the key of a pair whose key
/// never recurs afterwards to exactly that pair's value.
pub proof fn lemma_last_write_wins(kvs: Seq<KeyValue>, i: int)
    requires
        0 <= i < kvs.len(),
        forall|j: int| i < j < kvs.len() ==> (#[trigger] kvs[j]).key@ != kvs[i].key@,
    ensures
        form_map(kvs).contains_key(kvs[i].key@),
        form_map(kvs)[kvs[i].key@] == kvs[i].value@,
    decreases kvs.len(),
{
    if i == kvs.len() - 1 {
    } else {
        assert(kvs.drop_last()[i] == kvs[i]);
        lemma_last_write_wins(kvs.drop_last(), i);
        assert(kvs.last().key@ != kvs[i].key@);
    }
}

/// Replacing the value under a key that occurs once is, at the level of
/// the form mapping, an insert under that key.
proof fn lemma_form_map_update(kvs: Seq<KeyValue>, j: int, kv: KeyValue)
    requires
        distinct_keys(kvs),
        0 <= j < kvs.len(),
        kv.key@ == kvs[j].key@,
    ensures
        form_map(kvs.update(j, kv)) == form_map(kvs).insert(kv.key@, kv.value@),
    decreases kvs.len(),
{
    let upd = kvs.update(j, kv);
    if j == kvs.len() - 1 {
        assert(upd.drop_last() =~= kvs.drop_last());
        assert(form_map(upd) =~= form_map(kvs).insert(kv.key@, kv.value@));
    } else {
        assert(upd.drop_last() =~= kvs.drop_last().update(j, kv));
        lemma_form_map_update(kvs.drop_last(), j, kv);
        assert(kvs.last().key@ != kv.key@);
        assert(upd.last() == kvs.last());
        assert(form_map(upd) =~= form_map(kvs).insert(kv.key@, kv.value@));
    }
}

/// Collapse a pair sequence into one entry per key, the way the form
/// submission does: on a duplicate key the last value wins. The entries
/// come out keyed uniquely and carry exactly the form mapping of the
/// input; their order is left unspecified.
pub fn collapse_pairs(pairs: &Vec<KeyValue>) -> (out: Vec<KeyValue>)
    ensures
        distinct_keys(out@),
        form_map(out@) == form_map(pairs@),
{
    let mut out: Vec<KeyValue> = Vec::new();
    let mut i: usize = 0;
    while i < pairs.len()
        invariant
            i <= pairs@.len(),
            distinct_keys(out@),
            form_map(out@) == form_map(pairs@.subrange(0, i as int)),
        decreases pairs@.len() - i,
    {
        let kv = KeyValue {
            key: pairs[i].key.clone(),
            value: pairs[i].value.clone(),
        };
        let mut j: usize = 0;
        let mut found = false;
        while j < out.len() && !found
            invariant
                j <= out@.len(),
                found ==> j < out@.len() && out@[j as int].key@ == kv.key@,
                !found ==> forall|m: int| 0 <= m < j ==> (#[trigger] out@[m]).key@ != kv.key@,
            decreases out@.len() - j + (if found { 0int } else { 1int }),
        {
            if out[j].key == kv.key {
                found = true;
            } else {
                j += 1;
            }
        }
        proof {
            assert(pairs@.subrange(0, i + 1).drop_last() =~= pairs@.subrange(0, i as int));
            assert(pairs@.subrange(0, i + 1).last() == pairs@[i as int]);
            assert(form_map(pairs@.subrange(0, i + 1)) == form_map(pairs@.subrange(0, i as int))
                .insert(pairs@[i as int].key@, pairs@[i as int].value@));
        }
        if found {
            let ghost prev = out@;
            proof {
                lemma_form_map_update(prev, j as int, kv);
            }
            out[j] = kv;
            proof {
                assert(out@ == prev.update(j as int, kv));
                assert(form_map(out@) == form_map(prev).insert(kv.key@, kv.value@));
                assert forall|a: int, b: int| 0 <= a < b < out@.len()
                    implies (#[trigger] out@[a]).key@ != (#[trigger] out@[b]).key@ by {
                    assert(out@[a].key@ == prev[a].key@);
                    assert(out@[b].key@ == prev[b].key@);
                }
            }
        } else {
            let ghost prev = out@;
            out.push(kv);
            proof {
                assert(out@.drop_last() =~= prev);
                assert(form_map(out@) == form_map(prev).insert(kv.key@, kv.value@));
            }
        }
        i += 1;
    }
    proof {
        assert(pairs@.subrange(0, pairs@.len() as int) =~= pairs@);
    }
    out
}

/// The views of a pair sequence, as plain character sequences.
pub open spec fn pair_views(kvs: Seq<KeyValue>) -> Seq<(Seq<char>, Seq<char>)> {
    kvs.map_values(|kv: KeyValue| (kv.key@, kv.value@))
}

/// The `application/x-www-form-urlencoded` rendering that
/// `serde_urlencoded::to_string` gives a sequence of string pairs. The
/// rendering depends on the pairs alone.
pub uninterp spec fn form_encoded(pairs: Seq<(Seq<char>, Seq<char>)>) -> Seq<char>;

/// Relies on serde_urlencoded::to_string: it form-urlencodes a sequence
/// of string pairs in order, deterministically, and does not fail on
/// such input (only unsupported shapes of data are refused).
#[verifier::external_body]
fn encode_form(pairs: &Vec<(String, String)>) -> (r: String)
    ensures
        r@ == form_encoded(pairs@.map_values(|p: (String, String)| (p.0@, p.1@))),
{
    serde_urlencoded::to_string(pairs).unwrap_or_default()
}

/// One planned HTTP exchange: everything the transport needs, already
/// validated and encoded. The headers carry the fixed client marker and
/// user agent, plus the form content type when a body is present.
pub struct RequestPlan {
    pub method: Method,
    pub url: String,
    pub headers: Vec<(String, String)>,
    pub body: Option<String>,
}

impl RequestPlan {
    /// The planned body is the form encoding of some uniquely-keyed pair
    /// sequence that carries exactly the form mapping of `kvs`: duplicate
    /// keys have collapsed, last write winning, before encoding.
    pub open spec fn body_encodes(self, kvs: Seq<KeyValue>) -> bool {
        self.body matches Some(enc) && exists|collapsed: Seq<KeyValue>|
            distinct_keys(collapsed)
                && #[trigger] form_map(collapsed) == form_map(kvs)
                && enc@ == form_encoded(pair_views(collapsed))
    }
}

/// Map a validated request onto the wire-level plan the transport is
/// handed: the verb and URL unchanged, the two fixed identification
/// headers on every request, and, for the verbs that carry a body, the
/// form-encoded collapsed pairs with the matching content type.
pub fn plan_request(req: &Request) -> (plan: RequestPlan)
    ensures
        plan.method == req.req_method(),
        plan.url@ == req.req_url(),
        plan.body is Some <==> (req is Post || req is Put),
        plan.body is Some ==> plan.headers@.len() == 3
            && plan.headers@[2].0@ == "content-type"@
            && plan.headers@[2].1@ == "application/x-www-form-urlencoded"@,
        plan.body is None ==> plan.headers@.len() == 2,
        plan.headers@[0].0@ == "x-power-by"@ && plan.headers@[0].1@ == "Rust"@,
        plan.headers@[1].0@ == "user-agent"@ && plan.headers@[1].1@ == "Rust Httpie"@,
        (req is Post || req is Put) ==> plan.body_encodes(req.req_body()),
{
    let method = req.method();
    let url = req.url().clone();
    let mut headers: Vec<(String, String)> = Vec::new();
    headers.push((String::from_str("x-power-by"), String::from_str("Rust")));
    headers.push((String::from_str("user-agent"), String::from_str("Rust Httpie")));
    let body = match req {
        Request::Post { body, .. } => Some(encode_collapsed(body)),
        Request::Put { body, .. } => Some(encode_collapsed(body)),
        _ => None,
    };
    if body.is_some() {
        headers.push((
            String::from_str("content-type"),
            String::from_str("application/x-www-form-urlencoded"),
        ));
    }
    RequestPlan { method, url, headers, body }
}

/// Collapse the pairs to one entry per key and form-urlencode them.
fn encode_collapsed(kvs: &Vec<KeyValue>) -> (enc: String)
    ensures
        exists|collapsed: Seq<KeyValue>| distinct_keys(collapsed)
            && #[trigger] form_map(collapsed) == form_map(kvs@)
            && enc@ == form_encoded(pair_views(collapsed)),
{
    let collapsed = collapse_pairs(kvs);
    let mut pairs: Vec<(String, String)> = Vec::new();
    let mut i: usize = 0;
    while i < collapsed.len()
        invariant
            i <= collapsed@.len(),
            pairs@.len() == i,
            forall|j: int| 0 <= j < i ==> (#[trigger] pairs@[j]).0@ == collapsed@[j].key@
                && pairs@[j].1@ == collapsed@[j].value@,
        decreases collapsed@.len() - i,
    {
        pairs.push((collapsed[i].key.clone(), collapsed[i].value.clone()));
        i += 1;
    }
    proof {
        assert(pairs@.map_values(|p: (String, String)| (p.0@, p.1@))
            =~= pair_views(collapsed@));
    }
    encode_form(&pairs)
}

} // verus!

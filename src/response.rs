use vstd::prelude::*;
use vstd::string::{StringExecFns, StrSliceExecFns};
use crate::sql::{append_decimal, decimal};

verus! {

/// Whether only trusted (pre-registered) documents may be run.
#[derive(Debug, Clone, Copy, PartialEq, Eq, Structural)]
pub enum TrustedDocumentEnforcement {
    Enforce,
    DoNotEnforce,
}

/// Requests from the playground may run any document, except in production.
pub fn document_enforcement(playground_request: bool, is_production: bool) -> (r: TrustedDocumentEnforcement)
    ensures
        r == (if playground_request && !is_production {
            TrustedDocumentEnforcement::DoNotEnforce
        } else {
            TrustedDocumentEnforcement::Enforce
        }),
{
    if playground_request && !is_production {
        TrustedDocumentEnforcement::DoNotEnforce
    } else {
        TrustedDocumentEnforcement::Enforce
    }
}

/// The body of one operation's response: JSON text, or the raw JSON the database
/// produced (`None` when it produced no row).
#[derive(Debug, PartialEq)]
pub enum QueryResponseBody {
    Json(String),
    Raw(Option<String>),
}

/// One operation's response: its body and the HTTP headers it asks for.
#[derive(Debug, PartialEq)]
pub struct QueryResponse {
    pub body: QueryResponseBody,
    pub headers: Vec<(String, String)>,
}

/// The headers of the first `k` operations, in operation order.
pub open spec fn headers_upto(parts: Seq<(String, QueryResponse)>, k: int) -> Seq<(String, String)>
    decreases k,
{
    if k <= 0 || k > parts.len() {
        Seq::empty()
    } else {
        headers_upto(parts, k - 1) + parts[k - 1].1.headers@
    }
}

/// The headers of a successful request: every operation's headers, in operation order.
pub fn response_headers(parts: &Vec<(String, QueryResponse)>) -> (r: Vec<(String, String)>)
    ensures
        r@ == headers_upto(parts@, parts@.len() as int),
{
    let mut out: Vec<(String, String)> = Vec::new();
    let mut i: usize = 0;
    while i < parts.len()
        invariant
            i <= parts@.len(),
            out@ == headers_upto(parts@, i as int),
        decreases parts.len() - i,
    {
        let headers = &parts[i].1.headers;
        let ghost before = out@;
        let mut j: usize = 0;
        while j < headers.len()
            invariant
                i < parts@.len(),
                *headers == parts@[i as int].1.headers,
                j <= headers@.len(),
                out@ == before + headers@.take(j as int),
            decreases headers.len() - j,
        {
            let (name, value) = &headers[j];
            out.push((name.clone(), value.clone()));
            proof {
                assert(headers@.take(j + 1) =~= headers@.take(j as int).push(headers@[j as int]));
            }
            j = j + 1;
        }
        proof {
            assert(headers@.take(headers@.len() as int) =~= headers@);
            assert(out@ =~= headers_upto(parts@, i + 1));
        }
        i = i + 1;
    }
    out
}

pub open spec fn body_text(body: QueryResponseBody) -> Seq<char> {
    match body {
        QueryResponseBody::Json(s) => s@,
        QueryResponseBody::Raw(Some(s)) => s@,
        QueryResponseBody::Raw(None) => "null"@,
    }
}

/// The operations' entries of the `data` object from the `k`-th on, separated by `, `.
pub open spec fn parts_text(parts: Seq<(String, QueryResponse)>, k: int) -> Seq<char>
    decreases parts.len() - k,
{
    if k < 0 || k >= parts.len() {
        Seq::empty()
    } else {
        let sep = if k == parts.len() - 1 { Seq::empty() } else { ", "@ };
        "\""@ + parts[k].0@ + "\":"@ + body_text(parts[k].1.body) + sep + parts_text(parts, k + 1)
    }
}

/// The response of a successful request: `{"data": {"<name>":<body>, ...}}`, in the
/// order of the operations.
pub open spec fn data_response(parts: Seq<(String, QueryResponse)>) -> Seq<char> {
    "{\"data\": {"@ + parts_text(parts, 0) + "}}"@
}

fn append_parts(out: &mut String, parts: &Vec<(String, QueryResponse)>, k: usize)
    requires
        k <= parts@.len(),
    ensures
        final(out)@ == old(out)@ + parts_text(parts@, k as int),
    decreases parts@.len() - k,
{
    if k >= parts.len() {
        assert(out@ =~= old(out)@ + parts_text(parts@, k as int));
        return;
    }
    out.append("\"");
    out.append(parts[k].0.as_str());
    out.append("\":");
    match &parts[k].1.body {
        QueryResponseBody::Json(s) => out.append(s.as_str()),
        QueryResponseBody::Raw(Some(s)) => out.append(s.as_str()),
        QueryResponseBody::Raw(None) => out.append("null"),
    }
    let ghost sep: Seq<char> = if k == parts@.len() - 1 { Seq::empty() } else { ", "@ };
    if k + 1 != parts.len() {
        out.append(", ");
    }
    let ghost mid = out@;
    append_parts(out, parts, k + 1);
    assert(out@ =~= old(out)@ + parts_text(parts@, k as int));
}

/// Renders the response of a successful request (see `data_response`).
pub fn render_data_response(parts: &Vec<(String, QueryResponse)>) -> (r: String)
    ensures
        r@ == data_response(parts@),
{
    let mut out = String::from_str("{\"data\": {");
    append_parts(&mut out, parts, 0);
    out.append("}}");
    assert(out@ =~= data_response(parts@));
    out
}

/// The message as it goes into the response: double quotes dropped, each newline
/// written as `; `.
pub open spec fn sanitized(s: Seq<char>) -> Seq<char>
    decreases s.len(),
{
    if s.len() == 0 {
        Seq::empty()
    } else {
        let last = s.last();
        sanitized(s.drop_last()) + if last == '"' {
            Seq::empty()
        } else if last == '\n' {
            "; "@
        } else {
            seq![last]
        }
    }
}

pub open spec fn position_text(p: (usize, usize)) -> Seq<char> {
    "{\"line\": "@ + decimal(p.0 as nat) + ", \"column\": "@ + decimal(p.1 as nat) + "}"@
}

/// The positions from the `k`-th on, separated by `, `.
pub open spec fn positions_text(ps: Seq<(usize, usize)>, k: int) -> Seq<char>
    decreases ps.len() - k,
{
    if k < 0 || k >= ps.len() {
        Seq::empty()
    } else {
        let sep = if k == 0 { Seq::empty() } else { ", "@ };
        sep + position_text(ps[k]) + positions_text(ps, k + 1)
    }
}

/// The response of a failed request: its message and, for a validation error, the
/// positions in the query document.
pub open spec fn error_response(message: Seq<char>, positions: Option<Seq<(usize, usize)>>) -> Seq<char> {
    let locations = match positions {
        Some(ps) => ", \"locations\": ["@ + positions_text(ps, 0) + "]"@,
        None => Seq::empty(),
    };
    "{\"errors\": [{\"message\":\""@ + sanitized(message) + "\""@ + locations + "}]}"@
}

fn append_sanitized(out: &mut String, message: &str)
    ensures
        final(out)@ == old(out)@ + sanitized(message@),
{
    let n = message.unicode_len();
    let mut i: usize = 0;
    while i < n
        invariant
            n == message@.len(),
            i <= n,
            out@ == old(out)@ + sanitized(message@.take(i as int)),
        decreases n - i,
    {
        let c = message.get_char(i);
        proof {
            assert(message@.take(i + 1).drop_last() =~= message@.take(i as int));
            assert(message@.take(i + 1).last() == c);
        }
        if c == '"' {
            assert(out@ =~= old(out)@ + sanitized(message@.take(i + 1)));
        } else if c == '\n' {
            out.append("; ");
            assert(out@ =~= old(out)@ + sanitized(message@.take(i + 1)));
        } else {
            let piece = message.substring_char(i, i + 1);
            out.append(piece);
            assert(piece@ =~= seq![c]);
            assert(out@ =~= old(out)@ + sanitized(message@.take(i + 1)));
        }
        i = i + 1;
    }
    assert(message@.take(n as int) =~= message@);
}

fn append_positions(out: &mut String, ps: &Vec<(usize, usize)>, k: usize)
    requires
        k <= ps@.len(),
    ensures
        final(out)@ == old(out)@ + positions_text(ps@, k as int),
    decreases ps@.len() - k,
{
    if k >= ps.len() {
        assert(out@ =~= old(out)@ + positions_text(ps@, k as int));
        return;
    }
    if k != 0 {
        out.append(", ");
    }
    out.append("{\"line\": ");
    append_decimal(out, ps[k].0);
    out.append(", \"column\": ");
    append_decimal(out, ps[k].1);
    out.append("}");
    append_positions(out, ps, k + 1);
    assert(out@ =~= old(out)@ + positions_text(ps@, k as int));
}

/// Renders the response of a failed request (see `error_response`).
pub fn render_error_response(message: &str, positions: Option<&Vec<(usize, usize)>>) -> (r: String)
    ensures
        r@ == error_response(message@, match positions {
            Some(ps) => Some(ps@),
            None => None,
        }),
{
    let mut out = String::from_str("{\"errors\": [{\"message\":\"");
    append_sanitized(&mut out, message);
    out.append("\"");
    match positions {
        Some(ps) => {
            out.append(", \"locations\": [");
            append_positions(&mut out, ps, 0);
            out.append("]");
        },
        None => {},
    }
    out.append("}]}");
    assert(out@ =~= error_response(message@, match positions {
        Some(ps) => Some(ps@),
        None => None,
    }));
    out
}

} // verus!

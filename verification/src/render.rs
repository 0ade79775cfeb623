use vstd::prelude::*;

use crate::text::{lower_seq, eq_ignore_ascii_case, dec_string_of, u16_to_decimal};

verus! {

/// One HTTP response, as the plain values the renderer reads: protocol
/// version, numeric status with its reason phrase, the headers in the
/// order the transport returned them, and the fully materialized body.
#[derive(Debug)]
pub struct Response {
    pub version: String,
    pub status: u16,
    pub reason: String,
    pub headers: Vec<(String, String)>,
    pub body: String,
}

/// Why rendering a response failed.
#[derive(Debug)]
pub enum RenderError {
    /// A content-type header was present but its value is no MIME type.
    BadContentType(String),
    /// The highlighter had no syntax for the requested hint, or failed
    /// on the text.
    HighlightFailed,
}

/// Which distinct terminal style a piece of output is given. The colors
/// themselves are the terminal layer's business.
#[derive(Clone, Copy, Debug, PartialEq, Eq, Structural)]
pub enum Tone {
    /// The status line.
    Status,
    /// A header name.
    HeaderName,
    /// Everything else, highlighted body text included.
    Plain,
}

/// One piece of terminal output with its style.
#[derive(Debug)]
pub struct Span {
    pub text: String,
    pub tone: Tone,
}

/// How the body block is rendered, chosen by the declared content type.
#[derive(Clone, Copy, Debug, PartialEq, Eq, Structural)]
pub enum BodyFormat {
    /// `application/json`: highlight with the json hint.
    Json,
    /// `text/plain`: highlight as markup, a quirk kept from the original
    /// content-type table.
    Markup,
    /// Anything else: print the body verbatim.
    Raw,
}

/// Whether a header name is the content-type name, up to ASCII case.
pub open spec fn is_ct_name(s: Seq<char>) -> bool {
    lower_seq(s) == "content-type"@
}

/// The position of the first content-type header; `hs.len()` when there
/// is none.
pub open spec fn first_ct_idx(hs: Seq<(String, String)>) -> int
    decreases hs.len(),
{
    if hs.len() == 0 {
        0
    } else if is_ct_name(hs[0].0@) {
        0
    } else {
        1 + first_ct_idx(hs.subrange(1, hs.len() as int))
    }
}

/// Whether some header is a content-type header.
pub open spec fn has_ct(hs: Seq<(String, String)>) -> bool {
    exists|i: int| 0 <= i < hs.len() && is_ct_name((#[trigger] hs[i]).0@)
}

/// The declared content type: the value of the first content-type header.
pub open spec fn ct_value(hs: Seq<(String, String)>) -> Seq<char> {
    hs[first_ct_idx(hs)].1@
}

/// `first_ct_idx` points at the first content-type header, or just past
/// the end when there is none.
pub proof fn lemma_first_ct_idx(hs: Seq<(String, String)>)
    ensures
        0 <= first_ct_idx(hs) <= hs.len(),
        first_ct_idx(hs) < hs.len() ==> is_ct_name(hs[first_ct_idx(hs)].0@),
        forall|j: int| 0 <= j < first_ct_idx(hs) ==> !is_ct_name((#[trigger] hs[j]).0@),
        has_ct(hs) <==> first_ct_idx(hs) < hs.len(),
    decreases hs.len(),
{
    if hs.len() == 0 {
    } else if is_ct_name(hs[0].0@) {
    } else {
        let t = hs.subrange(1, hs.len() as int);
        lemma_first_ct_idx(t);
        assert forall|j: int| 0 <= j < first_ct_idx(hs) implies !is_ct_name((#[trigger] hs[j]).0@) by {
            if j > 0 {
                assert(!is_ct_name(t[j - 1].0@));
            }
        }
        if has_ct(hs) {
            let i = choose|i: int| 0 <= i < hs.len() && is_ct_name((#[trigger] hs[i]).0@);
            assert(i > 0);
            assert(is_ct_name(t[i - 1].0@));
            assert(has_ct(t));
        }
        if has_ct(t) {
            let i = choose|i: int| 0 <= i < t.len() && is_ct_name((#[trigger] t[i]).0@);
            assert(is_ct_name(hs[i + 1].0@));
        }
    }
}

/// The lowercase content-type name is already lowercase.
proof fn lemma_ct_name_lower()
    ensures
        lower_seq("content-type"@) == "content-type"@,
{
    reveal_strlit("content-type");
    assert(lower_seq("content-type"@) =~= "content-type"@);
}

/// Find the declared content type: the value of the first header whose
/// name is `content-type` up to ASCII case, as header lookup ignores case.
pub fn content_type_of(headers: &Vec<(String, String)>) -> (r: Option<String>)
    ensures
        r is Some <==> has_ct(headers@),
        r matches Some(v) ==> v@ == ct_value(headers@),
{
    proof {
        lemma_first_ct_idx(headers@);
        lemma_ct_name_lower();
    }
    let mut i: usize = 0;
    while i < headers.len()
        invariant
            i <= headers@.len(),
            lower_seq("content-type"@) == "content-type"@,
            forall|j: int| 0 <= j < i ==> !is_ct_name((#[trigger] headers@[j]).0@),
        decreases headers@.len() - i,
    {
        if eq_ignore_ascii_case(headers[i].0.as_str(), "content-type") {
            proof {
                lemma_first_ct_idx(headers@);
                lemma_ct_name_lower();
                assert(is_ct_name(headers@[i as int].0@));
                assert(first_ct_idx(headers@) == i) by {
                    if first_ct_idx(headers@) < i {
                        assert(!is_ct_name(headers@[first_ct_idx(headers@)].0@));
                    }
                }
            }
            return Some(headers[i].1.clone());
        }
        i += 1;
    }
    None
}

/// Whether `mime::Mime::from_str` accepts the string; the outcome
/// depends on the string alone.
pub uninterp spec fn mime_parses(s: Seq<char>) -> bool;

/// Whether the parsed MIME type equals the `application/json` constant;
/// meaningful when `mime_parses` holds, and a function of the string.
pub uninterp spec fn mime_is_json(s: Seq<char>) -> bool;

/// Whether the parsed MIME type equals the `text/plain` constant;
/// meaningful when `mime_parses` holds, and a function of the string.
pub uninterp spec fn mime_is_plain_text(s: Seq<char>) -> bool;

/// The three content-type classes the renderer tells apart.
#[derive(Clone, Copy, Debug, PartialEq, Eq, Structural)]
pub enum MimeKind {
    Json,
    PlainText,
    Other,
}

/// Relies on mime::Mime::from_str and on Mime's equality against the
/// constants mime::APPLICATION_JSON and mime::TEXT_PLAIN: parsing and
/// both comparisons depend on the string alone.
#[verifier::external_body]
fn classify_content_type(s: &str) -> (r: Option<MimeKind>)
    ensures
        r is Some <==> mime_parses(s@),
        mime_parses(s@) ==> ((r == Some(MimeKind::Json)) <==> mime_is_json(s@)),
        mime_parses(s@) ==> ((r == Some(MimeKind::PlainText)) <==> (!mime_is_json(s@)
            && mime_is_plain_text(s@))),
{
    match s.parse::<mime::Mime>() {
        Ok(m) => {
            if m == mime::APPLICATION_JSON {
                Some(MimeKind::Json)
            } else if m == mime::TEXT_PLAIN {
                Some(MimeKind::PlainText)
            } else {
                Some(MimeKind::Other)
            }
        },
        Err(_) => None,
    }
}

/// A declared content type must parse before the body can be rendered;
/// an absent one is fine.
pub open spec fn ct_renderable(hs: Seq<(String, String)>) -> bool {
    has_ct(hs) ==> mime_parses(ct_value(hs))
}

/// The body format the declared content type selects: `application/json`
/// is highlighted as json, `text/plain` as markup, everything else (and
/// no declaration at all) prints raw.
pub open spec fn body_format_spec(hs: Seq<(String, String)>) -> BodyFormat {
    if !has_ct(hs) {
        BodyFormat::Raw
    } else if mime_is_json(ct_value(hs)) {
        BodyFormat::Json
    } else if mime_is_plain_text(ct_value(hs)) {
        BodyFormat::Markup
    } else {
        BodyFormat::Raw
    }
}

/// Choose the body format from the headers: no content-type header means
/// raw printing; a declared type that is no MIME type is an error.
pub fn body_format_of(headers: &Vec<(String, String)>) -> (r: Result<BodyFormat, RenderError>)
    ensures
        r is Ok <==> ct_renderable(headers@),
        r matches Ok(f) ==> f == body_format_spec(headers@),
        r matches Err(e) ==> has_ct(headers@) && !mime_parses(ct_value(headers@))
            && (e matches RenderError::BadContentType(v) && v@ == ct_value(headers@)),
{
    match content_type_of(headers) {
        None => Ok(BodyFormat::Raw),
        Some(v) => match classify_content_type(v.as_str()) {
            None => Err(RenderError::BadContentType(v)),
            Some(MimeKind::Json) => Ok(BodyFormat::Json),
            Some(MimeKind::PlainText) => Ok(BodyFormat::Markup),
            Some(MimeKind::Other) => Ok(BodyFormat::Raw),
        },
    }
}

/// Whether syntect can highlight `text` under the syntax for file
/// extension `ext` and the named theme; a function of the three alone.
pub uninterp spec fn highlight_ok(text: Seq<char>, ext: Seq<char>, theme: Seq<char>) -> bool;

/// The terminal-escaped highlighting syntect gives `text` under the
/// syntax for `ext` and the named theme; a function of the three alone.
pub uninterp spec fn highlighted(text: Seq<char>, ext: Seq<char>, theme: Seq<char>) -> Seq<char>;

/// Relies on syntect: SyntaxSet::load_defaults_newlines and
/// ThemeSet::load_defaults (compiled-in definitions, the same on every
/// run), find_syntax_by_extension, HighlightLines::highlight_line over
/// the lines of `text`, and as_24_bit_terminal_escaped; the outcome
/// depends on `text`, `ext` and `theme` alone.
#[verifier::external_body]
fn highlight(text: &str, ext: &str, theme: &str) -> (r: Option<String>)
    ensures
        r is Some <==> highlight_ok(text@, ext@, theme@),
        r matches Some(s) ==> s@ == highlighted(text@, ext@, theme@),
{
    let ps = syntect::parsing::SyntaxSet::load_defaults_newlines();
    let ts = syntect::highlighting::ThemeSet::load_defaults();
    let syntax = ps.find_syntax_by_extension(ext)?;
    let th = ts.themes.get(theme)?;
    let mut h = syntect::easy::HighlightLines::new(syntax, th);
    let mut out = String::new();
    for line in syntect::util::LinesWithEndings::from(text) {
        let ranges = h.highlight_line(line, &ps).ok()?;
        out.push_str(&syntect::util::as_24_bit_terminal_escaped(&ranges[..], true));
    }
    Some(out)
}

/// The status line: protocol version, numeric status, reason phrase,
/// space separated.
pub open spec fn status_line_of(r: Response) -> Seq<char> {
    r.version@ + " "@ + dec_string_of(r.status as nat) + " "@ + r.reason@
}

/// Format the status line of a response.
pub fn status_line(resp: &Response) -> (s: String)
    ensures
        s@ == status_line_of(*resp),
{
    let mut s = resp.version.clone();
    s.append(" ");
    let num = u16_to_decimal(resp.status);
    s.append(num.as_str());
    s.append(" ");
    s.append(resp.reason.as_str());
    s
}

/// The texts and tones of a span sequence.
pub open spec fn span_views(spans: Seq<Span>) -> Seq<(Seq<char>, Tone)> {
    spans.map_values(|sp: Span| (sp.text@, sp.tone))
}

/// The header block: per header, its name in the header style, then
/// `: `, the value and a newline in the plain style.
pub open spec fn header_span_views(hs: Seq<(String, String)>) -> Seq<(Seq<char>, Tone)>
    decreases hs.len(),
{
    if hs.len() == 0 {
        Seq::empty()
    } else {
        header_span_views(hs.drop_last()) + seq![
            (hs.last().0@, Tone::HeaderName),
            (": "@ + hs.last().1@ + "\n"@, Tone::Plain),
        ]
    }
}

/// The body block under a chosen format: highlighted text for the two
/// highlighted formats, the body verbatim plus a newline for raw.
pub open spec fn body_span_views(fmt: BodyFormat, body: Seq<char>) -> Seq<(Seq<char>, Tone)> {
    match fmt {
        BodyFormat::Json => seq![(highlighted(body, "json"@, "base16-ocean.dark"@), Tone::Plain)],
        BodyFormat::Markup => seq![
            (highlighted(body, "html"@, "base16-ocean.dark"@), Tone::Plain),
        ],
        BodyFormat::Raw => seq![(body + "\n"@, Tone::Plain)],
    }
}

/// Whether the whole response can be rendered: the declared content type
/// (if any) parses, and when a highlighted format is selected the
/// highlighter has a syntax for it.
pub open spec fn render_ok(resp: Response) -> bool {
    &&& ct_renderable(resp.headers@)
    &&& (body_format_spec(resp.headers@) == BodyFormat::Json
        ==> highlight_ok(resp.body@, "json"@, "base16-ocean.dark"@))
    &&& (body_format_spec(resp.headers@) == BodyFormat::Markup
        ==> highlight_ok(resp.body@, "html"@, "base16-ocean.dark"@))
}

/// The full rendering, in fixed order: the status line and a blank line,
/// the header block and a blank line, then the body block.
pub open spec fn expected_render(resp: Response) -> Seq<(Seq<char>, Tone)> {
    seq![(status_line_of(resp), Tone::Status), ("\n\n"@, Tone::Plain)]
        + header_span_views(resp.headers@)
        + seq![("\n\n"@, Tone::Plain)]
        + body_span_views(body_format_spec(resp.headers@), resp.body@)
}

/// Render a response into the exact sequence of styled spans the
/// terminal prints: status, headers, body, in that order.
pub fn render_response(resp: &Response) -> (r: Result<Vec<Span>, RenderError>)
    ensures
        r is Ok <==> render_ok(*resp),
        r matches Ok(spans) ==> span_views(spans@) == expected_render(*resp),
        r matches Err(e) ==> ({
            ||| (!ct_renderable(resp.headers@)
                && (e matches RenderError::BadContentType(v) && v@ == ct_value(resp.headers@)))
            ||| (ct_renderable(resp.headers@) && e is HighlightFailed
                && (body_format_spec(resp.headers@) == BodyFormat::Json
                    && !highlight_ok(resp.body@, "json"@, "base16-ocean.dark"@)
                    || body_format_spec(resp.headers@) == BodyFormat::Markup
                        && !highlight_ok(resp.body@, "html"@, "base16-ocean.dark"@)))
        }),
{
    let mut spans: Vec<Span> = Vec::new();
    spans.push(Span { text: status_line(resp), tone: Tone::Status });
    spans.push(Span { text: String::from_str("\n\n"), tone: Tone::Plain });
    let ghost lead = seq![(status_line_of(*resp), Tone::Status), ("\n\n"@, Tone::Plain)];
    proof {
        assert(span_views(spans@) =~= lead + header_span_views(resp.headers@.subrange(0, 0)));
    }
    let mut i: usize = 0;
    while i < resp.headers.len()
        invariant
            i <= resp.headers@.len(),
            lead == seq![(status_line_of(*resp), Tone::Status), ("\n\n"@, Tone::Plain)],
            span_views(spans@) == lead + header_span_views(resp.headers@.subrange(0, i as int)),
        decreases resp.headers@.len() - i,
    {
        let ghost prefix = resp.headers@.subrange(0, i as int);
        let ghost sp0 = spans@;
        spans.push(Span { text: resp.headers[i].0.clone(), tone: Tone::HeaderName });
        let mut t = String::from_str(": ");
        t.append(resp.headers[i].1.as_str());
        t.append("\n");
        spans.push(Span { text: t, tone: Tone::Plain });
        proof {
            let next = resp.headers@.subrange(0, i + 1);
            let h = resp.headers@[i as int];
            let two = seq![
                (h.0@, Tone::HeaderName),
                (": "@ + h.1@ + "\n"@, Tone::Plain),
            ];
            assert(next.drop_last() =~= prefix);
            assert(next.last() == h);
            assert(header_span_views(next) == header_span_views(prefix) + two);
            assert(span_views(spans@) =~= span_views(sp0) + two);
            assert(span_views(spans@) =~= lead + header_span_views(next));
        }
        i += 1;
    }
    proof {
        assert(resp.headers@.subrange(0, resp.headers@.len() as int) =~= resp.headers@);
    }
    spans.push(Span { text: String::from_str("\n\n"), tone: Tone::Plain });
    let fmt = match body_format_of(&resp.headers) {
        Ok(f) => f,
        Err(e) => {
            return Err(e);
        },
    };
    match fmt {
        BodyFormat::Json => {
            match highlight(resp.body.as_str(), "json", "base16-ocean.dark") {
                Some(h) => spans.push(Span { text: h, tone: Tone::Plain }),
                None => {
                    return Err(RenderError::HighlightFailed);
                },
            }
        },
        BodyFormat::Markup => {
            match highlight(resp.body.as_str(), "html", "base16-ocean.dark") {
                Some(h) => spans.push(Span { text: h, tone: Tone::Plain }),
                None => {
                    return Err(RenderError::HighlightFailed);
                },
            }
        },
        BodyFormat::Raw => {
            let mut t = resp.body.clone();
            t.append("\n");
            spans.push(Span { text: t, tone: Tone::Plain });
        },
    }
    proof {
        assert(span_views(spans@) =~= expected_render(*resp));
    }
    Ok(spans)
}

/// A response that declares no content type renders its body text
/// verbatim (followed by one newline), with no highlighting: rendering
/// cannot fail, the format is raw, and the last span is the raw body.
pub proof fn lemma_no_content_type_renders_raw(resp: Response)
    requires
        !has_ct(resp.headers@),
    ensures
        render_ok(resp),
        body_format_spec(resp.headers@) == BodyFormat::Raw,
        expected_render(resp).last() == ((resp.body@ + "\n"@), Tone::Plain),
{
}

/// A response that declares `application/json` renders its body through
/// the highlighter under the json hint, not through the raw path.
pub proof fn lemma_json_body_highlighted(resp: Response)
    requires
        has_ct(resp.headers@),
        mime_parses(ct_value(resp.headers@)),
        mime_is_json(ct_value(resp.headers@)),
        highlight_ok(resp.body@, "json"@, "base16-ocean.dark"@),
    ensures
        render_ok(resp),
        body_format_spec(resp.headers@) == BodyFormat::Json,
        expected_render(resp).last()
            == ((highlighted(resp.body@, "json"@, "base16-ocean.dark"@)), Tone::Plain),
{
}

} // verus!

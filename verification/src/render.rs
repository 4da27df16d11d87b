//! Rendering one response as styled text: the status line in blue, each
//! header name in green, and a body that is pretty-printed in cyan when
//! the response declares the JSON content type.

use vstd::prelude::*;
use vstd::string::*;
use crate::args::pair_views;
use crate::ClientError;

verus! {

/// Text wrapped in the ANSI blue style.
pub open spec fn blue(s: Seq<char>) -> Seq<char> {
    "\u{1b}[34m"@ + s + "\u{1b}[0m"@
}

/// Text wrapped in the ANSI green style.
pub open spec fn green(s: Seq<char>) -> Seq<char> {
    "\u{1b}[32m"@ + s + "\u{1b}[0m"@
}

/// Text wrapped in the ANSI cyan style.
pub open spec fn cyan(s: Seq<char>) -> Seq<char> {
    "\u{1b}[36m"@ + s + "\u{1b}[0m"@
}

/// The text between a style prefix and the ANSI reset code.
fn style_wrap(color: &str, s: &str) -> (r: String)
    ensures
        r@ == color@ + s@ + "\u{1b}[0m"@,
{
    let mut out = color.to_owned();
    out.append(s);
    out.append("\u{1b}[0m");
    out
}

/// Whether two characters are equal up to ASCII case.
pub open spec fn eq_ascii_ci_char(a: char, b: char) -> bool {
    a == b || (('A' as u32) <= (a as u32) <= ('Z' as u32) && (a as u32) + 32 == (b as u32)) || ((
    'A' as u32) <= (b as u32) <= ('Z' as u32) && (b as u32) + 32 == (a as u32))
}

/// Whether two strings are equal up to ASCII case.
pub open spec fn eq_ascii_ci(a: Seq<char>, b: Seq<char>) -> bool {
    a.len() == b.len() && forall|i: int| 0 <= i < a.len() ==> eq_ascii_ci_char(a[i], b[i])
}

/// ASCII-case-insensitive string comparison.
fn eq_ignore_ascii(a: &str, b: &str) -> (r: bool)
    ensures
        r == eq_ascii_ci(a@, b@),
{
    let na = a.unicode_len();
    let nb = b.unicode_len();
    if na != nb {
        return false;
    }
    let mut i: usize = 0;
    while i < na
        invariant
            na == a@.len(),
            na == b@.len(),
            i <= na,
            forall|j: int| 0 <= j < i ==> eq_ascii_ci_char(a@[j], b@[j]),
        decreases na - i,
    {
        let ca = a.get_char(i);
        let cb = b.get_char(i);
        let ua = ca as u32;
        let ub = cb as u32;
        let same = ca == cb || (65 <= ua && ua <= 90 && ua + 32 == ub) || (65 <= ub && ub <= 90
            && ub + 32 == ua);
        if !same {
            return false;
        }
        i = i + 1;
    }
    true
}

/// The media type whose body is pretty-printed: exactly
/// `application/json`, compared without regard to ASCII case and with
/// no parameters.
pub open spec fn is_json_content_type(ct: Seq<char>) -> bool {
    eq_ascii_ci(ct, "application/json"@)
}

/// The value of the first header with the given name (header names
/// compare without regard to ASCII case), if any.
pub open spec fn header_lookup(hs: Seq<(Seq<char>, Seq<char>)>, name: Seq<char>) -> Option<
    Seq<char>,
>
    decreases hs.len(),
{
    if hs.len() == 0 {
        None
    } else if eq_ascii_ci(hs[0].0, name) {
        Some(hs[0].1)
    } else {
        header_lookup(hs.subrange(1, hs.len() as int), name)
    }
}

/// A match at `i`, with no earlier match, is the lookup's result.
proof fn lemma_header_lookup_at(hs: Seq<(Seq<char>, Seq<char>)>, name: Seq<char>, i: int)
    requires
        0 <= i < hs.len(),
        eq_ascii_ci(hs[i].0, name),
        forall|l: int| 0 <= l < i ==> !eq_ascii_ci(hs[l].0, name),
    ensures
        header_lookup(hs, name) == Some(hs[i].1),
    decreases i,
{
    if i == 0 {
    } else {
        let t = hs.subrange(1, hs.len() as int);
        assert(t[i - 1] == hs[i]);
        assert forall|l: int| 0 <= l < i - 1 implies !eq_ascii_ci(t[l].0, name) by {
            assert(t[l] == hs[l + 1]);
        }
        lemma_header_lookup_at(t, name, i - 1);
    }
}

/// With no match anywhere, the lookup finds nothing.
proof fn lemma_header_lookup_none(hs: Seq<(Seq<char>, Seq<char>)>, name: Seq<char>)
    requires
        forall|l: int| 0 <= l < hs.len() ==> !eq_ascii_ci(hs[l].0, name),
    ensures
        header_lookup(hs, name) is None,
    decreases hs.len(),
{
    if hs.len() > 0 {
        let t = hs.subrange(1, hs.len() as int);
        assert forall|l: int| 0 <= l < t.len() implies !eq_ascii_ci(t[l].0, name) by {
            assert(t[l] == hs[l + 1]);
        }
        lemma_header_lookup_none(t, name);
    }
}

/// The declared content type: the value of the first `content-type`
/// header, if the response carries one.
pub fn get_content_type(headers: &Vec<(String, String)>) -> (r: Option<String>)
    ensures
        match r {
            Some(v) => header_lookup(pair_views(headers@), "content-type"@) == Some(v@),
            None => header_lookup(pair_views(headers@), "content-type"@) is None,
        },
{
    let mut i: usize = 0;
    while i < headers.len()
        invariant
            i <= headers@.len(),
            forall|l: int|
                0 <= l < i ==> !eq_ascii_ci(
                    #[trigger] pair_views(headers@)[l].0,
                    "content-type"@,
                ),
        decreases headers@.len() - i,
    {
        if eq_ignore_ascii(headers[i].0.as_str(), "content-type") {
            let value = headers[i].1.clone();
            proof {
                lemma_header_lookup_at(pair_views(headers@), "content-type"@, i as int);
            }
            return Some(value);
        }
        i = i + 1;
    }
    proof {
        lemma_header_lookup_none(pair_views(headers@), "content-type"@);
    }
    None
}

/// The status line: protocol version and status, styled blue, with the
/// blank line that follows it.
pub open spec fn status_line(version: Seq<char>, status: Seq<char>) -> Seq<char> {
    blue(version + " "@ + status) + "\n\n"@
}

/// One header line: the name styled green, then the raw value.
pub open spec fn header_line(h: (Seq<char>, Seq<char>)) -> Seq<char> {
    green(h.0) + ": "@ + h.1 + "\n"@
}

/// The header lines in the order received.
pub open spec fn header_lines(hs: Seq<(Seq<char>, Seq<char>)>) -> Seq<char>
    decreases hs.len(),
{
    if hs.len() == 0 {
        Seq::empty()
    } else {
        header_lines(hs.drop_last()) + header_line(hs.last())
    }
}

/// The header block: one line per header, terminated by a blank line.
pub open spec fn header_block(hs: Seq<(Seq<char>, Seq<char>)>) -> Seq<char> {
    header_lines(hs) + "\n"@
}

/// The status line rendered as text.
pub fn render_status(version: &str, status: &str) -> (r: String)
    ensures
        r@ == status_line(version@, status@),
{
    let mut line = version.to_owned();
    line.append(" ");
    line.append(status);
    let mut out = style_wrap("\u{1b}[34m", line.as_str());
    out.append("\n\n");
    proof {
        assert(out@ =~= status_line(version@, status@));
    }
    out
}

/// The header block rendered as text.
pub fn render_headers(headers: &Vec<(String, String)>) -> (r: String)
    ensures
        r@ == header_block(pair_views(headers@)),
{
    let ghost hs = pair_views(headers@);
    let mut out = String::new();
    let mut i: usize = 0;
    while i < headers.len()
        invariant
            i <= headers@.len(),
            hs == pair_views(headers@),
            out@ == header_lines(hs.subrange(0, i as int)),
        decreases headers@.len() - i,
    {
        let mut line = style_wrap("\u{1b}[32m", headers[i].0.as_str());
        line.append(": ");
        line.append(headers[i].1.as_str());
        line.append("\n");
        out.append(line.as_str());
        proof {
            let t = hs.subrange(0, i as int + 1);
            assert(t.drop_last() =~= hs.subrange(0, i as int));
            assert(t.last() == hs[i as int]);
            assert(hs[i as int] == (headers@[i as int].0@, headers@[i as int].1@));
            assert(out@ =~= header_lines(t));
        }
        i = i + 1;
    }
    out.append("\n");
    proof {
        assert(hs.subrange(0, headers@.len() as int) =~= hs);
    }
    out
}

/// What jsonxf's pretty-printer makes of a text: the re-indented JSON
/// when the text is valid JSON, nothing otherwise. The outcome depends
/// on the text alone.
pub uninterp spec fn pretty_json(s: Seq<char>) -> Option<Seq<char>>;

/// Relies on `jsonxf::pretty_print`: re-indents a valid JSON text (two
/// spaces of indent, line-feed newlines) and rejects anything else; the
/// result is a function of the input text alone.
#[verifier::external_body]
fn pretty_print(s: &str) -> (r: Result<String, String>)
    ensures
        r matches Ok(p) ==> pretty_json(s@) == Some(p@),
        r is Err ==> pretty_json(s@) is None,
{
    jsonxf::pretty_print(s)
}

/// The view of an optional string.
pub open spec fn opt_view(o: Option<String>) -> Option<Seq<char>> {
    match o {
        Some(s) => Some(s@),
        None => None,
    }
}

/// Whether a declared content type calls for JSON pretty-printing.
pub open spec fn json_content(ct: Option<Seq<char>>) -> bool {
    match ct {
        Some(v) => is_json_content_type(v),
        None => false,
    }
}

/// The body rendered as text: pretty-printed and styled cyan when the
/// content type is exactly `application/json`, otherwise the raw body
/// unmodified. A claimed-JSON body that fails to pretty-print is a
/// decode error.
pub fn render_body(content_type: &Option<String>, body: &str) -> (r: Result<String, ClientError>)
    ensures
        !json_content(opt_view(*content_type)) ==> (r matches Ok(t) && t@ == body@ + "\n"@),
        json_content(opt_view(*content_type)) ==> match pretty_json(body@) {
            Some(p) => (r matches Ok(t) && t@ == cyan(p) + "\n"@),
            None => (r matches Err(e) && e is DecodeError),
        },
{
    let is_json = match content_type {
        Some(ct) => eq_ignore_ascii(ct.as_str(), "application/json"),
        None => false,
    };
    if is_json {
        match pretty_print(body) {
            Ok(p) => {
                let mut out = style_wrap("\u{1b}[36m", p.as_str());
                out.append("\n");
                Ok(out)
            },
            Err(msg) => Err(
                ClientError::DecodeError(
                    String::from_str("failed to pretty-print JSON body: ").concat(msg.as_str()),
                ),
            ),
        }
    } else {
        let mut out = body.to_owned();
        out.append("\n");
        Ok(out)
    }
}

/// One response, as plain data: the protocol version (such as
/// `HTTP/1.1`), the status (number and reason), the headers in the
/// order received, and the body text.
pub struct ResponseData {
    pub version: String,
    pub status: String,
    pub headers: Vec<(String, String)>,
    pub body: String,
}

impl ResponseData {
    /// Whether the response declares the JSON content type.
    pub open spec fn declares_json(self) -> bool {
        json_content(header_lookup(pair_views(self.headers@), "content-type"@))
    }

    /// The rendered status line and header block.
    pub open spec fn rendered_prefix(self) -> Seq<char> {
        status_line(self.version@, self.status@) + header_block(pair_views(self.headers@))
    }
}

/// The whole response rendered, in fixed order: status line, header
/// block, then the content-type-aware body.
pub fn render_response(resp: &ResponseData) -> (r: Result<String, ClientError>)
    ensures
        !resp.declares_json() ==> (r matches Ok(t) && t@ == resp.rendered_prefix() + resp.body@
            + "\n"@),
        resp.declares_json() ==> match pretty_json(resp.body@) {
            Some(p) => (r matches Ok(t) && t@ == resp.rendered_prefix() + cyan(p) + "\n"@),
            None => (r matches Err(e) && e is DecodeError),
        },
{
    let mut out = render_status(resp.version.as_str(), resp.status.as_str());
    let headers_text = render_headers(&resp.headers);
    out.append(headers_text.as_str());
    let ct = get_content_type(&resp.headers);
    match render_body(&ct, resp.body.as_str()) {
        Ok(b) => {
            out.append(b.as_str());
            Ok(out)
        },
        Err(e) => Err(e),
    }
}

} // verus!

//! Command-argument validation: URLs and `key=value` body tokens.

use vstd::prelude::*;
use vstd::string::*;
use crate::ClientError;

verus! {

/// Whether the token holds at least one `=`.
pub open spec fn has_eq(s: Seq<char>) -> bool {
    exists|i: int| 0 <= i < s.len() && s[i] == '='
}

/// Index of the first `=` in the token; the token's length when it has none.
pub open spec fn first_eq(s: Seq<char>) -> int
    decreases s.len(),
{
    if s.len() == 0 {
        0
    } else if s[0] == '=' {
        0
    } else {
        1 + first_eq(s.subrange(1, s.len() as int))
    }
}

/// A body token is well formed when it has an `=` and a non-empty key
/// before the first one.
pub open spec fn wf_pair_token(s: Seq<char>) -> bool {
    has_eq(s) && first_eq(s) > 0
}

/// The key: everything before the first `=`.
pub open spec fn pair_key(s: Seq<char>) -> Seq<char> {
    s.subrange(0, first_eq(s))
}

/// The value: everything after the first `=` (later `=` signs are kept).
pub open spec fn pair_value(s: Seq<char>) -> Seq<char> {
    s.subrange(first_eq(s) + 1, s.len() as int)
}

/// `first_eq` is the least index holding `=`, and lies within the token
/// exactly when the token has an `=` at all.
pub proof fn lemma_first_eq(s: Seq<char>)
    ensures
        0 <= first_eq(s) <= s.len(),
        first_eq(s) < s.len() ==> s[first_eq(s)] == '=',
        forall|j: int| 0 <= j < first_eq(s) ==> s[j] != '=',
        has_eq(s) <==> first_eq(s) < s.len(),
    decreases s.len(),
{
    if s.len() == 0 {
    } else if s[0] == '=' {
    } else {
        let t = s.subrange(1, s.len() as int);
        lemma_first_eq(t);
        assert forall|j: int| 0 <= j < first_eq(s) implies s[j] != '=' by {
            if j > 0 {
                assert(t[j - 1] == s[j]);
            }
        }
        if has_eq(s) {
            let i = choose|i: int| 0 <= i < s.len() && s[i] == '=';
            assert(t[i - 1] == '=');
            assert(has_eq(t));
        }
        if has_eq(t) {
            let i = choose|i: int| 0 <= i < t.len() && t[i] == '=';
            assert(s[i + 1] == '=');
            assert(has_eq(s));
        }
    }
}

/// Index of the first `=` of `s`, if any.
fn find_first_eq(s: &str) -> (r: Option<usize>)
    ensures
        match r {
            Some(i) => i < s@.len() && s@[i as int] == '=' && first_eq(s@) == i,
            None => !has_eq(s@),
        },
{
    let n = s.unicode_len();
    let mut i: usize = 0;
    while i < n
        invariant
            n == s@.len(),
            i <= n,
            forall|j: int| 0 <= j < i ==> s@[j] != '=',
        decreases n - i,
    {
        if s.get_char(i) == '=' {
            proof {
                lemma_first_eq(s@);
            }
            return Some(i);
        }
        i = i + 1;
    }
    None
}

/// Splits one raw `key=value` token at its first `=`. Fails when the token
/// has no `=`, or nothing before the first one (an empty key); the value
/// may be empty and may itself contain further `=` signs.
pub fn parse_kv_pairs(s: &str) -> (r: Result<(String, String), ClientError>)
    ensures
        r matches Ok(kv) ==> wf_pair_token(s@) && kv.0@ == pair_key(s@) && kv.1@ == pair_value(
            s@,
        ),
        r is Err ==> !wf_pair_token(s@),
        r matches Err(e) ==> e is MalformedPair,
        !has_eq(s@) ==> r is Err,
{
    proof {
        lemma_first_eq(s@);
    }
    match find_first_eq(s) {
        Some(i) if i > 0 => {
            let n = s.unicode_len();
            let key = s.substring_char(0, i).to_owned();
            let value = s.substring_char(i + 1, n).to_owned();
            Ok((key, value))
        },
        _ => Err(
            ClientError::MalformedPair(
                String::from_str("failed to parse body pair: ").concat(s),
            ),
        ),
    }
}

/// Whether a string is a syntactically valid absolute URL, as the `url`
/// crate's parser decides it. Parsing is a function of the string alone.
pub uninterp spec fn url_parses(s: Seq<char>) -> bool;

/// Relies on `url::Url`'s `FromStr` impl (the type reqwest re-exports as
/// `reqwest::Url`): whether a string parses as an absolute URL depends on
/// the string alone. On failure the parse error's message is returned.
#[verifier::external_body]
fn try_parse_url(s: &str) -> (r: Option<String>)
    ensures
        r is None <==> url_parses(s@),
{
    match s.parse::<reqwest::Url>() {
        Ok(_) => None,
        Err(e) => Some(format!("invalid URL {:?}: {}", s, e)),
    }
}

/// Validates a URL and carries the original string forward verbatim,
/// never a normalized re-serialization.
pub fn parse_url(url: &str) -> (r: Result<String, ClientError>)
    ensures
        r matches Ok(u) ==> url_parses(url@) && u@ == url@,
        r is Err <==> !url_parses(url@),
        r matches Err(e) ==> e is InvalidUrl,
{
    match try_parse_url(url) {
        None => Ok(url.to_owned()),
        Some(msg) => Err(ClientError::InvalidUrl(msg)),
    }
}

/// Arguments of a GET request: a validated absolute URL.
#[derive(Debug)]
pub struct GetArgs {
    pub url: String,
}

impl GetArgs {
    /// The URL string is valid and kept verbatim.
    pub open spec fn wf(self) -> bool {
        url_parses(self.url@)
    }

    /// Succeeds exactly on well-formed absolute URLs, preserving the URL
    /// string verbatim.
    pub fn new(url: &str) -> (r: Result<GetArgs, ClientError>)
        ensures
            r matches Ok(a) ==> a.wf() && a.url@ == url@,
            r is Ok <==> url_parses(url@),
            r matches Err(e) ==> e is InvalidUrl,
    {
        match parse_url(url) {
            Ok(u) => Ok(GetArgs { url: u }),
            Err(e) => Err(e),
        }
    }
}

/// Arguments of a POST request: a validated absolute URL and the body
/// pairs, in the order given, each split from a raw `key=value` token.
#[derive(Debug)]
pub struct PostArgs {
    pub url: String,
    pub body: Vec<(String, String)>,
}

/// The views of a sequence of owned string pairs.
pub open spec fn pair_views(ps: Seq<(String, String)>) -> Seq<(Seq<char>, Seq<char>)> {
    ps.map_values(|p: (String, String)| (p.0@, p.1@))
}

impl PostArgs {
    pub open spec fn wf(self) -> bool {
        url_parses(self.url@)
    }

    /// Succeeds exactly when the URL is a well-formed absolute URL and
    /// every raw token is a well-formed `key=value` pair; the URL string
    /// and the split pairs are preserved in order.
    pub fn new(url: &str, tokens: &Vec<String>) -> (r: Result<PostArgs, ClientError>)
        ensures
            r is Ok <==> url_parses(url@) && (forall|i: int|
                0 <= i < tokens@.len() ==> wf_pair_token(tokens@[i]@)),
            r matches Ok(a) ==> {
                &&& a.wf()
                &&& a.url@ == url@
                &&& a.body@.len() == tokens@.len()
                &&& forall|i: int|
                    0 <= i < tokens@.len() ==> #[trigger] pair_views(a.body@)[i] == (
                    pair_key(tokens@[i]@),
                    pair_value(tokens@[i]@),
                    )
            },
            r matches Err(e) ==> e is InvalidUrl || e is MalformedPair,
    {
        let u = match parse_url(url) {
            Ok(u) => u,
            Err(e) => {
                return Err(e);
            },
        };
        let mut body: Vec<(String, String)> = Vec::new();
        let mut i: usize = 0;
        while i < tokens.len()
            invariant
                i <= tokens@.len(),
                body@.len() == i,
                forall|j: int| 0 <= j < i ==> wf_pair_token(tokens@[j]@),
                forall|j: int|
                    0 <= j < i ==> #[trigger] pair_views(body@)[j] == (
                    pair_key(tokens@[j]@),
                    pair_value(tokens@[j]@),
                    ),
            decreases tokens@.len() - i,
        {
            match parse_kv_pairs(tokens[i].as_str()) {
                Ok(kv) => {
                    let ghost prev = body@;
                    body.push(kv);
                    proof {
                        assert forall|j: int| 0 <= j <= i implies #[trigger] pair_views(body@)[j]
                            == (pair_key(tokens@[j]@), pair_value(tokens@[j]@)) by {
                            if j < i {
                                assert(body@[j] == prev[j]);
                                assert(pair_views(prev)[j] == (
                                    pair_key(tokens@[j]@),
                                    pair_value(tokens@[j]@),
                                ));
                            }
                        }
                    }
                },
                Err(e) => {
                    return Err(e);
                },
            }
            i = i + 1;
        }
        Ok(PostArgs { url: u, body })
    }
}

/// The validated subcommand: one GET or one POST.
#[derive(Debug)]
pub enum SubCommand {
    Get(GetArgs),
    Post(PostArgs),
}

/// The validated top-level configuration of one invocation.
#[derive(Debug)]
pub struct Opts {
    pub subcmd: SubCommand,
}

} // verus!

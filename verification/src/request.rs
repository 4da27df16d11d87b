//! Building the one outbound request from validated arguments.

use vstd::prelude::*;
use vstd::string::*;
use crate::args::{pair_views, url_parses, GetArgs, Opts, PostArgs, SubCommand};
use crate::body::{collapse, json_body, json_object};

verus! {

/// The HTTP method of the one request.
#[derive(Debug, Clone, Copy, PartialEq, Eq, Structural)]
pub enum Method {
    Get,
    Post,
}

/// Explicit client configuration: the default headers attached to every
/// request the client issues.
pub struct ClientConfig {
    pub default_headers: Vec<(String, String)>,
}

/// The two default headers: a marker header identifying the client, and
/// a custom User-Agent string.
pub open spec fn default_header_views() -> Seq<(Seq<char>, Seq<char>)> {
    seq![("X-POWERED-BY"@, "Rust"@), ("User-Agent"@, "Rust Httpie"@)]
}

impl ClientConfig {
    pub open spec fn wf(self) -> bool {
        pair_views(self.default_headers@) == default_header_views()
    }

    /// The configuration with the client's two default headers.
    pub fn new() -> (r: ClientConfig)
        ensures
            r.wf(),
    {
        let mut hs: Vec<(String, String)> = Vec::new();
        hs.push((String::from_str("X-POWERED-BY"), String::from_str("Rust")));
        hs.push((String::from_str("User-Agent"), String::from_str("Rust Httpie")));
        proof {
            assert(pair_views(hs@) =~= default_header_views());
        }
        ClientConfig { default_headers: hs }
    }
}

/// Everything the application needs to issue the request: method, URL,
/// the headers to attach, and for POST the JSON body with its content
/// type.
pub struct RequestPlan {
    pub method: Method,
    pub url: String,
    pub headers: Vec<(String, String)>,
    pub body: Option<String>,
    pub content_type: Option<String>,
}

impl RequestPlan {
    pub open spec fn wf(self) -> bool {
        url_parses(self.url@)
    }
}

/// The GET request: the validated URL, the configured headers, no body.
pub fn build_get(config: &ClientConfig, args: &GetArgs) -> (r: RequestPlan)
    ensures
        r.wf() == args.wf(),
        r.method == Method::Get,
        r.url@ == args.url@,
        pair_views(r.headers@) == pair_views(config.default_headers@),
        r.body is None,
        r.content_type is None,
{
    RequestPlan {
        method: Method::Get,
        url: args.url.clone(),
        headers: clone_pairs(&config.default_headers),
        body: None,
        content_type: None,
    }
}

/// The POST request: the validated URL, the configured headers, and the
/// body pairs collapsed and serialized as a flat JSON object, sent with
/// the JSON content type.
pub fn build_post(config: &ClientConfig, args: &PostArgs) -> (r: RequestPlan)
    ensures
        r.wf() == args.wf(),
        r.method == Method::Post,
        r.url@ == args.url@,
        pair_views(r.headers@) == pair_views(config.default_headers@),
        r.body matches Some(b) && b@ == json_object(collapse(pair_views(args.body@))),
        r.content_type matches Some(ct) && ct@ == "application/json"@,
{
    RequestPlan {
        method: Method::Post,
        url: args.url.clone(),
        headers: clone_pairs(&config.default_headers),
        body: Some(json_body(&args.body)),
        content_type: Some(String::from_str("application/json")),
    }
}

/// The request for whichever subcommand was given.
pub fn build_request(config: &ClientConfig, opts: &Opts) -> (r: RequestPlan)
    ensures
        r.wf() == match opts.subcmd {
            SubCommand::Get(a) => a.wf(),
            SubCommand::Post(a) => a.wf(),
        },
        match opts.subcmd {
            SubCommand::Get(a) => r.method == Method::Get && r.url@ == a.url@ && r.body is None,
            SubCommand::Post(a) => r.method == Method::Post && r.url@ == a.url@ && (
            r.body matches Some(b) && b@ == json_object(collapse(pair_views(a.body@)))),
        },
        pair_views(r.headers@) == pair_views(config.default_headers@),
{
    match &opts.subcmd {
        SubCommand::Get(args) => build_get(config, args),
        SubCommand::Post(args) => build_post(config, args),
    }
}

/// A copy of the header pairs, views preserved.
fn clone_pairs(ps: &Vec<(String, String)>) -> (r: Vec<(String, String)>)
    ensures
        pair_views(r@) == pair_views(ps@),
{
    let mut out: Vec<(String, String)> = Vec::new();
    let mut i: usize = 0;
    while i < ps.len()
        invariant
            i <= ps@.len(),
            out@.len() == i,
            forall|j: int| 0 <= j < i ==> #[trigger] pair_views(out@)[j] == pair_views(ps@)[j],
        decreases ps@.len() - i,
    {
        let ghost prev = out@;
        out.push((ps[i].0.clone(), ps[i].1.clone()));
        proof {
            assert forall|j: int| 0 <= j <= i implies #[trigger] pair_views(out@)[j] == pair_views(
                ps@,
            )[j] by {
                if j < i {
                    assert(out@[j] == prev[j]);
                    assert(pair_views(prev)[j] == pair_views(ps@)[j]);
                }
            }
        }
        i = i + 1;
    }
    proof {
        assert(pair_views(out@) =~= pair_views(ps@));
    }
    out
}

} // verus!

//! The SearxNG search tool: its configuration, its arguments, the request it
//! sends and what it makes of the reply.
use vstd::prelude::*;
use vstd::string::*;
use crate::external::{
    append_query_pair, client_total_timeout, client_with_defaults, client_with_timeout, parse_url, url_parse_outcome,
    url_string, url_text, url_with_pair,
};
use crate::json::{
    Json, JsonValue, entry_models, json_get, json_models, lemma_entry_models, lemma_json_models,
    opt_str, opt_text, opt_u64,
};
use crate::markdown::{build_search_markdown, search_markdown};
use crate::prune::{build_pruned_output, pruned_output};
use crate::text::{decimal, trim, trim_end_slashes, trim_trailing_slashes, trim_ws, u64_to_decimal};

verus! {

/// The `User-Agent` the tool sends.
pub const DEFAULT_USER_AGENT: &'static str = "zeptoclaw/0.1 (+https://github.com/zeptoclaw/zeptoclaw)";

/// The total request timeout, in seconds.
pub const DEFAULT_TIMEOUT_SECS: u64 = 15;

/// The result limit of a new tool.
pub const DEFAULT_MAX_RESULTS: usize = 6;

/// The error of a tool call, with its message.
#[derive(Debug, PartialEq, Eq)]
pub enum ZeptoError {
    Tool(String),
}

/// The message of an error.
pub open spec fn error_message(e: ZeptoError) -> Seq<char> {
    match e {
        ZeptoError::Tool(m) => m@,
    }
}

/// `v` clamped into `[lo, hi]`.
pub open spec fn clamp_spec(v: int, lo: int, hi: int) -> int {
    if v < lo {
        lo
    } else if v > hi {
        hi
    } else {
        v
    }
}

/// `v` clamped into `[lo, hi]`.
pub fn clamp_usize(v: usize, lo: usize, hi: usize) -> (r: usize)
    requires
        lo <= hi,
    ensures
        r == clamp_spec(v as int, lo as int, hi as int),
{
    if v < lo {
        lo
    } else if v > hi {
        hi
    } else {
        v
    }
}

/// SearxNG search tool.
pub struct SearxSearchTool {
    base_url: String,
    api_key: Option<String>,
    client: Option<reqwest::Client>,
    max_results: usize,
}

/// What the contracts see of a tool: its base URL, its API key, its result
/// limit and the HTTP client it holds, if one could be built.
pub struct ToolConfig {
    pub base_url: Seq<char>,
    pub api_key: Option<Seq<char>>,
    pub max_results: usize,
    pub client: Option<reqwest::Client>,
}

/// The text of an optional string.
pub open spec fn opt_string(o: Option<String>) -> Option<Seq<char>> {
    match o {
        Some(s) => Some(s@),
        None => None,
    }
}

impl View for SearxSearchTool {
    type V = ToolConfig;

    closed spec fn view(&self) -> ToolConfig {
        ToolConfig {
            base_url: self.base_url@,
            api_key: opt_string(self.api_key),
            max_results: self.max_results,
            client: self.client,
        }
    }
}

/// The arguments of a search, read from the tool call.
#[derive(Debug)]
pub struct SearchParams {
    pub query: String,
    pub engines: Option<String>,
    pub categories: Option<String>,
    pub lang: Option<String>,
    pub pageno: u32,
    pub max_results: usize,
}

/// The trimmed text of member `k` of the arguments, when it is a string.
pub open spec fn trimmed_arg(args: Json, k: Seq<char>) -> Option<Seq<char>> {
    match opt_str(json_get(args, k)) {
        Some(s) => Some(trim_ws(s)),
        None => None,
    }
}

/// The query of the arguments: `q` trimmed, when it is a string that is not
/// blank.
pub open spec fn args_query(args: Json) -> Option<Seq<char>> {
    match trimmed_arg(args, "q"@) {
        Some(q) => if q.len() > 0 {
            Some(q)
        } else {
            None
        },
        None => None,
    }
}

/// The page of the arguments: `pageno` as a `u32` (truncated), or 1.
pub open spec fn args_pageno(args: Json) -> u32 {
    match opt_u64(json_get(args, "pageno"@)) {
        Some(n) => n as u32,
        None => 1,
    }
}

/// The result limit of the arguments: `max_results` (or the tool's own
/// limit) clamped into `[1, 50]`.
pub open spec fn args_max_results(args: Json, default_max: usize) -> usize {
    clamp_spec(
        match opt_u64(json_get(args, "max_results"@)) {
            Some(n) => (n as usize) as int,
            None => default_max as int,
        },
        1,
        50,
    ) as usize
}

/// The message when the query is missing.
pub open spec fn missing_query_message() -> Seq<char> {
    "Missing 'q' parameter"@
}

/// Whether `p` holds what the arguments `args` ask for.
pub open spec fn params_match(p: SearchParams, args: Json, default_max: usize) -> bool {
    &&& args_query(args) == Some(p.query@)
    &&& trimmed_arg(args, "engines"@) == opt_string(p.engines)
    &&& trimmed_arg(args, "categories"@) == opt_string(p.categories)
    &&& trimmed_arg(args, "lang"@) == opt_string(p.lang)
    &&& p.pageno == args_pageno(args)
    &&& p.max_results == args_max_results(args, default_max)
}

/// The trimmed text of member `key` of the arguments, when it is a string.
fn trimmed_string_arg(args: &JsonValue, key: &str) -> (r: Option<String>)
    ensures
        opt_string(r) == trimmed_arg(args@, key@),
{
    match args.get(key) {
        Some(v) => match v.as_str() {
            Some(s) => Some(trim(s).to_owned()),
            None => None,
        },
        None => None,
    }
}

/// Reads the search arguments: `q` (required, trimmed, not blank),
/// `engines`, `categories` and `lang` (trimmed), `pageno` (default 1) and
/// `max_results` (default `default_max`, clamped into `[1, 50]`).
pub fn parse_args(args: &JsonValue, default_max: usize) -> (r: Result<SearchParams, ZeptoError>)
    ensures
        match r {
            Ok(p) => params_match(p, args@, default_max),
            Err(e) => args_query(args@) is None && error_message(e) == missing_query_message(),
        },
{
    let query = match trimmed_string_arg(args, "q") {
        Some(q) => {
            if q.unicode_len() == 0 {
                return Err(ZeptoError::Tool("Missing 'q' parameter".to_owned()));
            }
            q
        },
        None => {
            return Err(ZeptoError::Tool("Missing 'q' parameter".to_owned()));
        },
    };
    let engines = trimmed_string_arg(args, "engines");
    let categories = trimmed_string_arg(args, "categories");
    let lang = trimmed_string_arg(args, "lang");
    let pageno: u32 = match args.get("pageno") {
        Some(v) => match v.as_u64() {
            Some(n) => n as u32,
            None => 1,
        },
        None => 1,
    };
    let requested: usize = match args.get("max_results") {
        Some(v) => match v.as_u64() {
            Some(n) => n as usize,
            None => default_max,
        },
        None => default_max,
    };
    let max_results = clamp_usize(requested, 1, 50);
    Ok(SearchParams { query, engines, categories, lang, pageno, max_results })
}

/// A query pair for an optional argument: present when the argument is
/// given and not empty.
pub open spec fn optional_pair(name: Seq<char>, value: Option<Seq<char>>) -> Seq<
    (Seq<char>, Seq<char>),
> {
    match value {
        Some(v) => if v.len() > 0 {
            seq![(name, v)]
        } else {
            Seq::empty()
        },
        None => Seq::empty(),
    }
}

/// The query pairs of a search, in order: `q`, `format=json`, `pageno`, then
/// `engines`, `categories` and `lang` when given and not empty.
pub open spec fn query_pairs(p: SearchParams) -> Seq<(Seq<char>, Seq<char>)> {
    seq![("q"@, p.query@), ("format"@, "json"@), ("pageno"@, decimal(p.pageno as nat))]
        + optional_pair("engines"@, opt_string(p.engines)) + optional_pair(
        "categories"@,
        opt_string(p.categories),
    ) + optional_pair("lang"@, opt_string(p.lang))
}

/// A URL serialization after appending the pairs, in order.
pub open spec fn with_pairs(url: Seq<char>, pairs: Seq<(Seq<char>, Seq<char>)>) -> Seq<char>
    decreases pairs.len(),
{
    if pairs.len() == 0 {
        url
    } else {
        url_with_pair(with_pairs(url, pairs.drop_last()), pairs.last().0, pairs.last().1)
    }
}

/// The headers of a search request: `Accept: application/json`, the
/// `User-Agent`, and `Authorization` with the API key when the key is not
/// blank.
pub open spec fn request_headers(api_key: Option<Seq<char>>) -> Seq<(Seq<char>, Seq<char>)> {
    seq![("Accept"@, "application/json"@), ("User-Agent"@, DEFAULT_USER_AGENT@)] + match api_key {
        Some(k) => if trim_ws(k).len() > 0 {
            seq![("Authorization"@, k)]
        } else {
            Seq::empty()
        },
        None => Seq::empty(),
    }
}

/// The texts of a list of headers.
pub open spec fn header_texts(v: Seq<(String, String)>) -> Seq<(Seq<char>, Seq<char>)> {
    v.map_values(|h: (String, String)| (h.0@, h.1@))
}

/// A planned search request.
pub struct SearchRequest {
    /// The URL to `GET`.
    pub url: reqwest::Url,
    /// The headers to send, in order.
    pub headers: Vec<(String, String)>,
    /// The arguments the request was made from.
    pub params: SearchParams,
}

impl SearchRequest {
    /// The serialization of the request URL.
    pub fn url_text(&self) -> (r: String)
        ensures
            r@ == url_text(self.url),
    {
        url_string(&self.url)
    }
}

/// The text `Url::parse` is given: the base URL without trailing slashes,
/// then `/search`.
pub open spec fn search_url_input(base_url: Seq<char>) -> Seq<char> {
    trim_end_slashes(base_url) + "/search"@
}

/// The message when no base URL is configured.
pub open spec fn no_base_url_message() -> Seq<char> {
    "Searx base_url not configured"@
}

/// The message when the base URL does not parse.
pub open spec fn invalid_base_url_message(detail: Seq<char>) -> Seq<char> {
    "Invalid base_url: "@ + detail
}

/// What planning a search gives for a tool configured as `t` and the
/// arguments `args`: the missing-query error first, then the
/// missing-base-URL error, then the URL parse error.
pub open spec fn plan_outcome_ok(t: ToolConfig, args: Json) -> bool {
    &&& args_query(args) is Some
    &&& trim_ws(t.base_url).len() > 0
    &&& url_parse_outcome(search_url_input(t.base_url)) is Ok
}

/// The URL to request, without its trailing slashes, with the search path.
fn search_url_text(base_url: &str) -> (r: String)
    ensures
        r@ == search_url_input(base_url@),
{
    let mut s = trim_trailing_slashes(base_url).to_owned();
    s.append("/search");
    s
}

/// Appends an optional argument as a query pair when it is given and not
/// empty.
fn append_optional(u: &mut reqwest::Url, name: &str, value: &Option<String>)
    ensures
        url_text(*final(u)) == with_pairs(url_text(*old(u)), optional_pair(name@, opt_string(*value))),
{
    match value {
        Some(v) => {
            if v.as_str().unicode_len() > 0 {
                let ghost before = url_text(*u);
                append_query_pair(u, name, v.as_str());
                proof {
                    let ps = optional_pair(name@, opt_string(*value));
                    assert(ps.drop_last() =~= Seq::<(Seq<char>, Seq<char>)>::empty());
                    assert(with_pairs(before, ps.drop_last()) == before);
                    assert(ps.last() == (name@, v@));
                }
            } else {
                assert(optional_pair(name@, opt_string(*value)) =~= Seq::<
                    (Seq<char>, Seq<char>),
                >::empty());
            }
        },
        None => {
            assert(optional_pair(name@, opt_string(*value)) =~= Seq::<
                (Seq<char>, Seq<char>),
            >::empty());
        },
    }
}

/// Appending two lists of pairs one after the other appends their
/// concatenation.
pub proof fn lemma_with_pairs_concat(
    url: Seq<char>,
    a: Seq<(Seq<char>, Seq<char>)>,
    b: Seq<(Seq<char>, Seq<char>)>,
)
    ensures
        with_pairs(with_pairs(url, a), b) == with_pairs(url, a + b),
    decreases b.len(),
{
    if b.len() == 0 {
        assert(a + b =~= a);
    } else {
        lemma_with_pairs_concat(url, a, b.drop_last());
        assert((a + b).drop_last() =~= a + b.drop_last());
        assert((a + b).last() == b.last());
    }
}

/// Builds a header pair.
fn header(name: &str, value: &str) -> (h: (String, String))
    ensures
        h.0@ == name@,
        h.1@ == value@,
{
    (name.to_owned(), value.to_owned())
}

/// A property of the parameter schema: its type and its description.
pub open spec fn schema_property(ty: Seq<char>, desc: Seq<char>) -> Json {
    Json::Object(seq![("type"@, Json::Str(ty)), ("description"@, Json::Str(desc))])
}

/// The JSON schema of the tool's parameters: `q` (required), `engines`,
/// `categories`, `lang`, `pageno` and `max_results`.
pub open spec fn parameters_schema() -> Json {
    Json::Object(
        seq![
            ("type"@, Json::Str("object"@)),
            (
                "properties"@,
                Json::Object(
                    seq![
                        ("q"@, schema_property("string"@, "Search query"@)),
                        ("engines"@, schema_property("string"@, "Comma-separated engine names"@)),
                        ("categories"@, schema_property("string"@, "Comma-separated categories"@)),
                        ("lang"@, schema_property("string"@, "Language code (e.g., en)"@)),
                        ("pageno"@, schema_property("integer"@, "Page number (1-based)"@)),
                        (
                            "max_results"@,
                            schema_property("integer"@, "Maximum results to include in summary"@),
                        ),
                    ],
                ),
            ),
            ("required"@, Json::Array(seq![Json::Str("q"@)])),
        ],
    )
}

/// A string value.
fn text_value(s: &str) -> (v: JsonValue)
    ensures
        v@ == Json::Str(s@),
{
    JsonValue::String(s.to_owned())
}

/// A property of the parameter schema.
fn schema_property_value(ty: &str, desc: &str) -> (v: JsonValue)
    ensures
        v@ == schema_property(ty@, desc@),
{
    let entries = vec![("type".to_owned(), text_value(ty)), ("description".to_owned(), text_value(desc))];
    proof {
        lemma_entry_models(entries@);
        assert(entry_models(entries@) =~= seq![("type"@, Json::Str(ty@)), ("description"@, Json::Str(desc@))]);
    }
    JsonValue::Object(entries)
}

impl SearxSearchTool {
    /// The JSON schema of the tool's parameters.
    pub fn parameters(&self) -> (v: JsonValue)
        ensures
            v@ == parameters_schema(),
    {
        let props = vec![
            ("q".to_owned(), schema_property_value("string", "Search query")),
            ("engines".to_owned(), schema_property_value("string", "Comma-separated engine names")),
            ("categories".to_owned(), schema_property_value("string", "Comma-separated categories")),
            ("lang".to_owned(), schema_property_value("string", "Language code (e.g., en)")),
            ("pageno".to_owned(), schema_property_value("integer", "Page number (1-based)")),
            (
                "max_results".to_owned(),
                schema_property_value("integer", "Maximum results to include in summary"),
            ),
        ];
        let required = vec![text_value("q")];
        proof {
            lemma_entry_models(props@);
            lemma_json_models(required@);
            assert(json_models(required@) =~= seq![Json::Str("q"@)]);
        }
        let ghost props_model = entry_models(props@);
        let top = vec![
            ("type".to_owned(), text_value("object")),
            ("properties".to_owned(), JsonValue::Object(props)),
            ("required".to_owned(), JsonValue::Array(required)),
        ];
        proof {
            lemma_entry_models(top@);
            assert(props_model =~= parameters_schema()->Object_0[1].1->Object_0);
            assert(entry_models(top@) =~= parameters_schema()->Object_0);
        }
        JsonValue::Object(top)
    }

    /// A tool for the SearxNG instance at `base_url` (trailing slashes
    /// removed), with an optional API key, a client with a 15-second request
    /// timeout (or a default client when that cannot be built, or none when
    /// neither can) and a result limit of 6.
    pub fn new(base_url: &str, api_key: Option<&str>) -> (t: Self)
        ensures
            t@.base_url == trim_end_slashes(base_url@),
            t@.base_url.len() > 0 ==> t@.base_url.last() != '/',
            t@.api_key == opt_text(api_key),
            t@.max_results == DEFAULT_MAX_RESULTS,
            t@.max_results == 6,
            t@.client matches Some(c) ==> client_total_timeout(c) == Some(
                (DEFAULT_TIMEOUT_SECS, 0u32),
            ) || client_total_timeout(c) is None,
            t@.client matches Some(c) ==> client_total_timeout(c) == Some((15u64, 0u32))
                || client_total_timeout(c) is None,
    {
        proof {
            crate::text::lemma_trim_end_slashes(base_url@);
        }
        let client = match client_with_timeout(DEFAULT_TIMEOUT_SECS) {
            Some(c) => Some(c),
            None => client_with_defaults(),
        };
        let key = match api_key {
            Some(s) => Some(s.to_owned()),
            None => None,
        };
        SearxSearchTool {
            base_url: trim_trailing_slashes(base_url).to_owned(),
            api_key: key,
            client,
            max_results: DEFAULT_MAX_RESULTS,
        }
    }

    /// The same tool with its result limit set to `max`, clamped into
    /// `[1, 50]`.
    pub fn with_max_results(self, max: usize) -> (t: Self)
        ensures
            t@.base_url == self@.base_url,
            t@.api_key == self@.api_key,
            t@.client == self@.client,
            t@.max_results == clamp_spec(max as int, 1, 50),
            1 <= t@.max_results <= 50,
    {
        let mut t = self;
        t.max_results = clamp_usize(max, 1, 50);
        t
    }

    /// The base URL, without trailing slashes.
    pub fn base_url(&self) -> (r: &str)
        ensures
            r@ == self@.base_url,
    {
        self.base_url.as_str()
    }

    /// The result limit used when a call gives none.
    pub fn max_results(&self) -> (r: usize)
        ensures
            r == self@.max_results,
    {
        self.max_results
    }

    /// The HTTP client that requests are sent with; `None` when no client
    /// could be built on this machine.
    pub fn client(&self) -> (r: Option<&reqwest::Client>)
        ensures
            match r {
                Some(c) => self@.client == Some(*c),
                None => self@.client is None,
            },
    {
        match &self.client {
            Some(c) => Some(c),
            None => None,
        }
    }

    /// The name of the tool.
    pub fn name(&self) -> (r: &'static str)
        ensures
            r@ == "search_engine"@,
    {
        "search_engine"
    }

    /// What the tool does.
    pub fn description(&self) -> (r: &'static str)
        ensures
            r@ == "Search a configured SearxNG instance and return titles, URLs and snippets."@,
    {
        "Search a configured SearxNG instance and return titles, URLs and snippets."
    }

    /// A short description of the tool.
    pub fn compact_description(&self) -> (r: &'static str)
        ensures
            r@ == "Search (SearxNG)"@,
    {
        "Search (SearxNG)"
    }

    /// The headers to send: `Accept`, `User-Agent`, and `Authorization`
    /// with the API key when it is not blank.
    pub fn request_headers(&self) -> (r: Vec<(String, String)>)
        ensures
            header_texts(r@) == request_headers(self@.api_key),
    {
        let mut hs: Vec<(String, String)> = Vec::new();
        hs.push(header("Accept", "application/json"));
        hs.push(header("User-Agent", DEFAULT_USER_AGENT));
        match &self.api_key {
            Some(k) => {
                if trim(k.as_str()).unicode_len() > 0 {
                    hs.push(header("Authorization", k.as_str()));
                }
            },
            None => {},
        }
        assert(header_texts(hs@) =~= request_headers(self@.api_key));
        hs
    }

    /// Plans the request for a call with the arguments `args`: reads the
    /// arguments, checks that a base URL is configured, and builds the URL
    /// `<base_url>/search` with the query pairs and the headers.
    pub fn plan_request(&self, args: &JsonValue) -> (r: Result<SearchRequest, ZeptoError>)
        ensures
            r is Ok <==> plan_outcome_ok(self@, args@),
            r matches Ok(req) ==> {
                &&& params_match(req.params, args@, self@.max_results)
                &&& url_parse_outcome(search_url_input(self@.base_url)) matches Ok(u) && url_text(
                    req.url,
                ) == with_pairs(u, query_pairs(req.params))
                &&& header_texts(req.headers@) == request_headers(self@.api_key)
            },
            r matches Err(e) ==> error_message(e) == if args_query(args@) is None {
                missing_query_message()
            } else if trim_ws(self@.base_url).len() == 0 {
                no_base_url_message()
            } else {
                invalid_base_url_message(url_parse_outcome(search_url_input(self@.base_url))->Err_0)
            },
    {
        let params = match parse_args(args, self.max_results) {
            Ok(p) => p,
            Err(e) => {
                return Err(e);
            },
        };
        if trim(self.base_url.as_str()).unicode_len() == 0 {
            return Err(ZeptoError::Tool("Searx base_url not configured".to_owned()));
        }
        let url_str = search_url_text(self.base_url.as_str());
        let mut url = match parse_url(url_str.as_str()) {
            Ok(u) => u,
            Err(m) => {
                let mut msg = "Invalid base_url: ".to_owned();
                msg.append(m.as_str());
                return Err(ZeptoError::Tool(msg));
            },
        };
        let ghost start = url_text(url);
        let pageno = u64_to_decimal(params.pageno as u64);
        append_query_pair(&mut url, "q", params.query.as_str());
        let ghost u1 = url_text(url);
        append_query_pair(&mut url, "format", "json");
        let ghost u2 = url_text(url);
        append_query_pair(&mut url, "pageno", pageno.as_str());
        proof {
            let first = seq![
                ("q"@, params.query@),
                ("format"@, "json"@),
                ("pageno"@, decimal(params.pageno as nat)),
            ];
            assert(first.drop_last().drop_last().drop_last() =~= Seq::<
                (Seq<char>, Seq<char>),
            >::empty());
            assert(first.drop_last().drop_last() =~= seq![("q"@, params.query@)]);
            assert(first.drop_last() =~= seq![("q"@, params.query@), ("format"@, "json"@)]);
            assert(with_pairs(start, first.drop_last().drop_last().drop_last()) == start);
            assert(with_pairs(start, first.drop_last().drop_last()) == u1);
            assert(with_pairs(start, first.drop_last()) == u2);
            assert(url_text(url) == with_pairs(start, first));
        }
        let ghost after_first = url_text(url);
        append_optional(&mut url, "engines", &params.engines);
        let ghost after_engines = url_text(url);
        append_optional(&mut url, "categories", &params.categories);
        let ghost after_categories = url_text(url);
        append_optional(&mut url, "lang", &params.lang);
        proof {
            let first = seq![
                ("q"@, params.query@),
                ("format"@, "json"@),
                ("pageno"@, decimal(params.pageno as nat)),
            ];
            let pe = optional_pair("engines"@, opt_string(params.engines));
            let pc = optional_pair("categories"@, opt_string(params.categories));
            let pl = optional_pair("lang"@, opt_string(params.lang));
            lemma_with_pairs_concat(start, first, pe);
            lemma_with_pairs_concat(start, first + pe, pc);
            lemma_with_pairs_concat(start, first + pe + pc, pl);
            assert(query_pairs(params) == first + pe + pc + pl);
        }
        let headers = self.request_headers();
        Ok(SearchRequest { url, headers, params })
    }
}

/// Whether an HTTP status is a success (200 to 299).
pub open spec fn is_success_status(status: u16) -> bool {
    200 <= status <= 299
}

/// The message for a reply with a failure status: the status, and the
/// trimmed body in brackets when it is not blank.
pub open spec fn status_error_message(status_text: Seq<char>, body: Seq<char>) -> Seq<char> {
    if trim_ws(body).len() == 0 {
        "Searx API error: "@ + status_text
    } else {
        "Searx API error: "@ + status_text + " ("@ + trim_ws(body) + ")"@
    }
}

/// The error for a reply with HTTP status `status` (printed as
/// `status_text`, such as `404 Not Found`) and body `body`; none for a
/// success status.
pub fn status_error(status: u16, status_text: &str, body: &str) -> (r: Option<ZeptoError>)
    ensures
        is_success_status(status) ==> r is None,
        !is_success_status(status) ==> (r matches Some(e) && error_message(e)
            == status_error_message(status_text@, body@)),
{
    if 200 <= status && status <= 299 {
        return None;
    }
    let detail = trim(body);
    let mut msg = "Searx API error: ".to_owned();
    msg.append(status_text);
    if detail.unicode_len() > 0 {
        msg.append(" (");
        msg.append(detail);
        msg.append(")");
    }
    Some(ZeptoError::Tool(msg))
}

/// The error when the request could not be sent.
pub fn request_failed(detail: &str) -> (e: ZeptoError)
    ensures
        error_message(e) == "Search request failed: "@ + detail@,
{
    let mut msg = "Search request failed: ".to_owned();
    msg.append(detail);
    ZeptoError::Tool(msg)
}

/// The error when the reply is not JSON.
pub fn response_not_json(detail: &str) -> (e: ZeptoError)
    ensures
        error_message(e) == "Failed to parse searx response: "@ + detail@,
{
    let mut msg = "Failed to parse searx response: ".to_owned();
    msg.append(detail);
    ZeptoError::Tool(msg)
}

/// The error when the pruned reply cannot be written as JSON.
pub fn serialize_failed(detail: &str) -> (e: ZeptoError)
    ensures
        error_message(e) == "Failed to serialize json: "@ + detail@,
{
    let mut msg = "Failed to serialize json: ".to_owned();
    msg.append(detail);
    ZeptoError::Tool(msg)
}

/// What the tool answers: the pruned reply, to be written as JSON, or its
/// Markdown.
#[derive(Debug, PartialEq, Eq)]
pub enum SearchOutput {
    Json(JsonValue),
    Markdown(String),
}

/// Whether the answer `out` is what the tool gives for the raw reply `raw`
/// in the output format `format`.
pub open spec fn output_matches(out: SearchOutput, raw: Json, max_results: usize, format: Seq<char>) -> bool {
    if format == "json"@ {
        out matches SearchOutput::Json(v) && v@ == pruned_output(raw)
    } else {
        out matches SearchOutput::Markdown(md) && md@ == search_markdown(
            pruned_output(raw),
            max_results as nat,
        )
    }
}

/// The answer to a raw SearxNG reply: the reply is pruned, then given as
/// JSON when the configured format is `json`, and as Markdown otherwise.
pub fn respond(query: &str, raw: &JsonValue, max_results: usize, format: &str) -> (out:
    SearchOutput)
    ensures
        output_matches(out, raw@, max_results, format@),
{
    let pruned = build_pruned_output(query, raw, max_results);
    if crate::text::str_eq(format, "json") {
        SearchOutput::Json(pruned)
    } else {
        SearchOutput::Markdown(build_search_markdown(query, &pruned, max_results))
    }
}

/// The arguments are read from the keys the parameter schema names: `q`
/// (trimmed, not blank), `engines`, `categories` and `lang` (trimmed, when
/// strings), `pageno` (a non-negative integer, truncated to `u32`, else 1)
/// and `max_results` (a non-negative integer, else the tool's limit,
/// clamped into `[1, 50]`).
pub proof fn law_params_read(p: SearchParams, args: Json, default_max: usize)
    requires
        params_match(p, args, default_max),
    ensures
        opt_str(json_get(args, "q"@)) is Some,
        p.query@ == trim_ws(opt_str(json_get(args, "q"@))->0),
        p.query@.len() > 0,
        opt_string(p.engines) == (match opt_str(json_get(args, "engines"@)) {
            Some(s) => Some(trim_ws(s)),
            None => None,
        }),
        opt_string(p.categories) == (match opt_str(json_get(args, "categories"@)) {
            Some(s) => Some(trim_ws(s)),
            None => None,
        }),
        opt_string(p.lang) == (match opt_str(json_get(args, "lang"@)) {
            Some(s) => Some(trim_ws(s)),
            None => None,
        }),
        p.pageno == (match opt_u64(json_get(args, "pageno"@)) {
            Some(n) => n as u32,
            None => 1u32,
        }),
        1 <= p.max_results <= 50,
        opt_u64(json_get(args, "max_results"@)) is None ==> p.max_results == clamp_spec(
            default_max as int,
            1,
            50,
        ),
        opt_u64(json_get(args, "max_results"@)) matches Some(n) ==> p.max_results == clamp_spec(
            (n as usize) as int,
            1,
            50,
        ),
{
}

/// Whether an optional argument is given and not empty.
pub open spec fn given(o: Option<Seq<char>>) -> bool {
    o is Some && o->0.len() > 0
}

/// The query pairs come in order: `q` with the query, `format=json`,
/// `pageno` with the page's decimal text, then `engines`, `categories` and
/// `lang`, each exactly when given and not empty, with its value; `lang`
/// last when it is sent.
pub proof fn law_query_pairs(p: SearchParams)
    ensures
        query_pairs(p).len() == 3 + (if given(opt_string(p.engines)) {
            1int
        } else {
            0
        }) + (if given(opt_string(p.categories)) {
            1int
        } else {
            0
        }) + (if given(opt_string(p.lang)) {
            1int
        } else {
            0
        }),
        query_pairs(p)[0] == ("q"@, p.query@),
        query_pairs(p)[1] == ("format"@, "json"@),
        query_pairs(p)[2] == ("pageno"@, decimal(p.pageno as nat)),
        given(opt_string(p.engines)) ==> query_pairs(p)[3] == ("engines"@, opt_string(p.engines)->0),
        given(opt_string(p.categories)) ==> query_pairs(p).contains(
            ("categories"@, opt_string(p.categories)->0),
        ),
        given(opt_string(p.lang)) ==> query_pairs(p).last() == ("lang"@, opt_string(p.lang)->0),
{
    let first = seq![("q"@, p.query@), ("format"@, "json"@), ("pageno"@, decimal(p.pageno as nat))];
    let pe = optional_pair("engines"@, opt_string(p.engines));
    let pc = optional_pair("categories"@, opt_string(p.categories));
    let pl = optional_pair("lang"@, opt_string(p.lang));
    let qp = query_pairs(p);
    assert(qp == first + pe + pc + pl);
    if given(opt_string(p.categories)) {
        let k = 3 + pe.len();
        assert(qp[k as int] == ("categories"@, opt_string(p.categories)->0));
    }
}

/// The text of member `k` of the arguments, trimmed, when it is a string.
pub open spec fn arg_text(args: Json, k: Seq<char>) -> Option<Seq<char>> {
    match opt_str(json_get(args, k)) {
        Some(s) => Some(trim_ws(s)),
        None => None,
    }
}

/// The planned URL carries the arguments: when `lang` is given and not
/// blank, the last pair appended to the URL is `lang` with the trimmed
/// value; `engines` and `categories`, when given and not blank, are among
/// the pairs with their trimmed values.
pub proof fn law_planned_pairs_from_args(p: SearchParams, args: Json, default_max: usize, u: Seq<char>)
    requires
        params_match(p, args, default_max),
    ensures
        given(arg_text(args, "lang"@)) ==> with_pairs(u, query_pairs(p)) == url_with_pair(
            with_pairs(u, query_pairs(p).drop_last()),
            "lang"@,
            arg_text(args, "lang"@)->0,
        ),
        given(arg_text(args, "engines"@)) ==> query_pairs(p).contains(
            ("engines"@, arg_text(args, "engines"@)->0),
        ),
        given(arg_text(args, "categories"@)) ==> query_pairs(p).contains(
            ("categories"@, arg_text(args, "categories"@)->0),
        ),
{
    law_params_read(p, args, default_max);
    law_query_pairs(p);
    if given(opt_string(p.engines)) {
        assert(query_pairs(p)[3] == ("engines"@, opt_string(p.engines)->0));
    }
}

/// The request asks for JSON, names the tool's user agent, and sends the
/// API key as `Authorization` exactly when the key is not blank.
pub proof fn law_request_headers(api_key: Option<Seq<char>>)
    ensures
        request_headers(api_key)[0] == ("Accept"@, "application/json"@),
        request_headers(api_key)[1] == (
            "User-Agent"@,
            "zeptoclaw/0.1 (+https://github.com/zeptoclaw/zeptoclaw)"@,
        ),
        request_headers(api_key).len() == if api_key is Some && trim_ws(api_key->0).len() > 0 {
            3int
        } else {
            2int
        },
        api_key is Some && trim_ws(api_key->0).len() > 0 ==> request_headers(api_key)[2] == (
            "Authorization"@,
            api_key->0,
        ),
{
}

/// The URL requested is the base URL without its trailing slashes, followed
/// by `/search`.
pub proof fn law_search_url_input(base_url: Seq<char>)
    ensures
        search_url_input(base_url) == trim_end_slashes(base_url) + "/search"@,
        search_url_input(base_url).subrange(0, trim_end_slashes(base_url).len() as int)
            == trim_end_slashes(base_url),
{
    assert(search_url_input(base_url).subrange(0, trim_end_slashes(base_url).len() as int)
        =~= trim_end_slashes(base_url));
}

/// The message of a failure status: `Searx API error: ` and the status, and
/// the trimmed body in brackets when it is not blank.
pub proof fn law_status_message(status_text: Seq<char>, body: Seq<char>)
    ensures
        status_error_message(status_text, body) == if trim_ws(body).len() == 0 {
            "Searx API error: "@ + status_text
        } else {
            "Searx API error: "@ + status_text + " ("@ + trim_ws(body) + ")"@
        },
{
}

/// The success statuses are exactly 200 to 299.
pub proof fn law_success_statuses(status: u16)
    ensures
        is_success_status(status) <==> (200 <= status && status < 300),
{
}

/// The answer is the pruned JSON exactly when the format is `json`, and
/// Markdown for any other format.
pub proof fn law_output_format(out: SearchOutput, raw: Json, max_results: usize, format: Seq<char>)
    requires
        output_matches(out, raw, max_results, format),
    ensures
        format == "json"@ ==> out is Json,
        format != "json"@ ==> out is Markdown,
{
}

} // verus!

//! The naming rules of the HTTP handler generator: which HTTP method and
//! extractor an attribute names, and the name of the generated router.

use vstd::prelude::*;
use crate::text::{char_is_uppercase, is_upper, lowercase, same_text, string_of, to_lowercase, to_uppercase, uppercase};

verus! {

/// The HTTP method of a handler.
#[derive(Clone, Copy, Debug, PartialEq, Eq, Structural)]
pub enum HttpMethod {
    Get,
    Post,
    Put,
    Delete,
    Patch,
}

/// The method an attribute identifier names, ignoring case.
pub open spec fn method_named(s: Seq<char>) -> Option<HttpMethod> {
    let u = uppercase(s);
    if u == "GET"@ {
        Some(HttpMethod::Get)
    } else if u == "POST"@ {
        Some(HttpMethod::Post)
    } else if u == "PUT"@ {
        Some(HttpMethod::Put)
    } else if u == "DELETE"@ {
        Some(HttpMethod::Delete)
    } else if u == "PATCH"@ {
        Some(HttpMethod::Patch)
    } else {
        None
    }
}

/// The routing function of axum for a method.
pub open spec fn axum_fn_path(m: HttpMethod) -> Seq<char> {
    match m {
        HttpMethod::Get => "axum::routing::get"@,
        HttpMethod::Post => "axum::routing::post"@,
        HttpMethod::Put => "axum::routing::put"@,
        HttpMethod::Delete => "axum::routing::delete"@,
        HttpMethod::Patch => "axum::routing::patch"@,
    }
}

impl HttpMethod {
    /// The method named by attribute identifier `ident` (such as `post`),
    /// ignoring case; otherwise the compile error message to report.
    pub fn try_from(ident: &str) -> (r: Result<HttpMethod, String>)
        ensures
            match method_named(ident@) {
                Some(m) => r == Ok::<HttpMethod, String>(m),
                None => r matches Err(msg) && msg@ == "unknown HTTP method `"@ + ident@
                    + "`, expected get, post, put, delete, or patch"@,
            },
    {
        let u = to_uppercase(ident);
        if same_text(u.as_str(), "GET") {
            Ok(HttpMethod::Get)
        } else if same_text(u.as_str(), "POST") {
            Ok(HttpMethod::Post)
        } else if same_text(u.as_str(), "PUT") {
            Ok(HttpMethod::Put)
        } else if same_text(u.as_str(), "DELETE") {
            Ok(HttpMethod::Delete)
        } else if same_text(u.as_str(), "PATCH") {
            Ok(HttpMethod::Patch)
        } else {
            Err(String::from_str("unknown HTTP method `").concat(ident).concat(
                "`, expected get, post, put, delete, or patch",
            ))
        }
    }

    /// The path of axum's routing function for this method.
    pub fn as_axum_fn(&self) -> (r: &'static str)
        ensures
            r@ == axum_fn_path(*self),
    {
        match self {
            HttpMethod::Get => "axum::routing::get",
            HttpMethod::Post => "axum::routing::post",
            HttpMethod::Put => "axum::routing::put",
            HttpMethod::Delete => "axum::routing::delete",
            HttpMethod::Patch => "axum::routing::patch",
        }
    }
}

/// How a handler argument is extracted from the request.
#[derive(Clone, Copy, Debug, PartialEq, Eq, Structural)]
pub enum Extractor {
    Json,
    Query,
}

/// The extractor an argument attribute names, ignoring case.
pub open spec fn extractor_named(s: Seq<char>) -> Option<Extractor> {
    let u = uppercase(s);
    if u == "JSON"@ {
        Some(Extractor::Json)
    } else if u == "QUERY"@ {
        Some(Extractor::Query)
    } else {
        None
    }
}

impl Extractor {
    /// The extractor named by attribute identifier `ident` (such as `query`),
    /// ignoring case; otherwise the compile error message to report.
    pub fn try_from(ident: &str) -> (r: Result<Extractor, String>)
        ensures
            match extractor_named(ident@) {
                Some(x) => r == Ok::<Extractor, String>(x),
                None => r matches Err(msg) && msg@ == "unknown extractor `"@ + ident@
                    + "`, expected json, query, etc..."@,
            },
    {
        let u = to_uppercase(ident);
        if same_text(u.as_str(), "JSON") {
            Ok(Extractor::Json)
        } else if same_text(u.as_str(), "QUERY") {
            Ok(Extractor::Query)
        } else {
            Err(String::from_str("unknown extractor `").concat(ident).concat("`, expected json, query, etc..."))
        }
    }
}

/// `s` with an underscore put before every upper-case character.
pub open spec fn underscore_capitals(s: Seq<char>) -> Seq<char>
    decreases s.len(),
{
    if s.len() == 0 {
        Seq::empty()
    } else {
        let rest = underscore_capitals(s.drop_last());
        if is_upper(s.last()) { rest + seq!['_', s.last()] } else { rest.push(s.last()) }
    }
}

/// The name of the router generated for the trait named `trait_name`: the
/// trait name in snake case, followed by `_handler`.
pub open spec fn router_name_spec(trait_name: Seq<char>) -> Seq<char> {
    lowercase(underscore_capitals(trait_name + "_handler"@).drop_first())
}

/// Name the router of a trait implementation: every capital gets an
/// underscore before it, the first character is dropped, and the result is
/// lower-cased (`ChatApi` gives `chat_api_handler`).
pub fn router_name(trait_name: &str) -> (r: String)
    ensures
        r@ == router_name_spec(trait_name@),
{
    let full = String::from_str(trait_name).concat("_handler");
    let n = full.as_str().unicode_len();
    let mut out: Vec<char> = Vec::new();
    let mut i: usize = 0;
    while i < n
        invariant
            n == full@.len(),
            i <= n,
            out@ == underscore_capitals(full@.subrange(0, i as int)),
        decreases n - i,
    {
        let c = full.as_str().get_char(i);
        proof {
            let p = full@.subrange(0, i + 1);
            assert(p.drop_last() =~= full@.subrange(0, i as int));
            assert(p.last() == c);
        }
        if char_is_uppercase(c) {
            out.push('_');
            out.push(c);
            proof {
                assert(out@ =~= underscore_capitals(full@.subrange(0, i as int)) + seq!['_', c]);
            }
        } else {
            out.push(c);
        }
        i += 1;
    }
    proof {
        assert(full@.subrange(0, n as int) =~= full@);
        lemma_underscore_capitals_nonempty(full@);
        reveal_strlit("_handler");
    }
    out.remove(0);
    let s = string_of(&out);
    to_lowercase(s.as_str())
}

proof fn lemma_underscore_capitals_nonempty(s: Seq<char>)
    ensures
        underscore_capitals(s).len() >= s.len(),
    decreases s.len(),
{
    if s.len() > 0 {
        lemma_underscore_capitals_nonempty(s.drop_last());
    }
}

/// Which extractor an argument uses, judged by how many outer attributes
/// annotate it.
#[derive(Clone, Copy, Debug, PartialEq, Eq, Structural)]
pub enum ArgumentAnnotation {
    /// No annotation: the argument is passed through as written.
    Plain,
    /// Exactly one annotation: it names the extractor.
    Extracted,
    /// More than one: refused.
    TooMany,
}

/// Classify an argument by its number of outer attributes.
pub fn classify_argument(outer_attributes: usize) -> (a: ArgumentAnnotation)
    ensures
        a == (if outer_attributes == 0 {
            ArgumentAnnotation::Plain
        } else if outer_attributes == 1 {
            ArgumentAnnotation::Extracted
        } else {
            ArgumentAnnotation::TooMany
        }),
{
    if outer_attributes == 0 {
        ArgumentAnnotation::Plain
    } else if outer_attributes == 1 {
        ArgumentAnnotation::Extracted
    } else {
        ArgumentAnnotation::TooMany
    }
}

} // verus!

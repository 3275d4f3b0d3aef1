//! Queries: the request that asks for an answer, and what becomes of the
//! reply.

use crate::error::{description_of, outcome, DecodeError, DecodeErrorModel};
use crate::response::{response_of_text, Response, ResponseModel};
use vstd::prelude::*;
use vstd::string::*;

verus! {

#[verifier::external_type_specification]
#[verifier::external_body]
pub struct ExParseError(url::ParseError);

/// Where every request goes. Answers are asked for as JSON, and never as a
/// redirect.
pub const BASE: &'static str = "https://api.duckduckgo.com?format=json&no_redirect=1";

/// Asks for text fields without HTML.
pub const NO_HTML: &'static str = "&no_html=1";

/// Asks for no disambiguation entries.
pub const SKIP_DISAMBIG: &'static str = "&skip_disambig=1";

/// The parameter that carries the query.
pub const QUERY_KEY: &'static str = "q";

/// The parameter that carries the name of the application.
pub const NAME_KEY: &'static str = "t";

/// How many nested `Topics` arrays a reply may hold, unless the query says
/// otherwise.
pub const DEFAULT_MAX_DEPTH: usize = 32;

/// The URL that `Url::parse_with_params` makes of a base and the pairs to
/// add to its query string, or `None` where the base is no absolute URL.
pub uninterp spec fn url_with_params(base: Seq<char>, pairs: Seq<(Seq<char>, Seq<char>)>) -> Option<
    Seq<char>,
>;

/// The pairs as values, one for one.
pub open spec fn pair_models(pairs: Seq<(String, String)>) -> Seq<(Seq<char>, Seq<char>)> {
    Seq::new(pairs.len(), |i: int| (pairs[i].0@, pairs[i].1@))
}

/// No `#` stands in the text: a URL made of it has no fragment.
pub open spec fn without_fragment(text: Seq<char>) -> bool {
    forall|i: int| 0 <= i < text.len() ==> text[i] != '#'
}

/// `Url::parse_with_params` of the url crate, by the name under which
/// reqwest hands it on: parses `base` as an absolute URL and appends `pairs`
/// to its query string, form-urlencoded. The URL comes back as its text.
/// The bases left out are those on which the url crate would have to store
/// an offset beyond its 32 bits.
#[verifier::external_body]
fn parse_with_params(base: &str, pairs: &Vec<(String, String)>) -> (r: Result<
    String,
    url::ParseError,
>)
    requires
        without_fragment(base@),
        base@.len() <= 0x100_0000,
    ensures
        match r {
            Ok(url) => url_with_params(base@, pair_models(pairs@)) == Some(url@),
            Err(_) => url_with_params(base@, pair_models(pairs@)) is None,
        },
{
    match reqwest::Url::parse_with_params(base, pairs.iter()) {
        Ok(url) => Ok(url.into()),
        Err(error) => Err(error),
    }
}

/// Error from asking, or from reading the reply.
#[derive(Debug)]
pub enum Error<E> {
    /// An error in making the HTTP request, as the transport reports it.
    Http(E),
    /// An error in decoding the JSON.
    Serde(DecodeError),
    /// An error in parsing the URL.
    Url(url::ParseError),
}

/// The mathematical value of an [`Error`].
pub ghost enum ErrorModel<E> {
    Http(E),
    Serde(DecodeErrorModel),
    Url(url::ParseError),
}

impl<E> View for Error<E> {
    type V = ErrorModel<E>;

    open spec fn view(&self) -> ErrorModel<E> {
        match self {
            Error::Http(error) => ErrorModel::Http(*error),
            Error::Serde(error) => ErrorModel::Serde(error@),
            Error::Url(error) => ErrorModel::Url(*error),
        }
    }
}

/// `url::ParseError`'s `Display`: what the error says of itself.
#[verifier::external_body]
fn url_error_text(error: &url::ParseError) -> (text: String)
{
    error.to_string()
}

impl<E: core::fmt::Display> Error<E> {
    /// A short description of the error: that of the error inside.
    pub fn description(&self) -> (text: String)
        ensures
            self is Serde ==> text@ == description_of(self->Serde_0@),
            self is Http ==> to_string_from_display_ensures::<E>(&self->Http_0, text),
    {
        match self {
            Error::Http(error) => error.to_string(),
            Error::Serde(error) => error.description(),
            Error::Url(error) => url_error_text(error),
        }
    }

    /// The error as a line of text: where it arose, then its description.
    pub fn message(&self) -> (text: String)
        ensures
            self is Http ==> exists|detail: String|
                to_string_from_display_ensures::<E>(&self->Http_0, detail) && text@ == "Http: "@
                    + detail@,
            self is Serde ==> text@ == "Serde: "@ + description_of(self->Serde_0@),
            self is Url ==> exists|detail: Seq<char>| text@ == "Url: "@ + detail,
    {
        let detail = self.description();
        let mut text = match self {
            Error::Http(_) => "Http: ".to_owned(),
            Error::Serde(_) => "Serde: ".to_owned(),
            Error::Url(_) => "Url: ".to_owned(),
        };
        text.append(detail.as_str());
        text
    }
}

/// A builder for the query.
#[derive(Clone, Debug)]
pub struct Query {
    name: String,
    no_html: bool,
    query: String,
    skip_disambig: bool,
    max_depth: usize,
}

/// The mathematical value of a [`Query`].
pub ghost struct QueryModel {
    pub name: Seq<char>,
    pub no_html: bool,
    pub query: Seq<char>,
    pub skip_disambig: bool,
    pub max_depth: nat,
}

impl View for Query {
    type V = QueryModel;

    closed spec fn view(&self) -> QueryModel {
        QueryModel {
            name: self.name@,
            no_html: self.no_html,
            query: self.query@,
            skip_disambig: self.skip_disambig,
            max_depth: self.max_depth as nat,
        }
    }
}

/// The text to which the query and the name are added: the base, and each
/// option that is set.
pub open spec fn base_of(query: QueryModel) -> Seq<char> {
    BASE@ + (if query.no_html {
        NO_HTML@
    } else {
        Seq::empty()
    }) + (if query.skip_disambig {
        SKIP_DISAMBIG@
    } else {
        Seq::empty()
    })
}

/// The URL of the request, or `None` where none can be made.
pub open spec fn url_of(query: QueryModel) -> Option<Seq<char>> {
    url_with_params(base_of(query), seq![(QUERY_KEY@, query.query), (NAME_KEY@, query.name)])
}

/// What becomes of what the transport brought back: its failure is handed
/// on, and a reply is decoded.
pub open spec fn answer_of<E>(fetched: Result<String, E>, depth: nat) -> Result<
    ResponseModel,
    ErrorModel<E>,
> {
    match fetched {
        Ok(body) => match response_of_text(body@, depth) {
            Ok(response) => Ok(response),
            Err(error) => Err(ErrorModel::Serde(error)),
        },
        Err(error) => Err(ErrorModel::Http(error)),
    }
}

/// Decodes what the transport brought back.
pub fn answer<E>(fetched: Result<String, E>, depth: usize) -> (r: Result<Response, Error<E>>)
    ensures
        outcome(r) == answer_of(fetched, depth as nat),
{
    match fetched {
        Ok(body) => match Response::from_str(body.as_str(), depth) {
            Ok(response) => Ok(response),
            Err(error) => Err(Error::Serde(error)),
        },
        Err(error) => Err(Error::Http(error)),
    }
}

impl Default for Query {
    fn default() -> (query: Query)
        ensures
            query@ == (QueryModel {
                name: Seq::empty(),
                no_html: false,
                query: Seq::empty(),
                skip_disambig: false,
                max_depth: DEFAULT_MAX_DEPTH as nat,
            }),
    {
        Query {
            name: String::new(),
            no_html: false,
            query: String::new(),
            skip_disambig: false,
            max_depth: DEFAULT_MAX_DEPTH,
        }
    }
}

impl Query {
    /// Constructs a new query object, requiring the **query**, and the
    /// **name** of your app. It is recommended to use a constant for the
    /// name of your app.
    pub fn new(query: &str, name: &str) -> (made: Query)
        ensures
            made@ == (QueryModel {
                name: name@,
                no_html: false,
                query: query@,
                skip_disambig: false,
                max_depth: DEFAULT_MAX_DEPTH as nat,
            }),
    {
        Query {
            name: name.to_owned(),
            no_html: false,
            query: query.to_owned(),
            skip_disambig: false,
            max_depth: DEFAULT_MAX_DEPTH,
        }
    }

    /// Will strip out any HTML content from the text in the response
    /// (italics, bolds, etc).
    pub fn no_html(self) -> (made: Query)
        ensures
            made@ == (QueryModel { no_html: true, ..self@ }),
    {
        Query { no_html: true, ..self }
    }

    /// Skip the D (disambiguation) type of Instant Answer.
    pub fn skip_disambig(self) -> (made: Query)
        ensures
            made@ == (QueryModel { skip_disambig: true, ..self@ }),
    {
        Query { skip_disambig: true, ..self }
    }

    /// Allows `depth` nested `Topics` arrays in the reply, and no more.
    pub fn max_depth(self, depth: usize) -> (made: Query)
        ensures
            made@ == (QueryModel { max_depth: depth as nat, ..self@ }),
    {
        Query { max_depth: depth, ..self }
    }

    /// The URL of the request.
    pub fn into_url(self) -> (r: Result<String, url::ParseError>)
        ensures
            match r {
                Ok(url) => url_of(self@) == Some(url@),
                Err(_) => url_of(self@) is None,
            },
    {
        let mut base = BASE.to_owned();
        if self.no_html {
            base.append(NO_HTML);
        }
        if self.skip_disambig {
            base.append(SKIP_DISAMBIG);
        }
        let mut pairs: Vec<(String, String)> = Vec::new();
        pairs.push((QUERY_KEY.to_owned(), self.query));
        pairs.push((NAME_KEY.to_owned(), self.name));
        proof {
            reveal_strlit("https://api.duckduckgo.com?format=json&no_redirect=1");
            reveal_strlit("&no_html=1");
            reveal_strlit("&skip_disambig=1");
            assert(base@ =~= base_of(self@));
            assert(pair_models(pairs@) =~= seq![
                (QUERY_KEY@, self@.query),
                (NAME_KEY@, self@.name),
            ]);
            assert(without_fragment(BASE@));
            assert(without_fragment(NO_HTML@));
            assert(without_fragment(SKIP_DISAMBIG@));
        }
        parse_with_params(base.as_str(), &pairs)
    }

    /// Makes the request and decodes the reply into a `Response`. The
    /// request itself is left to `fetch`, which is handed the URL and brings
    /// back the body of the reply; it is not called where no URL can be
    /// made.
    pub fn execute<E, F: FnOnce(String) -> Result<String, E>>(self, fetch: F) -> (r: Result<
        Response,
        Error<E>,
    >)
        requires
            forall|url: String| #[trigger] fetch.requires((url,)),
        ensures
            match url_of(self@) {
                Some(url) => exists|sent: String, fetched: Result<String, E>|
                    sent@ == url && #[trigger] fetch.ensures((sent,), fetched) && outcome(r)
                        == answer_of(fetched, self@.max_depth),
                None => r is Err && r->Err_0 is Url,
            },
    {
        let depth = self.max_depth;
        match self.into_url() {
            Ok(url) => {
                let fetched = fetch(url);
                answer(fetched, depth)
            },
            Err(error) => Err(Error::Url(error)),
        }
    }
}

} // verus!

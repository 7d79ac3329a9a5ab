//! The client side of the origin registry: a web service that maps a
//! namespace to the address of the relay that is its origin. This module
//! builds the requests and reads the answers; sending and receiving is the
//! caller's.
use vstd::prelude::*;


verus! {

/// Why a call to the registry failed.
#[derive(Clone, Copy, Debug, PartialEq, Eq, Structural)]
pub enum ApiError {
    /// The registry answered with this status, which is no success.
    Http(u16),
    /// The request did not get through, or the answer could not be read.
    Network,
    /// An address is no URL.
    InvalidUrl,
}

impl ApiError {
    /// The number that stands for the error: the status of an answer that
    /// was no success, 0 where no answer came, 1 for an address that is no
    /// URL.
    pub open spec fn spec_code(self) -> u32 {
        match self {
            ApiError::Http(status) => status as u32,
            ApiError::Network => 0,
            ApiError::InvalidUrl => 1,
        }
    }

    #[verifier::when_used_as_spec(spec_code)]
    pub fn code(self) -> (c: u32)
        ensures
            c == self.spec_code(),
    {
        match self {
            ApiError::Http(status) => status as u32,
            ApiError::Network => 0,
            ApiError::InvalidUrl => 1,
        }
    }
}

/// The address of the relay that is the origin of a namespace.
#[derive(Clone, Debug, PartialEq, Eq)]
pub struct Origin {
    pub url: String,
}

impl View for Origin {
    type V = Seq<char>;

    open spec fn view(&self) -> Seq<char> {
        self.url@
    }
}

/// What a request asks the registry to do.
#[derive(Clone, Copy, Debug, PartialEq, Eq, Structural)]
pub enum Method {
    Get,
    Post,
    Patch,
    Delete,
}

/// One request to the registry: the method, the address, and the origin
/// that the body carries, if the method has a body.
#[derive(Clone, Debug, PartialEq, Eq)]
pub struct Request {
    pub method: Method,
    pub url: String,
    pub origin: Option<Origin>,
}

/// What a `Request` holds, as plain values.
pub struct RequestView {
    pub method: Method,
    pub url: Seq<char>,
    pub origin: Option<Seq<char>>,
}

impl View for Request {
    type V = RequestView;

    open spec fn view(&self) -> RequestView {
        RequestView {
            method: self.method,
            url: self.url@,
            origin: match self.origin {
                Some(o) => Some(o@),
                None => None,
            },
        }
    }
}

#[verifier::external_type_specification]
#[verifier::external_body]
pub struct ExParseError(url::ParseError);

/// What `Url::parse` of the `url` crate makes of `input`: the URL as it
/// writes it, or nothing where `input` is no absolute URL.
pub uninterp spec fn spec_url_parse(input: Seq<char>) -> Option<Seq<char>>;

/// What `Url::join` of the `url` crate makes of `input` against the URL
/// that `base` spells: the resulting URL as it writes it, or nothing where
/// there is none.
pub uninterp spec fn spec_url_join(base: Seq<char>, input: Seq<char>) -> Option<Seq<char>>;

/// `Url::parse` of the `url` crate: parses an absolute URL. The contract
/// only names the result; it claims that one text always gives one result.
#[verifier::external_body]
fn url_parse(input: &str) -> (r: Result<String, url::ParseError>)
    ensures
        match r {
            Ok(u) => spec_url_parse(input@) == Some(u@),
            Err(_) => spec_url_parse(input@) is None,
        },
{
    let parsed = url::Url::parse(input)?;
    Ok(String::from(parsed))
}

/// `Url::join` of the `url` crate, on the URL that `base` spells: parses
/// `input` with that URL as its base. The contract only names the result;
/// it claims that the same two texts always give one result.
#[verifier::external_body]
fn url_join(base: &str, input: &str) -> (r: Result<String, url::ParseError>)
    ensures
        match r {
            Ok(u) => spec_url_join(base@, input@) == Some(u@),
            Err(_) => spec_url_join(base@, input@) is None,
        },
{
    let base = url::Url::parse(base)?;
    let joined = base.join(input)?;
    Ok(String::from(joined))
}

/// The address of a namespace's entry, given what joining `origin/` to the
/// registry's address and then the namespace to that has made.
pub open spec fn spec_entry_url(
    directory: Option<Seq<char>>,
    entry: spec_fn(Seq<char>) -> Option<Seq<char>>,
) -> Result<Seq<char>, ApiError> {
    match directory {
        None => Err(ApiError::InvalidUrl),
        Some(d) => match entry(d) {
            None => Err(ApiError::InvalidUrl),
            Some(e) => Ok(e),
        },
    }
}

/// The address of the entry of `namespace` in the registry at `base`:
/// `origin/` joined to the base and the namespace joined to that;
/// `InvalidUrl` where a join fails.
pub open spec fn spec_origin_url(base: Seq<char>, namespace: Seq<char>) -> Result<
    Seq<char>,
    ApiError,
> {
    spec_entry_url(spec_url_join(base, "origin/"@), |d: Seq<char>| spec_url_join(d, namespace))
}

/// Whether `status` is a success: 200 to 299.
pub open spec fn spec_is_success(status: u16) -> bool {
    200 <= status <= 299
}

/// What the answer to a `Get` means, given the status and what the body
/// held: an address that has been checked to be a URL (`Some(Some(..))`),
/// an address that is none (`Some(None)`), or nothing readable (`None`).
/// The status 404 says that the namespace has no origin; any other status
/// that is no success is an error; a success needs a readable body with a
/// URL in it.
pub open spec fn spec_read_origin(status: u16, body: Option<Option<Seq<char>>>) -> Result<
    Option<Seq<char>>,
    ApiError,
> {
    if status == 404 {
        Ok(None)
    } else if !spec_is_success(status) {
        Err(ApiError::Http(status))
    } else {
        match body {
            None => Err(ApiError::Network),
            Some(None) => Err(ApiError::InvalidUrl),
            Some(Some(url)) => Ok(Some(url)),
        }
    }
}

/// What the answer to a `Get` means: see `spec_read_origin`.
pub fn decide_origin(status: u16, body: Option<Option<String>>) -> (r: Result<
    Option<Origin>,
    ApiError,
>)
    ensures
        match r {
            Ok(Some(o)) => spec_read_origin(status, spec_body(body)) == Ok::<
                Option<Seq<char>>,
                ApiError,
            >(Some(o@)),
            Ok(None) => spec_read_origin(status, spec_body(body)) == Ok::<
                Option<Seq<char>>,
                ApiError,
            >(None),
            Err(e) => spec_read_origin(status, spec_body(body)) == Err::<
                Option<Seq<char>>,
                ApiError,
            >(e),
        },
{
    if status == 404 {
        Ok(None)
    } else if !is_success(status) {
        Err(ApiError::Http(status))
    } else {
        match body {
            None => Err(ApiError::Network),
            Some(None) => Err(ApiError::InvalidUrl),
            Some(Some(url)) => Ok(Some(Origin { url })),
        }
    }
}

/// What a body holds, as plain values.
pub open spec fn spec_body(body: Option<Option<String>>) -> Option<Option<Seq<char>>> {
    match body {
        None => None,
        Some(None) => Some(None),
        Some(Some(u)) => Some(Some(u@)),
    }
}

/// Whether `status` is a success: 200 to 299.
pub fn is_success(status: u16) -> (b: bool)
    ensures
        b == spec_is_success(status),
{
    200 <= status && status <= 299
}

/// What the answer to a `Get` means, given the status and the address
/// that the body held, if it could be read: the address is checked to be a
/// URL and handed back as the `url` crate writes it.
pub fn read_origin(status: u16, body: Option<&str>) -> (r: Result<Option<Origin>, ApiError>)
    ensures
        match r {
            Ok(Some(o)) => body matches Some(u) && spec_read_origin(
                status,
                Some(spec_url_parse(u@)),
            ) == Ok::<Option<Seq<char>>, ApiError>(Some(o@)),
            Ok(None) => status == 404,
            Err(e) => spec_read_origin(
                status,
                match body {
                    Some(u) => Some(spec_url_parse(u@)),
                    None => None,
                },
            ) == Err::<Option<Seq<char>>, ApiError>(e),
        },
{
    let parsed = match body {
        None => None,
        Some(u) => match url_parse(u) {
            Ok(url) => Some(Some(url)),
            Err(_) => Some(None),
        },
    };
    decide_origin(status, parsed)
}

/// What the answer to a `Post`, `Patch` or `Delete` means: `Ok` for a
/// success, else the status as an error.
pub fn read_status(status: u16) -> (r: Result<(), ApiError>)
    ensures
        r is Ok <==> spec_is_success(status),
        r matches Err(e) ==> e == ApiError::Http(status),
{
    if is_success(status) {
        Ok(())
    } else {
        Err(ApiError::Http(status))
    }
}

/// The address of an entry, given what the two joins have made.
pub fn entry_url(joined: Option<Option<String>>) -> (r: Result<String, ApiError>)
    ensures
        match r {
            Ok(u) => joined == Some(Some(u)),
            Err(e) => e == ApiError::InvalidUrl && !(joined matches Some(Some(_))),
        },
{
    match joined {
        Some(Some(u)) => Ok(u),
        _ => Err(ApiError::InvalidUrl),
    }
}

/// A client of the registry at one address.
#[derive(Clone, Debug)]
pub struct Client {
    url: String,
}

impl Client {
    /// The address of the registry, as the `url` crate writes it.
    pub closed spec fn spec_url(&self) -> Seq<char> {
        self.url@
    }

    /// A client of the registry at `url`; `InvalidUrl` where `url` is no
    /// absolute URL.
    pub fn new(url: &str) -> (r: Result<Client, ApiError>)
        ensures
            match r {
                Ok(c) => spec_url_parse(url@) == Some(c.spec_url()),
                Err(e) => e == ApiError::InvalidUrl && spec_url_parse(url@) is None,
            },
    {
        match url_parse(url) {
            Ok(url) => Ok(Client { url }),
            Err(_) => Err(ApiError::InvalidUrl),
        }
    }

    /// The address of the registry.
    pub fn url(&self) -> (u: &str)
        ensures
            u@ == self.spec_url(),
    {
        self.url.as_str()
    }

    /// The address of the entry of `namespace`.
    pub fn origin_url(&self, namespace: &str) -> (r: Result<String, ApiError>)
        ensures
            match r {
                Ok(u) => spec_origin_url(self.spec_url(), namespace@) == Ok::<Seq<char>, ApiError>(
                    u@,
                ),
                Err(e) => spec_origin_url(self.spec_url(), namespace@) == Err::<
                    Seq<char>,
                    ApiError,
                >(e),
            },
    {
        let joined = match url_join(self.url.as_str(), "origin/") {
            Err(_) => None,
            Ok(directory) => match url_join(directory.as_str(), namespace) {
                Err(_) => Some(None),
                Ok(entry) => Some(Some(entry)),
            },
        };
        entry_url(joined)
    }

    fn request(&self, method: Method, namespace: &str, origin: Option<Origin>) -> (r: Result<
        Request,
        ApiError,
    >)
        ensures
            match r {
                Ok(q) => spec_origin_url(self.spec_url(), namespace@) == Ok::<Seq<char>, ApiError>(
                    q@.url,
                ) && q.method == method && q.origin == origin,
                Err(e) => spec_origin_url(self.spec_url(), namespace@) == Err::<
                    Seq<char>,
                    ApiError,
                >(e),
            },
    {
        match self.origin_url(namespace) {
            Ok(url) => Ok(Request { method, url, origin }),
            Err(e) => Err(e),
        }
    }

    /// The request that asks for the origin of `namespace`: a `Get` of the
    /// namespace's entry, without a body. `read_origin` reads the answer.
    pub fn get_origin(&self, namespace: &str) -> (r: Result<Request, ApiError>)
        ensures
            match r {
                Ok(q) => spec_origin_url(self.spec_url(), namespace@) == Ok::<Seq<char>, ApiError>(
                    q@.url,
                ) && q.method == Method::Get && q.origin is None,
                Err(e) => spec_origin_url(self.spec_url(), namespace@) == Err::<
                    Seq<char>,
                    ApiError,
                >(e),
            },
    {
        self.request(Method::Get, namespace, None)
    }

    /// The request that sets the origin of `namespace`: a `Post` of the
    /// namespace's entry with the origin as its body. `read_status` reads
    /// the answer.
    pub fn set_origin(&self, namespace: &str, origin: Origin) -> (r: Result<Request, ApiError>)
        ensures
            match r {
                Ok(q) => spec_origin_url(self.spec_url(), namespace@) == Ok::<Seq<char>, ApiError>(
                    q@.url,
                ) && q.method == Method::Post && q.origin == Some(origin),
                Err(e) => spec_origin_url(self.spec_url(), namespace@) == Err::<
                    Seq<char>,
                    ApiError,
                >(e),
            },
    {
        self.request(Method::Post, namespace, Some(origin))
    }

    /// The request that renews the origin of `namespace`: a `Patch` of the
    /// namespace's entry with the origin as its body. `read_status` reads
    /// the answer.
    pub fn patch_origin(&self, namespace: &str, origin: Origin) -> (r: Result<Request, ApiError>)
        ensures
            match r {
                Ok(q) => spec_origin_url(self.spec_url(), namespace@) == Ok::<Seq<char>, ApiError>(
                    q@.url,
                ) && q.method == Method::Patch && q.origin == Some(origin),
                Err(e) => spec_origin_url(self.spec_url(), namespace@) == Err::<
                    Seq<char>,
                    ApiError,
                >(e),
            },
    {
        self.request(Method::Patch, namespace, Some(origin))
    }

    /// The request that removes the origin of `namespace`: a `Delete` of
    /// the namespace's entry, without a body. `read_status` reads the
    /// answer.
    pub fn delete_origin(&self, namespace: &str) -> (r: Result<Request, ApiError>)
        ensures
            match r {
                Ok(q) => spec_origin_url(self.spec_url(), namespace@) == Ok::<Seq<char>, ApiError>(
                    q@.url,
                ) && q.method == Method::Delete && q.origin is None,
                Err(e) => spec_origin_url(self.spec_url(), namespace@) == Err::<
                    Seq<char>,
                    ApiError,
                >(e),
            },
    {
        self.request(Method::Delete, namespace, None)
    }
}

} // verus!

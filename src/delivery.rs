use vstd::prelude::*;

use crate::error::ContentError;
use crate::http::{Method, ReadOutcome, Request, read_outcome};
use crate::json::{Json, JsonV, items_view};
use crate::query::QueryBuilder;
use crate::resolve::{fields_with_sys, fields_with_sys_spec, resolve_page, resolve_page_spec};

verus! {

/// Where the delivery service is reached.
pub open spec fn delivery_base() -> Seq<char> {
    "https://cdn.contentful.com/spaces"@
}

/// The URL of an environment's entries, below a base URL.
pub open spec fn entries_url_spec(base: Seq<char>, space: Seq<char>, environment: Seq<char>) -> Seq<
    char,
> {
    base + "/"@ + space + "/environments/"@ + environment + "/entries"@
}

/// Builds the URL of an environment's entries.
pub(crate) fn entries_url_of(base: &String, space: &String, environment: &String) -> (r: String)
    ensures
        r@ == entries_url_spec(base@, space@, environment@),
{
    base.clone().concat("/").concat(space.as_str()).concat("/environments/").concat(
        environment.as_str(),
    ).concat("/entries")
}

/// A read-only client of the delivery service for one space and environment.
pub struct ContentfulClient {
    delivery_api_access_token: String,
    space_id: String,
    base_url: String,
    environment_id: String,
}

impl ContentfulClient {
    /// The access token sent with each request.
    pub closed spec fn token(&self) -> Seq<char> {
        self.delivery_api_access_token@
    }

    /// The space the client reads from.
    pub closed spec fn space(&self) -> Seq<char> {
        self.space_id@
    }

    /// The environment the client reads from.
    pub closed spec fn environment(&self) -> Seq<char> {
        self.environment_id@
    }

    /// The service's base URL.
    pub closed spec fn base(&self) -> Seq<char> {
        self.base_url@
    }

    /// The URL of the environment's entries.
    pub open spec fn entries_url(&self) -> Seq<char> {
        entries_url_spec(self.base(), self.space(), self.environment())
    }

    /// A client of the `master` environment of a space.
    pub fn new(delivery_api_access_token: &str, space_id: &str) -> (r: ContentfulClient)
        ensures
            r.token() == delivery_api_access_token@,
            r.space() == space_id@,
            r.environment() == "master"@,
            r.base() == delivery_base(),
    {
        ContentfulClient {
            base_url: "https://cdn.contentful.com/spaces".to_owned(),
            delivery_api_access_token: delivery_api_access_token.to_owned(),
            space_id: space_id.to_owned(),
            environment_id: "master".to_owned(),
        }
    }

    /// A client of a given environment of a space.
    pub fn with_environment<S>(
        delivery_api_access_token: &str,
        space_id: &str,
        environment_id: &str,
    ) -> (r: ContentfulClient)
        ensures
            r.token() == delivery_api_access_token@,
            r.space() == space_id@,
            r.environment() == environment_id@,
            r.base() == delivery_base(),
    {
        ContentfulClient {
            base_url: "https://cdn.contentful.com/spaces".to_owned(),
            delivery_api_access_token: delivery_api_access_token.to_owned(),
            space_id: space_id.to_owned(),
            environment_id: environment_id.to_owned(),
        }
    }

    /// The URL of one entry.
    pub fn get_entry_url(&self, entry_id: &str) -> (r: String)
        ensures
            r@ == self.entries_url() + "/"@ + entry_id@,
    {
        entries_url_of(&self.base_url, &self.space_id, &self.environment_id).concat("/").concat(
            entry_id,
        )
    }

    /// The URL of the entries that a query string selects.
    pub fn get_query_string_url(&self, query_string: &str) -> (r: String)
        ensures
            r@ == self.entries_url() + query_string@,
    {
        entries_url_of(&self.base_url, &self.space_id, &self.environment_id).concat(query_string)
    }

    /// The request that fetches one entry.
    pub fn entry_request(&self, entry_id: &str) -> (r: Request)
        ensures
            r.method == Method::Get,
            r.url@ == self.entries_url() + "/"@ + entry_id@,
            r.bearer_token@ == self.token(),
            r.content_type_id is None,
            r.version is None,
            r.body is None,
    {
        Request {
            method: Method::Get,
            url: self.get_entry_url(entry_id),
            bearer_token: self.delivery_api_access_token.clone(),
            content_type_id: None,
            version: None,
            body: None,
        }
    }

    /// The request that fetches the page of entries a query string selects.
    pub fn query_string_request(&self, query_string: &str) -> (r: Request)
        ensures
            r.method == Method::Get,
            r.url@ == self.entries_url() + query_string@,
            r.bearer_token@ == self.token(),
            r.content_type_id is None,
            r.version is None,
            r.body is None,
    {
        Request {
            method: Method::Get,
            url: self.get_query_string_url(query_string),
            bearer_token: self.delivery_api_access_token.clone(),
            content_type_id: None,
            version: None,
            body: None,
        }
    }

    /// The request that fetches the page of entries a descriptor selects;
    /// all entries where there is none.
    pub fn entries_request(&self, query_builder: Option<QueryBuilder>) -> (r: Request)
        ensures
            r.method == Method::Get,
            r.url@ == self.entries_url() + match query_builder {
                Some(q) => crate::query::render(q.pairs()),
                None => Seq::<char>::empty(),
            },
            r.bearer_token@ == self.token(),
            r.content_type_id is None,
            r.version is None,
            r.body is None,
    {
        let query_string = match query_builder {
            Some(q) => q.build(),
            None => String::new(),
        };
        self.query_string_request(query_string.as_str())
    }
}

/// A descriptor restricted to one content type: the given one, or a new
/// one where there is none.
pub fn query_for_type(content_type: &str, query_builder: Option<QueryBuilder>) -> (r: QueryBuilder)
    requires
        query_builder matches Some(q) ==> q.wf(),
    ensures
        r.wf(),
        r.params() == match query_builder {
            Some(q) => q.params(),
            None => Map::<Seq<char>, Seq<char>>::empty(),
        }.insert("content_type"@, content_type@),
{
    let q = match query_builder {
        Some(q) => q,
        None => QueryBuilder::new(),
    };
    q.content_type_is(content_type)
}

/// The result of fetching one entry, from the response's status and body:
/// on 200 the entry's fields with its `sys` added, on 404 nothing, and an
/// error otherwise.
pub fn entry_from_response(status: u16, body: &Json) -> (r: Result<Option<Json>, ContentError>)
    ensures
        status == 200 ==> match r {
            Ok(Some(x)) => fields_with_sys_spec(body@) == Ok::<JsonV, ContentError>(x@),
            Ok(None) => false,
            Err(e) => fields_with_sys_spec(body@) == Err::<JsonV, ContentError>(e),
        },
        status == 404 ==> r matches Ok(None),
        status != 200 && status != 404 ==> r == Err::<Option<Json>, ContentError>(
            ContentError::UnexpectedStatus(status),
        ),
{
    match read_outcome(status) {
        ReadOutcome::Found => match fields_with_sys(body) {
            Ok(x) => Ok(Some(x)),
            Err(e) => Err(e),
        },
        ReadOutcome::NotFound => Ok(None),
        ReadOutcome::Failed => Err(ContentError::UnexpectedStatus(status)),
    }
}

/// The resolved items of a page of entries, from the response's status and
/// body; any status but 200 is an error.
pub fn entries_from_response(status: u16, body: &Json) -> (r: Result<Vec<Json>, ContentError>)
    ensures
        status == 200 ==> match r {
            Ok(items) => resolve_page_spec(body@) == Ok::<Seq<JsonV>, ContentError>(
                items_view(items@),
            ),
            Err(e) => resolve_page_spec(body@) == Err::<Seq<JsonV>, ContentError>(e),
        },
        status != 200 ==> r == Err::<Vec<Json>, ContentError>(
            ContentError::UnexpectedStatus(status),
        ),
{
    if status == 200 {
        resolve_page(body)
    } else {
        Err(ContentError::UnexpectedStatus(status))
    }
}

} // verus!

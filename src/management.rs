use vstd::prelude::*;

use crate::delivery::{entries_url_of, entries_url_spec};
use crate::error::ContentError;
use crate::http::{Method, Request, write_succeeded};
use crate::json::{Json, JsonV, member};
use crate::locale::{inflate_spec, reconstruct_json_object};
use crate::models::{Entry, sys_json};
use crate::resolve::result_view;

verus! {

/// Where the management service is reached.
pub open spec fn management_base() -> Seq<char> {
    "https://api.contentful.com/spaces"@
}

/// The body that creates an entry: `{"fields": fields}`.
pub open spec fn fields_body_spec(fields: JsonV) -> JsonV {
    JsonV::Object(seq![("fields"@, fields)])
}

/// The JSON form of an entry: `{"sys": .., "fields": ..}`.
pub open spec fn entry_json_spec(entry: Entry<Json>) -> JsonV {
    JsonV::Object(seq![("sys"@, sys_json(entry.sys)), ("fields"@, entry.fields@)])
}

/// Wraps fields as the body that creates an entry.
pub fn fields_body(fields: Json) -> (r: Json)
    ensures
        r@ == fields_body_spec(fields@),
{
    let members: Vec<(String, Json)> = vec![("fields".to_owned(), fields)];
    proof {
        Json::lemma_object_view(members);
        assert(crate::json::members_view(members@) =~= fields_body_spec(
            members@[0].1@,
        )->Object_0);
    }
    Json::Object(members)
}

/// The JSON form of an entry, as an update sends it.
pub fn entry_json(entry: &Entry<Json>) -> (r: Json)
    ensures
        r@ == entry_json_spec(*entry),
{
    let members: Vec<(String, Json)> = vec![
        ("sys".to_owned(), entry.sys.to_json()),
        ("fields".to_owned(), entry.fields.deep_copy()),
    ];
    proof {
        Json::lemma_object_view(members);
        assert(crate::json::members_view(members@) =~= entry_json_spec(*entry)->Object_0);
    }
    Json::Object(members)
}

/// The fields of a created entry, from the response's status and body: the
/// body's `fields` on 200 or 201, an error otherwise.
pub fn created_fields(status: u16, body: &Json) -> (r: Result<Json, ContentError>)
    ensures
        (status == 200 || status == 201) ==> result_view(r) == match member(body@, "fields"@) {
            Some(f) => Ok::<JsonV, ContentError>(f),
            None => Err::<JsonV, ContentError>(ContentError::MalformedEntry),
        },
        !(status == 200 || status == 201) ==> r == Err::<Json, ContentError>(
            ContentError::UnexpectedStatus(status),
        ),
{
    if write_succeeded(status) {
        let key = "fields".to_owned();
        match body.get(&key) {
            Some(f) => Ok(f.deep_copy()),
            None => Err(ContentError::MalformedEntry),
        }
    } else {
        Err(ContentError::UnexpectedStatus(status))
    }
}

/// The entry an update returns, from the response's status and body: the
/// body on 200 or 201, an error otherwise.
pub fn updated_entry(status: u16, body: Json) -> (r: Result<Json, ContentError>)
    ensures
        (status == 200 || status == 201) ==> (r matches Ok(x) && x@ == body@),
        !(status == 200 || status == 201) ==> r == Err::<Json, ContentError>(
            ContentError::UnexpectedStatus(status),
        ),
{
    if write_succeeded(status) {
        Ok(body)
    } else {
        Err(ContentError::UnexpectedStatus(status))
    }
}

/// A client of the management service, writing to the `master` environment
/// of one space.
pub struct ContentfulManagementClient {
    management_api_access_token: String,
    space_id: String,
    base_url: String,
    environment_id: String,
}

impl ContentfulManagementClient {
    /// The access token sent with each request.
    pub closed spec fn token(&self) -> Seq<char> {
        self.management_api_access_token@
    }

    /// The space the client works on.
    pub closed spec fn space(&self) -> Seq<char> {
        self.space_id@
    }

    /// The environment the client works on.
    pub closed spec fn environment(&self) -> Seq<char> {
        self.environment_id@
    }

    /// The service's base URL.
    pub closed spec fn base(&self) -> Seq<char> {
        self.base_url@
    }

    /// The URL of the environment's entries.
    pub open spec fn entries_url_view(&self) -> Seq<char> {
        entries_url_spec(self.base(), self.space(), self.environment())
    }

    /// A client of the `master` environment of a space.
    pub fn new(management_api_access_token: &str, space_id: &str) -> (r:
        ContentfulManagementClient)
        ensures
            r.token() == management_api_access_token@,
            r.space() == space_id@,
            r.environment() == "master"@,
            r.base() == management_base(),
    {
        ContentfulManagementClient {
            base_url: "https://api.contentful.com/spaces".to_owned(),
            management_api_access_token: management_api_access_token.to_owned(),
            space_id: space_id.to_owned(),
            environment_id: "master".to_owned(),
        }
    }

    /// The URL of the environment's entries.
    pub fn entries_url(&self) -> (r: String)
        ensures
            r@ == self.entries_url_view(),
    {
        entries_url_of(&self.base_url, &self.space_id, &self.environment_id)
    }

    /// The URL of one entry.
    pub fn entry_url(&self, entry_id: &str) -> (r: String)
        ensures
            r@ == self.entries_url_view() + "/"@ + entry_id@,
    {
        self.entries_url().concat("/").concat(entry_id)
    }

    /// The request that fetches one entry, its fields keyed by locale.
    pub fn entry_request(&self, entry_id: &str) -> (r: Request)
        ensures
            r.method == Method::Get,
            r.url@ == self.entries_url_view() + "/"@ + entry_id@,
            r.bearer_token@ == self.token(),
            r.content_type_id is None,
            r.version is None,
            r.body is None,
    {
        Request {
            method: Method::Get,
            url: self.entry_url(entry_id),
            bearer_token: self.management_api_access_token.clone(),
            content_type_id: None,
            version: None,
            body: None,
        }
    }

    /// The request that creates an entry of a content type from a body
    /// `{"fields": ..}`.
    pub fn create_request(&self, body: Json, content_type_id: &str) -> (r: Request)
        ensures
            r.method == Method::Post,
            r.url@ == self.entries_url_view(),
            r.bearer_token@ == self.token(),
            r.content_type_id matches Some(c) && c@ == content_type_id@,
            r.version is None,
            r.body matches Some(b) && b@ == body@,
    {
        Request {
            method: Method::Post,
            url: self.entries_url(),
            bearer_token: self.management_api_access_token.clone(),
            content_type_id: Some(content_type_id.to_owned()),
            version: None,
            body: Some(body),
        }
    }

    /// The request that creates an entry from fields written for one
    /// locale: each field is spread over the locale first.
    pub fn create_for_locale_request(
        &self,
        entry: &Json,
        content_type_id: &str,
        locale: &str,
    ) -> (r: Result<Request, ContentError>)
        ensures
            match r {
                Ok(req) => {
                    &&& inflate_spec(entry@, locale@) matches Ok(f)
                    &&& req.body matches Some(b) && b@ == fields_body_spec(f)
                    &&& req.method == Method::Post
                    &&& req.url@ == self.entries_url_view()
                    &&& req.bearer_token@ == self.token()
                    &&& req.content_type_id matches Some(c) && c@ == content_type_id@
                    &&& req.version is None
                },
                Err(e) => inflate_spec(entry@, locale@) == Err::<JsonV, ContentError>(e),
            },
    {
        match reconstruct_json_object(entry, locale) {
            Ok(fields) => Ok(self.create_request(fields_body(fields), content_type_id)),
            Err(e) => Err(e),
        }
    }

    /// The request that replaces entry `id` with `entry`, naming the version
    /// it replaces.
    pub fn update_request(&self, entry: Json, id: &str, version: i32, content_type_id: &str) -> (r:
        Request)
        ensures
            r.method == Method::Put,
            r.url@ == self.entries_url_view() + "/"@ + id@,
            r.bearer_token@ == self.token(),
            r.content_type_id matches Some(c) && c@ == content_type_id@,
            r.version == Some(version),
            r.body matches Some(b) && b@ == entry@,
    {
        Request {
            method: Method::Put,
            url: self.entry_url(id),
            bearer_token: self.management_api_access_token.clone(),
            content_type_id: Some(content_type_id.to_owned()),
            version: Some(version),
            body: Some(entry),
        }
    }

    /// The request that replaces entry `id` with `entry`. An entry whose
    /// `sys` names no version is refused before anything is sent.
    pub fn update_entry_request(&self, entry: &Entry<Json>, id: &str, content_type_id: &str) -> (r:
        Result<Request, ContentError>)
        ensures
            entry.sys.version is None ==> r == Err::<Request, ContentError>(
                ContentError::MissingVersion,
            ),
            entry.sys.version matches Some(v) ==> (r matches Ok(req) && {
                &&& req.method == Method::Put
                &&& req.url@ == self.entries_url_view() + "/"@ + id@
                &&& req.bearer_token@ == self.token()
                &&& req.content_type_id matches Some(c) && c@ == content_type_id@
                &&& req.version == Some(v)
                &&& req.body matches Some(b) && b@ == entry_json_spec(*entry)
            }),
    {
        match entry.sys.version {
            Some(v) => Ok(self.update_request(entry_json(entry), id, v, content_type_id)),
            None => Err(ContentError::MissingVersion),
        }
    }

    /// The request that replaces entry `id` with fields written for one
    /// locale: each field is spread over the locale first. An entry whose
    /// `sys` names no version is refused.
    pub fn update_for_locale_request(
        &self,
        entry: &Entry<Json>,
        id: &str,
        locale: &str,
        content_type_id: &str,
    ) -> (r: Result<Request, ContentError>)
        ensures
            entry.sys.version is None ==> r == Err::<Request, ContentError>(
                ContentError::MissingVersion,
            ),
            entry.sys.version is Some ==> match inflate_spec(entry.fields@, locale@) {
                Ok(f) => (r matches Ok(req) && {
                    &&& req.method == Method::Put
                    &&& req.url@ == self.entries_url_view() + "/"@ + id@
                    &&& req.content_type_id matches Some(c) && c@ == content_type_id@
                    &&& req.version == entry.sys.version
                    &&& req.body matches Some(b) && b@ == JsonV::Object(
                        seq![("sys"@, sys_json(entry.sys)), ("fields"@, f)],
                    )
                }),
                Err(e) => r == Err::<Request, ContentError>(e),
            },
    {
        if entry.sys.version.is_none() {
            return Err(ContentError::MissingVersion);
        }
        match reconstruct_json_object(&entry.fields, locale) {
            Ok(fields) => {
                let spread = Entry::new(fields, entry.sys.copied());
                self.update_entry_request(&spread, id, content_type_id)
            },
            Err(e) => Err(e),
        }
    }
}

} // verus!

use vstd::prelude::*;

use crate::json::{Json, JsonV};
use crate::text::{decimal, decimal_text};

verus! {

/// A content repository: its name, locales and system properties.
#[derive(Debug, Clone)]
pub struct Space {
    pub name: String,
    pub locales: Vec<Locale>,
    pub system_properties: SystemProperties,
}

/// A locale of a space.
#[derive(Debug, Clone)]
pub struct Locale {
    pub name: String,
    pub code: String,
    pub fallback_code: Option<String>,
    pub default: bool,
    pub optional: bool,
    pub content_management_api: bool,
    pub content_delivery_api: bool,
}

/// The `sys` envelope of an entry, asset or space. Instants are kept as the
/// RFC 3339 text that the service writes.
#[derive(Debug, Clone)]
pub struct SystemProperties {
    pub id: String,
    pub version: Option<i32>,
    pub revision: Option<i32>,
    pub created_at: Option<String>,
    pub updated_at: Option<String>,
}

/// A number, or null.
pub open spec fn number_or_null(n: Option<i32>) -> JsonV {
    match n {
        Some(v) => JsonV::Number(decimal_text(v as int)),
        None => JsonV::Null,
    }
}

/// A string, or null.
pub open spec fn text_or_null(s: Option<String>) -> JsonV {
    match s {
        Some(t) => JsonV::Str(t@),
        None => JsonV::Null,
    }
}

/// The JSON form of system properties, with the service's member names.
pub open spec fn sys_json(sys: SystemProperties) -> JsonV {
    JsonV::Object(
        seq![
            ("id"@, JsonV::Str(sys.id@)),
            ("version"@, number_or_null(sys.version)),
            ("revision"@, number_or_null(sys.revision)),
            ("createdAt"@, text_or_null(sys.created_at)),
            ("updatedAt"@, text_or_null(sys.updated_at)),
        ],
    )
}

fn number_json(n: &Option<i32>) -> (r: Json)
    ensures
        r@ == number_or_null(*n),
{
    match n {
        Some(v) => Json::Number(decimal(*v)),
        None => Json::Null,
    }
}

fn text_json(s: &Option<String>) -> (r: Json)
    ensures
        r@ == text_or_null(*s),
{
    match s {
        Some(t) => Json::Str(t.clone()),
        None => Json::Null,
    }
}

fn copy_text(s: &Option<String>) -> (r: Option<String>)
    ensures
        r == *s,
{
    match s {
        Some(t) => Some(t.clone()),
        None => None,
    }
}

impl SystemProperties {
    /// Properties with only an id.
    pub fn new(id: String) -> (r: SystemProperties)
        ensures
            r.id == id,
            r.version is None,
            r.revision is None,
            r.created_at is None,
            r.updated_at is None,
    {
        SystemProperties { id, version: None, revision: None, created_at: None, updated_at: None }
    }

    /// Properties with an id and the version that an update replaces.
    pub fn with_version(id: String, version: i32) -> (r: SystemProperties)
        ensures
            r.id == id,
            r.version == Some(version),
            r.revision is None,
            r.created_at is None,
            r.updated_at is None,
    {
        SystemProperties {
            id,
            version: Some(version),
            revision: None,
            created_at: None,
            updated_at: None,
        }
    }

    /// A copy of these properties.
    pub fn copied(&self) -> (r: SystemProperties)
        ensures
            r == *self,
    {
        SystemProperties {
            id: self.id.clone(),
            version: self.version,
            revision: self.revision,
            created_at: copy_text(&self.created_at),
            updated_at: copy_text(&self.updated_at),
        }
    }

    /// The JSON form of these properties.
    pub fn to_json(&self) -> (r: Json)
        ensures
            r@ == sys_json(*self),
    {
        let members: Vec<(String, Json)> = vec![
            ("id".to_owned(), Json::Str(self.id.clone())),
            ("version".to_owned(), number_json(&self.version)),
            ("revision".to_owned(), number_json(&self.revision)),
            ("createdAt".to_owned(), text_json(&self.created_at)),
            ("updatedAt".to_owned(), text_json(&self.updated_at)),
        ];
        proof {
            Json::lemma_object_view(members);
            assert(crate::json::members_view(members@) =~= sys_json(*self)->Object_0);
        }
        Json::Object(members)
    }
}

/// A content item: system properties and a payload of fields.
#[derive(Debug, Clone)]
pub struct Entry<T> {
    pub sys: SystemProperties,
    pub fields: T,
}

impl<T> Entry<T> {
    /// An entry from its fields and system properties.
    pub fn new(entry: T, sys: SystemProperties) -> (r: Entry<T>)
        ensures
            r.sys == sys,
            r.fields == entry,
    {
        Entry { sys, fields: entry }
    }
}

/// A media file of a space, with its optional title and description.
#[derive(Debug, Clone)]
pub struct Asset {
    pub description: Option<String>,
    pub title: Option<String>,
    pub file: File,
}

/// Where an asset's file lives and what it is.
#[derive(Debug, Clone)]
pub struct File {
    pub file_name: String,
    pub content_type: String,
    pub url: String,
    pub upload_url: Option<String>,
    pub details: FileDetails,
}

/// The size of a file and, for an image, its dimensions.
#[derive(Debug, Clone)]
pub struct FileDetails {
    pub size: i64,
    pub image: Option<ImageDetails>,
}

/// The dimensions of an image, in pixels.
#[derive(Debug, Clone)]
pub struct ImageDetails {
    pub height: i32,
    pub width: i32,
}

} // verus!

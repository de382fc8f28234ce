//! Administration of contexts: what a new context must satisfy, the key it is
//! given, and how contexts are shown.
use vstd::prelude::*;
use crate::context::{api_key_hash_spec, hash_api_key, ContextConfig};
use crate::text::{append_str, chars_of, find, find_char, find_str, find_sub, has_prefix, starts_with, string_from_chars, trim, trimmed};
use crate::throttle::{to_lowercase, unicode_lowercase};

verus! {

/// A context as stored.
#[derive(Debug, Clone)]
pub struct ContextRow {
    pub id: String,
    pub slug: String,
    pub display_name: String,
    pub api_key_hash: String,
    pub storage_prefix: String,
    pub max_upload_bytes: Option<i64>,
    pub created_at: String,
    pub updated_at: String,
}

/// A context as listed (without its key hash).
#[derive(Debug, Clone)]
pub struct ContextResponse {
    pub id: String,
    pub slug: String,
    pub display_name: String,
    pub storage_prefix: String,
    pub max_upload_bytes: Option<i64>,
    pub created_at: String,
    pub updated_at: String,
}

/// A new context, with its API key: the only time the key is shown.
#[derive(Debug, Clone)]
pub struct ContextCreatedResponse {
    pub id: String,
    pub slug: String,
    pub display_name: String,
    pub storage_prefix: String,
    pub max_upload_bytes: Option<i64>,
    pub api_key: String,
    pub created_at: String,
    pub updated_at: String,
}

/// The body of a request to create a context.
#[derive(Debug, Clone)]
pub struct CreateContextBody {
    pub slug: String,
    pub display_name: String,
    pub storage_prefix: Option<String>,
    pub max_upload_bytes: Option<i64>,
}

/// The body of a request to change a context.  `max_upload_bytes` is `None`
/// when the field is absent (the quota is kept), `Some(None)` when it is
/// `null` (the quota is cleared), and `Some(Some(n))` to set it.
#[derive(Debug, Clone)]
pub struct UpdateContextBody {
    pub display_name: Option<String>,
    pub max_upload_bytes: Option<Option<i64>>,
}

/// The answer to a key rotation: the new key.
#[derive(Debug, Clone)]
pub struct RotateKeyResponse {
    pub api_key: String,
}

/// The listed form of a stored context.
pub fn to_response(ctx: &ContextRow) -> (r: ContextResponse)
    ensures
        r.id == ctx.id,
        r.slug == ctx.slug,
        r.display_name == ctx.display_name,
        r.storage_prefix == ctx.storage_prefix,
        r.max_upload_bytes == ctx.max_upload_bytes,
        r.created_at == ctx.created_at,
        r.updated_at == ctx.updated_at,
{
    ContextResponse {
        id: ctx.id.clone(),
        slug: ctx.slug.clone(),
        display_name: ctx.display_name.clone(),
        storage_prefix: ctx.storage_prefix.clone(),
        max_upload_bytes: ctx.max_upload_bytes,
        created_at: ctx.created_at.clone(),
        updated_at: ctx.updated_at.clone(),
    }
}

/// The cached configuration of a stored context.
pub fn row_to_config(row: &ContextRow) -> (r: ContextConfig)
    ensures
        r.id == row.id,
        r.slug == row.slug,
        r.display_name == row.display_name,
        r.api_key_hash == row.api_key_hash,
        r.storage_prefix == row.storage_prefix,
        r.max_upload_bytes == row.max_upload_bytes,
{
    ContextConfig {
        id: row.id.clone(),
        slug: row.slug.clone(),
        display_name: row.display_name.clone(),
        api_key_hash: row.api_key_hash.clone(),
        storage_prefix: row.storage_prefix.clone(),
        max_upload_bytes: row.max_upload_bytes,
    }
}

/// The answer to a create request once the context is stored.
pub fn created_response(row: ContextRow, api_key: String) -> (r: ContextCreatedResponse)
    ensures
        r.id == row.id,
        r.slug == row.slug,
        r.display_name == row.display_name,
        r.storage_prefix == row.storage_prefix,
        r.max_upload_bytes == row.max_upload_bytes,
        r.api_key == api_key,
        r.created_at == row.created_at,
        r.updated_at == row.updated_at,
{
    ContextCreatedResponse {
        id: row.id,
        slug: row.slug,
        display_name: row.display_name,
        storage_prefix: row.storage_prefix,
        max_upload_bytes: row.max_upload_bytes,
        api_key,
        created_at: row.created_at,
        updated_at: row.updated_at,
    }
}

/// A context's slug: the requested one trimmed and lower-cased.  It must not
/// be empty, hold a `/`, or start with `api` (the dashboard's own routes).
pub open spec fn slug_of(requested: Seq<char>) -> Option<Seq<char>> {
    let s = unicode_lowercase(trim(requested));
    if s.len() == 0 || find_char(s, '/') >= 0 || has_prefix(s, "api"@) {
        None
    } else {
        Some(s)
    }
}

/// A context's slug is the requested one, trimmed and lower-cased, and is
/// accepted exactly when that is not empty, holds no `/`, and does not start
/// with `api`.
pub proof fn lemma_slug_rules(requested: Seq<char>)
    ensures
        slug_of(requested) matches Some(s) ==> s == unicode_lowercase(trim(requested)) && s.len() > 0 && !has_prefix(
            s,
            "api"@,
        ) && forall|j: int| 0 <= j < s.len() ==> s[j] != '/',
        (unicode_lowercase(trim(requested)).len() == 0 || has_prefix(unicode_lowercase(trim(requested)), "api"@) || exists|j: int|
            0 <= j < unicode_lowercase(trim(requested)).len() && unicode_lowercase(trim(requested))[j] == '/')
            ==> slug_of(requested) is None,
{
    let s = unicode_lowercase(trim(requested));
    crate::text::lemma_find_char(s, '/');
}

/// What a valid create request stores: the slug, the trimmed display name,
/// and the storage prefix (the slug unless one is given).
pub struct NewContextPlan {
    pub slug: String,
    pub display_name: String,
    pub storage_prefix: String,
    pub max_upload_bytes: Option<i64>,
}

/// Checks a create request; `None` is answered with 400 `invalid slug`.
pub fn plan_new_context(body: &CreateContextBody) -> (r: Option<NewContextPlan>)
    ensures
        match slug_of(body.slug@) {
            None => r is None,
            Some(s) => r matches Some(p) && p.slug@ == s && p.display_name@ == trim(body.display_name@)
                && p.storage_prefix@ == (match body.storage_prefix {
                    Some(x) => x@,
                    None => s,
                }) && p.max_upload_bytes == body.max_upload_bytes,
        },
{
    let t = string_from_chars(trimmed(chars_of(body.slug.as_str()).as_slice()).as_slice());
    let slug = to_lowercase(t.as_str());
    let cs = chars_of(slug.as_str());
    if cs.len() == 0 || find(cs.as_slice(), '/').is_some() || starts_with(cs.as_slice(), chars_of("api").as_slice()) {
        return None;
    }
    let storage_prefix = match &body.storage_prefix {
        Some(p) => p.clone(),
        None => slug.clone(),
    };
    let display_name = string_from_chars(trimmed(chars_of(body.display_name.as_str()).as_slice()).as_slice());
    Some(NewContextPlan { slug, display_name, storage_prefix, max_upload_bytes: body.max_upload_bytes })
}

/// A context's API key: two UUIDs joined by `-`; with the hash that is stored.
pub fn new_api_key(uuid_a: &str, uuid_b: &str) -> (r: (String, String))
    ensures
        r.0@ == uuid_a@ + "-"@ + uuid_b@,
        r.1@ == api_key_hash_spec(r.0@),
{
    let mut key = uuid_a.to_owned();
    append_str(&mut key, "-");
    append_str(&mut key, uuid_b);
    let hash = hash_api_key(key.as_str());
    (key, hash)
}

/// A failed insert that broke the slug's uniqueness (answered with 409).
pub fn is_unique_violation(error_text: &str) -> (r: bool)
    ensures
        r == (find_sub(error_text@, "UNIQUE"@) >= 0),
{
    find_str(chars_of(error_text).as_slice(), chars_of("UNIQUE").as_slice()).is_some()
}

} // verus!

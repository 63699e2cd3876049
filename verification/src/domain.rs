//! The stored entities of the client: workspaces, collections, folders,
//! requests, environments and response snapshots.
use vstd::prelude::*;

use crate::ids::{CollectionId, EnvironmentId, FolderId, RequestId, WorkspaceId};
use crate::request_execution::{PhaseTimings, TlsSummary};

verus! {

/// Reads the wall clock in nanoseconds since the Unix epoch, negative
/// before it: `time::OffsetDateTime::now_utc` and `unix_timestamp_nanos`
/// (the `time` crate as `cookie` re-exports it). Nothing is promised of the
/// value.
#[verifier::external_body]
fn now_unix_nanos() -> i128 {
    cookie::time::OffsetDateTime::now_utc().unix_timestamp_nanos()
}

/// The wall clock in whole milliseconds since the Unix epoch.
pub(crate) fn now_unix_ms() -> i64 {
    let nanos = now_unix_nanos();
    let millis = nanos / 1_000_000;
    #[verifier::truncate]
    (millis as i64)
}

/// Appends one character to a string: `String::push`.
#[verifier::external_body]
pub(crate) fn push_char(s: &mut String, c: char)
    ensures
        final(s)@ == old(s)@.push(c),
{
    s.push(c);
}

/// Copies a string slice into a new `String` (`str::to_string`).
pub(crate) fn owned(s: &str) -> (r: String)
    ensures
        r@ == s@,
{
    s.to_owned()
}

/// A copy of an optional string.
pub(crate) fn copy_opt_string(s: &Option<String>) -> (r: Option<String>)
    ensures
        r == *s,
{
    match s {
        Some(v) => Some(v.clone()),
        None => None,
    }
}

/// Revision bookkeeping of a stored row.
#[derive(Debug, Clone, Copy, PartialEq, Eq, Structural)]
pub struct RevisionMetadata {
    pub revision: i64,
    pub created_at_unix_ms: i64,
    pub updated_at_unix_ms: i64,
}

impl RevisionMetadata {
    /// First revision, stamped with the current time.
    pub fn new_now() -> (r: Self)
        ensures
            r.revision == 1,
            r.created_at_unix_ms == r.updated_at_unix_ms,
    {
        let now = now_unix_ms();
        RevisionMetadata { revision: 1, created_at_unix_ms: now, updated_at_unix_ms: now }
    }
}

/// One row of a key/value table (query params, headers, form fields).
#[derive(Debug, Clone, PartialEq, Eq)]
pub struct KeyValuePair {
    pub key: String,
    pub value: String,
    pub enabled: bool,
}

pub open spec fn kv_view(p: KeyValuePair) -> (Seq<char>, Seq<char>, bool) {
    (p.key@, p.value@, p.enabled)
}

pub open spec fn kvs_view(v: Seq<KeyValuePair>) -> Seq<(Seq<char>, Seq<char>, bool)> {
    v.map_values(|p: KeyValuePair| kv_view(p))
}

impl KeyValuePair {
    /// An enabled pair.
    pub fn new(key: &str, value: &str) -> (r: Self)
        ensures
            r.key@ == key@,
            r.value@ == value@,
            r.enabled,
    {
        KeyValuePair { key: owned(key), value: owned(value), enabled: true }
    }

    pub fn duplicate(&self) -> (r: Self)
        ensures
            r == *self,
    {
        KeyValuePair { key: self.key.clone(), value: self.value.clone(), enabled: self.enabled }
    }

    /// Field-by-field comparison.
    pub fn same_as(&self, other: &Self) -> (r: bool)
        ensures
            r == (kv_view(*self) == kv_view(*other)),
    {
        self.key == other.key && self.value == other.value && self.enabled == other.enabled
    }
}

/// A copy of a list of pairs.
pub fn duplicate_pairs(v: &Vec<KeyValuePair>) -> (r: Vec<KeyValuePair>)
    ensures
        r@ == v@,
{
    let mut out: Vec<KeyValuePair> = Vec::new();
    let mut i: usize = 0;
    while i < v.len()
        invariant
            i <= v.len(),
            out@ == v@.subrange(0, i as int),
        decreases v.len() - i,
    {
        out.push(v[i].duplicate());
        i = i + 1;
    }
    assert(out@ == v@.subrange(0, v.len() as int));
    out
}

/// Element-wise comparison of two lists of pairs.
pub fn same_pairs(a: &Vec<KeyValuePair>, b: &Vec<KeyValuePair>) -> (r: bool)
    ensures
        r == (kvs_view(a@) == kvs_view(b@)),
{
    if a.len() != b.len() {
        proof {
            assert(kvs_view(a@).len() != kvs_view(b@).len());
        }
        return false;
    }
    let mut i: usize = 0;
    while i < a.len()
        invariant
            a.len() == b.len(),
            i <= a.len(),
            forall|j: int| 0 <= j < i ==> kv_view(#[trigger] a@[j]) == kv_view(b@[j]),
        decreases a.len() - i,
    {
        if !a[i].same_as(&b[i]) {
            proof {
                assert(kvs_view(a@)[i as int] != kvs_view(b@)[i as int]);
            }
            return false;
        }
        i = i + 1;
    }
    proof {
        assert(kvs_view(a@) =~= kvs_view(b@));
    }
    true
}

#[derive(Debug, Clone, Copy, PartialEq, Eq, Structural)]
pub enum ApiKeyLocation {
    Header,
    Query,
}

/// Authentication settings of a request; secrets are referenced by key.
#[derive(Debug, Clone, PartialEq, Eq)]
pub enum AuthType {
    NoAuth,
    Basic { username: String, password_secret_ref: Option<String> },
    Bearer { token_secret_ref: Option<String> },
    ApiKey { key_name: String, value_secret_ref: Option<String>, location: ApiKeyLocation },
}

pub open spec fn opt_view(o: Option<String>) -> Option<Seq<char>> {
    match o {
        Some(s) => Some(s@),
        None => None,
    }
}

/// Equality of two auth settings, taking strings by their characters.
pub open spec fn auth_same(a: AuthType, b: AuthType) -> bool {
    match (a, b) {
        (AuthType::NoAuth, AuthType::NoAuth) => true,
        (
            AuthType::Basic { username: u1, password_secret_ref: p1 },
            AuthType::Basic { username: u2, password_secret_ref: p2 },
        ) => u1@ == u2@ && opt_view(p1) == opt_view(p2),
        (AuthType::Bearer { token_secret_ref: t1 }, AuthType::Bearer { token_secret_ref: t2 }) =>
            opt_view(t1) == opt_view(t2),
        (
            AuthType::ApiKey { key_name: k1, value_secret_ref: v1, location: l1 },
            AuthType::ApiKey { key_name: k2, value_secret_ref: v2, location: l2 },
        ) => k1@ == k2@ && opt_view(v1) == opt_view(v2) && l1 == l2,
        _ => false,
    }
}

fn same_opt_string(a: &Option<String>, b: &Option<String>) -> (r: bool)
    ensures
        r == (opt_view(*a) == opt_view(*b)),
{
    match (a, b) {
        (Some(x), Some(y)) => *x == *y,
        (None, None) => true,
        _ => false,
    }
}

impl AuthType {
    pub fn duplicate(&self) -> (r: Self)
        ensures
            r == *self,
    {
        match self {
            AuthType::NoAuth => AuthType::NoAuth,
            AuthType::Basic { username, password_secret_ref } => AuthType::Basic {
                username: username.clone(),
                password_secret_ref: copy_opt_string(password_secret_ref),
            },
            AuthType::Bearer { token_secret_ref } => AuthType::Bearer {
                token_secret_ref: copy_opt_string(token_secret_ref),
            },
            AuthType::ApiKey { key_name, value_secret_ref, location } => AuthType::ApiKey {
                key_name: key_name.clone(),
                value_secret_ref: copy_opt_string(value_secret_ref),
                location: *location,
            },
        }
    }

    pub fn same_as(&self, other: &Self) -> (r: bool)
        ensures
            r == auth_same(*self, *other),
    {
        match (self, other) {
            (AuthType::NoAuth, AuthType::NoAuth) => true,
            (
                AuthType::Basic { username: u1, password_secret_ref: p1 },
                AuthType::Basic { username: u2, password_secret_ref: p2 },
            ) => *u1 == *u2 && same_opt_string(p1, p2),
            (
                AuthType::Bearer { token_secret_ref: t1 },
                AuthType::Bearer { token_secret_ref: t2 },
            ) => same_opt_string(t1, t2),
            (
                AuthType::ApiKey { key_name: k1, value_secret_ref: v1, location: l1 },
                AuthType::ApiKey { key_name: k2, value_secret_ref: v2, location: l2 },
            ) => *k1 == *k2 && same_opt_string(v1, v2) && *l1 == *l2,
            _ => false,
        }
    }
}

/// A file part of a multipart body, stored as a content-addressed blob.
#[derive(Debug, Clone, PartialEq, Eq)]
pub struct FormDataFileField {
    pub key: String,
    pub file_name: Option<String>,
    pub blob_hash: String,
    pub enabled: bool,
}

pub open spec fn file_field_view(f: FormDataFileField) -> (Seq<char>, Option<Seq<char>>, Seq<char>, bool) {
    (f.key@, opt_view(f.file_name), f.blob_hash@, f.enabled)
}

pub open spec fn file_fields_view(v: Seq<FormDataFileField>) -> Seq<(Seq<char>, Option<Seq<char>>, Seq<char>, bool)> {
    v.map_values(|f: FormDataFileField| file_field_view(f))
}

impl FormDataFileField {
    pub fn duplicate(&self) -> (r: Self)
        ensures
            r == *self,
    {
        FormDataFileField {
            key: self.key.clone(),
            file_name: copy_opt_string(&self.file_name),
            blob_hash: self.blob_hash.clone(),
            enabled: self.enabled,
        }
    }
}

pub fn duplicate_file_fields(v: &Vec<FormDataFileField>) -> (r: Vec<FormDataFileField>)
    ensures
        r@ == v@,
{
    let mut out: Vec<FormDataFileField> = Vec::new();
    let mut i: usize = 0;
    while i < v.len()
        invariant
            i <= v.len(),
            out@ == v@.subrange(0, i as int),
        decreases v.len() - i,
    {
        out.push(v[i].duplicate());
        i = i + 1;
    }
    assert(out@ == v@.subrange(0, v.len() as int));
    out
}

fn same_file_fields(a: &Vec<FormDataFileField>, b: &Vec<FormDataFileField>) -> (r: bool)
    ensures
        r == (file_fields_view(a@) == file_fields_view(b@)),
{
    if a.len() != b.len() {
        proof {
            assert(file_fields_view(a@).len() != file_fields_view(b@).len());
        }
        return false;
    }
    let mut i: usize = 0;
    while i < a.len()
        invariant
            a.len() == b.len(),
            i <= a.len(),
            forall|j: int| 0 <= j < i ==> file_field_view(#[trigger] a@[j]) == file_field_view(b@[j]),
        decreases a.len() - i,
    {
        let x = &a[i];
        let y = &b[i];
        let same = x.key == y.key && same_opt_string(&x.file_name, &y.file_name)
            && x.blob_hash == y.blob_hash && x.enabled == y.enabled;
        if !same {
            proof {
                assert(file_fields_view(a@)[i as int] != file_fields_view(b@)[i as int]);
            }
            return false;
        }
        i = i + 1;
    }
    proof {
        assert(file_fields_view(a@) =~= file_fields_view(b@));
    }
    true
}

/// The body of a request.
#[derive(Debug, Clone, PartialEq, Eq)]
pub enum BodyType {
    NoBody,
    RawText { content: String },
    RawJson { content: String },
    UrlEncoded { entries: Vec<KeyValuePair> },
    FormData { text_fields: Vec<KeyValuePair>, file_fields: Vec<FormDataFileField> },
    BinaryFile { file_name: Option<String>, blob_hash: String },
}

/// Equality of two bodies, taking strings by their characters.
pub open spec fn body_same(a: BodyType, b: BodyType) -> bool {
    match (a, b) {
        (BodyType::NoBody, BodyType::NoBody) => true,
        (BodyType::RawText { content: c1 }, BodyType::RawText { content: c2 }) => c1@ == c2@,
        (BodyType::RawJson { content: c1 }, BodyType::RawJson { content: c2 }) => c1@ == c2@,
        (BodyType::UrlEncoded { entries: e1 }, BodyType::UrlEncoded { entries: e2 }) =>
            kvs_view(e1@) == kvs_view(e2@),
        (
            BodyType::FormData { text_fields: t1, file_fields: f1 },
            BodyType::FormData { text_fields: t2, file_fields: f2 },
        ) => kvs_view(t1@) == kvs_view(t2@) && file_fields_view(f1@) == file_fields_view(f2@),
        (
            BodyType::BinaryFile { file_name: n1, blob_hash: h1 },
            BodyType::BinaryFile { file_name: n2, blob_hash: h2 },
        ) => opt_view(n1) == opt_view(n2) && h1@ == h2@,
        _ => false,
    }
}

impl BodyType {
    pub fn duplicate(&self) -> (r: Self)
        ensures
            body_same(r, *self),
    {
        match self {
            BodyType::NoBody => BodyType::NoBody,
            BodyType::RawText { content } => BodyType::RawText { content: content.clone() },
            BodyType::RawJson { content } => BodyType::RawJson { content: content.clone() },
            BodyType::UrlEncoded { entries } => BodyType::UrlEncoded {
                entries: duplicate_pairs(entries),
            },
            BodyType::FormData { text_fields, file_fields } => BodyType::FormData {
                text_fields: duplicate_pairs(text_fields),
                file_fields: duplicate_file_fields(file_fields),
            },
            BodyType::BinaryFile { file_name, blob_hash } => BodyType::BinaryFile {
                file_name: copy_opt_string(file_name),
                blob_hash: blob_hash.clone(),
            },
        }
    }

    pub fn same_as(&self, other: &Self) -> (r: bool)
        ensures
            r == body_same(*self, *other),
    {
        match (self, other) {
            (BodyType::NoBody, BodyType::NoBody) => true,
            (BodyType::RawText { content: c1 }, BodyType::RawText { content: c2 }) => *c1 == *c2,
            (BodyType::RawJson { content: c1 }, BodyType::RawJson { content: c2 }) => *c1 == *c2,
            (BodyType::UrlEncoded { entries: e1 }, BodyType::UrlEncoded { entries: e2 }) =>
                same_pairs(e1, e2),
            (
                BodyType::FormData { text_fields: t1, file_fields: f1 },
                BodyType::FormData { text_fields: t2, file_fields: f2 },
            ) => same_pairs(t1, t2) && same_file_fields(f1, f2),
            (
                BodyType::BinaryFile { file_name: n1, blob_hash: h1 },
                BodyType::BinaryFile { file_name: n2, blob_hash: h2 },
            ) => same_opt_string(n1, n2) && *h1 == *h2,
            _ => false,
        }
    }
}

/// A stored HTTP request.
#[derive(Debug, Clone, PartialEq, Eq)]
pub struct RequestItem {
    pub id: RequestId,
    pub collection_id: CollectionId,
    pub parent_folder_id: Option<FolderId>,
    pub name: String,
    pub method: String,
    pub url: String,
    pub params: Vec<KeyValuePair>,
    pub headers: Vec<KeyValuePair>,
    pub auth: AuthType,
    pub body: BodyType,
    pub scripts: String,
    pub settings: String,
    pub variable_overrides_json: String,
    pub sort_order: i64,
    pub meta: RevisionMetadata,
}

/// The fields that the editor compares to decide whether a draft has unsaved
/// changes: everything the user edits, not ids, position or revision.
pub open spec fn same_editable_content(a: RequestItem, b: RequestItem) -> bool {
    &&& a.name@ == b.name@
    &&& a.method@ == b.method@
    &&& a.url@ == b.url@
    &&& kvs_view(a.params@) == kvs_view(b.params@)
    &&& kvs_view(a.headers@) == kvs_view(b.headers@)
    &&& auth_same(a.auth, b.auth)
    &&& body_same(a.body, b.body)
    &&& a.scripts@ == b.scripts@
    &&& a.settings@ == b.settings@
}

/// Equality of every field of two requests, taking strings and lists by
/// their contents.
pub open spec fn request_same(a: RequestItem, b: RequestItem) -> bool {
    &&& same_editable_content(a, b)
    &&& a.id == b.id
    &&& a.collection_id == b.collection_id
    &&& a.parent_folder_id == b.parent_folder_id
    &&& a.variable_overrides_json@ == b.variable_overrides_json@
    &&& a.sort_order == b.sort_order
    &&& a.meta == b.meta
}

impl RequestItem {
    /// A new request with a fresh id, no params, headers, auth or body.
    pub fn new(
        collection_id: CollectionId,
        parent_folder_id: Option<FolderId>,
        name: &str,
        method: &str,
        url: &str,
        sort_order: i64,
    ) -> (r: Self)
        ensures
            r.collection_id == collection_id,
            r.parent_folder_id == parent_folder_id,
            r.name@ == name@,
            r.method@ == method@,
            r.url@ == url@,
            r.params@.len() == 0,
            r.headers@.len() == 0,
            r.auth == AuthType::NoAuth,
            r.body == BodyType::NoBody,
            r.scripts@.len() == 0,
            r.settings@.len() == 0,
            r.variable_overrides_json@.len() == 0,
            r.sort_order == sort_order,
            r.meta.revision == 1,
    {
        RequestItem {
            id: RequestId::new(),
            collection_id,
            parent_folder_id,
            name: owned(name),
            method: owned(method),
            url: owned(url),
            params: Vec::new(),
            headers: Vec::new(),
            auth: AuthType::NoAuth,
            body: BodyType::NoBody,
            scripts: String::new(),
            settings: String::new(),
            variable_overrides_json: String::new(),
            sort_order,
            meta: RevisionMetadata::new_now(),
        }
    }

    pub fn duplicate(&self) -> (r: Self)
        ensures
            request_same(r, *self),
    {
        RequestItem {
            id: self.id,
            collection_id: self.collection_id,
            parent_folder_id: self.parent_folder_id,
            name: self.name.clone(),
            method: self.method.clone(),
            url: self.url.clone(),
            params: duplicate_pairs(&self.params),
            headers: duplicate_pairs(&self.headers),
            auth: self.auth.duplicate(),
            body: self.body.duplicate(),
            scripts: self.scripts.clone(),
            settings: self.settings.clone(),
            variable_overrides_json: self.variable_overrides_json.clone(),
            sort_order: self.sort_order,
            meta: self.meta,
        }
    }

    /// Whether the user-editable fields of two requests are equal.
    pub fn same_editable_content_as(&self, other: &Self) -> (r: bool)
        ensures
            r == same_editable_content(*self, *other),
    {
        self.name == other.name && self.method == other.method && self.url == other.url
            && same_pairs(&self.params, &other.params) && same_pairs(&self.headers, &other.headers)
            && self.auth.same_as(&other.auth) && self.body.same_as(&other.body)
            && self.scripts == other.scripts && self.settings == other.settings
    }
}

#[derive(Debug, Clone, PartialEq, Eq)]
pub struct Workspace {
    pub id: WorkspaceId,
    pub name: String,
    pub variables_json: String,
    pub meta: RevisionMetadata,
}

impl Workspace {
    /// A copy of the workspace, field by field.
    pub fn duplicate(&self) -> (r: Self)
        ensures
            r == *self,
    {
        Workspace {
            id: self.id,
            name: self.name.clone(),
            variables_json: self.variables_json.clone(),
            meta: self.meta,
        }
    }
}

#[derive(Debug, Clone, Copy, PartialEq, Eq, Structural)]
pub enum CollectionStorageKind {
    Managed,
    Linked,
}

#[derive(Debug, Clone, PartialEq, Eq, Default)]
pub struct CollectionStorageConfig {
    pub linked_root_path: Option<String>,
}

#[derive(Debug, Clone, PartialEq, Eq)]
pub struct Collection {
    pub id: CollectionId,
    pub workspace_id: WorkspaceId,
    pub name: String,
    pub sort_order: i64,
    pub storage_kind: CollectionStorageKind,
    pub storage_config: CollectionStorageConfig,
    pub meta: RevisionMetadata,
}

impl Collection {
    /// A new managed collection with a fresh id.
    pub fn new(workspace_id: WorkspaceId, name: &str, sort_order: i64) -> (r: Self)
        ensures
            r.workspace_id == workspace_id,
            r.name@ == name@,
            r.sort_order == sort_order,
            r.storage_kind == CollectionStorageKind::Managed,
            r.storage_config.linked_root_path.is_none(),
            r.meta.revision == 1,
    {
        Collection {
            id: CollectionId::new(),
            workspace_id,
            name: owned(name),
            sort_order,
            storage_kind: CollectionStorageKind::Managed,
            storage_config: CollectionStorageConfig { linked_root_path: None },
            meta: RevisionMetadata::new_now(),
        }
    }
}

#[derive(Debug, Clone, PartialEq, Eq)]
pub struct Folder {
    pub id: FolderId,
    pub collection_id: CollectionId,
    pub parent_folder_id: Option<FolderId>,
    pub name: String,
    pub sort_order: i64,
    pub meta: RevisionMetadata,
}

impl Folder {
    /// A copy of the folder, field by field.
    pub fn duplicate(&self) -> (r: Self)
        ensures
            folder_same(r, *self),
    {
        Folder {
            id: self.id,
            collection_id: self.collection_id,
            parent_folder_id: self.parent_folder_id,
            name: self.name.clone(),
            sort_order: self.sort_order,
            meta: self.meta,
        }
    }
}

/// Equality of every field of two folders, taking the name by its text.
pub open spec fn folder_same(a: Folder, b: Folder) -> bool {
    &&& a.id == b.id
    &&& a.collection_id == b.collection_id
    &&& a.parent_folder_id == b.parent_folder_id
    &&& a.name@ == b.name@
    &&& a.sort_order == b.sort_order
    &&& a.meta == b.meta
}

#[derive(Debug, Clone, PartialEq, Eq)]
pub struct Environment {
    pub id: EnvironmentId,
    pub workspace_id: WorkspaceId,
    pub name: String,
    pub variables_json: String,
    pub meta: RevisionMetadata,
}

impl Environment {
    /// A new environment with a fresh id and no variables (`[]`).
    pub fn new(workspace_id: WorkspaceId, name: String) -> (r: Self)
        ensures
            r.workspace_id == workspace_id,
            r.name == name,
            r.variables_json@ == seq!['[', ']'],
            r.meta.revision == 1,
    {
        let variables_json = owned("[]");
        proof {
            reveal_strlit("[]");
        }
        Environment {
            id: EnvironmentId::new(),
            workspace_id,
            name,
            variables_json,
            meta: RevisionMetadata::new_now(),
        }
    }

    /// A copy of the environment, field by field.
    pub fn duplicate(&self) -> (r: Self)
        ensures
            r.id == self.id,
            r.workspace_id == self.workspace_id,
            r.name@ == self.name@,
            r.variables_json@ == self.variables_json@,
            r.meta == self.meta,
    {
        Environment {
            id: self.id,
            workspace_id: self.workspace_id,
            name: self.name.clone(),
            variables_json: self.variables_json.clone(),
            meta: self.meta,
        }
    }
}

/// Where the body of a response is kept.
#[derive(Debug, Clone, PartialEq, Eq)]
pub enum BodyRef {
    Empty,
    InMemoryPreview { bytes: Vec<u8>, truncated: bool },
    DiskBlob { blob_id: String, preview: Option<Vec<u8>>, size_bytes: u64 },
}

/// One header of a response.
#[derive(Debug, Clone, PartialEq, Eq)]
pub struct ResponseHeaderRow {
    pub name: String,
    pub value: String,
}

/// What the editor keeps of a finished response.
#[derive(Debug, Clone, PartialEq, Eq)]
pub struct ResponseSummary {
    pub status_code: u16,
    pub status_text: String,
    pub headers_json: Option<String>,
    pub media_type: Option<String>,
    pub body_ref: BodyRef,
    pub total_ms: Option<u64>,
    pub ttfb_ms: Option<u64>,
    pub dispatched_at_unix_ms: Option<i64>,
    pub first_byte_at_unix_ms: Option<i64>,
    pub completed_at_unix_ms: Option<i64>,
    /// The protocol version, as its label.
    pub http_version: Option<String>,
    pub local_addr: Option<String>,
    pub remote_addr: Option<String>,
    pub tls: Option<TlsSummary>,
    pub size: ResponseSizeBreakdown,
    pub request_size: RequestSizeBreakdown,
    pub phase_timings: PhaseTimings,
}

/// The sizes of a response: its header block, its body as declared on the
/// wire, and its body as received.
#[derive(Debug, Clone, Copy, PartialEq, Eq, Structural)]
pub struct ResponseSizeBreakdown {
    pub headers_bytes: Option<u64>,
    pub body_wire_bytes: Option<u64>,
    pub body_decoded_bytes: u64,
}

/// The sizes of the request that was sent: its header block and its body.
#[derive(Debug, Clone, Copy, PartialEq, Eq, Structural)]
pub struct RequestSizeBreakdown {
    pub headers_bytes: Option<u64>,
    pub body_bytes: u64,
}

impl BodyRef {
    /// The size of the body: none for an empty one, the preview's length
    /// for one held in memory, the stored size for a stored one.
    pub fn size_bytes(&self) -> (r: u64)
        ensures
            r == (match *self {
                BodyRef::Empty => 0,
                BodyRef::InMemoryPreview { bytes, .. } => bytes@.len() as u64,
                BodyRef::DiskBlob { size_bytes, .. } => size_bytes,
            }),
    {
        match self {
            BodyRef::Empty => 0,
            BodyRef::InMemoryPreview { bytes, .. } => bytes.len() as u64,
            BodyRef::DiskBlob { size_bytes, .. } => *size_bytes,
        }
    }
}

} // verus!

//! The request tab's auth and body pickers applied to the draft: the body
//! kind picks a body made of the matching inputs, and the auth kind an auth
//! setting whose secrets are stored under the tab's request.
use vstd::prelude::*;
use vstd::string::StringExecFns;

use crate::domain::{
    auth_same, body_same, duplicate_file_fields, file_fields_view, kvs_view, opt_view, AuthType,
    BodyType, FormDataFileField, KeyValuePair,
};
use crate::ids::uuid_text;
use crate::kv_table::{meaningful_pairs, meaningful_spec};
use crate::repos::{SecretRefRepository, SecretStore};
use crate::request_editor_state::{
    refreshed_status, EditorIdentity, EditorView, PreflightError, RequestEditorState, SaveStatus,
};
use crate::request_execution::{parse_u64, parse_u64_spec};
use crate::response_view::{api_key_location_from_index, is_lit, AuthKind, BodyKind};
use crate::text::{ascii_lower, chars_of, string_of, sub_vec, to_ascii_lowercase, trim, trim_bounds};
use crate::secret_manager::{error_message_spec, SecretManager};

verus! {

/// The tab has work that is not saved: its status says so (dirty, saving,
/// or a failed save), or the draft differs from the baseline.
pub fn has_unsaved_changes(editor: &RequestEditorState) -> (r: bool)
    ensures
        r == (!(editor@.save_status is Pristine) || crate::request_editor_state::dirty_spec(
            editor@,
        )),
{
    match editor.save_status() {
        SaveStatus::Dirty | SaveStatus::SaveFailed { .. } | SaveStatus::Saving => true,
        SaveStatus::Pristine => editor.detect_dirty(),
    }
}

/// The kind of a body.
pub open spec fn body_kind_spec(body: BodyType) -> BodyKind {
    match body {
        BodyType::NoBody => BodyKind::NoBody,
        BodyType::RawText { .. } => BodyKind::RawText,
        BodyType::RawJson { .. } => BodyKind::RawJson,
        BodyType::UrlEncoded { .. } => BodyKind::UrlEncoded,
        BodyType::FormData { .. } => BodyKind::FormData,
        BodyType::BinaryFile { .. } => BodyKind::BinaryFile,
    }
}

/// The kind of a body.
pub fn body_kind_of(body: &BodyType) -> (r: BodyKind)
    ensures
        r == body_kind_spec(*body),
{
    match body {
        BodyType::NoBody => BodyKind::NoBody,
        BodyType::RawText { .. } => BodyKind::RawText,
        BodyType::RawJson { .. } => BodyKind::RawJson,
        BodyType::UrlEncoded { .. } => BodyKind::UrlEncoded,
        BodyType::FormData { .. } => BodyKind::FormData,
        BodyType::BinaryFile { .. } => BodyKind::BinaryFile,
    }
}

/// What the body editors currently hold.
#[derive(Debug, Clone)]
pub struct BodyInputs {
    pub raw_text: String,
    pub raw_json: String,
    pub url_encoded_rows: Vec<KeyValuePair>,
    pub form_text_rows: Vec<KeyValuePair>,
}

/// The body a kind picks: made of the inputs for that kind; a form keeps
/// the file parts and a file body the file of the current body, when that
/// is of the same kind.
pub open spec fn body_for_kind_ok(
    kind: BodyKind,
    inputs: BodyInputs,
    current: BodyType,
    b: BodyType,
) -> bool {
    match kind {
        BodyKind::NoBody => b is NoBody,
        BodyKind::RawText => b matches BodyType::RawText { content } && content@ == inputs.raw_text@,
        BodyKind::RawJson => b matches BodyType::RawJson { content } && content@ == inputs.raw_json@,
        BodyKind::UrlEncoded => b matches BodyType::UrlEncoded { entries } && kvs_view(entries@)
            == kvs_view(meaningful_spec(inputs.url_encoded_rows@)),
        BodyKind::FormData => b matches BodyType::FormData { text_fields, file_fields } && kvs_view(
            text_fields@,
        ) == kvs_view(meaningful_spec(inputs.form_text_rows@)) && file_fields_view(file_fields@)
            == match current {
            BodyType::FormData { file_fields: kept, .. } => file_fields_view(kept@),
            _ => Seq::empty(),
        },
        BodyKind::BinaryFile => b matches BodyType::BinaryFile { file_name, blob_hash } && match current {
            BodyType::BinaryFile { file_name: n, blob_hash: h } => opt_view(file_name) == opt_view(n)
                && blob_hash@ == h@,
            _ => file_name is None && blob_hash@.len() == 0,
        },
    }
}

/// Picking the same body kind again, with the same inputs, picks the same
/// body: a repeated pick leaves the draft as it is.
pub proof fn law_body_kind_pick_is_idempotent(
    kind: BodyKind,
    inputs: BodyInputs,
    current: BodyType,
    first: BodyType,
    second: BodyType,
)
    requires
        body_for_kind_ok(kind, inputs, current, first),
        body_for_kind_ok(kind, inputs, first, second),
    ensures
        body_same(first, second),
{
}

/// The body a kind picks.
pub fn body_for_kind(kind: BodyKind, inputs: &BodyInputs, current: &BodyType) -> (r: BodyType)
    ensures
        body_for_kind_ok(kind, *inputs, *current, r),
{
    match kind {
        BodyKind::NoBody => BodyType::NoBody,
        BodyKind::RawText => BodyType::RawText { content: inputs.raw_text.clone() },
        BodyKind::RawJson => BodyType::RawJson { content: inputs.raw_json.clone() },
        BodyKind::UrlEncoded => BodyType::UrlEncoded {
            entries: meaningful_pairs(&inputs.url_encoded_rows),
        },
        BodyKind::FormData => {
            let file_fields = match current {
                BodyType::FormData { file_fields, .. } => duplicate_file_fields(file_fields),
                _ => {
                    let v: Vec<FormDataFileField> = Vec::new();
                    proof {
                        assert(file_fields_view(v@) =~= Seq::empty());
                    }
                    v
                },
            };
            BodyType::FormData {
                text_fields: meaningful_pairs(&inputs.form_text_rows),
                file_fields,
            }
        },
        BodyKind::BinaryFile => match current {
            BodyType::BinaryFile { file_name, blob_hash } => BodyType::BinaryFile {
                file_name: crate::domain::copy_opt_string(file_name),
                blob_hash: blob_hash.clone(),
            },
            _ => BodyType::BinaryFile { file_name: None, blob_hash: String::new() },
        },
    }
}

/// The editor after the draft took a new value of one part: the preflight
/// error is cleared and the save status refreshed.
pub open spec fn edited(old_v: EditorView, new_v: EditorView) -> bool {
    new_v == (EditorView {
        draft: new_v.draft,
        preflight_error: None,
        save_status: refreshed_status(
            EditorView { draft: new_v.draft, preflight_error: None, ..old_v },
        ),
        ..old_v
    })
}

/// Picks a body kind: the draft takes the body the kind picks, when it
/// differs from the current one; whether it did.
pub fn set_body_kind(editor: &mut RequestEditorState, kind: BodyKind, inputs: &BodyInputs) -> (r:
    bool)
    ensures
        ({
            let old_v = old(editor)@;
            let new_v = final(editor)@;
            &&& body_for_kind_ok(kind, *inputs, old_v.draft.body, new_v.draft.body)
            &&& r == !body_same(old_v.draft.body, new_v.draft.body)
            &&& r ==> edited(old_v, new_v) && new_v.draft == (crate::domain::RequestItem {
                body: new_v.draft.body,
                ..old_v.draft
            })
            &&& !r ==> new_v == old_v
        }),
{
    let next = body_for_kind(kind, inputs, &editor.draft().body);
    if !editor.draft().body.same_as(&next) {
        editor.draft_mut().body = next;
        editor.refresh_save_status();
        true
    } else {
        false
    }
}

/// Whose secrets a tab stores: `request_draft` or `request`, and the id as
/// text.
pub open spec fn secret_owner_spec(identity: EditorIdentity) -> (Seq<char>, Seq<char>) {
    match identity {
        EditorIdentity::Draft(id) => ("request_draft"@, uuid_text(id.0)),
        EditorIdentity::Persisted(id) => ("request"@, uuid_text(id.0)),
    }
}

/// Whose secrets a tab stores.
pub fn secret_owner(identity: &EditorIdentity) -> (r: (String, String))
    ensures
        (r.0@, r.1@) == secret_owner_spec(*identity),
{
    match identity {
        EditorIdentity::Draft(id) => (String::from_str("request_draft"), id.to_text()),
        EditorIdentity::Persisted(id) => (String::from_str("request"), id.to_text()),
    }
}

/// The message shown when an auth secret could not be stored.
pub open spec fn store_failure_message(e_text: Seq<char>) -> Seq<char> {
    "failed to store auth secret: "@ + e_text
}

/// Stores an auth secret of the tab's request and gives the key it is kept
/// under; an empty value deletes the secret instead (a failed delete is
/// ignored) and gives `None`. A failure to store gives `None` and shows a
/// preflight error.
pub fn upsert_auth_secret_value<R: SecretRefRepository, S: SecretStore>(
    editor: &mut RequestEditorState,
    secrets: &SecretManager<R, S>,
    secret_kind: &str,
    value: &str,
) -> (r: Option<String>)
    ensures
        value@.len() == 0 ==> r is None && final(editor)@ == old(editor)@,
        r is Some ==> final(editor)@ == old(editor)@,
        value@.len() > 0 && r is None ==> exists|e|
            #![trigger error_message_spec(e)]
            final(editor)@ == (EditorView {
                preflight_error: Some(
                    PreflightError { message: final(editor)@.preflight_error->0.message },
                ),
                ..old(editor)@
            }) && final(editor)@.preflight_error->0.message@ == store_failure_message(
                error_message_spec(e),
            ),
{
    let (owner_kind, owner_id) = secret_owner(editor.identity());
    if value.is_empty() {
        let _ = secrets.delete_secret(owner_kind.as_str(), owner_id.as_str(), secret_kind);
        return None;
    }
    match secrets.upsert_secret(owner_kind.as_str(), owner_id.as_str(), secret_kind, value) {
        Ok(secret_ref) => Some(secret_ref.key_name),
        Err(err) => {
            let text = err.message();
            let message = String::from_str("failed to store auth secret: ").concat(text.as_str());
            editor.set_preflight_error(message);
            None
        },
    }
}

/// What the auth editors currently hold.
#[derive(Debug, Clone)]
pub struct AuthInputs {
    pub basic_username: String,
    pub basic_password: String,
    pub bearer_token: String,
    pub api_key_name: String,
    pub api_key_value: String,
    pub api_key_location_index: usize,
}

/// The auth setting a kind picks, apart from where its secret is kept:
/// the kind, its plain fields from the inputs, and no secret reference
/// when the secret input is empty.
pub open spec fn auth_for_kind_ok(kind: AuthKind, inputs: AuthInputs, a: AuthType) -> bool {
    match kind {
        AuthKind::NoAuth => a is NoAuth,
        AuthKind::Basic => a matches AuthType::Basic { username, password_secret_ref }
            && username@ == inputs.basic_username@ && (inputs.basic_password@.len() == 0
            ==> password_secret_ref is None),
        AuthKind::Bearer => a matches AuthType::Bearer { token_secret_ref } && (
        inputs.bearer_token@.len() == 0 ==> token_secret_ref is None),
        AuthKind::ApiKey => a matches AuthType::ApiKey { key_name, value_secret_ref, location }
            && key_name@ == inputs.api_key_name@ && location == (if inputs.api_key_location_index
            == 1 {
            crate::domain::ApiKeyLocation::Query
        } else {
            crate::domain::ApiKeyLocation::Header
        }) && (inputs.api_key_value@.len() == 0 ==> value_secret_ref is None),
    }
}

/// The editor is as before but for a preflight error.
pub open spec fn same_but_preflight(a: EditorView, b: EditorView) -> bool {
    a == (EditorView { preflight_error: a.preflight_error, ..b })
}

/// The auth setting a kind picks, its secret stored under the tab's request
/// (`basic_password`, `bearer_token` or `api_key_value`).
pub fn auth_from_inputs<R: SecretRefRepository, S: SecretStore>(
    editor: &mut RequestEditorState,
    secrets: &SecretManager<R, S>,
    kind: AuthKind,
    inputs: &AuthInputs,
) -> (r: AuthType)
    ensures
        auth_for_kind_ok(kind, *inputs, r),
        same_but_preflight(final(editor)@, old(editor)@),
{
    match kind {
        AuthKind::NoAuth => AuthType::NoAuth,
        AuthKind::Basic => {
            let password_secret_ref = upsert_auth_secret_value(
                editor,
                secrets,
                "basic_password",
                inputs.basic_password.as_str(),
            );
            AuthType::Basic { username: inputs.basic_username.clone(), password_secret_ref }
        },
        AuthKind::Bearer => {
            let token_secret_ref = upsert_auth_secret_value(
                editor,
                secrets,
                "bearer_token",
                inputs.bearer_token.as_str(),
            );
            AuthType::Bearer { token_secret_ref }
        },
        AuthKind::ApiKey => {
            let value_secret_ref = upsert_auth_secret_value(
                editor,
                secrets,
                "api_key_value",
                inputs.api_key_value.as_str(),
            );
            AuthType::ApiKey {
                key_name: inputs.api_key_name.clone(),
                value_secret_ref,
                location: api_key_location_from_index(inputs.api_key_location_index),
            }
        },
    }
}

/// Picks an auth kind: the draft takes the auth setting the kind picks,
/// when it differs from the current one; whether it did.
pub fn set_auth_kind<R: SecretRefRepository, S: SecretStore>(
    editor: &mut RequestEditorState,
    secrets: &SecretManager<R, S>,
    kind: AuthKind,
    inputs: &AuthInputs,
) -> (r: bool)
    ensures
        ({
            let old_v = old(editor)@;
            let new_v = final(editor)@;
            &&& auth_for_kind_ok(kind, *inputs, new_v.draft.auth)
            &&& r ==> !auth_same(old_v.draft.auth, new_v.draft.auth) && new_v.draft == (
            crate::domain::RequestItem { auth: new_v.draft.auth, ..old_v.draft })
                && new_v.preflight_error is None && new_v.save_status == refreshed_status(
                EditorView { draft: new_v.draft, preflight_error: None, ..old_v },
            ) && new_v == (EditorView {
                draft: new_v.draft,
                preflight_error: None,
                save_status: new_v.save_status,
                ..old_v
            })
            &&& !r ==> auth_same(old_v.draft.auth, new_v.draft.auth) && same_but_preflight(
                new_v,
                old_v,
            )
        }),
{
    let next = auth_from_inputs(editor, secrets, kind, inputs);
    if !editor.draft().auth.same_as(&next) {
        editor.draft_mut().auth = next;
        editor.refresh_save_status();
        true
    } else {
        proof {
            assert(auth_for_kind_ok(kind, *inputs, editor@.draft.auth)) by {
                assert(auth_same(editor@.draft.auth, next));
            }
        }
        false
    }
}

/// What the timeout field holds: nothing when blank, else the milliseconds
/// it names when it reads as a `u64` (after trimming), else nothing.
pub open spec fn timeout_input_spec(raw: Seq<char>) -> Option<u64> {
    let t = trim(raw);
    if t.len() == 0 {
        None
    } else {
        parse_u64_spec(t)
    }
}

/// The timeout the field sets, in milliseconds.
pub fn timeout_from_input(raw: &str) -> (r: Option<u64>)
    ensures
        r == timeout_input_spec(raw@),
{
    let c = chars_of(raw);
    let (a, b) = trim_bounds(c.as_slice(), 0, c.len());
    proof {
        assert(c@.subrange(0, c@.len() as int) =~= c@);
    }
    if a == b {
        return None;
    }
    let t = string_of(sub_vec(c.as_slice(), a, b).as_slice());
    parse_u64(t.as_str())
}

/// What the follow-redirects field sets, after trimming and lowering ASCII
/// letters: nothing (`Some(None)`) when blank, on for `true`, `1` or `yes`,
/// off for `false`, `0` or `no`; any other text leaves the setting as it
/// was (`None`).
pub open spec fn follow_redirects_input_spec(raw: Seq<char>) -> Option<Option<bool>> {
    let t = ascii_lower(trim(raw));
    if t.len() == 0 {
        Some(None)
    } else if t == "true"@ || t == "1"@ || t == "yes"@ {
        Some(Some(true))
    } else if t == "false"@ || t == "0"@ || t == "no"@ {
        Some(Some(false))
    } else {
        None
    }
}

/// The follow-redirects setting the field sets, or `None` to leave it.
pub fn follow_redirects_from_input(raw: &str) -> (r: Option<Option<bool>>)
    ensures
        r == follow_redirects_input_spec(raw@),
{
    let c = chars_of(raw);
    let (a, b) = trim_bounds(c.as_slice(), 0, c.len());
    proof {
        assert(c@.subrange(0, c@.len() as int) =~= c@);
    }
    let t = sub_vec(c.as_slice(), a, b);
    let l = to_ascii_lowercase(t.as_slice());
    if l.len() == 0 {
        Some(None)
    } else if is_lit(l.as_slice(), "true") || is_lit(l.as_slice(), "1") || is_lit(l.as_slice(), "yes") {
        Some(Some(true))
    } else if is_lit(l.as_slice(), "false") || is_lit(l.as_slice(), "0") || is_lit(l.as_slice(), "no") {
        Some(Some(false))
    } else {
        None
    }
}

} // verus!

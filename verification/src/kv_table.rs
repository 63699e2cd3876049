//! The key/value tables of the request editor (query parameters, headers,
//! and the text parts of form bodies): which rows count, which rows the
//! table shows, and how an edit of a table changes the draft.
use vstd::prelude::*;

use crate::domain::{
    duplicate_file_fields, duplicate_pairs, file_fields_view, kvs_view, same_pairs, BodyType,
    FormDataFileField, KeyValuePair, RequestItem,
};
use crate::request_editor_state::{refreshed_status, EditorView, RequestEditorState};
use crate::response_view::{BodyKind, ReentrancyGuard};
use crate::text::{chars_of, trim, trim_bounds};
use crate::url_params::{url_with_params, url_with_params_spec};

verus! {

/// The table an edit belongs to.
#[derive(Debug, Clone, Copy, PartialEq, Eq, Structural)]
pub enum KvTarget {
    Params,
    Headers,
    BodyUrlEncoded,
    BodyFormDataText,
}

/// A row whose key and value are both blank (empty or whitespace).
pub open spec fn row_blank(p: KeyValuePair) -> bool {
    trim(p.key@).len() == 0 && trim(p.value@).len() == 0
}

/// The rows that count: all but the blank ones, in order.
pub open spec fn meaningful_spec(rows: Seq<KeyValuePair>) -> Seq<KeyValuePair>
    decreases rows.len(),
{
    if rows.len() == 0 {
        Seq::empty()
    } else {
        let rest = meaningful_spec(rows.drop_last());
        if row_blank(rows.last()) {
            rest
        } else {
            rest.push(rows.last())
        }
    }
}

/// Whether the text is empty or whitespace.
fn is_blank(s: &String) -> (r: bool)
    ensures
        r == (trim(s@).len() == 0),
{
    let c = chars_of(s.as_str());
    proof {
        assert(c@.subrange(0, c@.len() as int) =~= c@);
    }
    let (a, b) = trim_bounds(c.as_slice(), 0, c.len());
    a == b
}

/// Whether a row is blank.
pub fn row_is_blank(p: &KeyValuePair) -> (r: bool)
    ensures
        r == row_blank(*p),
{
    is_blank(&p.key) && is_blank(&p.value)
}

/// The rows that count: all but the blank ones, in order.
pub fn meaningful_pairs(rows: &Vec<KeyValuePair>) -> (r: Vec<KeyValuePair>)
    ensures
        r@ == meaningful_spec(rows@),
{
    let mut out: Vec<KeyValuePair> = Vec::new();
    let mut i: usize = 0;
    while i < rows.len()
        invariant
            i <= rows.len(),
            out@ == meaningful_spec(rows@.take(i as int)),
        decreases rows.len() - i,
    {
        proof {
            assert(rows@.take(i as int + 1).drop_last() =~= rows@.take(i as int));
            assert(rows@.take(i as int + 1).last() == rows@[i as int]);
        }
        if !row_is_blank(&rows[i]) {
            out.push(rows[i].duplicate());
        }
        i = i + 1;
    }
    proof {
        assert(rows@.take(rows.len() as int) =~= rows@);
    }
    out
}

/// A fresh row: empty key and value, enabled.
pub open spec fn is_fresh_row(p: KeyValuePair) -> bool {
    p.key@.len() == 0 && p.value@.len() == 0 && p.enabled
}

fn fresh_row() -> (r: KeyValuePair)
    ensures
        is_fresh_row(r),
{
    KeyValuePair { key: String::new(), value: String::new(), enabled: true }
}

/// The rows a table shows for stored entries: the entries (a fresh row
/// when there are none), then a fresh row unless the last one is blank.
pub open spec fn shown_rows_ok(entries: Seq<KeyValuePair>, shown: Seq<KeyValuePair>) -> bool {
    let base_len = if entries.len() == 0 { 1int } else { entries.len() as int };
    let base_ends_blank = if entries.len() == 0 { true } else { row_blank(entries.last()) };
    &&& shown.len() == if base_ends_blank { base_len } else { base_len + 1 }
    &&& entries.len() == 0 ==> is_fresh_row(shown[0])
    &&& kvs_view(shown.take(entries.len() as int)) == kvs_view(entries)
    &&& !base_ends_blank ==> is_fresh_row(shown.last())
}

/// The rows a table shows for stored entries: the entries (a fresh row
/// when there are none), then a fresh row unless the last one is blank.
pub fn shown_rows(entries: &Vec<KeyValuePair>) -> (r: Vec<KeyValuePair>)
    ensures
        shown_rows_ok(entries@, r@),
{
    let mut rows = if entries.len() == 0 {
        let mut v: Vec<KeyValuePair> = Vec::new();
        v.push(fresh_row());
        v
    } else {
        duplicate_pairs(entries)
    };
    let last = rows.len() - 1;
    if !row_is_blank(&rows[last]) {
        let ghost before = rows@;
        rows.push(fresh_row());
        proof {
            assert(rows@.take(entries.len() as int) =~= before.take(entries.len() as int));
        }
    }
    proof {
        if entries.len() > 0 {
            assert(rows@.take(entries.len() as int).len() == entries.len());
            assert(kvs_view(rows@.take(entries.len() as int)) =~= kvs_view(entries@));
        } else {
            assert(kvs_view(rows@.take(0)) =~= kvs_view(entries@));
        }
    }
    rows
}

/// The stored entries a table stands for, when the draft has that table:
/// the form tables only exist for a body of their kind.
pub open spec fn table_entries(draft: RequestItem, target: KvTarget) -> Option<Seq<KeyValuePair>> {
    match target {
        KvTarget::Params => Some(draft.params@),
        KvTarget::Headers => Some(draft.headers@),
        KvTarget::BodyUrlEncoded => match draft.body {
            BodyType::UrlEncoded { entries } => Some(entries@),
            _ => None,
        },
        KvTarget::BodyFormDataText => match draft.body {
            BodyType::FormData { text_fields, .. } => Some(text_fields@),
            _ => None,
        },
    }
}

/// When a table no longer matches the draft, the rows it should show:
/// `None` when the draft has no such table or the rows that count already
/// equal its entries.
pub fn rows_to_rebuild(draft: &RequestItem, target: KvTarget, rows: &Vec<KeyValuePair>) -> (r:
    Option<Vec<KeyValuePair>>)
    ensures
        match table_entries(*draft, target) {
            None => r is None,
            Some(entries) => if kvs_view(meaningful_spec(rows@)) == kvs_view(entries) {
                r is None
            } else {
                r matches Some(shown) && shown_rows_ok(entries, shown@)
            },
        },
{
    let entries: &Vec<KeyValuePair> = match target {
        KvTarget::Params => &draft.params,
        KvTarget::Headers => &draft.headers,
        KvTarget::BodyUrlEncoded => match &draft.body {
            BodyType::UrlEncoded { entries } => entries,
            _ => return None,
        },
        KvTarget::BodyFormDataText => match &draft.body {
            BodyType::FormData { text_fields, .. } => text_fields,
            _ => return None,
        },
    };
    let current = meaningful_pairs(rows);
    if same_pairs(&current, entries) {
        None
    } else {
        Some(shown_rows(entries))
    }
}

/// What an edit of a table did.
#[derive(Debug, Clone, PartialEq, Eq)]
pub enum KvEditOutcome {
    /// A parameter edit arrived while the URL and the parameters were being
    /// synchronised; it is to be run again afterwards.
    Deferred,
    /// The edit is for a form table whose body kind is not selected.
    Ignored,
    /// The edit was applied; `url` is the rewritten URL when it changed.
    Applied { draft_changed: bool, url: Option<String> },
}

/// The draft after an edit: only the edited table (and, for parameters,
/// the URL) changes.
pub open spec fn edited_draft_ok(
    old_d: RequestItem,
    new_d: RequestItem,
    target: KvTarget,
    next: Seq<KeyValuePair>,
) -> bool {
    match target {
        KvTarget::Params => {
            &&& kvs_view(new_d.params@) == kvs_view(next)
            &&& new_d.url@ == url_with_params_spec(old_d.url@, new_d.params@)
            &&& new_d == RequestItem { params: new_d.params, url: new_d.url, ..old_d }
        },
        KvTarget::Headers => {
            &&& kvs_view(new_d.headers@) == kvs_view(next)
            &&& new_d == RequestItem { headers: new_d.headers, ..old_d }
        },
        KvTarget::BodyUrlEncoded => {
            &&& new_d.body matches BodyType::UrlEncoded { entries } && kvs_view(entries@)
                == kvs_view(next)
            &&& new_d == RequestItem { body: new_d.body, ..old_d }
        },
        KvTarget::BodyFormDataText => {
            &&& new_d.body matches BodyType::FormData { text_fields, file_fields } && kvs_view(
                text_fields@,
            ) == kvs_view(next) && file_fields_view(file_fields@) == match old_d.body {
                BodyType::FormData { file_fields: old_files, .. } => file_fields_view(old_files@),
                _ => Seq::empty(),
            }
            &&& new_d == RequestItem { body: new_d.body, ..old_d }
        },
    }
}

/// The table's rows no longer match the draft's entries for it.
pub open spec fn table_differs(d: RequestItem, target: KvTarget, next: Seq<KeyValuePair>) -> bool {
    match target {
        KvTarget::Params => kvs_view(d.params@) != kvs_view(next),
        KvTarget::Headers => kvs_view(d.headers@) != kvs_view(next),
        KvTarget::BodyUrlEncoded => !(d.body matches BodyType::UrlEncoded { entries } && kvs_view(
            entries@,
        ) == kvs_view(next)),
        KvTarget::BodyFormDataText => !(d.body matches BodyType::FormData { text_fields, .. }
            && kvs_view(text_fields@) == kvs_view(next)),
    }
}

/// After an edit of the headers or of a form table, the table agrees with
/// the rows that count: repeating the same edit changes nothing.
pub proof fn law_table_edit_settles(
    old_d: RequestItem,
    new_d: RequestItem,
    target: KvTarget,
    next: Seq<KeyValuePair>,
)
    requires
        edited_draft_ok(old_d, new_d, target, next),
        target != KvTarget::Params,
    ensures
        !table_differs(new_d, target, next),
        new_d.url@ == old_d.url@,
{
}

fn copy_file_fields_of(body: &BodyType) -> (r: Vec<FormDataFileField>)
    ensures
        file_fields_view(r@) == match *body {
            BodyType::FormData { file_fields, .. } => file_fields_view(file_fields@),
            _ => Seq::empty(),
        },
{
    match body {
        BodyType::FormData { file_fields, .. } => duplicate_file_fields(file_fields),
        _ => {
            let v: Vec<FormDataFileField> = Vec::new();
            proof {
                assert(file_fields_view(v@) =~= Seq::empty());
            }
            v
        },
    }
}

/// Applies an edit of a table to the editor's draft. A parameter edit
/// during URL synchronisation is deferred; an edit of a form table whose
/// body kind is not selected is ignored. Otherwise the draft takes the rows
/// that count (for a form body, next to its file parts); parameters also
/// rewrite the URL's query. When the draft changed, its save status is
/// refreshed.
pub fn apply_kv_edit(
    editor: &mut RequestEditorState,
    guard: &mut ReentrancyGuard,
    target: KvTarget,
    rows: &Vec<KeyValuePair>,
    selected_body_kind: BodyKind,
) -> (r: KvEditOutcome)
    ensures
        target == KvTarget::Params && old(guard).active ==> {
            &&& r == KvEditOutcome::Deferred
            &&& final(guard).deferred && final(guard).active
            &&& final(editor)@ == old(editor)@
        },
        !(target == KvTarget::Params && old(guard).active) ==> *final(guard) == *old(guard),
        (target == KvTarget::BodyUrlEncoded && selected_body_kind != BodyKind::UrlEncoded) || (
        target == KvTarget::BodyFormDataText && selected_body_kind != BodyKind::FormData) ==> {
            &&& r == KvEditOutcome::Ignored
            &&& final(editor)@ == old(editor)@
        },
        r matches KvEditOutcome::Applied { draft_changed, url } ==> {
            let old_v = old(editor)@;
            let new_d = final(editor)@.draft;
            let next = meaningful_spec(rows@);
            &&& draft_changed == (table_differs(old_v.draft, target, next) || new_d.url@
                != old_v.draft.url@)
            &&& (draft_changed ==> edited_draft_ok(old_v.draft, new_d, target, next)
                && final(editor)@ == (EditorView {
                draft: new_d,
                preflight_error: None,
                save_status: refreshed_status(
                    EditorView { draft: new_d, preflight_error: None, ..old_v },
                ),
                ..old_v
            }))
            &&& (!draft_changed ==> final(editor)@ == old_v)
            &&& (url matches Some(u) <==> (draft_changed && new_d.url@ != old_v.draft.url@))
            &&& (url matches Some(u) ==> u@ == new_d.url@)
        },
        !(target == KvTarget::Params && old(guard).active) && !((target == KvTarget::BodyUrlEncoded
            && selected_body_kind != BodyKind::UrlEncoded) || (target == KvTarget::BodyFormDataText
            && selected_body_kind != BodyKind::FormData)) ==> r is Applied,
{
    if target == KvTarget::Params && guard.is_active() {
        guard.deferred = true;
        return KvEditOutcome::Deferred;
    }
    if (target == KvTarget::BodyUrlEncoded && selected_body_kind != BodyKind::UrlEncoded) || (
    target == KvTarget::BodyFormDataText && selected_body_kind != BodyKind::FormData) {
        return KvEditOutcome::Ignored;
    }
    let next = meaningful_pairs(rows);
    let ghost old_v = editor@;
    let mut draft_changed = false;
    let mut url: Option<String> = None;
    match target {
        KvTarget::Params => {
            if !same_pairs(&editor.draft().params, &next) {
                editor.draft_mut().params = next;
                draft_changed = true;
            }
            let next_url = url_with_params(
                editor.draft().url.as_str(),
                editor.draft().params.as_slice(),
            );
            if editor.draft().url != next_url {
                let shown = next_url.clone();
                editor.draft_mut().url = next_url;
                draft_changed = true;
                url = Some(shown);
            }
        },
        KvTarget::Headers => {
            if !same_pairs(&editor.draft().headers, &next) {
                editor.draft_mut().headers = next;
                draft_changed = true;
            }
        },
        KvTarget::BodyUrlEncoded => {
            let next_body = BodyType::UrlEncoded { entries: next };
            if !editor.draft().body.same_as(&next_body) {
                editor.draft_mut().body = next_body;
                draft_changed = true;
            }
        },
        KvTarget::BodyFormDataText => {
            let file_fields = copy_file_fields_of(&editor.draft().body);
            let next_body = BodyType::FormData { text_fields: next, file_fields };
            if !editor.draft().body.same_as(&next_body) {
                editor.draft_mut().body = next_body;
                draft_changed = true;
            }
        },
    }
    if draft_changed {
        editor.refresh_save_status();
    }
    KvEditOutcome::Applied { draft_changed, url }
}

} // verus!

//! The per-tab editor of one request: the draft being edited, its saved
//! baseline, and two independent lifecycles, saving and sending.
use std::sync::Arc;

use vstd::prelude::*;

use crate::domain::{request_same, same_editable_content, RequestItem, ResponseSummary};
use crate::error_classifier::ClassifiedError;
use crate::ids::{CollectionId, HistoryEntryId, RequestDraftId, RequestId};

verus! {

#[verifier::external_type_specification]
#[verifier::external_body]
pub struct ExCancellationToken(tokio_util::sync::CancellationToken);

/// A fresh, not yet cancelled token: `CancellationToken::new`.
#[verifier::external_body]
fn new_cancellation_token() -> tokio_util::sync::CancellationToken {
    tokio_util::sync::CancellationToken::new()
}

/// Signals cancellation to every holder of the token:
/// `CancellationToken::cancel`. The token is shared state, so nothing is
/// stated of it here.
#[verifier::external_body]
fn cancel_token(token: &tokio_util::sync::CancellationToken) {
    token.cancel();
}

/// Whether the draft is saved (axis of persistence).
#[derive(Debug, Clone, PartialEq)]
pub enum SaveStatus {
    /// The draft equals the saved baseline.
    Pristine,
    /// The draft differs from the baseline.
    Dirty,
    /// A save is in flight.
    Saving,
    /// The last save failed; the draft is still in memory.
    SaveFailed { error: String },
}

/// Where the last send stands (axis of the network operation).
#[derive(Debug, Clone)]
pub enum ExecStatus {
    Idle,
    Sending,
    Streaming,
    Completed { response: Arc<ResponseSummary> },
    Failed { summary: String, classified: Option<ClassifiedError> },
    Cancelled { partial_size: Option<u64> },
}

pub open spec fn spec_is_terminal(s: ExecStatus) -> bool {
    s is Completed || s is Failed || s is Cancelled
}

pub open spec fn spec_is_in_flight(s: ExecStatus) -> bool {
    s is Sending || s is Streaming
}

impl ExecStatus {
    /// A finished operation: completed, failed or cancelled.
    pub fn is_terminal(&self) -> (r: bool)
        ensures
            r == spec_is_terminal(*self),
    {
        match self {
            ExecStatus::Completed { .. } | ExecStatus::Failed { .. } | ExecStatus::Cancelled {
                ..
            } => true,
            _ => false,
        }
    }

    /// An operation under way: sending or streaming.
    pub fn is_in_flight(&self) -> (r: bool)
        ensures
            r == spec_is_in_flight(*self),
    {
        match self {
            ExecStatus::Sending | ExecStatus::Streaming => true,
            _ => false,
        }
    }
}

/// A failure before anything was sent (bad URL, missing secret, ...); it does
/// not move the send lifecycle to `Failed`.
#[derive(Debug, Clone)]
pub struct PreflightError {
    pub message: String,
}

/// A tab edits either an unsaved draft or a stored request.
#[derive(Debug, Clone, Copy, PartialEq, Eq, Hash, Structural)]
pub enum EditorIdentity {
    Draft(RequestDraftId),
    Persisted(RequestId),
}

pub open spec fn identity_request_id(i: EditorIdentity) -> Option<RequestId> {
    match i {
        EditorIdentity::Persisted(id) => Some(id),
        EditorIdentity::Draft(_) => None,
    }
}

impl EditorIdentity {
    pub fn as_request_id(&self) -> (r: Option<RequestId>)
        ensures
            r == identity_request_id(*self),
    {
        match self {
            EditorIdentity::Persisted(id) => Some(*id),
            EditorIdentity::Draft(_) => None,
        }
    }
}

/// The abstract state of an editor. `has_token` says whether a cancellation
/// token for the active operation is held.
pub struct EditorView {
    pub identity: EditorIdentity,
    pub draft: RequestItem,
    pub baseline: Option<RequestItem>,
    pub save_status: SaveStatus,
    pub exec_status: ExecStatus,
    pub active_operation_id: Option<HistoryEntryId>,
    pub has_token: bool,
    pub latest_history_id: Option<HistoryEntryId>,
    pub preflight_error: Option<PreflightError>,
}

/// The draft has unsaved changes: there is no baseline, or an editable field
/// differs from it.
pub open spec fn dirty_spec(v: EditorView) -> bool {
    match v.baseline {
        None => true,
        Some(b) => !same_editable_content(v.draft, b),
    }
}

/// The save status that `refresh_save_status` leaves.
pub open spec fn refreshed_status(v: EditorView) -> SaveStatus {
    if dirty_spec(v) {
        if v.save_status is Pristine {
            SaveStatus::Dirty
        } else {
            v.save_status
        }
    } else {
        SaveStatus::Pristine
    }
}

/// Everything but the save lifecycle is as before.
pub open spec fn same_exec_axis(a: EditorView, b: EditorView) -> bool {
    &&& a.exec_status == b.exec_status
    &&& a.active_operation_id == b.active_operation_id
    &&& a.has_token == b.has_token
    &&& a.latest_history_id == b.latest_history_id
}

/// Hot per-tab editor state.
pub struct RequestEditorState {
    identity: EditorIdentity,
    draft: RequestItem,
    baseline: Option<RequestItem>,
    save_status: SaveStatus,
    exec_status: ExecStatus,
    active_operation_id: Option<HistoryEntryId>,
    cancellation_token: Option<tokio_util::sync::CancellationToken>,
    latest_history_id: Option<HistoryEntryId>,
    preflight_error: Option<PreflightError>,
}

impl View for RequestEditorState {
    type V = EditorView;

    closed spec fn view(&self) -> EditorView {
        EditorView {
            identity: self.identity,
            draft: self.draft,
            baseline: self.baseline,
            save_status: self.save_status,
            exec_status: self.exec_status,
            active_operation_id: self.active_operation_id,
            has_token: self.cancellation_token.is_some(),
            latest_history_id: self.latest_history_id,
            preflight_error: self.preflight_error,
        }
    }
}

/// An editor is idle on the send axis: nothing in flight, no error shown.
pub open spec fn exec_cleared(v: EditorView) -> bool {
    &&& v.exec_status is Idle
    &&& v.active_operation_id.is_none()
    &&& !v.has_token
    &&& v.latest_history_id.is_none()
    &&& v.preflight_error.is_none()
}

impl RequestEditorState {
    /// The cancellation token held for the active operation, if any.
    pub closed spec fn held_token(&self) -> Option<tokio_util::sync::CancellationToken> {
        self.cancellation_token
    }

    /// A new unsaved request of the collection, named "Untitled Request",
    /// method GET, empty URL; it starts dirty.
    pub fn new_draft(collection_id: CollectionId) -> (r: Self)
        ensures
            r@.identity is Draft,
            r@.draft.collection_id == collection_id,
            r@.draft.parent_folder_id.is_none(),
            r@.draft.name@ == "Untitled Request"@,
            r@.draft.method@ == "GET"@,
            r@.draft.url@ == ""@,
            r@.draft.sort_order == 0,
            r@.baseline.is_none(),
            r@.save_status == SaveStatus::Dirty,
            exec_cleared(r@),
    {
        let draft = RequestItem::new(collection_id, None, "Untitled Request", "GET", "", 0);
        RequestEditorState {
            identity: EditorIdentity::Draft(RequestDraftId::new()),
            draft,
            baseline: None,
            save_status: SaveStatus::Dirty,
            exec_status: ExecStatus::Idle,
            active_operation_id: None,
            cancellation_token: None,
            latest_history_id: None,
            preflight_error: None,
        }
    }

    /// An editor for a stored request; the request is also the baseline.
    pub fn from_persisted(request: RequestItem) -> (r: Self)
        ensures
            r@.identity == EditorIdentity::Persisted(request.id),
            r@.draft == request,
            r@.baseline matches Some(b) && request_same(b, request),
            r@.save_status == SaveStatus::Pristine,
            exec_cleared(r@),
    {
        let baseline = request.duplicate();
        RequestEditorState {
            identity: EditorIdentity::Persisted(request.id),
            draft: request,
            baseline: Some(baseline),
            save_status: SaveStatus::Pristine,
            exec_status: ExecStatus::Idle,
            active_operation_id: None,
            cancellation_token: None,
            latest_history_id: None,
            preflight_error: None,
        }
    }

    pub fn identity(&self) -> (r: &EditorIdentity)
        ensures
            *r == self@.identity,
    {
        &self.identity
    }

    pub fn request_id(&self) -> (r: Option<RequestId>)
        ensures
            r == identity_request_id(self@.identity),
    {
        self.identity.as_request_id()
    }

    /// After the first save of a draft: the tab now edits the stored request
    /// `id`, placed where `saved` was stored, and is pristine.
    pub fn transition_to_persisted(&mut self, id: RequestId, saved: &RequestItem)
        ensures
            final(self)@.identity == EditorIdentity::Persisted(id),
            final(self)@.draft == (RequestItem {
                id,
                collection_id: saved.collection_id,
                parent_folder_id: saved.parent_folder_id,
                sort_order: saved.sort_order,
                ..old(self)@.draft
            }),
            final(self)@.baseline matches Some(b) && request_same(b, final(self)@.draft),
            final(self)@.save_status == SaveStatus::Pristine,
            same_exec_axis(final(self)@, old(self)@),
            final(self)@.preflight_error == old(self)@.preflight_error,
    {
        self.identity = EditorIdentity::Persisted(id);
        self.draft.id = id;
        self.draft.collection_id = saved.collection_id;
        self.draft.parent_folder_id = saved.parent_folder_id;
        self.draft.sort_order = saved.sort_order;
        self.baseline = Some(self.draft.duplicate());
        self.save_status = SaveStatus::Pristine;
    }

    pub fn draft(&self) -> (r: &RequestItem)
        ensures
            *r == self@.draft,
    {
        &self.draft
    }

    /// The draft for editing; a pending preflight error is cleared.
    pub fn draft_mut(&mut self) -> (r: &mut RequestItem)
        ensures
            *r == old(self)@.draft,
            final(self)@ == (EditorView {
                draft: *final(r),
                preflight_error: None,
                ..old(self)@
            }),
    {
        self.preflight_error = None;
        &mut self.draft
    }

    pub fn baseline(&self) -> (r: Option<&RequestItem>)
        ensures
            r.is_some() == self@.baseline.is_some(),
            r matches Some(b) ==> *b == self@.baseline->0,
    {
        self.baseline.as_ref()
    }

    /// Whether the draft has unsaved changes.
    pub fn detect_dirty(&self) -> (r: bool)
        ensures
            r == dirty_spec(self@),
    {
        match &self.baseline {
            None => true,
            Some(baseline) => !self.draft.same_editable_content_as(baseline),
        }
    }

    /// Brings the save status in line with the draft: pristine when it equals
    /// the baseline, dirty when it left a pristine state.
    pub fn refresh_save_status(&mut self)
        ensures
            final(self)@ == (EditorView { save_status: refreshed_status(old(self)@), ..old(self)@ }),
    {
        if self.detect_dirty() {
            if matches!(self.save_status, SaveStatus::Pristine) {
                self.save_status = SaveStatus::Dirty;
            }
        } else {
            self.save_status = SaveStatus::Pristine;
        }
    }

    pub fn save_status(&self) -> (r: &SaveStatus)
        ensures
            *r == self@.save_status,
    {
        &self.save_status
    }

    pub fn begin_save(&mut self)
        ensures
            final(self)@ == (EditorView { save_status: SaveStatus::Saving, ..old(self)@ }),
    {
        self.save_status = SaveStatus::Saving;
    }

    /// The save went through: the draft takes the stored revision data and
    /// becomes the baseline.
    pub fn complete_save(&mut self, saved: &RequestItem)
        ensures
            final(self)@.draft == (RequestItem { meta: saved.meta, ..old(self)@.draft }),
            final(self)@.baseline matches Some(b) && request_same(b, final(self)@.draft),
            final(self)@.save_status == SaveStatus::Pristine,
            final(self)@.identity == old(self)@.identity,
            same_exec_axis(final(self)@, old(self)@),
            final(self)@.preflight_error == old(self)@.preflight_error,
    {
        self.draft.meta = saved.meta;
        self.baseline = Some(self.draft.duplicate());
        self.save_status = SaveStatus::Pristine;
    }

    pub fn fail_save(&mut self, error: String)
        ensures
            final(self)@ == (EditorView {
                save_status: SaveStatus::SaveFailed { error },
                ..old(self)@
            }),
    {
        self.save_status = SaveStatus::SaveFailed { error };
    }

    /// Takes a newer stored version as baseline and keeps the draft.
    pub fn reload_baseline(&mut self, persisted: RequestItem)
        ensures
            ({
                let mid = EditorView { baseline: Some(persisted), ..old(self)@ };
                final(self)@ == (EditorView { save_status: refreshed_status(mid), ..mid })
            }),
    {
        self.baseline = Some(persisted);
        self.refresh_save_status();
    }

    pub fn exec_status(&self) -> (r: &ExecStatus)
        ensures
            *r == self@.exec_status,
    {
        &self.exec_status
    }

    /// Starts a send under `operation_id`. The token of an operation still in
    /// flight is cancelled and handed back.
    pub fn begin_send(&mut self, operation_id: HistoryEntryId) -> (r: Option<
        tokio_util::sync::CancellationToken,
    >)
        ensures
            r == old(self).held_token(),
            r.is_some() == old(self)@.has_token,
            final(self)@ == (EditorView {
                exec_status: ExecStatus::Sending,
                active_operation_id: Some(operation_id),
                has_token: true,
                preflight_error: None,
                ..old(self)@
            }),
    {
        let old_token = self.cancellation_token.take();
        if let Some(ref token) = old_token {
            cancel_token(token);
        }
        self.active_operation_id = Some(operation_id);
        self.cancellation_token = Some(new_cancellation_token());
        self.exec_status = ExecStatus::Sending;
        self.preflight_error = None;
        old_token
    }

    /// The response headers arrived: sending becomes streaming.
    pub fn transition_to_streaming(&mut self)
        ensures
            final(self)@ == (if old(self)@.exec_status is Sending {
                EditorView { exec_status: ExecStatus::Streaming, ..old(self)@ }
            } else {
                old(self)@
            }),
    {
        if matches!(self.exec_status, ExecStatus::Sending) {
            self.exec_status = ExecStatus::Streaming;
        }
    }

    /// Records the response of the active operation; a response of any other
    /// operation is late and changes nothing.
    pub fn complete_exec(&mut self, response: ResponseSummary, operation_id: HistoryEntryId) -> (r:
        bool)
        ensures
            r == (old(self)@.active_operation_id == Some(operation_id)),
            final(self)@ == (if r {
                EditorView {
                    exec_status: ExecStatus::Completed { response: Arc::new(response) },
                    active_operation_id: None,
                    has_token: false,
                    ..old(self)@
                }
            } else {
                old(self)@
            }),
    {
        if self.active_operation_id != Some(operation_id) {
            return false;
        }
        self.exec_status = ExecStatus::Completed { response: Arc::new(response) };
        self.active_operation_id = None;
        self.cancellation_token = None;
        true
    }

    /// Records the failure of the active operation; late failures are ignored.
    pub fn fail_exec(
        &mut self,
        summary: String,
        classified: Option<ClassifiedError>,
        operation_id: HistoryEntryId,
    ) -> (r: bool)
        ensures
            r == (old(self)@.active_operation_id == Some(operation_id)),
            final(self)@ == (if r {
                EditorView {
                    exec_status: ExecStatus::Failed { summary, classified },
                    active_operation_id: None,
                    has_token: false,
                    ..old(self)@
                }
            } else {
                old(self)@
            }),
    {
        if self.active_operation_id != Some(operation_id) {
            return false;
        }
        self.exec_status = ExecStatus::Failed { summary, classified };
        self.active_operation_id = None;
        self.cancellation_token = None;
        true
    }

    /// Records the cancellation of the active operation; others are ignored.
    pub fn cancel_exec(&mut self, partial_size: Option<u64>, operation_id: HistoryEntryId) -> (r:
        bool)
        ensures
            r == (old(self)@.active_operation_id == Some(operation_id)),
            final(self)@ == (if r {
                EditorView {
                    exec_status: ExecStatus::Cancelled { partial_size },
                    active_operation_id: None,
                    has_token: false,
                    ..old(self)@
                }
            } else {
                old(self)@
            }),
    {
        if self.active_operation_id != Some(operation_id) {
            return false;
        }
        self.exec_status = ExecStatus::Cancelled { partial_size };
        self.active_operation_id = None;
        self.cancellation_token = None;
        true
    }

    /// Shows a completed response again (e.g. from history on reopen).
    pub fn restore_completed_response(&mut self, response: ResponseSummary)
        ensures
            final(self)@ == (EditorView {
                exec_status: ExecStatus::Completed { response: Arc::new(response) },
                active_operation_id: None,
                has_token: false,
                ..old(self)@
            }),
    {
        self.exec_status = ExecStatus::Completed { response: Arc::new(response) };
        self.active_operation_id = None;
        self.cancellation_token = None;
    }

    /// Shows a failed run again (e.g. from history on reopen).
    pub fn restore_failed_response(&mut self, summary: String)
        ensures
            final(self)@ == (EditorView {
                exec_status: ExecStatus::Failed { summary, classified: None },
                active_operation_id: None,
                has_token: false,
                ..old(self)@
            }),
    {
        self.exec_status = ExecStatus::Failed { summary, classified: None };
        self.active_operation_id = None;
        self.cancellation_token = None;
    }

    /// Shows a cancelled run again (e.g. from history on reopen).
    pub fn restore_cancelled_response(&mut self, partial_size: Option<u64>)
        ensures
            final(self)@ == (EditorView {
                exec_status: ExecStatus::Cancelled { partial_size },
                active_operation_id: None,
                has_token: false,
                ..old(self)@
            }),
    {
        self.exec_status = ExecStatus::Cancelled { partial_size };
        self.active_operation_id = None;
        self.cancellation_token = None;
    }

    pub fn active_operation_id(&self) -> (r: Option<HistoryEntryId>)
        ensures
            r == self@.active_operation_id,
    {
        self.active_operation_id
    }

    pub fn cancellation_token(&self) -> (r: Option<&tokio_util::sync::CancellationToken>)
        ensures
            r.is_some() == self@.has_token,
            r matches Some(t) ==> self.held_token() == Some(*t),
    {
        self.cancellation_token.as_ref()
    }

    pub fn is_active_operation(&self, operation_id: HistoryEntryId) -> (r: bool)
        ensures
            r == (self@.active_operation_id == Some(operation_id)),
    {
        self.active_operation_id == Some(operation_id)
    }

    pub fn latest_history_id(&self) -> (r: Option<HistoryEntryId>)
        ensures
            r == self@.latest_history_id,
    {
        self.latest_history_id
    }

    pub fn set_latest_history_id(&mut self, id: Option<HistoryEntryId>)
        ensures
            final(self)@ == (EditorView { latest_history_id: id, ..old(self)@ }),
    {
        self.latest_history_id = id;
    }

    pub fn preflight_error(&self) -> (r: Option<&PreflightError>)
        ensures
            r.is_some() == self@.preflight_error.is_some(),
            r matches Some(e) ==> *e == self@.preflight_error->0,
    {
        self.preflight_error.as_ref()
    }

    pub fn set_preflight_error(&mut self, message: String)
        ensures
            final(self)@ == (EditorView {
                preflight_error: Some(PreflightError { message }),
                ..old(self)@
            }),
    {
        self.preflight_error = Some(PreflightError { message });
    }

    pub fn clear_preflight_error(&mut self)
        ensures
            final(self)@ == (EditorView { preflight_error: None, ..old(self)@ }),
    {
        self.preflight_error = None;
    }

    /// After a preflight failure: back to idle, with no active operation.
    pub fn reset_preflight(&mut self)
        ensures
            final(self)@ == (EditorView {
                exec_status: ExecStatus::Idle,
                active_operation_id: None,
                has_token: false,
                ..old(self)@
            }),
    {
        self.exec_status = ExecStatus::Idle;
        self.active_operation_id = None;
        self.cancellation_token = None;
    }
}

/// A draft whose baseline is a copy of itself has no unsaved changes; this
/// is the state that `from_persisted`, `complete_save` and
/// `transition_to_persisted` leave.
pub proof fn law_saved_baseline_is_clean(w: EditorView)
    requires
        w.baseline matches Some(b) && request_same(b, w.draft),
    ensures
        !dirty_spec(w),
        refreshed_status(w) == SaveStatus::Pristine,
{
    let b = w.baseline->0;
    assert(same_editable_content(w.draft, b));
}

/// Refreshing the save status twice is the same as refreshing it once.
pub proof fn law_refresh_is_idempotent(v: EditorView)
    ensures
        ({
            let once = EditorView { save_status: refreshed_status(v), ..v };
            refreshed_status(once) == refreshed_status(v)
        }),
{
}

} // verus!

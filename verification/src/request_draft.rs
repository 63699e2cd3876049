//! Saving a request that so far exists only as an edited draft.
use vstd::prelude::*;

use crate::domain::{same_editable_content, RequestItem};
use crate::repos::{RequestRepoError, RequestRepository};

verus! {

/// The draft as it is saved once its row exists: the edited content and
/// variable overrides of the draft, with the identity, place, sort position
/// and revision of the created row.
pub fn draft_for_save(draft: &RequestItem, created: &RequestItem) -> (r: RequestItem)
    ensures
        same_editable_content(r, *draft),
        r.variable_overrides_json@ == draft.variable_overrides_json@,
        r.id == created.id,
        r.collection_id == created.collection_id,
        r.parent_folder_id == created.parent_folder_id,
        r.sort_order == created.sort_order,
        r.meta == created.meta,
{
    let mut to_save = draft.duplicate();
    to_save.id = created.id;
    to_save.collection_id = created.collection_id;
    to_save.parent_folder_id = created.parent_folder_id;
    to_save.sort_order = created.sort_order;
    to_save.meta = created.meta;
    to_save
}

/// What follows the creation of a draft's row: the draft to save and the
/// revision to save it against (that of the created row), or the storage
/// error the failed create becomes.
pub fn save_after_create(draft: &RequestItem, created: Result<RequestItem, anyhow::Error>) -> (r:
    Result<(RequestItem, i64), RequestRepoError>)
    ensures
        created matches Err(e) ==> r == Err::<(RequestItem, i64), RequestRepoError>(
            RequestRepoError::Storage(e),
        ),
        created matches Ok(row) ==> (r matches Ok((to_save, revision)) && revision
            == row.meta.revision && same_editable_content(to_save, *draft)
            && to_save.variable_overrides_json@ == draft.variable_overrides_json@ && to_save.id
            == row.id && to_save.collection_id == row.collection_id && to_save.parent_folder_id
            == row.parent_folder_id && to_save.sort_order == row.sort_order && to_save.meta
            == row.meta),
{
    match created {
        Ok(row) => {
            let revision = row.meta.revision;
            Ok((draft_for_save(draft, &row), revision))
        },
        Err(e) => Err(RequestRepoError::Storage(e)),
    }
}

/// Persists a brand-new draft: creates the row from the draft's collection,
/// parent, name, method and url, then saves the whole draft against the
/// created row's revision (see `save_after_create`). A failed create is a
/// storage error; the rest is the repository's answer to the save.
pub fn persist_new_draft_request<Q: RequestRepository>(request_repo: &Q, draft: &RequestItem) -> (r:
    Result<RequestItem, RequestRepoError>) {
    let created = request_repo.create(
        draft.collection_id,
        draft.parent_folder_id,
        draft.name.as_str(),
        draft.method.as_str(),
        draft.url.as_str(),
    );
    match save_after_create(draft, created) {
        Ok((to_save, revision)) => request_repo.save(&to_save, revision),
        Err(e) => Err(e),
    }
}

} // verus!

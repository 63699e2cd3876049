//! Where the requests and environments of a collection live: in the
//! database (managed) or in a directory of files (linked).
use vstd::prelude::*;
use vstd::string::StringExecFns;

use crate::domain::{
    Collection, CollectionStorageConfig, CollectionStorageKind, Environment, Folder, RequestItem,
};
use crate::ids::{uuid_string, uuid_text, CollectionId, FolderId, WorkspaceId};
use crate::repos::{error_text, CollectionRepository, EnvironmentRepository, RequestRepository};
use crate::text::{chars_eq, chars_of, decimal, decimal_chars, digit_char, string_of};

verus! {

/// A collection kept in the database.
#[derive(Debug, Clone, PartialEq, Eq, Structural)]
pub struct ManagedCollectionStore {
    pub collection_id: CollectionId,
    pub workspace_id: WorkspaceId,
}

/// A collection kept as files under `root_path`.
#[derive(Debug, Clone, PartialEq, Eq)]
pub struct LinkedCollectionStore {
    pub collection_id: CollectionId,
    pub workspace_id: WorkspaceId,
    pub root_path: String,
}

/// The storage a collection resolved to.
#[derive(Debug, Clone, PartialEq, Eq)]
pub enum ResolvedCollectionStore {
    Managed(ManagedCollectionStore),
    Linked(LinkedCollectionStore),
}

/// Why a collection's storage could not be used.
#[derive(Debug)]
pub enum CollectionStoreError {
    /// The database or the files failed.
    Storage(anyhow::Error),
    /// No collection with that id is stored.
    CollectionNotFound(CollectionId),
    /// A linked collection has no root directory recorded.
    MissingLinkedRoot(CollectionId),
    /// The folder a new request was to go into does not exist.
    ParentFolderMissing(FolderId),
    /// The siblings already use the largest sort position.
    SortOrderExhausted,
}

impl CollectionStoreError {
    /// The text shown for this error.
    pub fn message(&self) -> (r: String)
        ensures
            self matches CollectionStoreError::CollectionNotFound(id) ==> r@
                == "collection not found: "@ + uuid_text(id.0),
            self matches CollectionStoreError::MissingLinkedRoot(id) ==> r@ == "linked collection "@
                + uuid_text(id.0) + " is missing linked_root_path"@,
            self is ParentFolderMissing ==> r@ == "target parent folder does not exist"@,
            self is SortOrderExhausted ==> r@ == "no sort position is left after the siblings"@,
    {
        match self {
            CollectionStoreError::Storage(e) => error_text(e),
            CollectionStoreError::CollectionNotFound(id) => String::from_str(
                "collection not found: ",
            ).concat(uuid_string(id.0).as_str()),
            CollectionStoreError::MissingLinkedRoot(id) => String::from_str(
                "linked collection ",
            ).concat(uuid_string(id.0).as_str()).concat(" is missing linked_root_path"),
            CollectionStoreError::ParentFolderMissing(_) => String::from_str(
                "target parent folder does not exist",
            ),
            CollectionStoreError::SortOrderExhausted => String::from_str(
                "no sort position is left after the siblings",
            ),
        }
    }
}

/// What a stored collection row resolves to.
pub open spec fn resolve_row_spec(collection_id: CollectionId, row: Option<Collection>) -> Result<
    ResolvedCollectionStore,
    CollectionStoreError,
> {
    match row {
        None => Err(CollectionStoreError::CollectionNotFound(collection_id)),
        Some(c) => match c.storage_kind {
            CollectionStorageKind::Managed => Ok(
                ResolvedCollectionStore::Managed(
                    ManagedCollectionStore { collection_id: c.id, workspace_id: c.workspace_id },
                ),
            ),
            CollectionStorageKind::Linked => match c.storage_config.linked_root_path {
                None => Err(CollectionStoreError::MissingLinkedRoot(c.id)),
                Some(root_path) => Ok(
                    ResolvedCollectionStore::Linked(
                        LinkedCollectionStore {
                            collection_id: c.id,
                            workspace_id: c.workspace_id,
                            root_path,
                        },
                    ),
                ),
            },
        },
    }
}

/// Resolves the storage of a collection from its stored row (`None` when no
/// row was found for `collection_id`).
pub fn resolve_row(collection_id: CollectionId, row: Option<Collection>) -> (r: Result<
    ResolvedCollectionStore,
    CollectionStoreError,
>)
    ensures
        r == resolve_row_spec(collection_id, row),
{
    match row {
        None => Err(CollectionStoreError::CollectionNotFound(collection_id)),
        Some(c) => match c.storage_kind {
            CollectionStorageKind::Managed => Ok(
                ResolvedCollectionStore::Managed(
                    ManagedCollectionStore { collection_id: c.id, workspace_id: c.workspace_id },
                ),
            ),
            CollectionStorageKind::Linked => match c.storage_config.linked_root_path {
                None => Err(CollectionStoreError::MissingLinkedRoot(c.id)),
                Some(root_path) => Ok(
                    ResolvedCollectionStore::Linked(
                        LinkedCollectionStore {
                            collection_id: c.id,
                            workspace_id: c.workspace_id,
                            root_path,
                        },
                    ),
                ),
            },
        },
    }
}

/// Finds the storage of collections through the collection rows.
#[derive(Clone)]
pub struct CollectionStoreResolver<C> {
    collections: C,
}

impl<C: CollectionRepository> CollectionStoreResolver<C> {
    /// The collection repository the resolver reads.
    pub closed spec fn collections_view(&self) -> C {
        self.collections
    }

    pub fn new(collections: C) -> (r: Self)
        ensures
            r.collections_view() == collections,
    {
        CollectionStoreResolver { collections }
    }

    /// Reads the collection row and resolves its storage.
    pub fn resolve(&self, collection_id: CollectionId) -> (r: Result<
        ResolvedCollectionStore,
        CollectionStoreError,
    >)
        ensures
            r matches Err(CollectionStoreError::CollectionNotFound(id)) ==> id == collection_id,
            !(r matches Err(CollectionStoreError::ParentFolderMissing(_))),
            !(r matches Err(CollectionStoreError::SortOrderExhausted)),
    {
        match self.collections.get(collection_id) {
            Err(e) => Err(CollectionStoreError::Storage(e)),
            Ok(row) => resolve_row(collection_id, row),
        }
    }
}


/// An entry of the order of a folder's (or the root's) children in a
/// linked collection, by the child's id text.
#[derive(Debug, Clone, PartialEq, Eq)]
pub enum LinkedSiblingId {
    Folder { id: String },
    Request { id: String },
}

/// Whether an order entry names a request, and the id text it holds.
pub open spec fn sibling_view(s: LinkedSiblingId) -> (bool, Seq<char>) {
    match s {
        LinkedSiblingId::Folder { id } => (false, id@),
        LinkedSiblingId::Request { id } => (true, id@),
    }
}

pub open spec fn siblings_view(v: Seq<LinkedSiblingId>) -> Seq<(bool, Seq<char>)> {
    v.map_values(|s: LinkedSiblingId| sibling_view(s))
}

/// The contents of a linked collection's directory.
#[derive(Debug, Clone, PartialEq, Eq)]
pub struct LinkedCollectionState {
    pub folders: Vec<Folder>,
    pub requests: Vec<RequestItem>,
    pub environments: Vec<Environment>,
    pub root_child_order: Vec<LinkedSiblingId>,
    /// The order of each folder's children, one entry per folder id.
    pub folder_child_orders: Vec<(FolderId, Vec<LinkedSiblingId>)>,
}

/// The position of the first order entry of `folder`.
pub open spec fn order_index(orders: Seq<(FolderId, Vec<LinkedSiblingId>)>, folder: FolderId) -> Option<
    int,
>
    decreases orders.len(),
{
    if orders.len() == 0 {
        None
    } else if orders[0].0 == folder {
        Some(0)
    } else {
        match order_index(orders.drop_first(), folder) {
            Some(i) => Some(i + 1),
            None => None,
        }
    }
}

/// The order of `folder`'s children: its entry's list, or nothing.
pub open spec fn child_order_of(orders: Seq<(FolderId, Vec<LinkedSiblingId>)>, folder: FolderId) -> Seq<
    (bool, Seq<char>),
> {
    match order_index(orders, folder) {
        Some(i) => siblings_view(orders[i].1@),
        None => Seq::empty(),
    }
}

/// Reads and writes the files of linked collections.
pub trait LinkedCollectionFiles {
    fn read(&self, root_path: &str, stub: &Collection) -> Result<
        LinkedCollectionState,
        anyhow::Error,
    >;

    fn write(&self, root_path: &str, state: &LinkedCollectionState) -> Result<(), anyhow::Error>;

    /// Refuses a name that the file layout keeps for itself.
    fn ensure_not_reserved_name(&self, name: &str) -> Result<(), anyhow::Error>;
}

/// The storage behind managed and linked collections.
#[derive(Clone)]
pub struct CollectionStoreRepos<Q, E, L> {
    pub requests: Q,
    pub environments: E,
    pub linked_files: L,
}

/// The largest sort position among the folders directly under `parent`.
pub open spec fn folder_sibling_max(folders: Seq<Folder>, parent: Option<FolderId>) -> Option<i64>
    decreases folders.len(),
{
    if folders.len() == 0 {
        None
    } else {
        let rest = folder_sibling_max(folders.drop_last(), parent);
        let f = folders.last();
        if f.parent_folder_id == parent {
            match rest {
                Some(m) => Some(if f.sort_order > m { f.sort_order } else { m }),
                None => Some(f.sort_order),
            }
        } else {
            rest
        }
    }
}

/// The largest sort position among the requests directly under `parent`.
pub open spec fn request_sibling_max(requests: Seq<RequestItem>, parent: Option<FolderId>) -> Option<
    i64,
>
    decreases requests.len(),
{
    if requests.len() == 0 {
        None
    } else {
        let rest = request_sibling_max(requests.drop_last(), parent);
        let r = requests.last();
        if r.parent_folder_id == parent {
            match rest {
                Some(m) => Some(if r.sort_order > m { r.sort_order } else { m }),
                None => Some(r.sort_order),
            }
        } else {
            rest
        }
    }
}

pub open spec fn opt_max(a: Option<i64>, b: Option<i64>) -> Option<i64> {
    match (a, b) {
        (Some(x), Some(y)) => Some(if x > y { x } else { y }),
        (Some(x), None) => Some(x),
        (None, y) => y,
    }
}

/// The sort position after every sibling under `parent`: one past the
/// largest, or 0 when there is none.
pub open spec fn next_sort_spec(folders: Seq<Folder>, requests: Seq<RequestItem>, parent: Option<FolderId>) -> int {
    match opt_max(folder_sibling_max(folders, parent), request_sibling_max(requests, parent)) {
        Some(m) => m + 1,
        None => 0,
    }
}

/// The sort position for a new child of `parent`; `None` when the largest
/// sibling position is already `i64::MAX`.
pub fn next_request_sort(folders: &[Folder], requests: &[RequestItem], parent: Option<FolderId>) -> (r:
    Option<i64>)
    ensures
        match r {
            Some(s) => s == next_sort_spec(folders@, requests@, parent),
            None => next_sort_spec(folders@, requests@, parent) > i64::MAX,
        },
{
    let mut best_folder: Option<i64> = None;
    let mut i: usize = 0;
    while i < folders.len()
        invariant
            i <= folders.len(),
            best_folder == folder_sibling_max(folders@.take(i as int), parent),
        decreases folders.len() - i,
    {
        proof {
            assert(folders@.take(i + 1).drop_last() =~= folders@.take(i as int));
        }
        if folders[i].parent_folder_id == parent {
            let s = folders[i].sort_order;
            best_folder = match best_folder {
                Some(m) => Some(if s > m { s } else { m }),
                None => Some(s),
            };
        }
        i = i + 1;
    }
    let mut best_request: Option<i64> = None;
    let mut j: usize = 0;
    while j < requests.len()
        invariant
            j <= requests.len(),
            best_request == request_sibling_max(requests@.take(j as int), parent),
        decreases requests.len() - j,
    {
        proof {
            assert(requests@.take(j + 1).drop_last() =~= requests@.take(j as int));
        }
        if requests[j].parent_folder_id == parent {
            let s = requests[j].sort_order;
            best_request = match best_request {
                Some(m) => Some(if s > m { s } else { m }),
                None => Some(s),
            };
        }
        j = j + 1;
    }
    proof {
        assert(folders@.take(folders@.len() as int) =~= folders@);
        assert(requests@.take(requests@.len() as int) =~= requests@);
    }
    let best = match (best_folder, best_request) {
        (Some(x), Some(y)) => Some(if x > y { x } else { y }),
        (Some(x), None) => Some(x),
        (None, y) => y,
    };
    match best {
        None => Some(0),
        Some(m) => if m < i64::MAX {
            Some(m + 1)
        } else {
            None
        },
    }
}

/// The name `base (n)`.
pub open spec fn candidate_name(base: Seq<char>, n: nat) -> Seq<char> {
    base + seq![' ', '('] + decimal(n) + seq![')']
}

proof fn lemma_digit_char_injective(x: nat, y: nat)
    requires
        x < 10,
        y < 10,
        digit_char(x) == digit_char(y),
    ensures
        x == y,
{
    assert(digit_char(x) as u32 == x + 48);
    assert(digit_char(y) as u32 == y + 48);
}

proof fn lemma_decimal_len(n: nat)
    ensures
        decimal(n).len() >= 1,
        n < 10 <==> decimal(n).len() == 1,
    decreases n,
{
    if n >= 10 {
        lemma_decimal_len(n / 10);
    }
}

/// Different numbers have different numerals.
proof fn lemma_decimal_injective(a: nat, b: nat)
    requires
        decimal(a) == decimal(b),
    ensures
        a == b,
    decreases a,
{
    lemma_decimal_len(a);
    lemma_decimal_len(b);
    if a < 10 {
        assert(b < 10);
        assert(decimal(a) == seq![digit_char(a)]);
        assert(decimal(b) == seq![digit_char(b)]);
        assert(seq![digit_char(a)][0] == digit_char(a));
        assert(seq![digit_char(b)][0] == digit_char(b));
        lemma_digit_char_injective(a, b);
    } else {
        let da = decimal(a);
        let db = decimal(b);
        assert(da.last() == db.last());
        lemma_digit_char_injective(a % 10, b % 10);
        assert(da.drop_last() =~= decimal(a / 10));
        assert(db.drop_last() =~= decimal(b / 10));
        lemma_decimal_injective(a / 10, b / 10);
    }
}

/// Different numbers give different candidate names.
proof fn lemma_candidate_injective(base: Seq<char>, a: nat, b: nat)
    requires
        candidate_name(base, a) == candidate_name(base, b),
    ensures
        a == b,
{
    let ca = candidate_name(base, a);
    let cb = candidate_name(base, b);
    assert(ca.subrange(base.len() + 2int, ca.len() - 1int) =~= decimal(a));
    assert(cb.subrange(base.len() + 2int, cb.len() - 1int) =~= decimal(b));
    lemma_decimal_injective(a, b);
}

/// When every candidate `base (2)` .. `base (k - 1)` is taken, there are at
/// least that many names.
proof fn lemma_taken_candidates_bound(base: Seq<char>, existing: Seq<Seq<char>>, k: nat)
    requires
        k >= 2,
        forall|j: nat| 2 <= j < k ==> existing.contains(#[trigger] candidate_name(base, j)),
    ensures
        k <= existing.len() + 2,
{
    broadcast use vstd::seq_lib::seq_to_set_is_finite;

    let xs = vstd::set_lib::set_int_range(2, k as int);
    let f = |j: int| candidate_name(base, j as nat);
    let ys = xs.map(f);
    vstd::set_lib::lemma_int_range(2, k as int);
    assert(vstd::relations::injective_on(f, xs)) by {
        assert forall|x1: int, x2: int|
            xs.contains(x1) && xs.contains(x2) && #[trigger] f(x1) == #[trigger] f(x2) implies x1
            == x2 by {
            lemma_candidate_injective(base, x1 as nat, x2 as nat);
        }
    }
    vstd::set_lib::lemma_map_size(xs, ys, f);
    assert(ys.subset_of(existing.to_set())) by {
        assert forall|y: Seq<char>| ys.contains(y) implies existing.to_set().contains(y) by {
            let x = choose|x: int| xs.contains(x) && y == f(x);
            assert(existing.contains(candidate_name(base, x as nat)));
        }
    }
    vstd::set_lib::lemma_len_subset(ys, existing.to_set());
    existing.lemma_cardinality_of_set();
}

pub open spec fn strings_view(v: Seq<String>) -> Seq<Seq<char>> {
    v.map_values(|s: String| s@)
}

/// Whether `name` is one of `names`.
fn contains_string(names: &[String], name: &String) -> (r: bool)
    ensures
        r == strings_view(names@).contains(name@),
{
    let mut i: usize = 0;
    while i < names.len()
        invariant
            i <= names.len(),
            forall|j: int| 0 <= j < i ==> names@[j]@ != name@,
        decreases names.len() - i,
    {
        if names[i] == *name {
            proof {
                assert(strings_view(names@)[i as int] == name@);
            }
            return true;
        }
        i = i + 1;
    }
    proof {
        if strings_view(names@).contains(name@) {
            let k = choose|k: int| 0 <= k < strings_view(names@).len() && strings_view(names@)[k] == name@;
            assert(names@[k]@ == name@);
        }
    }
    false
}

/// `base` when no existing name equals it; otherwise `base (n)` for the
/// smallest `n` from 2 up that no existing name equals.
fn next_postman_style_name(base: &str, existing_names: &[String]) -> (r: String)
    ensures
        !strings_view(existing_names@).contains(base@) ==> r@ == base@,
        strings_view(existing_names@).contains(base@) ==> exists|n: nat|
            n >= 2 && r@ == candidate_name(base@, n) && !strings_view(existing_names@).contains(
                candidate_name(base@, n),
            ) && forall|j: nat|
                2 <= j < n ==> strings_view(existing_names@).contains(
                    #[trigger] candidate_name(base@, j),
                ),
{
    let ghost names = strings_view(existing_names@);
    let plain = String::from_str(base);
    if !contains_string(existing_names, &plain) {
        return plain;
    }
    let mut index: u128 = 2;
    loop
        invariant
            2 <= index <= existing_names.len() + 2,
            names == strings_view(existing_names@),
            names.contains(base@),
            forall|j: nat| 2 <= j < index ==> names.contains(#[trigger] candidate_name(base@, j)),
        decreases existing_names.len() + 2 - index,
    {
        let digits = decimal_chars(index);
        let candidate = String::from_str(base).concat(" (").concat(
            string_of(digits.as_slice()).as_str(),
        ).concat(")");
        proof {
            reveal_strlit(" (");
            reveal_strlit(")");
            assert(candidate@ =~= candidate_name(base@, index as nat));
        }
        if !contains_string(existing_names, &candidate) {
            return candidate;
        }
        proof {
            lemma_taken_candidates_bound(base@, names, (index + 1) as nat);
        }
        index = index + 1;
    }
}


/// The collection row handed to the file reader of a linked collection.
fn linked_collection_stub(store: &LinkedCollectionStore) -> (r: Collection)
    ensures
        r.id == store.collection_id,
        r.workspace_id == store.workspace_id,
        r.name@ == "Linked Collection"@,
        r.sort_order == 0,
        r.storage_kind == CollectionStorageKind::Linked,
        r.storage_config.linked_root_path matches Some(p) && p@ == store.root_path@,
{
    let mut collection = Collection::new(store.workspace_id, "Linked Collection", 0);
    collection.id = store.collection_id;
    collection.storage_kind = CollectionStorageKind::Linked;
    collection.storage_config = CollectionStorageConfig {
        linked_root_path: Some(store.root_path.clone()),
    };
    collection
}

/// The names of the requests directly under `parent`, in order.
pub open spec fn sibling_names(requests: Seq<RequestItem>, parent: Option<FolderId>) -> Seq<
    Seq<char>,
>
    decreases requests.len(),
{
    if requests.len() == 0 {
        Seq::empty()
    } else {
        let rest = sibling_names(requests.drop_last(), parent);
        if requests.last().parent_folder_id == parent {
            rest.push(requests.last().name@)
        } else {
            rest
        }
    }
}

fn linked_sibling_names(requests: &[RequestItem], parent: Option<FolderId>) -> (r: Vec<String>)
    ensures
        strings_view(r@) == sibling_names(requests@, parent),
        r.len() <= requests.len(),
{
    let mut out: Vec<String> = Vec::new();
    let mut i: usize = 0;
    while i < requests.len()
        invariant
            i <= requests.len(),
            out.len() <= i,
            strings_view(out@) == sibling_names(requests@.take(i as int), parent),
        decreases requests.len() - i,
    {
        proof {
            assert(requests@.take(i + 1).drop_last() =~= requests@.take(i as int));
        }
        if requests[i].parent_folder_id == parent {
            let ghost before = out@;
            let name = requests[i].name.clone();
            out.push(name);
            proof {
                assert(strings_view(out@) =~= strings_view(before).push(name@));
            }
        }
        i = i + 1;
    }
    proof {
        assert(requests@.take(requests@.len() as int) =~= requests@);
    }
    out
}

/// The name a new request gets among siblings named `taken`: `name`,
/// except that the default name, when taken, becomes `name (n)` for the
/// first `n` from 2 that is free.
pub open spec fn linked_name_rule(taken: Seq<Seq<char>>, name: Seq<char>, r: Seq<char>) -> bool {
    &&& name != "Untitled Request"@ ==> r == name
    &&& name == "Untitled Request"@ ==> {
        &&& !taken.contains(name) ==> r == name
        &&& taken.contains(name) ==> exists|n: nat|
            n >= 2 && r == candidate_name(name, n) && !taken.contains(candidate_name(name, n))
                && forall|j: nat| 2 <= j < n ==> taken.contains(#[trigger] candidate_name(name, j))
    }
}

/// A request made from the rows `folders` and `requests` of a linked
/// collection: named by `linked_name_rule` among its siblings, and placed
/// after them.
pub open spec fn new_linked_request_fits(
    folders: Seq<Folder>,
    requests: Seq<RequestItem>,
    parent: Option<FolderId>,
    name: Seq<char>,
    request: RequestItem,
) -> bool {
    &&& linked_name_rule(sibling_names(requests, parent), name, request.name@)
    &&& request.sort_order == next_sort_spec(folders, requests, parent)
}

/// The name a new request of a linked collection gets: `name`, except that
/// the default name is numbered past its siblings' names.
pub fn linked_request_name(requests: &[RequestItem], parent: Option<FolderId>, name: &str) -> (r: String)
    ensures
        linked_name_rule(sibling_names(requests@, parent), name@, r@),
{
    let names = linked_sibling_names(requests, parent);
    let default_name = chars_of("Untitled Request");
    let given = chars_of(name);
    if chars_eq(given.as_slice(), default_name.as_slice()) {
        next_postman_style_name(name, names.as_slice())
    } else {
        String::from_str(name)
    }
}

/// A folder with that id is listed.
pub open spec fn has_folder(folders: Seq<Folder>, id: FolderId) -> bool {
    exists|i: int| 0 <= i < folders.len() && folders[i].id == id
}

proof fn lemma_order_index_bounds(orders: Seq<(FolderId, Vec<LinkedSiblingId>)>, q: FolderId)
    ensures
        order_index(orders, q) matches Some(i) ==> 0 <= i < orders.len() && orders[i].0 == q
            && forall|j: int| 0 <= j < i ==> orders[j].0 != q,
        order_index(orders, q) is None ==> forall|j: int| 0 <= j < orders.len() ==> orders[j].0 != q,
    decreases orders.len(),
{
    if orders.len() > 0 {
        lemma_order_index_bounds(orders.drop_first(), q);
        assert forall|j: int| 1 <= j < orders.len() implies orders[j] == orders.drop_first()[j - 1] by {}
    }
}

proof fn lemma_order_index_first(orders: Seq<(FolderId, Vec<LinkedSiblingId>)>, q: FolderId, k: int)
    requires
        0 <= k < orders.len(),
        orders[k].0 == q,
        forall|j: int| 0 <= j < k ==> orders[j].0 != q,
    ensures
        order_index(orders, q) == Some(k),
    decreases orders.len(),
{
    if k > 0 {
        assert forall|j: int| 0 <= j < k - 1 implies orders.drop_first()[j].0 != q by {
            assert(orders.drop_first()[j] == orders[j + 1]);
        }
        lemma_order_index_first(orders.drop_first(), q, k - 1);
    }
}

proof fn lemma_order_index_absent(orders: Seq<(FolderId, Vec<LinkedSiblingId>)>, q: FolderId)
    requires
        forall|j: int| 0 <= j < orders.len() ==> orders[j].0 != q,
    ensures
        order_index(orders, q) is None,
    decreases orders.len(),
{
    if orders.len() > 0 {
        assert forall|j: int| 0 <= j < orders.len() - 1 implies orders.drop_first()[j].0 != q by {
            assert(orders.drop_first()[j] == orders[j + 1]);
        }
        lemma_order_index_absent(orders.drop_first(), q);
    }
}

/// Order lists with the same keys at the same places find each folder at
/// the same place.
proof fn lemma_order_index_same_keys(
    a: Seq<(FolderId, Vec<LinkedSiblingId>)>,
    b: Seq<(FolderId, Vec<LinkedSiblingId>)>,
    q: FolderId,
)
    requires
        a.len() == b.len(),
        forall|j: int| 0 <= j < a.len() ==> a[j].0 == b[j].0,
    ensures
        order_index(a, q) == order_index(b, q),
{
    lemma_order_index_bounds(a, q);
    match order_index(a, q) {
        Some(i) => lemma_order_index_first(b, q, i),
        None => lemma_order_index_absent(b, q),
    }
}

/// Files a new request into a linked collection's contents: appended to the
/// requests and to the order of its parent (the root when it has none). A
/// parent folder that is not listed is refused and nothing changes.
pub fn add_request_to_state(state: &mut LinkedCollectionState, request: RequestItem) -> (r: Result<
    (),
    CollectionStoreError,
>)
    ensures
        request.parent_folder_id matches Some(p) ==> (!has_folder(old(state).folders@, p) ==> r
            == Err::<(), CollectionStoreError>(CollectionStoreError::ParentFolderMissing(p))
            && *final(state) == *old(state)),
        (request.parent_folder_id matches Some(p) ==> has_folder(old(state).folders@, p)) ==> {
            &&& r is Ok
            &&& final(state).folders == old(state).folders
            &&& final(state).environments == old(state).environments
            &&& final(state).requests@ == old(state).requests@.push(request)
            &&& match request.parent_folder_id {
                None => {
                    &&& siblings_view(final(state).root_child_order@) == siblings_view(
                        old(state).root_child_order@,
                    ).push((true, uuid_text(request.id.0)))
                    &&& final(state).folder_child_orders == old(state).folder_child_orders
                },
                Some(p) => {
                    &&& final(state).root_child_order == old(state).root_child_order
                    &&& child_order_of(final(state).folder_child_orders@, p) == child_order_of(
                        old(state).folder_child_orders@,
                        p,
                    ).push((true, uuid_text(request.id.0)))
                    &&& forall|q: FolderId|
                        q != p ==> child_order_of(final(state).folder_child_orders@, q)
                            == child_order_of(old(state).folder_child_orders@, q)
                },
            }
        },
{
    let entry = LinkedSiblingId::Request { id: uuid_string(request.id.0) };
    let ghost entry_view = sibling_view(entry);
    assert(entry_view == (true, uuid_text(request.id.0)));
    match request.parent_folder_id {
        None => {
            let ghost before = state.root_child_order@;
            state.root_child_order.push(entry);
            proof {
                assert(siblings_view(state.root_child_order@) =~= siblings_view(before).push(
                    entry_view,
                ));
            }
        },
        Some(parent) => {
            let mut found = false;
            let mut f: usize = 0;
            while f < state.folders.len()
                invariant
                    f <= state.folders.len(),
                    found <==> exists|i: int| 0 <= i < f && state.folders@[i].id == parent,
                decreases state.folders.len() - f,
            {
                if state.folders[f].id == parent {
                    found = true;
                }
                f = f + 1;
            }
            if !found {
                return Err(CollectionStoreError::ParentFolderMissing(parent));
            }
            let ghost old_orders = state.folder_child_orders@;
            let mut k: usize = 0;
            while k < state.folder_child_orders.len() && state.folder_child_orders[k].0 != parent
                invariant
                    k <= state.folder_child_orders.len(),
                    state.folder_child_orders@ == old_orders,
                    forall|j: int| 0 <= j < k ==> old_orders[j].0 != parent,
                decreases state.folder_child_orders.len() - k,
            {
                k = k + 1;
            }
            if k < state.folder_child_orders.len() {
                proof {
                    lemma_order_index_first(old_orders, parent, k as int);
                }
                let (key, mut children) = state.folder_child_orders.remove(k);
                let ghost old_children = children@;
                children.push(entry);
                state.folder_child_orders.insert(k, (key, children));
                proof {
                    let new_orders = state.folder_child_orders@;
                    assert(new_orders =~= old_orders.update(k as int, (key, children)));
                    assert(siblings_view(children@) =~= siblings_view(old_children).push(entry_view));
                    assert forall|q: FolderId| q != parent implies child_order_of(new_orders, q)
                        == child_order_of(old_orders, q) by {
                        lemma_order_index_same_keys(new_orders, old_orders, q);
                        lemma_order_index_bounds(old_orders, q);
                    }
                    lemma_order_index_same_keys(new_orders, old_orders, parent);
                }
            } else {
                let mut children: Vec<LinkedSiblingId> = Vec::new();
                children.push(entry);
                state.folder_child_orders.push((parent, children));
                proof {
                    let new_orders = state.folder_child_orders@;
                    lemma_order_index_absent(old_orders, parent);
                    assert forall|j: int| 0 <= j < old_orders.len() implies new_orders[j] == old_orders[j] by {}
                    lemma_order_index_first(new_orders, parent, old_orders.len() as int);
                    assert(siblings_view(children@) =~= seq![entry_view]);
                    assert(Seq::<(bool, Seq<char>)>::empty().push(entry_view) =~= seq![entry_view]);
                    assert forall|q: FolderId| q != parent implies child_order_of(new_orders, q)
                        == child_order_of(old_orders, q) by {
                        lemma_order_index_bounds(old_orders, q);
                        match order_index(old_orders, q) {
                            Some(i) => lemma_order_index_first(new_orders, q, i),
                            None => lemma_order_index_absent(new_orders, q),
                        }
                    }
                }
            }
        },
    }
    state.requests.push(request);
    Ok(())
}


/// The environments of a linked collection, each moved into `workspace_id`
/// and otherwise unchanged.
pub fn adopt_environments(environments: &[Environment], workspace_id: WorkspaceId) -> (r: Vec<
    Environment,
>)
    ensures
        r.len() == environments.len(),
        forall|i: int|
            0 <= i < r.len() ==> {
                &&& (#[trigger] r@[i]).workspace_id == workspace_id
                &&& r@[i].id == environments@[i].id
                &&& r@[i].name@ == environments@[i].name@
                &&& r@[i].variables_json@ == environments@[i].variables_json@
                &&& r@[i].meta == environments@[i].meta
            },
{
    let mut out: Vec<Environment> = Vec::new();
    let mut i: usize = 0;
    while i < environments.len()
        invariant
            i <= environments.len(),
            out.len() == i,
            forall|j: int|
                0 <= j < i ==> {
                    &&& (#[trigger] out@[j]).workspace_id == workspace_id
                    &&& out@[j].id == environments@[j].id
                    &&& out@[j].name@ == environments@[j].name@
                    &&& out@[j].variables_json@ == environments@[j].variables_json@
                    &&& out@[j].meta == environments@[j].meta
                },
        decreases environments.len() - i,
    {
        let mut e = environments[i].duplicate();
        e.workspace_id = workspace_id;
        out.push(e);
        i = i + 1;
    }
    out
}

impl ResolvedCollectionStore {
    /// The requests of the collection: from the database, or from the files
    /// of a linked collection.
    pub fn list_requests<Q: RequestRepository, E: EnvironmentRepository, L: LinkedCollectionFiles>(
        &self,
        repos: &CollectionStoreRepos<Q, E, L>,
    ) -> (r: Result<Vec<RequestItem>, CollectionStoreError>)
        ensures
            r is Err ==> r matches Err(CollectionStoreError::Storage(_)),
    {
        match self {
            ResolvedCollectionStore::Managed(store) => match repos.requests.list_by_collection(
                store.collection_id,
            ) {
                Ok(requests) => Ok(requests),
                Err(e) => Err(CollectionStoreError::Storage(e)),
            },
            ResolvedCollectionStore::Linked(store) => {
                let stub = linked_collection_stub(store);
                match repos.linked_files.read(store.root_path.as_str(), &stub) {
                    Ok(state) => Ok(state.requests),
                    Err(e) => Err(CollectionStoreError::Storage(e)),
                }
            },
        }
    }

    /// Creates a request in the collection. In a linked collection the
    /// default name is numbered past its siblings' names, the request goes
    /// after its siblings and into its parent's order, and the files are
    /// written back.
    pub fn create_request<Q: RequestRepository, E: EnvironmentRepository, L: LinkedCollectionFiles>(
        &self,
        repos: &CollectionStoreRepos<Q, E, L>,
        parent_folder_id: Option<FolderId>,
        name: &str,
        method: &str,
        url: &str,
    ) -> (r: Result<RequestItem, CollectionStoreError>)
        ensures
            r matches Err(CollectionStoreError::ParentFolderMissing(p)) ==> parent_folder_id
                == Some(p),
            r matches Err(CollectionStoreError::CollectionNotFound(_)) ==> false,
            r matches Err(CollectionStoreError::MissingLinkedRoot(_)) ==> false,
            self matches ResolvedCollectionStore::Linked(store) ==> (r matches Ok(request) ==> {
                &&& request.collection_id == store.collection_id
                &&& request.parent_folder_id == parent_folder_id
                &&& request.method@ == method@
                &&& request.url@ == url@
                &&& name@ != "Untitled Request"@ ==> request.name@ == name@
                &&& exists|folders: Seq<Folder>, requests: Seq<RequestItem>|
                    #[trigger] new_linked_request_fits(folders, requests, parent_folder_id, name@, request)
            }),
    {
        match self {
            ResolvedCollectionStore::Managed(store) => match repos.requests.create(
                store.collection_id,
                parent_folder_id,
                name,
                method,
                url,
            ) {
                Ok(request) => Ok(request),
                Err(e) => Err(CollectionStoreError::Storage(e)),
            },
            ResolvedCollectionStore::Linked(store) => {
                let stub = linked_collection_stub(store);
                let mut state = match repos.linked_files.read(store.root_path.as_str(), &stub) {
                    Ok(state) => state,
                    Err(e) => {
                        return Err(CollectionStoreError::Storage(e));
                    },
                };
                let effective_name = linked_request_name(
                    state.requests.as_slice(),
                    parent_folder_id,
                    name,
                );
                if let Err(e) = repos.linked_files.ensure_not_reserved_name(
                    effective_name.as_str(),
                ) {
                    return Err(CollectionStoreError::Storage(e));
                }
                let next_sort = match next_request_sort(
                    state.folders.as_slice(),
                    state.requests.as_slice(),
                    parent_folder_id,
                ) {
                    Some(s) => s,
                    None => {
                        return Err(CollectionStoreError::SortOrderExhausted);
                    },
                };
                let request = RequestItem::new(
                    store.collection_id,
                    parent_folder_id,
                    effective_name.as_str(),
                    method,
                    url,
                    next_sort,
                );
                proof {
                    assert(new_linked_request_fits(
                        state.folders@,
                        state.requests@,
                        parent_folder_id,
                        name@,
                        request,
                    ));
                }
                if let Err(e) = add_request_to_state(&mut state, request.duplicate()) {
                    return Err(e);
                }
                match repos.linked_files.write(store.root_path.as_str(), &state) {
                    Ok(()) => Ok(request),
                    Err(e) => Err(CollectionStoreError::Storage(e)),
                }
            },
        }
    }

    /// The environments of the collection's workspace; those of a linked
    /// collection are read from its files and moved into its workspace.
    pub fn list_environments<Q: RequestRepository, E: EnvironmentRepository, L: LinkedCollectionFiles>(
        &self,
        repos: &CollectionStoreRepos<Q, E, L>,
    ) -> (r: Result<Vec<Environment>, CollectionStoreError>)
        ensures
            r is Err ==> r matches Err(CollectionStoreError::Storage(_)),
            self matches ResolvedCollectionStore::Linked(store) ==> (r matches Ok(environments)
                ==> forall|i: int|
                0 <= i < environments.len() ==> (#[trigger] environments@[i]).workspace_id
                    == store.workspace_id),
    {
        match self {
            ResolvedCollectionStore::Managed(store) => match repos.environments.list_by_workspace(
                store.workspace_id,
            ) {
                Ok(environments) => Ok(environments),
                Err(e) => Err(CollectionStoreError::Storage(e)),
            },
            ResolvedCollectionStore::Linked(store) => {
                let stub = linked_collection_stub(store);
                match repos.linked_files.read(store.root_path.as_str(), &stub) {
                    Ok(state) => Ok(adopt_environments(state.environments.as_slice(), store.workspace_id)),
                    Err(e) => Err(CollectionStoreError::Storage(e)),
                }
            },
        }
    }

    /// Creates an environment: in the database, or appended to the files of
    /// a linked collection.
    pub fn create_environment<Q: RequestRepository, E: EnvironmentRepository, L: LinkedCollectionFiles>(
        &self,
        repos: &CollectionStoreRepos<Q, E, L>,
        name: &str,
    ) -> (r: Result<Environment, CollectionStoreError>)
        ensures
            r is Err ==> r matches Err(CollectionStoreError::Storage(_)),
            self matches ResolvedCollectionStore::Linked(store) ==> (r matches Ok(environment) ==> {
                &&& environment.workspace_id == store.workspace_id
                &&& environment.name@ == name@
            }),
    {
        match self {
            ResolvedCollectionStore::Managed(store) => match repos.environments.create(
                store.workspace_id,
                name,
            ) {
                Ok(environment) => Ok(environment),
                Err(e) => Err(CollectionStoreError::Storage(e)),
            },
            ResolvedCollectionStore::Linked(store) => {
                let stub = linked_collection_stub(store);
                let mut state = match repos.linked_files.read(store.root_path.as_str(), &stub) {
                    Ok(state) => state,
                    Err(e) => {
                        return Err(CollectionStoreError::Storage(e));
                    },
                };
                let environment = Environment::new(store.workspace_id, String::from_str(name));
                state.environments.push(environment.duplicate());
                match repos.linked_files.write(store.root_path.as_str(), &state) {
                    Ok(()) => Ok(environment),
                    Err(e) => Err(CollectionStoreError::Storage(e)),
                }
            },
        }
    }
}


/// What changed on disk under a linked collection.
#[derive(Debug, Clone, Copy, PartialEq, Eq, Structural)]
pub enum LinkedCollectionEventKind {
    FileAdded,
    FileChanged,
    FileRemoved,
    DirectoryRemoved,
    FullRescanRequested,
}

/// A change on disk under a linked collection, at `path`.
#[derive(Debug, Clone, PartialEq, Eq)]
pub struct LinkedCollectionEvent {
    pub collection_id: CollectionId,
    pub kind: LinkedCollectionEventKind,
    pub path: String,
}

} // verus!

//! Building the tree of the selected workspace from the stored rows:
//! folders and requests nest under their parent folder, each level ordered
//! by sort position and then by id, folders before requests.
use vstd::prelude::*;

use crate::collection_store::LinkedCollectionFiles;
use crate::domain::{
    folder_same, request_same, Collection, CollectionStorageKind, Environment, Folder, RequestItem,
    Workspace,
};
use crate::ids::{FolderId, WorkspaceId};
use crate::repos::{
    CollectionRepository, EnvironmentRepository, FolderRepository, RequestRepository,
    WorkspaceRepository,
};
use crate::workspace_tree::{CollectionTree, FolderTree, TreeItem, WorkspaceCatalog, WorkspaceTree};

verus! {

/// Entry `i` goes before entry `j`: a smaller sort position, or the same
/// one and a smaller id (ids order as their hyphenated text does, see
/// `law_uuid_text_order`).
pub open spec fn key_before(keys: Seq<(i64, u128)>, i: usize, j: usize) -> bool {
    keys[i as int].0 < keys[j as int].0 || (keys[i as int].0 == keys[j as int].0 && keys[i as int].1
        < keys[j as int].1)
}

/// Inserts entry `x` into an ordered list of entries, after every entry
/// that does not come after it.
pub open spec fn insert_index(keys: Seq<(i64, u128)>, s: Seq<usize>, x: usize) -> Seq<usize>
    decreases s.len(),
{
    if s.len() == 0 {
        seq![x]
    } else if key_before(keys, x, s[0]) {
        seq![x] + s
    } else {
        seq![s[0]] + insert_index(keys, s.drop_first(), x)
    }
}

/// The first `n` entries that are marked, ordered by key; entries with the
/// same key keep their order (a stable sort).
pub open spec fn child_order(keys: Seq<(i64, u128)>, under: Seq<bool>, n: nat) -> Seq<usize>
    decreases n,
{
    if n == 0 {
        Seq::empty()
    } else {
        let rest = child_order(keys, under, (n - 1) as nat);
        if under[n - 1] {
            insert_index(keys, rest, (n - 1) as usize)
        } else {
            rest
        }
    }
}

pub open spec fn folder_keys(folders: Seq<Folder>) -> Seq<(i64, u128)> {
    Seq::new(folders.len(), |i: int| (folders[i].sort_order, folders[i].id.0))
}

pub open spec fn folders_under(folders: Seq<Folder>, parent: Option<FolderId>) -> Seq<bool> {
    Seq::new(folders.len(), |i: int| folders[i].parent_folder_id == parent)
}

pub open spec fn request_keys(requests: Seq<RequestItem>) -> Seq<(i64, u128)> {
    Seq::new(requests.len(), |i: int| (requests[i].sort_order, requests[i].id.0))
}

pub open spec fn requests_under(requests: Seq<RequestItem>, parent: Option<FolderId>) -> Seq<bool> {
    Seq::new(requests.len(), |i: int| requests[i].parent_folder_id == parent)
}

/// The folders directly under `parent`, as positions in `folders`, in tree
/// order.
pub open spec fn child_folders(folders: Seq<Folder>, parent: Option<FolderId>) -> Seq<usize> {
    child_order(folder_keys(folders), folders_under(folders, parent), folders.len())
}

/// The requests directly under `parent`, as positions in `requests`, in
/// tree order.
pub open spec fn child_requests(requests: Seq<RequestItem>, parent: Option<FolderId>) -> Seq<usize> {
    child_order(request_keys(requests), requests_under(requests, parent), requests.len())
}

/// `items` is the tree under `parent`, built `depth` levels deep: the child
/// folders in order, each with its own subtree, then the child requests in
/// order.
pub open spec fn tree_matches(
    items: Seq<TreeItem>,
    folders: Seq<Folder>,
    requests: Seq<RequestItem>,
    parent: Option<FolderId>,
    depth: nat,
) -> bool
    decreases depth,
{
    if depth == 0 {
        items.len() == 0
    } else {
        let fo = child_folders(folders, parent);
        let ro = child_requests(requests, parent);
        &&& items.len() == fo.len() + ro.len()
        &&& forall|k: int|
            0 <= k < fo.len() ==> (#[trigger] items[k] matches TreeItem::Folder(ft) && folder_same(
                ft.folder,
                folders[fo[k] as int],
            ) && tree_matches(
                ft.children@,
                folders,
                requests,
                Some(folders[fo[k] as int].id),
                (depth - 1) as nat,
            ))
        &&& forall|k: int|
            0 <= k < ro.len() ==> (#[trigger] items[fo.len() + k] matches TreeItem::Request(r)
                && request_same(r, requests[ro[k] as int]))
    }
}

proof fn lemma_insert_index_at(keys: Seq<(i64, u128)>, s: Seq<usize>, x: usize, p: int)
    requires
        0 <= p <= s.len(),
        forall|j: int| 0 <= j < p ==> !key_before(keys, x, #[trigger] s[j]),
        p < s.len() ==> key_before(keys, x, s[p]),
    ensures
        insert_index(keys, s, x) == s.insert(p, x),
    decreases s.len(),
{
    if s.len() == 0 {
        assert(s.insert(p, x) =~= seq![x]);
    } else if p == 0 {
        assert(seq![x] + s =~= s.insert(0, x));
    } else {
        assert forall|j: int| 0 <= j < p - 1 implies !key_before(
            keys,
            x,
            #[trigger] s.drop_first()[j],
        ) by {
            assert(s.drop_first()[j] == s[j + 1]);
        }
        lemma_insert_index_at(keys, s.drop_first(), x, p - 1);
        assert(seq![s[0]] + s.drop_first().insert(p - 1, x) =~= s.insert(p, x));
    }
}

proof fn lemma_insert_index_bounds(keys: Seq<(i64, u128)>, s: Seq<usize>, x: usize, bound: usize)
    requires
        x < bound,
        forall|j: int| 0 <= j < s.len() ==> #[trigger] s[j] < bound,
    ensures
        forall|j: int| 0 <= j < insert_index(keys, s, x).len() ==> #[trigger] insert_index(keys, s, x)[j]
            < bound,
        insert_index(keys, s, x).len() == s.len() + 1,
    decreases s.len(),
{
    if s.len() > 0 && !key_before(keys, x, s[0]) {
        lemma_insert_index_bounds(keys, s.drop_first(), x, bound);
    }
}

/// The marked entries ordered by key, keeping the input order among equal
/// keys.
fn sorted_children(keys: &Vec<(i64, u128)>, under: &Vec<bool>) -> (r: Vec<usize>)
    requires
        keys.len() == under.len(),
    ensures
        r@ == child_order(keys@, under@, keys.len() as nat),
        forall|j: int| 0 <= j < r.len() ==> #[trigger] r@[j] < keys.len(),
{
    let mut out: Vec<usize> = Vec::new();
    let mut i: usize = 0;
    while i < keys.len()
        invariant
            i <= keys.len(),
            keys.len() == under.len(),
            out@ == child_order(keys@, under@, i as nat),
            forall|j: int| 0 <= j < out.len() ==> #[trigger] out@[j] < i,
        decreases keys.len() - i,
    {
        if under[i] {
            let mut p: usize = 0;
            while p < out.len() && !(keys[i].0 < keys[out[p]].0 || (keys[i].0 == keys[out[p]].0
                && keys[i].1 < keys[out[p]].1))
                invariant
                    p <= out.len(),
                    i < keys.len(),
                    forall|j: int| 0 <= j < out.len() ==> #[trigger] out@[j] < i,
                    forall|j: int| 0 <= j < p ==> !key_before(keys@, i, #[trigger] out@[j]),
                decreases out.len() - p,
            {
                p = p + 1;
            }
            proof {
                lemma_insert_index_at(keys@, out@, i, p as int);
                lemma_insert_index_bounds(keys@, out@, i, (i + 1) as usize);
            }
            out.insert(p, i);
        }
        i = i + 1;
    }
    out
}

fn folder_keys_exec(folders: &[Folder], parent: Option<FolderId>) -> (r: (Vec<(i64, u128)>, Vec<bool>))
    ensures
        r.0@ == folder_keys(folders@),
        r.1@ == folders_under(folders@, parent),
{
    let mut keys: Vec<(i64, u128)> = Vec::new();
    let mut under: Vec<bool> = Vec::new();
    let mut i: usize = 0;
    while i < folders.len()
        invariant
            i <= folders.len(),
            keys@ == folder_keys(folders@).take(i as int),
            under@ == folders_under(folders@, parent).take(i as int),
        decreases folders.len() - i,
    {
        keys.push((folders[i].sort_order, folders[i].id.0));
        under.push(folders[i].parent_folder_id == parent);
        proof {
            assert(keys@ =~= folder_keys(folders@).take(i + 1));
            assert(under@ =~= folders_under(folders@, parent).take(i + 1));
        }
        i = i + 1;
    }
    proof {
        assert(keys@ =~= folder_keys(folders@));
        assert(under@ =~= folders_under(folders@, parent));
    }
    (keys, under)
}

fn request_keys_exec(requests: &[RequestItem], parent: Option<FolderId>) -> (r: (
    Vec<(i64, u128)>,
    Vec<bool>,
))
    ensures
        r.0@ == request_keys(requests@),
        r.1@ == requests_under(requests@, parent),
{
    let mut keys: Vec<(i64, u128)> = Vec::new();
    let mut under: Vec<bool> = Vec::new();
    let mut i: usize = 0;
    while i < requests.len()
        invariant
            i <= requests.len(),
            keys@ == request_keys(requests@).take(i as int),
            under@ == requests_under(requests@, parent).take(i as int),
        decreases requests.len() - i,
    {
        keys.push((requests[i].sort_order, requests[i].id.0));
        under.push(requests[i].parent_folder_id == parent);
        proof {
            assert(keys@ =~= request_keys(requests@).take(i + 1));
            assert(under@ =~= requests_under(requests@, parent).take(i + 1));
        }
        i = i + 1;
    }
    proof {
        assert(keys@ =~= request_keys(requests@));
        assert(under@ =~= requests_under(requests@, parent));
    }
    (keys, under)
}

/// No two folders share an id.
pub open spec fn unique_folder_ids(folders: Seq<Folder>) -> bool {
    forall|i: int, j: int|
        0 <= i < folders.len() && 0 <= j < folders.len() && #[trigger] folders[i].id
            == #[trigger] folders[j].id ==> i == j
}

/// `chain` is a path of folders from the root down: the first has no
/// parent, and each next one lies in the one before.
pub open spec fn folder_chain(folders: Seq<Folder>, chain: Seq<int>) -> bool {
    &&& forall|i: int| 0 <= i < chain.len() ==> 0 <= #[trigger] chain[i] < folders.len()
    &&& chain.len() > 0 ==> folders[chain[0]].parent_folder_id is None
    &&& forall|i: int|
        1 <= i < chain.len() ==> folders[#[trigger] chain[i]].parent_folder_id == Some(
            folders[chain[i - 1]].id,
        )
}

/// The folder at the bottom of a chain, as a parent id (`None` for the root).
pub open spec fn chain_parent(folders: Seq<Folder>, chain: Seq<int>) -> Option<FolderId> {
    if chain.len() == 0 {
        None
    } else {
        Some(folders[chain.last()].id)
    }
}

proof fn lemma_chain_distinct_at(folders: Seq<Folder>, chain: Seq<int>, i: int, j: int)
    requires
        unique_folder_ids(folders),
        folder_chain(folders, chain),
        0 <= i < j < chain.len(),
    ensures
        chain[i] != chain[j],
    decreases i,
{
    if chain[i] == chain[j] {
        assert(folders[chain[j]].parent_folder_id == Some(folders[chain[j - 1]].id));
        if i == 0 {
        } else {
            assert(folders[chain[i]].parent_folder_id == Some(folders[chain[i - 1]].id));
            assert(folders[chain[i - 1]].id == folders[chain[j - 1]].id);
            assert(0 <= chain[i - 1] < folders.len());
            assert(0 <= chain[j - 1] < folders.len());
            lemma_chain_distinct_at(folders, chain, i - 1, j - 1);
        }
    }
}

/// With unique ids a chain never visits a folder twice, so it is no longer
/// than the list of folders.
proof fn lemma_chain_len(folders: Seq<Folder>, chain: Seq<int>)
    requires
        unique_folder_ids(folders),
        folder_chain(folders, chain),
    ensures
        chain.len() <= folders.len(),
{
    broadcast use vstd::seq_lib::seq_to_set_is_finite;

    assert(chain.no_duplicates()) by {
        assert forall|i: int, j: int|
            0 <= i < chain.len() && 0 <= j < chain.len() && i != j implies chain[i] != chain[j] by {
            if i < j {
                lemma_chain_distinct_at(folders, chain, i, j);
            } else {
                lemma_chain_distinct_at(folders, chain, j, i);
            }
        }
    }
    chain.unique_seq_to_set();
    let range = vstd::set_lib::set_int_range(0, folders.len() as int);
    vstd::set_lib::lemma_int_range(0, folders.len() as int);
    assert(chain.to_set().subset_of(range));
    vstd::set_lib::lemma_len_subset(chain.to_set(), range);
}

proof fn lemma_insert_index_members(keys: Seq<(i64, u128)>, s: Seq<usize>, x: usize)
    ensures
        forall|k: int|
            0 <= k < insert_index(keys, s, x).len() ==> (#[trigger] insert_index(keys, s, x)[k] == x
                || s.contains(insert_index(keys, s, x)[k])),
    decreases s.len(),
{
    if s.len() > 0 && !key_before(keys, x, s[0]) {
        lemma_insert_index_members(keys, s.drop_first(), x);
        let r = insert_index(keys, s, x);
        assert forall|k: int| 0 <= k < r.len() implies (#[trigger] r[k] == x || s.contains(r[k])) by {
            if k == 0 {
                assert(s.contains(s[0]));
            } else {
                let t = insert_index(keys, s.drop_first(), x);
                assert(r[k] == t[k - 1]);
                if t[k - 1] != x {
                    let m = choose|m: int| 0 <= m < s.drop_first().len() && s.drop_first()[m] == t[k - 1];
                    assert(s[m + 1] == t[k - 1]);
                }
            }
        }
    } else if s.len() > 0 {
        let r = insert_index(keys, s, x);
        assert forall|k: int| 0 <= k < r.len() implies (#[trigger] r[k] == x || s.contains(r[k])) by {
            if k > 0 {
                assert(r[k] == s[k - 1]);
            }
        }
    }
}

/// Every entry the ordering lists is among the first `n` and marked.
proof fn lemma_child_order_members(keys: Seq<(i64, u128)>, under: Seq<bool>, n: nat)
    requires
        n <= under.len(),
        n <= usize::MAX,
    ensures
        forall|k: int|
            0 <= k < child_order(keys, under, n).len() ==> (#[trigger] child_order(keys, under, n)[k]
                < n && under[child_order(keys, under, n)[k] as int]),
    decreases n,
{
    if n > 0 {
        let m = (n - 1) as nat;
        lemma_child_order_members(keys, under, m);
        if under[n - 1] {
            let rest = child_order(keys, under, m);
            lemma_insert_index_members(keys, rest, (n - 1) as usize);
            let r = child_order(keys, under, n);
            assert forall|k: int| 0 <= k < r.len() implies (#[trigger] r[k] < n && under[r[k] as int]) by {
                if r[k] != (n - 1) as usize {
                    let j = choose|j: int| 0 <= j < rest.len() && rest[j] == r[k];
                    assert(rest[j] < m);
                }
            }
        }
    }
}

proof fn lemma_depth_enough(
    items: Seq<TreeItem>,
    folders: Seq<Folder>,
    requests: Seq<RequestItem>,
    chain: Seq<int>,
    d1: nat,
    d2: nat,
)
    requires
        unique_folder_ids(folders),
        folder_chain(folders, chain),
        folders.len() <= usize::MAX,
        d1 + chain.len() >= folders.len() + 1,
        d2 + chain.len() >= folders.len() + 1,
        tree_matches(items, folders, requests, chain_parent(folders, chain), d1),
    ensures
        tree_matches(items, folders, requests, chain_parent(folders, chain), d2),
    decreases d1,
{
    lemma_chain_len(folders, chain);
    let parent = chain_parent(folders, chain);
    let fo = child_folders(folders, parent);
    let ro = child_requests(requests, parent);
    lemma_child_order_members(folder_keys(folders), folders_under(folders, parent), folders.len());
    assert forall|k: int| 0 <= k < fo.len() implies (#[trigger] items[k] matches TreeItem::Folder(ft)
        && folder_same(ft.folder, folders[fo[k] as int]) && tree_matches(
        ft.children@,
        folders,
        requests,
        Some(folders[fo[k] as int].id),
        (d2 - 1) as nat,
    )) by {
        let ft = items[k]->Folder_0;
        let f = fo[k] as int;
        let next = chain.push(f);
        assert(folders_under(folders, parent)[f]);
        assert(folders[f].parent_folder_id == parent);
        assert(folder_chain(folders, next)) by {
            assert forall|i: int| 1 <= i < next.len() implies folders[#[trigger] next[i]].parent_folder_id
                == Some(folders[next[i - 1]].id) by {
                if i < chain.len() {
                    assert(next[i] == chain[i]);
                    assert(next[i - 1] == chain[i - 1]);
                }
            }
        }
        assert(chain_parent(folders, next) == Some(folders[f].id));
        lemma_depth_enough(ft.children@, folders, requests, next, (d1 - 1) as nat, (d2 - 1) as nat);
    }
}

/// With unique folder ids the tree built with any allowance of at least one
/// level more than there are folders is the same: such an allowance never
/// cuts a branch.
pub proof fn law_tree_depth_never_cuts(
    items: Seq<TreeItem>,
    folders: Seq<Folder>,
    requests: Seq<RequestItem>,
    d1: nat,
    d2: nat,
)
    requires
        unique_folder_ids(folders),
        folders.len() <= usize::MAX,
        d1 >= folders.len() + 1,
        d2 >= folders.len() + 1,
        tree_matches(items, folders, requests, None, d1),
    ensures
        tree_matches(items, folders, requests, None, d2),
{
    let chain = Seq::<int>::empty();
    assert(chain_parent(folders, chain) == None::<FolderId>);
    lemma_depth_enough(items, folders, requests, chain, d1, d2);
}

/// The tree under `parent`, `depth` levels deep.
fn build_tree_items_to(
    folders: &[Folder],
    requests: &[RequestItem],
    parent: Option<FolderId>,
    depth: usize,
) -> (r: Vec<TreeItem>)
    ensures
        tree_matches(r@, folders@, requests@, parent, depth as nat),
    decreases depth,
{
    let mut items: Vec<TreeItem> = Vec::new();
    if depth == 0 {
        return items;
    }
    let (fkeys, funder) = folder_keys_exec(folders, parent);
    let fo = sorted_children(&fkeys, &funder);
    let (rkeys, runder) = request_keys_exec(requests, parent);
    let ro = sorted_children(&rkeys, &runder);
    let ghost fo_spec = child_folders(folders@, parent);
    let ghost ro_spec = child_requests(requests@, parent);
    assert(fo@ == fo_spec);
    assert(ro@ == ro_spec);
    let mut k: usize = 0;
    while k < fo.len()
        invariant
            k <= fo.len(),
            depth > 0,
            fo@ == fo_spec,
            fo_spec == child_folders(folders@, parent),
            forall|j: int| 0 <= j < fo.len() ==> #[trigger] fo@[j] < folders.len(),
            items.len() == k,
            forall|j: int|
                0 <= j < k ==> (#[trigger] items@[j] matches TreeItem::Folder(ft) && folder_same(
                    ft.folder,
                    folders@[fo_spec[j] as int],
                ) && tree_matches(
                    ft.children@,
                    folders@,
                    requests@,
                    Some(folders@[fo_spec[j] as int].id),
                    (depth - 1) as nat,
                )),
        decreases fo.len() - k,
    {
        let f = &folders[fo[k]];
        let children = build_tree_items_to(folders, requests, Some(f.id), depth - 1);
        items.push(TreeItem::Folder(FolderTree { folder: f.duplicate(), children }));
        k = k + 1;
    }
    let mut m: usize = 0;
    while m < ro.len()
        invariant
            m <= ro.len(),
            depth > 0,
            fo@ == fo_spec,
            ro@ == ro_spec,
            ro_spec == child_requests(requests@, parent),
            forall|j: int| 0 <= j < ro.len() ==> #[trigger] ro@[j] < requests.len(),
            items.len() == fo.len() + m,
            forall|j: int|
                0 <= j < fo.len() ==> (#[trigger] items@[j] matches TreeItem::Folder(ft) && folder_same(
                    ft.folder,
                    folders@[fo_spec[j] as int],
                ) && tree_matches(
                    ft.children@,
                    folders@,
                    requests@,
                    Some(folders@[fo_spec[j] as int].id),
                    (depth - 1) as nat,
                )),
            forall|j: int|
                0 <= j < m ==> (#[trigger] items@[fo.len() + j] matches TreeItem::Request(r)
                    && request_same(r, requests@[ro_spec[j] as int])),
        decreases ro.len() - m,
    {
        let ghost before = items@;
        items.push(TreeItem::Request(requests[ro[m]].duplicate()));
        proof {
            assert forall|j: int| 0 <= j < fo.len() implies #[trigger] items@[j] == before[j] by {}
            assert forall|j: int| 0 <= j < m implies #[trigger] items@[fo.len() + j] == before[fo.len() + j] by {}
        }
        m = m + 1;
    }
    items
}

/// The tree of a collection's rows under `parent`, nested one level more
/// deeply than there are folders. When folder ids are unique, no chain of
/// nested folders is that deep, so the root's tree is complete: building
/// it deeper gives the same tree.
pub fn build_tree_items(folders: &[Folder], requests: &[RequestItem], parent: Option<FolderId>) -> (r:
    Vec<TreeItem>)
    ensures
        tree_matches(
            r@,
            folders@,
            requests@,
            parent,
            if folders.len() < usize::MAX {
                (folders.len() + 1) as nat
            } else {
                folders.len() as nat
            },
        ),
        parent is None && unique_folder_ids(folders@) && folders.len() < usize::MAX ==> forall|
            d: nat,
        |
            d >= folders.len() + 1 ==> #[trigger] tree_matches(r@, folders@, requests@, None, d),
{
    let depth = if folders.len() < usize::MAX {
        folders.len() + 1
    } else {
        folders.len()
    };
    let r = build_tree_items_to(folders, requests, parent, depth);
    proof {
        if parent is None && unique_folder_ids(folders@) && folders.len() < usize::MAX {
            assert forall|d: nat| d >= folders.len() + 1 implies #[trigger] tree_matches(
                r@,
                folders@,
                requests@,
                None,
                d,
            ) by {
                law_tree_depth_never_cuts(r@, folders@, requests@, depth as nat, d);
            }
        }
    }
    r
}


/// The workspace to open: the one asked for, or else the first listed.
pub open spec fn target_workspace(rows: Seq<Workspace>, selected: Option<WorkspaceId>) -> Option<
    WorkspaceId,
> {
    match selected {
        Some(id) => Some(id),
        None => if rows.len() > 0 {
            Some(rows[0].id)
        } else {
            None
        },
    }
}

/// The position of the workspace to open: the one asked for, or else the
/// first one listed; `None` when that id is not listed.
pub fn selected_workspace_index(rows: &[Workspace], selected: Option<WorkspaceId>) -> (r: Option<usize>)
    ensures
        match target_workspace(rows@, selected) {
            None => r is None,
            Some(id) => match r {
                Some(i) => i < rows@.len() && rows@[i as int].id == id && forall|j: int|
                    0 <= j < i ==> rows@[j].id != id,
                None => forall|j: int| 0 <= j < rows@.len() ==> rows@[j].id != id,
            },
        },
{
    let target = match selected {
        Some(id) => id,
        None => {
            if rows.len() == 0 {
                return None;
            }
            rows[0].id
        },
    };
    let mut i: usize = 0;
    while i < rows.len()
        invariant
            i <= rows.len(),
            selected is None ==> rows@.len() > 0,
            target == (match selected {
                Some(id) => id,
                None => rows@[0].id,
            }),
            forall|j: int| 0 <= j < i ==> rows@[j].id != target,
        decreases rows.len() - i,
    {
        if rows[i].id == target {
            return Some(i);
        }
        i = i + 1;
    }
    None
}

/// The folder and request rows of one collection: from the database for a
/// managed collection, from its files for a linked one (none when its root
/// is not recorded or its files cannot be read).
fn collection_rows<F: FolderRepository, Q: RequestRepository, L: LinkedCollectionFiles>(
    collection: &crate::domain::Collection,
    folders: &F,
    requests: &Q,
    linked_files: &L,
) -> (r: Result<(Vec<Folder>, Vec<RequestItem>), anyhow::Error>)
    ensures
        collection.storage_kind == CollectionStorageKind::Linked ==> r is Ok,
        collection.storage_kind == CollectionStorageKind::Linked
            && collection.storage_config.linked_root_path is None ==> (r matches Ok(rows)
            && rows.0.len() == 0 && rows.1.len() == 0),
{
    match collection.storage_kind {
        CollectionStorageKind::Managed => {
            let folder_rows = match folders.list_by_collection(collection.id) {
                Ok(v) => v,
                Err(e) => {
                    return Err(e);
                },
            };
            let request_rows = match requests.list_by_collection(collection.id) {
                Ok(v) => v,
                Err(e) => {
                    return Err(e);
                },
            };
            Ok((folder_rows, request_rows))
        },
        CollectionStorageKind::Linked => match &collection.storage_config.linked_root_path {
            Some(root) => match linked_files.read(root.as_str(), collection) {
                Ok(state) => Ok((state.folders, state.requests)),
                Err(_) => Ok((Vec::new(), Vec::new())),
            },
            None => Ok((Vec::new(), Vec::new())),
        },
    }
}

/// The nesting depth `build_tree_items` gives a collection with `n` folders.
pub open spec fn tree_depth_for(n: nat) -> nat {
    if n < usize::MAX {
        n + 1
    } else {
        n
    }
}

/// `tree` is `workspace` with `environments`, and the `i`-th collection
/// tree holds `collections[i]` with the tree of the rows `rows[i]`.
pub open spec fn assembled_from(
    tree: WorkspaceTree,
    workspace: Workspace,
    collections: Seq<Collection>,
    rows: Seq<(Vec<Folder>, Vec<RequestItem>)>,
    environments: Seq<Environment>,
) -> bool {
    &&& tree.workspace == workspace
    &&& tree.environments@ == environments
    &&& tree.collections@.len() == collections.len()
    &&& rows.len() == collections.len()
    &&& forall|i: int|
        0 <= i < collections.len() ==> {
            &&& (#[trigger] tree.collections@[i]).collection == collections[i]
            &&& tree_matches(
                tree.collections@[i].children@,
                rows[i].0@,
                rows[i].1@,
                None,
                tree_depth_for(rows[i].0@.len()),
            )
        }
}

/// `tree` is the tree of `workspace` assembled from some listing of its
/// collections, their rows and its environments.
pub open spec fn built_for(tree: WorkspaceTree, workspace: Workspace) -> bool {
    exists|collections: Seq<Collection>, rows: Seq<(Vec<Folder>, Vec<RequestItem>)>|
        #[trigger] assembled_from(tree, workspace, collections, rows, tree.environments@)
}

/// The tree of a workspace from its collections in order, the folder and
/// request rows of each (`rows[i]` for `collections[i]`), and its
/// environments.
pub fn assemble_workspace_tree(
    workspace: Workspace,
    collections: Vec<Collection>,
    rows: &Vec<(Vec<Folder>, Vec<RequestItem>)>,
    environments: Vec<Environment>,
) -> (tree: WorkspaceTree)
    requires
        rows@.len() == collections@.len(),
    ensures
        assembled_from(tree, workspace, collections@, rows@, environments@),
{
    let ghost all = collections@;
    assert(all.len() == collections.len());
    let mut collection_trees: Vec<CollectionTree> = Vec::new();
    let mut remaining = collections;
    let mut k: usize = 0;
    while remaining.len() > 0
        invariant
            rows@.len() == all.len(),
            all.len() <= usize::MAX,
            k <= all.len(),
            remaining@ == all.skip(k as int),
            collection_trees@.len() == k,
            forall|i: int|
                0 <= i < k ==> {
                    &&& (#[trigger] collection_trees@[i]).collection == all[i]
                    &&& tree_matches(
                        collection_trees@[i].children@,
                        rows@[i].0@,
                        rows@[i].1@,
                        None,
                        tree_depth_for(rows@[i].0@.len()),
                    )
                },
        decreases remaining.len(),
    {
        proof {
            assert(remaining@.len() == all.len() - k);
        }
        let collection = remaining.remove(0);
        proof {
            assert(collection == all[k as int]);
            assert(remaining@ =~= all.skip(k + 1));
        }
        let children = build_tree_items(rows[k].0.as_slice(), rows[k].1.as_slice(), None);
        collection_trees.push(CollectionTree { collection, children });
        k = k + 1;
    }
    proof {
        assert(k == all.len());
    }
    WorkspaceTree { workspace, collections: collection_trees, environments }
}

/// The tree of one workspace: each of its collections with its rows built
/// into a tree, and its environments.
pub fn build_workspace_tree<
    C: CollectionRepository,
    F: FolderRepository,
    Q: RequestRepository,
    E: EnvironmentRepository,
    L: LinkedCollectionFiles,
>(
    workspace: Workspace,
    collections: &C,
    folders: &F,
    requests: &Q,
    environments: &E,
    linked_files: &L,
) -> (r: Result<WorkspaceTree, anyhow::Error>)
    ensures
        r matches Ok(tree) ==> built_for(tree, workspace),
{
    let collection_rows_list = match collections.list_by_workspace(workspace.id) {
        Ok(v) => v,
        Err(e) => {
            return Err(e);
        },
    };
    let environment_rows = match environments.list_by_workspace(workspace.id) {
        Ok(v) => v,
        Err(e) => {
            return Err(e);
        },
    };
    let mut rows: Vec<(Vec<Folder>, Vec<RequestItem>)> = Vec::new();
    let mut k: usize = 0;
    while k < collection_rows_list.len()
        invariant
            k <= collection_rows_list.len(),
            rows@.len() == k,
        decreases collection_rows_list.len() - k,
    {
        match collection_rows(&collection_rows_list[k], folders, requests, linked_files) {
            Ok(r) => {
                rows.push(r);
            },
            Err(e) => {
                return Err(e);
            },
        }
        k = k + 1;
    }
    let ghost listed = collection_rows_list@;
    let tree = assemble_workspace_tree(workspace, collection_rows_list, &rows, environment_rows);
    proof {
        assert(built_for(tree, workspace)) by {
            assert(assembled_from(tree, workspace, listed, rows@, tree.environments@));
        }
    }
    Ok(tree)
}

/// `tree` is built for the workspace at `i` of `rows`, the first listed
/// with its id.
pub open spec fn tree_of_listed(rows: Seq<Workspace>, i: int, tree: WorkspaceTree) -> bool {
    &&& 0 <= i < rows.len()
    &&& built_for(tree, rows[i])
    &&& forall|j: int| 0 <= j < i ==> rows[j].id != rows[i].id
}

/// The workspaces, and the tree of the one to open: the one asked for, or
/// else the first listed.
pub fn load_workspace_catalog<
    W: WorkspaceRepository,
    C: CollectionRepository,
    F: FolderRepository,
    Q: RequestRepository,
    E: EnvironmentRepository,
    L: LinkedCollectionFiles,
>(
    workspaces: &W,
    collections: &C,
    folders: &F,
    requests: &Q,
    environments: &E,
    linked_files: &L,
    selected_workspace_id: Option<WorkspaceId>,
) -> (r: Result<WorkspaceCatalog, anyhow::Error>)
    ensures
        r matches Ok(catalog) ==> (catalog.selected_workspace is Some ==> target_workspace(
            catalog.workspaces@,
            selected_workspace_id,
        ) is Some),
        r matches Ok(catalog) ==> (catalog.selected_workspace matches Some(tree) ==> tree.workspace.id
            == target_workspace(catalog.workspaces@, selected_workspace_id).unwrap()),
        r matches Ok(catalog) ==> (target_workspace(catalog.workspaces@, selected_workspace_id) matches Some(id)
            ==> (catalog.selected_workspace is Some <==> exists|i: int|
            0 <= i < catalog.workspaces@.len() && catalog.workspaces@[i].id == id)),
        r matches Ok(catalog) ==> (catalog.selected_workspace matches Some(tree) ==> exists|i: int|
            tree_of_listed(catalog.workspaces@, i, tree)),
{
    let rows = match workspaces.list() {
        Ok(v) => v,
        Err(e) => {
            return Err(e);
        },
    };
    let index = selected_workspace_index(rows.as_slice(), selected_workspace_id);
    let selected = match index {
        None => None,
        Some(i) => {
            let workspace = rows[i].duplicate();
            match build_workspace_tree(
                workspace,
                collections,
                folders,
                requests,
                environments,
                linked_files,
            ) {
                Ok(tree) => Some(tree),
                Err(e) => {
                    return Err(e);
                },
            }
        },
    };
    proof {
        if let Some(i) = index {
            assert(rows@[i as int].id == selected.unwrap().workspace.id);
            assert(tree_of_listed(rows@, i as int, selected.unwrap()));
        }
    }
    Ok(WorkspaceCatalog { workspaces: rows, selected_workspace: selected })
}

} // verus!

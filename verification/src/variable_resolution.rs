//! Replacing `{{name}}` placeholders in request fields by variable values,
//! and finding the placeholders that no scope defines.
use vstd::prelude::*;

use crate::domain::{
    copy_opt_string, duplicate_file_fields, kv_view, kvs_view, AuthType, BodyType, KeyValuePair,
    RequestItem,
};
use crate::ids::{EnvironmentId, WorkspaceId};
use crate::repos::{EnvironmentRepository, SecretStore, WorkspaceRepository};
use crate::stored_variables::parse_variable_entries;
use crate::text::{
    append_all, append_range, chars_eq, chars_of, find_from, first_match, match_at, string_of,
    sub_vec, trim, trim_bounds, seq_lt, compare_chars, NameOrder, lemma_seq_lt_transitive,
    lemma_seq_lt_irreflexive,
};

verus! {

/// `{{`, which opens a placeholder.
pub open spec fn open_braces() -> Seq<char> {
    seq!['{', '{']
}

/// `}}`, which closes a placeholder.
pub open spec fn close_braces() -> Seq<char> {
    seq!['}', '}']
}

/// The value of a name in a list of definitions where a later definition
/// overrides an earlier one.
pub open spec fn lookup(entries: Seq<(String, String)>, key: Seq<char>) -> Option<Seq<char>>
    decreases entries.len(),
{
    if entries.len() == 0 {
        None
    } else if entries.last().0@ == key {
        Some(entries.last().1@)
    } else {
        lookup(entries.drop_last(), key)
    }
}

/// A set of named variables; defining a name again replaces its value.
#[derive(Debug, Clone)]
pub struct VariableMap {
    entries: Vec<(String, String)>,
}

impl View for VariableMap {
    type V = Map<Seq<char>, Seq<char>>;

    closed spec fn view(&self) -> Map<Seq<char>, Seq<char>> {
        Map::new(|k: Seq<char>| lookup(self.entries@, k) is Some, |k: Seq<char>| lookup(self.entries@, k)->0)
    }
}

impl VariableMap {
    pub fn new() -> (r: Self)
        ensures
            r@ == Map::<Seq<char>, Seq<char>>::empty(),
    {
        let r = VariableMap { entries: Vec::new() };
        proof {
            assert(r@ =~= Map::<Seq<char>, Seq<char>>::empty());
        }
        r
    }

    /// Defines `key` as `value`, replacing an earlier definition.
    pub fn insert(&mut self, key: String, value: String)
        ensures
            final(self)@ == old(self)@.insert(key@, value@),
    {
        let ghost k = key@;
        let ghost v = value@;
        self.entries.push((key, value));
        proof {
            let e = self.entries@;
            assert(e.drop_last() == old(self).entries@);
            assert forall|q: Seq<char>| #![auto] lookup(e, q) == (if q == k { Some(v) } else { lookup(old(self).entries@, q) }) by {}
            assert(self@ =~= old(self)@.insert(k, v));
        }
    }

    /// Adds every definition of `other`, which overrides those already here.
    pub fn extend(&mut self, other: &VariableMap)
        ensures
            final(self)@ == old(self)@.union_prefer_right(other@),
    {
        let mut i: usize = 0;
        while i < other.entries.len()
            invariant
                i <= other.entries.len(),
                self.entries@ == old(self).entries@ + other.entries@.subrange(0, i as int),
            decreases other.entries.len() - i,
        {
            let (k, v) = &other.entries[i];
            self.entries.push((k.clone(), v.clone()));
            proof {
                assert(self.entries@ =~= old(self).entries@ + other.entries@.subrange(0, i + 1));
            }
            i = i + 1;
        }
        proof {
            assert(other.entries@.subrange(0, other.entries@.len() as int) =~= other.entries@);
            assert forall|k: Seq<char>| #![auto] lookup(self.entries@, k) == (if lookup(other.entries@, k) is Some {
                lookup(other.entries@, k)
            } else {
                lookup(old(self).entries@, k)
            }) by {
                lemma_lookup_concat(old(self).entries@, other.entries@, k);
            }
            assert(self@ =~= old(self)@.union_prefer_right(other@));
        }
    }

    /// The value of a name, given by its characters.
    pub fn get(&self, key: &[char]) -> (r: Option<&String>)
        ensures
            r.is_some() == self@.contains_key(key@),
            r matches Some(v) ==> v@ == self@[key@],
    {
        let mut i: usize = self.entries.len();
        proof {
            assert(self.entries@.subrange(0, i as int) =~= self.entries@);
        }
        while i > 0
            invariant
                i <= self.entries.len(),
                lookup(self.entries@, key@) == lookup(self.entries@.subrange(0, i as int), key@),
            decreases i,
        {
            let k = chars_of(self.entries[i - 1].0.as_str());
            let ghost sub = self.entries@.subrange(0, i as int);
            proof {
                assert(sub.drop_last() =~= self.entries@.subrange(0, i - 1));
                assert(sub.last() == self.entries@[i - 1]);
            }
            if chars_eq(k.as_slice(), key) {
                return Some(&self.entries[i - 1].1);
            }
            i = i - 1;
        }
        None
    }
}

/// Looking up in a concatenation: the later part wins.
proof fn lemma_lookup_concat(a: Seq<(String, String)>, b: Seq<(String, String)>, k: Seq<char>)
    ensures
        lookup(a + b, k) == (if lookup(b, k) is Some {
            lookup(b, k)
        } else {
            lookup(a, k)
        }),
    decreases b.len(),
{
    if b.len() == 0 {
        assert(a + b =~= a);
    } else {
        lemma_lookup_concat(a, b.drop_last(), k);
        assert((a + b).drop_last() =~= a + b.drop_last());
        assert((a + b).last() == b.last());
    }
}

/// The first complete placeholder of a text: the position of its `{{` and
/// the length of the name between the braces.
pub open spec fn placeholder_at(s: Seq<char>) -> Option<(int, int)> {
    match first_match(s, open_braces()) {
        None => None,
        Some(i) => match first_match(s.skip(i + 2), close_braces()) {
            None => None,
            Some(j) => Some((i, j)),
        },
    }
}

/// The position that `first_match` gives is a match.
pub proof fn lemma_first_match_bounds(s: Seq<char>, pat: Seq<char>)
    ensures
        first_match(s, pat) matches Some(i) ==> match_at(s, pat, i),
{
    reveal(first_match);
    if crate::text::contains_seq(s, pat) {
        let i = choose|i: int| match_at(s, pat, i);
        crate::text::lemma_first_exists(s, pat, i);
    }
}

pub proof fn lemma_placeholder_bounds(s: Seq<char>)
    ensures
        placeholder_at(s) matches Some(p) ==> 0 <= p.0 && 0 <= p.1 && p.0 + p.1 + 4 <= s.len(),
{
    lemma_first_match_bounds(s, open_braces());
    match first_match(s, open_braces()) {
        None => {},
        Some(i) => {
            assert(match_at(s, open_braces(), i));
            assert(open_braces().len() == 2);
            let t = s.skip(i + 2);
            assert(t.len() == s.len() - i - 2);
            lemma_first_match_bounds(t, close_braces());
            match first_match(t, close_braces()) {
                None => {},
                Some(j) => {
                    assert(match_at(t, close_braces(), j));
                    assert(close_braces().len() == 2);
                },
            }
        },
    }
}

/// The text with every placeholder `{{ name }}` whose trimmed name is defined
/// replaced by its value; placeholders of undefined names, and an unclosed
/// `{{` with the text after it, stay as written.
pub open spec fn resolve_spec(s: Seq<char>, vars: Map<Seq<char>, Seq<char>>) -> Seq<char>
    decreases s.len(),
{
    match placeholder_at(s) {
        None => s,
        Some((i, j)) => {
            proof {
                lemma_placeholder_bounds(s);
            }
            let raw = s.subrange(i + 2, i + 2 + j);
            let key = trim(raw);
            let rep = if vars.contains_key(key) {
                vars[key]
            } else {
                open_braces() + raw + close_braces()
            };
            s.take(i) + rep + resolve_spec(s.skip(i + j + 4), vars)
        },
    }
}

/// How one step of the scan relates positions in the whole text to the
/// first placeholder of the rest of it.
proof fn lemma_scan_step(s: Seq<char>, pos: int, start: int, end: int)
    requires
        0 <= pos <= start,
        start + 2 <= end,
        end + 2 <= s.len(),
        first_match(s.subrange(pos, s.len() as int), open_braces()) == Some(start - pos),
        first_match(s.subrange(start + 2, s.len() as int), close_braces()) == Some(end - start - 2),
    ensures
        placeholder_at(s.skip(pos)) == Some((start - pos, end - start - 2)),
        s.skip(pos).take(start - pos) == s.subrange(pos, start),
        s.skip(pos).subrange(start - pos + 2, start - pos + 2 + (end - start - 2)) == s.subrange(
            start + 2,
            end,
        ),
        s.skip(pos).skip((start - pos) + (end - start - 2) + 4) == s.skip(end + 2),
{
    let rest = s.skip(pos);
    assert(s.subrange(pos, s.len() as int) =~= rest);
    assert(rest.skip(start - pos + 2) =~= s.subrange(start + 2, s.len() as int));
    assert(rest.take(start - pos) =~= s.subrange(pos, start));
    assert(rest.subrange(start - pos + 2, end - pos) =~= s.subrange(start + 2, end));
    assert(rest.skip(end - pos + 2) =~= s.skip(end + 2));
}

/// Replaces every placeholder `{{ name }}` whose trimmed name is defined in
/// `vars` by its value; other text is kept as written.
pub fn resolve_text(input: &str, vars: &VariableMap) -> (r: String)
    ensures
        r@ == resolve_spec(input@, vars@),
{
    let s = chars_of(input);
    let open: Vec<char> = vec!['{', '{'];
    let close: Vec<char> = vec!['}', '}'];
    let mut out: Vec<char> = Vec::new();
    let mut pos: usize = 0;
    proof {
        assert(open@ =~= open_braces());
        assert(close@ =~= close_braces());
        assert(s@.skip(0) =~= s@);
    }
    loop
        invariant_except_break
            out@ + resolve_spec(s@.skip(pos as int), vars@) == resolve_spec(s@, vars@),
        invariant
            pos <= s.len(),
            open@ == open_braces(),
            close@ == close_braces(),
        ensures
            out@ == resolve_spec(s@, vars@),
        decreases s.len() - pos,
    {
        let ghost rest = s@.skip(pos as int);
        proof {
            assert(s@.subrange(pos as int, s@.len() as int) =~= rest);
        }
        let start = match find_from(s.as_slice(), open.as_slice(), pos) {
            None => {
                proof {
                    reveal_with_fuel(resolve_spec, 1);
                    assert(placeholder_at(rest) is None);
                    assert(resolve_spec(rest, vars@) == rest);
                    assert(rest =~= s@.subrange(pos as int, s@.len() as int));
                }
                append_range(&mut out, s.as_slice(), pos, s.len());
                break;
            },
            Some(st) => st,
        };
        let end = match find_from(s.as_slice(), close.as_slice(), start + 2) {
            None => {
                proof {
                    assert(rest.skip(start - pos + 2) =~= s@.subrange(start + 2, s@.len() as int));
                    assert(placeholder_at(rest) is None);
                    assert(resolve_spec(rest, vars@) == rest);
                    assert(rest =~= s@.subrange(pos as int, s@.len() as int));
                }
                append_range(&mut out, s.as_slice(), pos, s.len());
                break;
            },
            Some(e) => e,
        };
        proof {
            lemma_scan_step(s@, pos as int, start as int, end as int);
        }
        let ghost before = out@;
        append_range(&mut out, s.as_slice(), pos, start);
        let (a, b) = trim_bounds(s.as_slice(), start + 2, end);
        let key = sub_vec(s.as_slice(), a, b);
        match vars.get(key.as_slice()) {
            Some(v) => {
                let vc = chars_of(v.as_str());
                append_all(&mut out, vc.as_slice());
            },
            None => {
                append_all(&mut out, open.as_slice());
                append_range(&mut out, s.as_slice(), start + 2, end);
                append_all(&mut out, close.as_slice());
            },
        }
        proof {
            let raw = s@.subrange(start + 2, end as int);
            let k = trim(raw);
            assert(key@ == k);
            let rep = if vars@.contains_key(k) {
                vars@[k]
            } else {
                open_braces() + raw + close_braces()
            };
            assert(out@ =~= before + s@.subrange(pos as int, start as int) + rep);
            assert(resolve_spec(rest, vars@) == s@.subrange(pos as int, start as int) + rep
                + resolve_spec(s@.skip(end + 2), vars@));
        }
        pos = end + 2;
    }
    string_of(out.as_slice())
}

/// The trimmed, non-empty names of the complete placeholders of a text.
pub open spec fn placeholders_spec(s: Seq<char>) -> Set<Seq<char>>
    decreases s.len(),
{
    match placeholder_at(s) {
        None => Set::empty(),
        Some((i, j)) => {
            proof {
                lemma_placeholder_bounds(s);
            }
            let key = trim(s.subrange(i + 2, i + 2 + j));
            let rest = placeholders_spec(s.skip(i + j + 4));
            if key.len() > 0 {
                rest.insert(key)
            } else {
                rest
            }
        },
    }
}

/// A sequence of names in strictly increasing order (the order of `str`).
pub open spec fn strictly_sorted(v: Seq<Seq<char>>) -> bool {
    forall|i: int, j: int| 0 <= i < j < v.len() ==> seq_lt(#[trigger] v[i], #[trigger] v[j])
}

pub open spec fn name_views(v: Seq<String>) -> Seq<Seq<char>> {
    v.map_values(|s: String| s@)
}

/// A strictly sorted sequence has no repeated element.
pub proof fn lemma_sorted_no_duplicates(v: Seq<Seq<char>>)
    requires
        strictly_sorted(v),
    ensures
        v.no_duplicates(),
{
    assert forall|i: int, j: int| 0 <= i < v.len() && 0 <= j < v.len() && i != j implies v[i]
        != v[j] by {
        if i < j {
            assert(seq_lt(v[i], v[j]));
        } else {
            assert(seq_lt(v[j], v[i]));
        }
        lemma_seq_lt_irreflexive(v[i]);
    }
}

/// A set of names kept in sorted order, without repetitions.
#[derive(Debug, Clone)]
pub struct PlaceholderSet {
    names: Vec<String>,
}

impl View for PlaceholderSet {
    type V = Set<Seq<char>>;

    closed spec fn view(&self) -> Set<Seq<char>> {
        name_views(self.names@).to_set()
    }
}

impl PlaceholderSet {
    pub closed spec fn wf(&self) -> bool {
        strictly_sorted(name_views(self.names@))
    }

    pub fn new() -> (r: Self)
        ensures
            r.wf(),
            r@ == Set::<Seq<char>>::empty(),
    {
        let r = PlaceholderSet { names: Vec::new() };
        proof {
            assert(name_views(r.names@) =~= Seq::<Seq<char>>::empty());
            assert(r@ =~= Set::<Seq<char>>::empty());
        }
        r
    }

    pub fn len(&self) -> (r: usize)
        requires
            self.wf(),
        ensures
            r == self@.len(),
    {
        proof {
            lemma_sorted_no_duplicates(name_views(self.names@));
            name_views(self.names@).unique_seq_to_set();
        }
        self.names.len()
    }

    /// Adds a name.
    pub fn insert(&mut self, name: Vec<char>)
        requires
            old(self).wf(),
        ensures
            final(self).wf(),
            final(self)@ == old(self)@.insert(name@),
    {
        let ghost old_views = name_views(self.names@);
        let mut p: usize = 0;
        while p < self.names.len()
            invariant
                p <= self.names.len(),
                self.names@ == old(self).names@,
                old_views == name_views(self.names@),
                strictly_sorted(old_views),
                forall|k: int| 0 <= k < p ==> seq_lt(#[trigger] old_views[k], name@),
            ensures
                p <= self.names.len(),
                self.names@ == old(self).names@,
                old_views == name_views(self.names@),
                forall|k: int| 0 <= k < p ==> seq_lt(#[trigger] old_views[k], name@),
                p < old_views.len() ==> seq_lt(name@, old_views[p as int]),
            decreases self.names.len() - p,
        {
            let cur = chars_of(self.names[p].as_str());
            match compare_chars(cur.as_slice(), name.as_slice()) {
                NameOrder::Before => {},
                NameOrder::Same => {
                    proof {
                        assert(old_views[p as int] == name@);
                        assert(old_views.to_set().contains(name@));
                        assert(self@ =~= old(self)@.insert(name@));
                    }
                    return;
                },
                NameOrder::After => {
                    break;
                },
            }
            p = p + 1;
        }
        let s = string_of(name.as_slice());
        self.names.insert(p, s);
        proof {
            let nv = name_views(self.names@);
            assert(nv =~= old_views.insert(p as int, name@));
            assert forall|i: int, j: int| 0 <= i < j < nv.len() implies seq_lt(
                #[trigger] nv[i],
                #[trigger] nv[j],
            ) by {
                if j < p {
                    assert(nv[i] == old_views[i] && nv[j] == old_views[j]);
                } else if j == p {
                    assert(nv[i] == old_views[i]);
                } else if i == p {
                    assert(nv[j] == old_views[j - 1]);
                    if j - 1 > p {
                        lemma_seq_lt_transitive(name@, old_views[p as int], old_views[j - 1]);
                    }
                } else if i < p {
                    assert(nv[i] == old_views[i] && nv[j] == old_views[j - 1]);
                } else {
                    assert(nv[i] == old_views[i - 1] && nv[j] == old_views[j - 1]);
                }
            }
            assert forall|x: Seq<char>| nv.to_set().contains(x) <==> old_views.to_set().insert(
                name@,
            ).contains(x) by {
                if nv.contains(x) {
                    let k = choose|k: int| 0 <= k < nv.len() && nv[k] == x;
                    if k < p {
                        assert(nv[k] == old_views[k]);
                    } else if k > p {
                        assert(nv[k] == old_views[k - 1]);
                    }
                }
                if old_views.contains(x) {
                    let k = choose|k: int| 0 <= k < old_views.len() && old_views[k] == x;
                    if k < p {
                        assert(nv[k] == x);
                    } else {
                        assert(nv[k + 1] == x);
                    }
                }
                if x == name@ {
                    assert(nv[p as int] == x);
                }
            }
            assert(self@ =~= old(self)@.insert(name@));
        }
    }

    /// The names, in increasing order.
    pub fn to_vec(&self) -> (r: Vec<String>)
        requires
            self.wf(),
        ensures
            strictly_sorted(name_views(r@)),
            name_views(r@).to_set() == self@,
    {
        let mut out: Vec<String> = Vec::new();
        let mut i: usize = 0;
        while i < self.names.len()
            invariant
                i <= self.names.len(),
                out@ == self.names@.subrange(0, i as int),
            decreases self.names.len() - i,
        {
            out.push(self.names[i].clone());
            i = i + 1;
        }
        proof {
            assert(out@ =~= self.names@);
        }
        out
    }
}

/// Adds the names of the placeholders of `value` to `out`.
pub fn collect_placeholders_in_text(value: &str, out: &mut PlaceholderSet)
    requires
        old(out).wf(),
    ensures
        final(out).wf(),
        final(out)@ == old(out)@.union(placeholders_spec(value@)),
{
    let s = chars_of(value);
    let open: Vec<char> = vec!['{', '{'];
    let close: Vec<char> = vec!['}', '}'];
    let mut pos: usize = 0;
    proof {
        assert(open@ =~= open_braces());
        assert(close@ =~= close_braces());
        assert(s@.skip(0) =~= s@);
        assert(old(out)@.union(placeholders_spec(s@)) =~= old(out)@.union(placeholders_spec(s@)));
    }
    loop
        invariant_except_break
            out@.union(placeholders_spec(s@.skip(pos as int))) == old(out)@.union(
                placeholders_spec(s@),
            ),
        invariant
            out.wf(),
            pos <= s.len(),
            open@ == open_braces(),
            close@ == close_braces(),
        ensures
            out@ == old(out)@.union(placeholders_spec(s@)),
        decreases s.len() - pos,
    {
        let ghost rest = s@.skip(pos as int);
        proof {
            assert(s@.subrange(pos as int, s@.len() as int) =~= rest);
        }
        let start = match find_from(s.as_slice(), open.as_slice(), pos) {
            None => {
                proof {
                    assert(placeholder_at(rest) is None);
                    assert(out@.union(Set::empty()) =~= out@);
                }
                break;
            },
            Some(st) => st,
        };
        let end = match find_from(s.as_slice(), close.as_slice(), start + 2) {
            None => {
                proof {
                    assert(rest.skip(start - pos + 2) =~= s@.subrange(start + 2, s@.len() as int));
                    assert(placeholder_at(rest) is None);
                    assert(out@.union(Set::empty()) =~= out@);
                }
                break;
            },
            Some(e) => e,
        };
        proof {
            lemma_scan_step(s@, pos as int, start as int, end as int);
        }
        let ghost before = out@;
        let (a, b) = trim_bounds(s.as_slice(), start + 2, end);
        if a < b {
            let key = sub_vec(s.as_slice(), a, b);
            out.insert(key);
        }
        proof {
            let raw = s@.subrange(start + 2, end as int);
            let k = trim(raw);
            let tail = placeholders_spec(s@.skip(end + 2));
            if k.len() > 0 {
                assert(placeholders_spec(rest) == tail.insert(k));
                assert(before.union(tail.insert(k)) =~= before.insert(k).union(tail));
            } else {
                assert(placeholders_spec(rest) == tail);
            }
        }
        pos = end + 2;
    }
}

/// A pair with key and value resolved; the enabled flag is kept.
pub open spec fn pair_resolved(p: KeyValuePair, vars: Map<Seq<char>, Seq<char>>, r: KeyValuePair) -> bool {
    &&& r.key@ == resolve_spec(p.key@, vars)
    &&& r.value@ == resolve_spec(p.value@, vars)
    &&& r.enabled == p.enabled
}

pub open spec fn pairs_resolved(
    v: Seq<KeyValuePair>,
    vars: Map<Seq<char>, Seq<char>>,
    r: Seq<KeyValuePair>,
) -> bool {
    &&& r.len() == v.len()
    &&& forall|i: int| 0 <= i < v.len() ==> pair_resolved(v[i], vars, #[trigger] r[i])
}

/// Auth with its user-visible text resolved; secret references are kept.
pub open spec fn auth_resolved(a: AuthType, vars: Map<Seq<char>, Seq<char>>, r: AuthType) -> bool {
    match a {
        AuthType::NoAuth => r == AuthType::NoAuth,
        AuthType::Basic { username, password_secret_ref } => r matches AuthType::Basic {
            username: u,
            password_secret_ref: p,
        } && u@ == resolve_spec(username@, vars) && p == password_secret_ref,
        AuthType::Bearer { token_secret_ref } => r == AuthType::Bearer { token_secret_ref },
        AuthType::ApiKey { key_name, value_secret_ref, location } => r matches AuthType::ApiKey {
            key_name: k,
            value_secret_ref: v,
            location: l,
        } && k@ == resolve_spec(key_name@, vars) && v == value_secret_ref && l == location,
    }
}

/// A body with its text resolved; files are kept.
pub open spec fn body_resolved(b: BodyType, vars: Map<Seq<char>, Seq<char>>, r: BodyType) -> bool {
    match b {
        BodyType::NoBody => r == BodyType::NoBody,
        BodyType::RawText { content } => r matches BodyType::RawText { content: c } && c@
            == resolve_spec(content@, vars),
        BodyType::RawJson { content } => r matches BodyType::RawJson { content: c } && c@
            == resolve_spec(content@, vars),
        BodyType::UrlEncoded { entries } => r matches BodyType::UrlEncoded { entries: e }
            && pairs_resolved(entries@, vars, e@),
        BodyType::FormData { text_fields, file_fields } => r matches BodyType::FormData {
            text_fields: t,
            file_fields: f,
        } && pairs_resolved(text_fields@, vars, t@) && f@ == file_fields@,
        BodyType::BinaryFile { file_name, blob_hash } => r matches BodyType::BinaryFile {
            file_name: n,
            blob_hash: h,
        } && n == file_name && h == blob_hash,
    }
}

fn resolve_pairs(v: &Vec<KeyValuePair>, vars: &VariableMap) -> (r: Vec<KeyValuePair>)
    ensures
        pairs_resolved(v@, vars@, r@),
{
    let mut out: Vec<KeyValuePair> = Vec::new();
    let mut i: usize = 0;
    while i < v.len()
        invariant
            i <= v.len(),
            out@.len() == i,
            forall|k: int| 0 <= k < i ==> pair_resolved(v@[k], vars@, #[trigger] out@[k]),
        decreases v.len() - i,
    {
        let e = &v[i];
        out.push(
            KeyValuePair {
                key: resolve_text(e.key.as_str(), vars),
                value: resolve_text(e.value.as_str(), vars),
                enabled: e.enabled,
            },
        );
        i = i + 1;
    }
    out
}

/// Resolves the username of basic auth and the key name of an API key.
pub fn resolve_auth(auth: &AuthType, vars: &VariableMap) -> (r: AuthType)
    ensures
        auth_resolved(*auth, vars@, r),
{
    match auth {
        AuthType::NoAuth => AuthType::NoAuth,
        AuthType::Basic { username, password_secret_ref } => AuthType::Basic {
            username: resolve_text(username.as_str(), vars),
            password_secret_ref: copy_opt_string(password_secret_ref),
        },
        AuthType::Bearer { token_secret_ref } => AuthType::Bearer {
            token_secret_ref: copy_opt_string(token_secret_ref),
        },
        AuthType::ApiKey { key_name, value_secret_ref, location } => AuthType::ApiKey {
            key_name: resolve_text(key_name.as_str(), vars),
            value_secret_ref: copy_opt_string(value_secret_ref),
            location: *location,
        },
    }
}

/// Resolves raw bodies and the text fields of form bodies.
pub fn resolve_body(body: &BodyType, vars: &VariableMap) -> (r: BodyType)
    ensures
        body_resolved(*body, vars@, r),
{
    match body {
        BodyType::NoBody => BodyType::NoBody,
        BodyType::RawText { content } => BodyType::RawText {
            content: resolve_text(content.as_str(), vars),
        },
        BodyType::RawJson { content } => BodyType::RawJson {
            content: resolve_text(content.as_str(), vars),
        },
        BodyType::UrlEncoded { entries } => BodyType::UrlEncoded {
            entries: resolve_pairs(entries, vars),
        },
        BodyType::FormData { text_fields, file_fields } => BodyType::FormData {
            text_fields: resolve_pairs(text_fields, vars),
            file_fields: duplicate_file_fields(file_fields),
        },
        BodyType::BinaryFile { file_name, blob_hash } => BodyType::BinaryFile {
            file_name: copy_opt_string(file_name),
            blob_hash: blob_hash.clone(),
        },
    }
}

/// The placeholder names of the keys and values of some pairs.
pub open spec fn pairs_placeholders(v: Seq<KeyValuePair>) -> Set<Seq<char>>
    decreases v.len(),
{
    if v.len() == 0 {
        Set::empty()
    } else {
        pairs_placeholders(v.drop_last()).union(placeholders_spec(v.last().key@)).union(
            placeholders_spec(v.last().value@),
        )
    }
}

pub open spec fn auth_placeholders(a: AuthType) -> Set<Seq<char>> {
    match a {
        AuthType::Basic { username, .. } => placeholders_spec(username@),
        AuthType::ApiKey { key_name, .. } => placeholders_spec(key_name@),
        _ => Set::empty(),
    }
}

pub open spec fn body_placeholders(b: BodyType) -> Set<Seq<char>> {
    match b {
        BodyType::RawText { content } => placeholders_spec(content@),
        BodyType::RawJson { content } => placeholders_spec(content@),
        BodyType::UrlEncoded { entries } => pairs_placeholders(entries@),
        BodyType::FormData { text_fields, .. } => pairs_placeholders(text_fields@),
        _ => Set::empty(),
    }
}

/// Every placeholder name that is still in a request's method, URL, params,
/// headers, auth text or body text.
pub open spec fn request_placeholders(r: RequestItem) -> Set<Seq<char>> {
    placeholders_spec(r.method@).union(placeholders_spec(r.url@)).union(
        pairs_placeholders(r.params@),
    ).union(pairs_placeholders(r.headers@)).union(auth_placeholders(r.auth)).union(
        body_placeholders(r.body),
    )
}

fn collect_pairs(v: &Vec<KeyValuePair>, out: &mut PlaceholderSet)
    requires
        old(out).wf(),
    ensures
        final(out).wf(),
        final(out)@ == old(out)@.union(pairs_placeholders(v@)),
{
    let mut i: usize = 0;
    while i < v.len()
        invariant
            i <= v.len(),
            out.wf(),
            out@ == old(out)@.union(pairs_placeholders(v@.subrange(0, i as int))),
        decreases v.len() - i,
    {
        let ghost before = out@;
        collect_placeholders_in_text(v[i].key.as_str(), out);
        collect_placeholders_in_text(v[i].value.as_str(), out);
        proof {
            let sub = v@.subrange(0, i + 1);
            assert(sub.drop_last() =~= v@.subrange(0, i as int));
            assert(out@ =~= old(out)@.union(pairs_placeholders(sub)));
        }
        i = i + 1;
    }
    proof {
        assert(v@.subrange(0, v@.len() as int) =~= v@);
    }
}

/// The names of all placeholders left in a request, sorted, each once.
pub fn collect_missing_placeholders(request: &RequestItem) -> (r: Vec<String>)
    ensures
        strictly_sorted(name_views(r@)),
        name_views(r@).to_set() == request_placeholders(*request),
{
    let mut out = PlaceholderSet::new();
    collect_placeholders_in_text(request.method.as_str(), &mut out);
    collect_placeholders_in_text(request.url.as_str(), &mut out);
    collect_pairs(&request.params, &mut out);
    collect_pairs(&request.headers, &mut out);
    let ghost before_auth = out@;
    match &request.auth {
        AuthType::Basic { username, .. } => {
            collect_placeholders_in_text(username.as_str(), &mut out);
        },
        AuthType::ApiKey { key_name, .. } => {
            collect_placeholders_in_text(key_name.as_str(), &mut out);
        },
        _ => {
            proof {
                assert(before_auth.union(Set::empty()) =~= before_auth);
            }
        },
    }
    let ghost before_body = out@;
    match &request.body {
        BodyType::RawText { content } | BodyType::RawJson { content } => {
            collect_placeholders_in_text(content.as_str(), &mut out);
        },
        BodyType::UrlEncoded { entries } => {
            collect_pairs(entries, &mut out);
        },
        BodyType::FormData { text_fields, .. } => {
            collect_pairs(text_fields, &mut out);
        },
        _ => {
            proof {
                assert(before_body.union(Set::empty()) =~= before_body);
            }
        },
    }
    proof {
        assert(out@ =~= Set::<Seq<char>>::empty().union(request_placeholders(*request)));
        assert(out@ =~= request_placeholders(*request));
    }
    out.to_vec()
}

/// `r` is `req` with placeholders resolved in its method, URL, params,
/// headers, auth text and body text; every other field is kept.
pub open spec fn request_resolved(req: RequestItem, vars: Map<Seq<char>, Seq<char>>, r: RequestItem) -> bool {
    &&& r.method@ == resolve_spec(req.method@, vars)
    &&& r.url@ == resolve_spec(req.url@, vars)
    &&& pairs_resolved(req.params@, vars, r.params@)
    &&& pairs_resolved(req.headers@, vars, r.headers@)
    &&& auth_resolved(req.auth, vars, r.auth)
    &&& body_resolved(req.body, vars, r.body)
    &&& r.id == req.id
    &&& r.collection_id == req.collection_id
    &&& r.parent_folder_id == req.parent_folder_id
    &&& r.name@ == req.name@
    &&& r.scripts@ == req.scripts@
    &&& r.settings@ == req.settings@
    &&& r.variable_overrides_json@ == req.variable_overrides_json@
    &&& r.sort_order == req.sort_order
    &&& r.meta == req.meta
}

proof fn lemma_pairs_placeholders_by_view(a: Seq<KeyValuePair>, b: Seq<KeyValuePair>)
    requires
        kvs_view(a) == kvs_view(b),
    ensures
        pairs_placeholders(a) == pairs_placeholders(b),
    decreases a.len(),
{
    assert(a.len() == kvs_view(a).len());
    assert(b.len() == kvs_view(b).len());
    if a.len() > 0 {
        assert(kvs_view(a.drop_last()) =~= kvs_view(a).drop_last());
        assert(kvs_view(b.drop_last()) =~= kvs_view(b).drop_last());
        assert(kvs_view(a)[a.len() - 1] == kv_view(a.last()));
        assert(kvs_view(b)[b.len() - 1] == kv_view(b.last()));
        lemma_pairs_placeholders_by_view(a.drop_last(), b.drop_last());
    }
}

proof fn lemma_resolved_pairs_views(
    v: Seq<KeyValuePair>,
    vars: Map<Seq<char>, Seq<char>>,
    r1: Seq<KeyValuePair>,
    r2: Seq<KeyValuePair>,
)
    requires
        pairs_resolved(v, vars, r1),
        pairs_resolved(v, vars, r2),
    ensures
        kvs_view(r1) == kvs_view(r2),
{
    assert forall|i: int| 0 <= i < r1.len() implies kvs_view(r1)[i] == kvs_view(r2)[i] by {
        assert(pair_resolved(v[i], vars, r1[i]));
        assert(pair_resolved(v[i], vars, r2[i]));
    }
    assert(kvs_view(r1) =~= kvs_view(r2));
}

/// The placeholders left after resolving a request do not depend on which
/// of the (equal-content) results one looks at.
proof fn lemma_resolved_placeholders_unique(
    req: RequestItem,
    vars: Map<Seq<char>, Seq<char>>,
    r1: RequestItem,
    r2: RequestItem,
)
    requires
        request_resolved(req, vars, r1),
        request_resolved(req, vars, r2),
    ensures
        request_placeholders(r1) == request_placeholders(r2),
{
    lemma_resolved_pairs_views(req.params@, vars, r1.params@, r2.params@);
    lemma_pairs_placeholders_by_view(r1.params@, r2.params@);
    lemma_resolved_pairs_views(req.headers@, vars, r1.headers@, r2.headers@);
    lemma_pairs_placeholders_by_view(r1.headers@, r2.headers@);
    assert(auth_placeholders(r1.auth) == auth_placeholders(r2.auth));
    match req.body {
        BodyType::UrlEncoded { entries } => {
            lemma_resolved_pairs_views(entries@, vars, r1.body->entries@, r2.body->entries@);
            lemma_pairs_placeholders_by_view(r1.body->entries@, r2.body->entries@);
        },
        BodyType::FormData { text_fields, .. } => {
            lemma_resolved_pairs_views(
                text_fields@,
                vars,
                r1.body->text_fields@,
                r2.body->text_fields@,
            );
            lemma_pairs_placeholders_by_view(r1.body->text_fields@, r2.body->text_fields@);
        },
        _ => {},
    }
    assert(body_placeholders(r1.body) == body_placeholders(r2.body));
}

/// Names joined by `", "`.
pub open spec fn join_names(names: Seq<Seq<char>>) -> Seq<char>
    decreases names.len(),
{
    if names.len() == 0 {
        Seq::empty()
    } else if names.len() == 1 {
        names[0]
    } else {
        join_names(names.drop_last()) + ", "@ + names.last()
    }
}

/// The error text for unresolved names.
pub open spec fn missing_message(names: Seq<Seq<char>>) -> Seq<char> {
    "missing variables: "@ + join_names(names)
        + "; checked scopes: request overrides -> active environment -> workspace"@
}

fn join_names_exec(names: &Vec<String>) -> (r: Vec<char>)
    ensures
        r@ == join_names(name_views(names@)),
{
    let mut out: Vec<char> = Vec::new();
    let sep = chars_of(", ");
    let mut i: usize = 0;
    while i < names.len()
        invariant
            i <= names.len(),
            sep@ == ", "@,
            out@ == join_names(name_views(names@.subrange(0, i as int))),
        decreases names.len() - i,
    {
        let part = chars_of(names[i].as_str());
        let ghost before = out@;
        if i > 0 {
            append_all(&mut out, sep.as_slice());
        }
        append_all(&mut out, part.as_slice());
        proof {
            let cur = name_views(names@.subrange(0, i + 1));
            let prev = name_views(names@.subrange(0, i as int));
            assert(cur.drop_last() =~= prev);
            assert(cur.last() == names@[i as int]@);
            if i == 0 {
                assert(prev.len() == 0);
                assert(out@ =~= part@);
            }
        }
        i = i + 1;
    }
    proof {
        assert(names@.subrange(0, names@.len() as int) =~= names@);
    }
    out
}

/// The variables in force for a request: the workspace's, overridden by the
/// active environment's when that environment belongs to the workspace,
/// overridden by the request's own.
pub fn merge_scopes(
    workspace_id: WorkspaceId,
    workspace_vars: &VariableMap,
    environment: Option<(WorkspaceId, &VariableMap)>,
    request_overrides: &VariableMap,
) -> (r: VariableMap)
    ensures
        r@ == (match environment {
            Some((owner, env)) if owner == workspace_id => workspace_vars@.union_prefer_right(env@),
            _ => workspace_vars@,
        }).union_prefer_right(request_overrides@),
{
    let mut vars = VariableMap::new();
    vars.extend(workspace_vars);
    proof {
        assert(Map::<Seq<char>, Seq<char>>::empty().union_prefer_right(workspace_vars@) =~= workspace_vars@);
    }
    if let Some((owner, env)) = environment {
        if owner == workspace_id {
            vars.extend(env);
        }
    }
    vars.extend(request_overrides);
    vars
}

/// Resolves the placeholders of a request against `vars`; fails, naming
/// the unresolved names in order, when any placeholder is left.
pub fn resolve_request_with_vars(request: &RequestItem, vars: &VariableMap) -> (r: Result<
    RequestItem,
    String,
>)
    ensures
        match r {
            Ok(out) => request_resolved(*request, vars@, out) && forall|x: RequestItem|
                request_resolved(*request, vars@, x) ==> request_placeholders(x).is_empty(),
            Err(msg) => exists|names: Seq<Seq<char>>|
                #![trigger missing_message(names)]
                {
                    &&& msg@ == missing_message(names)
                    &&& names.len() > 0
                    &&& strictly_sorted(names)
                    &&& forall|x: RequestItem|
                        request_resolved(*request, vars@, x) ==> names.to_set()
                            == request_placeholders(x)
                },
        },
{
    let resolved = RequestItem {
        id: request.id,
        collection_id: request.collection_id,
        parent_folder_id: request.parent_folder_id,
        name: request.name.clone(),
        method: resolve_text(request.method.as_str(), vars),
        url: resolve_text(request.url.as_str(), vars),
        params: resolve_pairs(&request.params, vars),
        headers: resolve_pairs(&request.headers, vars),
        auth: resolve_auth(&request.auth, vars),
        body: resolve_body(&request.body, vars),
        scripts: request.scripts.clone(),
        settings: request.settings.clone(),
        variable_overrides_json: request.variable_overrides_json.clone(),
        sort_order: request.sort_order,
        meta: request.meta,
    };
    let missing = collect_missing_placeholders(&resolved);
    proof {
        assert forall|x: RequestItem| request_resolved(*request, vars@, x) implies request_placeholders(
            x,
        ) == request_placeholders(resolved) by {
            lemma_resolved_placeholders_unique(*request, vars@, x, resolved);
        }
    }
    if missing.len() > 0 {
        let mut text = chars_of("missing variables: ");
        let joined = join_names_exec(&missing);
        append_all(&mut text, joined.as_slice());
        let tail = chars_of("; checked scopes: request overrides -> active environment -> workspace");
        append_all(&mut text, tail.as_slice());
        let msg = string_of(text.as_slice());
        proof {
            let names = name_views(missing@);
            assert(msg@ == missing_message(names));
        }
        return Err(msg);
    }
    proof {
        assert(name_views(missing@).len() == 0);
        assert(name_views(missing@).to_set() =~= Set::<Seq<char>>::empty());
    }
    Ok(resolved)
}

/// Where no placeholder name is defined, resolving gives back the text as
/// written: unknown placeholders are kept verbatim.
pub proof fn law_unknown_placeholders_are_kept(s: Seq<char>, vars: Map<Seq<char>, Seq<char>>)
    requires
        forall|k: Seq<char>| placeholders_spec(s).contains(k) ==> !vars.contains_key(k),
        !vars.contains_key(Seq::<char>::empty()),
    ensures
        resolve_spec(s, vars) == s,
    decreases s.len(),
{
    match placeholder_at(s) {
        None => {},
        Some((i, j)) => {
            lemma_placeholder_bounds(s);
            lemma_first_match_bounds(s, open_braces());
            let after = s.skip(i + 2);
            lemma_first_match_bounds(after, close_braces());
            assert(match_at(s, open_braces(), i));
            assert(match_at(after, close_braces(), j));
            let raw = s.subrange(i + 2, i + 2 + j);
            let key = trim(raw);
            let rest = s.skip(i + j + 4);
            assert(!vars.contains_key(key)) by {
                if key.len() > 0 {
                    assert(placeholders_spec(s).contains(key));
                } else {
                    assert(key =~= Seq::<char>::empty());
                }
            }
            assert forall|k: Seq<char>| placeholders_spec(rest).contains(k) implies !vars.contains_key(
                k,
            ) by {
                if key.len() > 0 {
                    assert(placeholders_spec(s) == placeholders_spec(rest).insert(key));
                } else {
                    assert(placeholders_spec(s) == placeholders_spec(rest));
                }
                assert(placeholders_spec(s).contains(k));
            }
            law_unknown_placeholders_are_kept(rest, vars);
            assert(s.subrange(i, i + 2) == open_braces());
            assert(after.subrange(j, j + 2) == close_braces());
            assert(s =~= s.take(i) + (open_braces() + raw + close_braces()) + rest);
        },
    }
}


/// The value of a stored variable: plain text, or a reference to a secret.
#[derive(Debug, Clone, PartialEq, Eq)]
pub enum VariableValue {
    Plain { value: String },
    Secret { secret_ref: Option<String> },
}

/// One stored variable definition.
#[derive(Debug, Clone, PartialEq, Eq)]
pub struct VariableEntry {
    pub key: String,
    pub enabled: bool,
    pub value: VariableValue,
}

/// A definition takes part when it is enabled and its name is not blank.
pub open spec fn entry_counts(e: VariableEntry) -> bool {
    e.enabled && trim(e.key@).len() > 0
}

/// The name a definition defines: its key, trimmed.
pub open spec fn entry_name(e: VariableEntry) -> Seq<char> {
    trim(e.key@)
}

/// Entry `i` is the last taking part that defines its name among the first
/// `n` entries.
pub open spec fn is_last_definition(entries: Seq<VariableEntry>, i: int, n: int) -> bool {
    &&& 0 <= i < n
    &&& entry_counts(entries[i])
    &&& forall|j: int|
        i < j < n ==> !(entry_counts(#[trigger] entries[j]) && entry_name(entries[j]) == entry_name(
            entries[i],
        ))
}

/// The variables a list of definitions yields among its first `n` entries:
/// the names defined, and for a name whose last definition is plain text,
/// that text.
pub open spec fn defines_variables(entries: Seq<VariableEntry>, n: int, m: Map<Seq<char>, Seq<char>>) -> bool {
    &&& forall|k: Seq<char>|
        #![trigger m.contains_key(k)]
        m.contains_key(k) <==> exists|i: int|
            0 <= i < n && entry_counts(#[trigger] entries[i]) && entry_name(entries[i]) == k
    &&& forall|i: int|
        #![trigger entries[i]]
        is_last_definition(entries, i, n) ==> (entries[i].value matches VariableValue::Plain { value }
            ==> m[entry_name(entries[i])] == value@)
}

/// The variables of a list of stored definitions: each enabled definition
/// with a non-blank name defines its trimmed name, a later one replacing an
/// earlier one; a secret's value is read from the secret store, and is
/// empty when it has no reference or the store has no value for it.
pub fn variable_map_from_entries<S: SecretStore>(entries: &[VariableEntry], secret_store: &S) -> (r:
    VariableMap)
    ensures
        defines_variables(entries@, entries@.len() as int, r@),
{
    let mut vars = VariableMap::new();
    let mut i: usize = 0;
    while i < entries.len()
        invariant
            i <= entries.len(),
            defines_variables(entries@, i as int, vars@),
        decreases entries.len() - i,
    {
        let e = &entries[i];
        let key_chars = chars_of(e.key.as_str());
        let (a, b) = trim_bounds(key_chars.as_slice(), 0, key_chars.len());
        proof {
            assert(key_chars@.subrange(0, key_chars@.len() as int) =~= key_chars@);
        }
        if e.enabled && a < b {
            let name = string_of(sub_vec(key_chars.as_slice(), a, b).as_slice());
            let value = match &e.value {
                VariableValue::Plain { value } => value.clone(),
                VariableValue::Secret { secret_ref } => match secret_ref {
                    Some(k) => match secret_store.get_secret(k.as_str()) {
                        Ok(Some(v)) => v,
                        _ => String::new(),
                    },
                    None => String::new(),
                },
            };
            let ghost before = vars@;
            vars.insert(name, value);
            proof {
                assert(entry_name(entries@[i as int]) == name@);
                assert forall|k: Seq<char>| #![trigger vars@.contains_key(k)]
                    vars@.contains_key(k) <==> exists|j: int|
                        0 <= j < i + 1 && entry_counts(#[trigger] entries@[j]) && entry_name(entries@[j]) == k by {
                    if k == name@ {
                        assert(entry_counts(entries@[i as int]));
                    } else if before.contains_key(k) {
                        let j = choose|j: int| 0 <= j < i && entry_counts(#[trigger] entries@[j]) && entry_name(entries@[j]) == k;
                    }
                }
                assert forall|j: int| #![trigger entries@[j]]
                    is_last_definition(entries@, j, i + 1) implies (entries@[j].value matches VariableValue::Plain { value }
                    ==> vars@[entry_name(entries@[j])] == value@) by {
                    if j < i {
                        assert(entry_name(entries@[j]) != name@);
                        assert(is_last_definition(entries@, j, i as int));
                    }
                }
            }
        } else {
            proof {
                assert(!entry_counts(entries@[i as int]));
                assert forall|j: int| #![trigger entries@[j]]
                    is_last_definition(entries@, j, i + 1) implies (entries@[j].value matches VariableValue::Plain { value }
                    ==> vars@[entry_name(entries@[j])] == value@) by {
                    assert(is_last_definition(entries@, j, i as int));
                }
            }
        }
        i = i + 1;
    }
    vars
}

/// Why variables could not be resolved for a request.
#[derive(Debug)]
pub enum VariableResolutionError {
    /// The storage failed.
    Storage(anyhow::Error),
    /// No workspace with that id is stored.
    WorkspaceNotFound(WorkspaceId),
    /// Placeholders are left that no scope defines; the message names them.
    MissingVariables(String),
}


/// The variables a request sees: the workspace's, then the active
/// environment's when it belongs to the workspace, then the request's
/// overrides, a later scope replacing an earlier one.
pub open spec fn scoped_vars(
    workspace_id: WorkspaceId,
    workspace_vars: Map<Seq<char>, Seq<char>>,
    environment: Option<(WorkspaceId, Map<Seq<char>, Seq<char>>)>,
    overrides: Map<Seq<char>, Seq<char>>,
) -> Map<Seq<char>, Seq<char>> {
    (match environment {
        Some((owner, env)) => if owner == workspace_id {
            workspace_vars.union_prefer_right(env)
        } else {
            workspace_vars
        },
        None => workspace_vars,
    }).union_prefer_right(overrides)
}

/// What resolving `request` against `vars` gives: the resolved request when
/// no placeholder is left, else the missing-variables error whose message
/// names the placeholders left, sorted.
pub open spec fn resolution_outcome(
    request: RequestItem,
    vars: Map<Seq<char>, Seq<char>>,
    r: Result<RequestItem, VariableResolutionError>,
) -> bool {
    match r {
        Ok(out) => request_resolved(request, vars, out) && request_placeholders(out).is_empty(),
        Err(VariableResolutionError::MissingVariables(msg)) => exists|names: Seq<Seq<char>>|
            #![trigger missing_message(names)]
            {
                &&& msg@ == missing_message(names)
                &&& names.len() > 0
                &&& strictly_sorted(names)
                &&& forall|x: RequestItem|
                    request_resolved(request, vars, x) ==> names.to_set() == request_placeholders(x)
            },
        Err(_) => false,
    }
}

/// Resolves a request once the variables of each scope are read: the
/// workspace's, the active environment's with the workspace it belongs to,
/// and the request's overrides.
pub fn resolve_in_scopes(
    request: &RequestItem,
    workspace_id: WorkspaceId,
    workspace_vars: &VariableMap,
    environment: Option<(WorkspaceId, &VariableMap)>,
    overrides: &VariableMap,
) -> (r: Result<RequestItem, VariableResolutionError>)
    ensures
        resolution_outcome(
            *request,
            scoped_vars(
                workspace_id,
                workspace_vars@,
                match environment {
                    Some((owner, env)) => Some((owner, env@)),
                    None => None,
                },
                overrides@,
            ),
            r,
        ),
{
    let vars = merge_scopes(workspace_id, workspace_vars, environment, overrides);
    match resolve_request_with_vars(request, &vars) {
        Ok(out) => Ok(out),
        Err(message) => Err(VariableResolutionError::MissingVariables(message)),
    }
}

/// Resolves the placeholders of requests against the variables of their
/// workspace, its active environment and the request's own overrides.
pub struct VariableResolutionService<W, E, S> {
    workspaces: W,
    environments: E,
    secret_store: S,
}

impl<W: WorkspaceRepository, E: EnvironmentRepository, S: SecretStore> VariableResolutionService<W, E, S> {
    /// The workspace repository the service reads.
    pub closed spec fn workspaces_view(&self) -> W {
        self.workspaces
    }

    /// The environment repository the service reads.
    pub closed spec fn environments_view(&self) -> E {
        self.environments
    }

    /// The secret store the service reads secret values from.
    pub closed spec fn secret_store_view(&self) -> S {
        self.secret_store
    }

    pub fn new(workspaces: W, environments: E, secret_store: S) -> (r: Self)
        ensures
            r.workspaces_view() == workspaces,
            r.environments_view() == environments,
            r.secret_store_view() == secret_store,
    {
        VariableResolutionService { workspaces, environments, secret_store }
    }

    /// The variables stored as `variables_json`; none when the text holds a
    /// list with an item that is not a definition.
    fn variables_of(&self, variables_json: &str) -> VariableMap {
        match parse_variable_entries(variables_json) {
            Some(entries) => variable_map_from_entries(entries.as_slice(), &self.secret_store),
            None => VariableMap::new(),
        }
    }

    /// Resolves a request: the workspace's variables, then those of the
    /// active environment when it belongs to that workspace, then the
    /// request's overrides, a later scope replacing an earlier one. Fails
    /// when the workspace is not stored or a placeholder is left.
    pub fn resolve_request(
        &self,
        request: &RequestItem,
        workspace_id: WorkspaceId,
        active_environment_id: Option<EnvironmentId>,
    ) -> (r: Result<RequestItem, VariableResolutionError>)
        ensures
            r matches Err(VariableResolutionError::WorkspaceNotFound(id)) ==> id == workspace_id,
            r matches Ok(out) ==> exists|
                workspace_vars: Map<Seq<char>, Seq<char>>,
                environment: Option<(WorkspaceId, Map<Seq<char>, Seq<char>>)>,
                overrides: Map<Seq<char>, Seq<char>>,
            |
                #![trigger scoped_vars(workspace_id, workspace_vars, environment, overrides)]
                resolution_outcome(
                    *request,
                    scoped_vars(workspace_id, workspace_vars, environment, overrides),
                    r,
                ),
            r matches Err(VariableResolutionError::MissingVariables(_)) ==> exists|
                workspace_vars: Map<Seq<char>, Seq<char>>,
                environment: Option<(WorkspaceId, Map<Seq<char>, Seq<char>>)>,
                overrides: Map<Seq<char>, Seq<char>>,
            |
                #![trigger scoped_vars(workspace_id, workspace_vars, environment, overrides)]
                resolution_outcome(
                    *request,
                    scoped_vars(workspace_id, workspace_vars, environment, overrides),
                    r,
                ),
    {
        let workspace = match self.workspaces.get(workspace_id) {
            Ok(Some(w)) => w,
            Ok(None) => {
                return Err(VariableResolutionError::WorkspaceNotFound(workspace_id));
            },
            Err(e) => {
                return Err(VariableResolutionError::Storage(e));
            },
        };
        let workspace_vars = self.variables_of(workspace.variables_json.as_str());
        let mut environment_vars: Option<(WorkspaceId, VariableMap)> = None;
        if let Some(environment_id) = active_environment_id {
            match self.environments.get(environment_id) {
                Ok(Some(environment)) => {
                    environment_vars = Some(
                        (environment.workspace_id, self.variables_of(environment.variables_json.as_str())),
                    );
                },
                Ok(None) => {},
                Err(e) => {
                    return Err(VariableResolutionError::Storage(e));
                },
            }
        }
        let overrides = self.variables_of(request.variable_overrides_json.as_str());
        let r = match &environment_vars {
            Some((owner, env)) => resolve_in_scopes(
                request,
                workspace_id,
                &workspace_vars,
                Some((*owner, env)),
                &overrides,
            ),
            None => resolve_in_scopes(request, workspace_id, &workspace_vars, None, &overrides),
        };
        proof {
            let env_view = match environment_vars {
                Some((owner, env)) => Some((owner, env@)),
                None => None,
            };
            assert(resolution_outcome(
                *request,
                scoped_vars(workspace_id, workspace_vars@, env_view, overrides@),
                r,
            ));
        }
        r
    }
}

} // verus!

//! Identifiers of the stored entities, each a 128-bit UUID value.
use vstd::prelude::*;

use crate::text::{lemma_seq_lt_irreflexive, lemma_seq_lt_total, seq_lt};

verus! {

/// Draws a fresh UUIDv7 value (time-ordered, partly random).
/// Calls `uuid::Uuid::now_v7`; nothing is promised of the value, since it
/// depends on the clock and on a random source.
#[verifier::external_body]
pub(crate) fn fresh_uuid_value() -> u128 {
    uuid::Uuid::now_v7().as_u128()
}

/// The lower-case hexadecimal digit of a value below 16.
pub open spec fn hex_char(d: nat) -> char {
    if d < 10 {
        ((d + 48) as u32) as char
    } else {
        ((d + 87) as u32) as char
    }
}

/// The last `n` hexadecimal digits of `v`, most significant first.
pub open spec fn hex_digits(v: nat, n: nat) -> Seq<char>
    decreases n,
{
    if n == 0 {
        Seq::empty()
    } else {
        hex_digits(v / 16, (n - 1) as nat).push(hex_char(v % 16))
    }
}

/// The hyphenated text of a UUID: its 32 hexadecimal digits, most
/// significant first, in groups of 8, 4, 4, 4 and 12.
pub open spec fn uuid_text(v: u128) -> Seq<char> {
    let h = hex_digits(v as nat, 32);
    h.subrange(0, 8) + seq!['-'] + h.subrange(8, 12) + seq!['-'] + h.subrange(12, 16) + seq!['-']
        + h.subrange(16, 20) + seq!['-'] + h.subrange(20, 32)
}

/// Formats a UUID value: `uuid::Uuid::from_u128(v).to_string()`, which the
/// crate writes as the lower-case hyphenated form of the big-endian bytes.
#[verifier::external_body]
pub(crate) fn uuid_string(v: u128) -> (r: String)
    ensures
        r@ == uuid_text(v),
{
    uuid::Uuid::from_u128(v).to_string()
}

#[derive(Debug, Clone, Copy, PartialEq, Eq, Hash, Structural)]
pub struct WorkspaceId(pub u128);

#[derive(Debug, Clone, Copy, PartialEq, Eq, Hash, Structural)]
pub struct CollectionId(pub u128);

#[derive(Debug, Clone, Copy, PartialEq, Eq, Hash, Structural)]
pub struct FolderId(pub u128);

#[derive(Debug, Clone, Copy, PartialEq, Eq, Hash, Structural)]
pub struct RequestId(pub u128);

#[derive(Debug, Clone, Copy, PartialEq, Eq, Hash, Structural)]
pub struct EnvironmentId(pub u128);

#[derive(Debug, Clone, Copy, PartialEq, Eq, Hash, Structural)]
pub struct HistoryEntryId(pub u128);

#[derive(Debug, Clone, Copy, PartialEq, Eq, Hash, Structural)]
pub struct RequestDraftId(pub u128);

impl WorkspaceId {
    pub fn new() -> Self {
        WorkspaceId(fresh_uuid_value())
    }

    /// The id as text: its hyphenated lower-case hexadecimal form.
    pub fn to_text(&self) -> (r: String)
        ensures
            r@ == uuid_text(self.0),
    {
        uuid_string(self.0)
    }
}

impl CollectionId {
    pub fn new() -> Self {
        CollectionId(fresh_uuid_value())
    }

    /// The id as text: its hyphenated lower-case hexadecimal form.
    pub fn to_text(&self) -> (r: String)
        ensures
            r@ == uuid_text(self.0),
    {
        uuid_string(self.0)
    }
}

impl FolderId {
    pub fn new() -> Self {
        FolderId(fresh_uuid_value())
    }

    /// The id as text: its hyphenated lower-case hexadecimal form.
    pub fn to_text(&self) -> (r: String)
        ensures
            r@ == uuid_text(self.0),
    {
        uuid_string(self.0)
    }
}

impl RequestId {
    pub fn new() -> Self {
        RequestId(fresh_uuid_value())
    }

    /// The id as text: its hyphenated lower-case hexadecimal form.
    pub fn to_text(&self) -> (r: String)
        ensures
            r@ == uuid_text(self.0),
    {
        uuid_string(self.0)
    }
}

impl EnvironmentId {
    pub fn new() -> Self {
        EnvironmentId(fresh_uuid_value())
    }

    /// The id as text: its hyphenated lower-case hexadecimal form.
    pub fn to_text(&self) -> (r: String)
        ensures
            r@ == uuid_text(self.0),
    {
        uuid_string(self.0)
    }
}

impl HistoryEntryId {
    pub fn new() -> Self {
        HistoryEntryId(fresh_uuid_value())
    }

    /// The id as text: its hyphenated lower-case hexadecimal form.
    pub fn to_text(&self) -> (r: String)
        ensures
            r@ == uuid_text(self.0),
    {
        uuid_string(self.0)
    }
}

impl RequestDraftId {
    pub fn new() -> Self {
        RequestDraftId(fresh_uuid_value())
    }

    /// The id as text: its hyphenated lower-case hexadecimal form.
    pub fn to_text(&self) -> (r: String)
        ensures
            r@ == uuid_text(self.0),
    {
        uuid_string(self.0)
    }
}

/// The id of any stored item, tagged with its kind.
#[derive(Debug, Clone, Copy, PartialEq, Eq, Hash, Structural)]
pub enum ItemId {
    Workspace(WorkspaceId),
    Collection(CollectionId),
    Folder(FolderId),
    Environment(EnvironmentId),
    Request(RequestId),
}


/// `16` to the power `n`.
pub open spec fn pow16(n: nat) -> nat
    decreases n,
{
    if n == 0 {
        1
    } else {
        16 * pow16((n - 1) as nat)
    }
}

proof fn lemma_hex_char_order(x: nat, y: nat)
    requires
        x < y < 16,
    ensures
        (hex_char(x) as int) < (hex_char(y) as int),
{
    if x < 10 {
        assert(hex_char(x) as u32 == x + 48);
    } else {
        assert(hex_char(x) as u32 == x + 87);
    }
    if y < 10 {
        assert(hex_char(y) as u32 == y + 48);
    } else {
        assert(hex_char(y) as u32 == y + 87);
    }
}

proof fn lemma_hex_digits_len(v: nat, n: nat)
    ensures
        hex_digits(v, n).len() == n,
    decreases n,
{
    if n > 0 {
        lemma_hex_digits_len(v / 16, (n - 1) as nat);
    }
}

/// Comparing two texts whose first parts have the same length compares the
/// first parts, then the rest.
proof fn lemma_seq_lt_concat(a1: Seq<char>, a2: Seq<char>, b1: Seq<char>, b2: Seq<char>)
    requires
        a1.len() == b1.len(),
    ensures
        seq_lt(a1 + a2, b1 + b2) == (seq_lt(a1, b1) || (a1 == b1 && seq_lt(a2, b2))),
    decreases a1.len(),
{
    if a1.len() == 0 {
        assert(a1 + a2 =~= a2);
        assert(b1 + b2 =~= b2);
        assert(a1 =~= b1);
    } else {
        assert((a1 + a2)[0] == a1[0]);
        assert((b1 + b2)[0] == b1[0]);
        assert((a1 + a2).drop_first() =~= a1.drop_first() + a2);
        assert((b1 + b2).drop_first() =~= b1.drop_first() + b2);
        lemma_seq_lt_concat(a1.drop_first(), a2, b1.drop_first(), b2);
        if a1[0] == b1[0] {
            if a1.drop_first() == b1.drop_first() {
                assert(a1 =~= seq![a1[0]] + a1.drop_first());
                assert(b1 =~= seq![b1[0]] + b1.drop_first());
            }
            if a1 == b1 {
                assert(a1.drop_first() =~= b1.drop_first());
            }
        } else {
            assert(a1 != b1);
        }
    }
}

/// A smaller number has a smaller run of `n` hexadecimal digits.
proof fn lemma_hex_digits_order(v: nat, w: nat, n: nat)
    requires
        v < w < pow16(n),
    ensures
        seq_lt(hex_digits(v, n), hex_digits(w, n)),
    decreases n,
{
    if n == 0 {
    } else {
        let m = (n - 1) as nat;
        assert(w / 16 < pow16(m)) by (nonlinear_arith)
            requires
                w < 16 * pow16(m),
        ;
        lemma_hex_digits_len(v / 16, m);
        lemma_hex_digits_len(w / 16, m);
        let hv = hex_digits(v / 16, m);
        let hw = hex_digits(w / 16, m);
        assert(hex_digits(v, n) == hv + seq![hex_char(v % 16)]);
        assert(hex_digits(w, n) == hw + seq![hex_char(w % 16)]);
        if v / 16 < w / 16 {
            lemma_hex_digits_order(v / 16, w / 16, m);
        } else {
            assert(v / 16 == w / 16);
            assert(v % 16 < w % 16);
            lemma_hex_char_order(v % 16, w % 16);
            assert(seq![hex_char(v % 16)][0] == hex_char(v % 16));
            assert(seq![hex_char(w % 16)][0] == hex_char(w % 16));
            assert(seq![hex_char(v % 16)].drop_first() =~= Seq::<char>::empty());
            assert(seq_lt(seq![hex_char(v % 16)], seq![hex_char(w % 16)]));
        }
        lemma_seq_lt_concat(hv, seq![hex_char(v % 16)], hw, seq![hex_char(w % 16)]);
    }
}

/// The hyphenated text of a UUID compares as its pieces do.
proof fn lemma_uuid_text_pieces(h1: Seq<char>, h2: Seq<char>)
    requires
        h1.len() == 32,
        h2.len() == 32,
        seq_lt(h1, h2),
    ensures
        seq_lt(
            h1.subrange(0, 8) + seq!['-'] + h1.subrange(8, 12) + seq!['-'] + h1.subrange(12, 16) + seq!['-']
                + h1.subrange(16, 20) + seq!['-'] + h1.subrange(20, 32),
            h2.subrange(0, 8) + seq!['-'] + h2.subrange(8, 12) + seq!['-'] + h2.subrange(12, 16) + seq!['-']
                + h2.subrange(16, 20) + seq!['-'] + h2.subrange(20, 32),
        ),
{
    let d = seq!['-'];
    let a1 = h1.subrange(0, 8);
    let a2 = h1.subrange(8, 12);
    let a3 = h1.subrange(12, 16);
    let a4 = h1.subrange(16, 20);
    let a5 = h1.subrange(20, 32);
    let b1 = h2.subrange(0, 8);
    let b2 = h2.subrange(8, 12);
    let b3 = h2.subrange(12, 16);
    let b4 = h2.subrange(16, 20);
    let b5 = h2.subrange(20, 32);
    // The plain digits, split into the same pieces.
    assert(h1 =~= a1 + (a2 + (a3 + (a4 + a5))));
    assert(h2 =~= b1 + (b2 + (b3 + (b4 + b5))));
    lemma_seq_lt_concat(a1, a2 + (a3 + (a4 + a5)), b1, b2 + (b3 + (b4 + b5)));
    lemma_seq_lt_concat(a2, a3 + (a4 + a5), b2, b3 + (b4 + b5));
    lemma_seq_lt_concat(a3, a4 + a5, b3, b4 + b5);
    lemma_seq_lt_concat(a4, a5, b4, b5);
    // The hyphenated text, split the same way with the hyphens between.
    let t1 = a1 + (d + (a2 + (d + (a3 + (d + (a4 + (d + a5)))))));
    let t2 = b1 + (d + (b2 + (d + (b3 + (d + (b4 + (d + b5)))))));
    lemma_seq_lt_concat(a1, d + (a2 + (d + (a3 + (d + (a4 + (d + a5)))))), b1, d + (b2 + (d + (b3 + (d + (b4 + (d + b5)))))));
    lemma_seq_lt_concat(d, a2 + (d + (a3 + (d + (a4 + (d + a5))))), d, b2 + (d + (b3 + (d + (b4 + (d + b5))))));
    lemma_seq_lt_concat(a2, d + (a3 + (d + (a4 + (d + a5)))), b2, d + (b3 + (d + (b4 + (d + b5)))));
    lemma_seq_lt_concat(d, a3 + (d + (a4 + (d + a5))), d, b3 + (d + (b4 + (d + b5))));
    lemma_seq_lt_concat(a3, d + (a4 + (d + a5)), b3, d + (b4 + (d + b5)));
    lemma_seq_lt_concat(d, a4 + (d + a5), d, b4 + (d + b5));
    lemma_seq_lt_concat(a4, d + a5, b4, d + b5);
    lemma_seq_lt_concat(d, a5, d, b5);
    lemma_seq_lt_irreflexive(d);
    assert(t1 =~= a1 + d + a2 + d + a3 + d + a4 + d + a5);
    assert(t2 =~= b1 + d + b2 + d + b3 + d + b4 + d + b5);
}

/// Ids in text order are ids in numeric order: the hyphenated text of a
/// smaller UUID value comes first in the order of `str`.
pub proof fn law_uuid_text_order(a: u128, b: u128)
    ensures
        a < b <==> seq_lt(uuid_text(a), uuid_text(b)),
{
    assert(pow16(32) == 0x1_0000_0000_0000_0000_0000_0000_0000_0000) by {
        reveal_with_fuel(pow16, 33);
    }
    lemma_hex_digits_len(a as nat, 32);
    lemma_hex_digits_len(b as nat, 32);
    if a < b {
        lemma_hex_digits_order(a as nat, b as nat, 32);
        lemma_uuid_text_pieces(hex_digits(a as nat, 32), hex_digits(b as nat, 32));
    } else if b < a {
        lemma_hex_digits_order(b as nat, a as nat, 32);
        lemma_uuid_text_pieces(hex_digits(b as nat, 32), hex_digits(a as nat, 32));
        lemma_seq_lt_total(uuid_text(a), uuid_text(b));
    } else {
        lemma_seq_lt_irreflexive(uuid_text(a));
    }
}

} // verus!

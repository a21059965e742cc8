//! The row order of the table: one total preorder per sort key, with ties
//! broken by ascending process identifier.

use vstd::prelude::*;
use crate::model::{ProcessInfo, ProcessInfoView, SortKey};

verus! {

/// Bytewise lexicographic "less or equal" on byte strings.
pub open spec fn lex_le(a: Seq<u8>, b: Seq<u8>) -> bool
    decreases a.len(),
{
    if a.len() == 0 {
        true
    } else if b.len() == 0 {
        false
    } else if a[0] != b[0] {
        a[0] < b[0]
    } else {
        lex_le(a.drop_first(), b.drop_first())
    }
}

/// Any two byte strings are comparable.
pub proof fn lemma_lex_le_total(a: Seq<u8>, b: Seq<u8>)
    ensures
        lex_le(a, b) || lex_le(b, a),
    decreases a.len(),
{
    if a.len() == 0 {
    } else if b.len() == 0 {
    } else if a[0] == b[0] {
        lemma_lex_le_total(a.drop_first(), b.drop_first());
    }
}

/// Byte strings below each other are the same string.
pub proof fn lemma_lex_le_antisym(a: Seq<u8>, b: Seq<u8>)
    requires
        lex_le(a, b),
        lex_le(b, a),
    ensures
        a == b,
    decreases a.len(),
{
    if a.len() == 0 {
        assert(b.len() == 0);
        assert(a =~= b);
    } else {
        assert(b.len() > 0);
        assert(a[0] == b[0]);
        lemma_lex_le_antisym(a.drop_first(), b.drop_first());
        assert forall|i: int| 0 <= i < a.len() implies a[i] == b[i] by {
            if i > 0 {
                assert(a[i] == a.drop_first()[i - 1]);
                assert(b[i] == b.drop_first()[i - 1]);
            }
        }
        assert(a =~= b);
    }
}

/// The lexicographic order is transitive.
pub proof fn lemma_lex_le_trans(a: Seq<u8>, b: Seq<u8>, c: Seq<u8>)
    requires
        lex_le(a, b),
        lex_le(b, c),
    ensures
        lex_le(a, c),
    decreases a.len(),
{
    if a.len() == 0 {
    } else if b.len() == 0 {
        assert(false);
    } else if c.len() == 0 {
        assert(false);
    } else if a[0] == b[0] && b[0] == c[0] {
        lemma_lex_le_trans(a.drop_first(), b.drop_first(), c.drop_first());
    }
}

/// "Row `a` comes no later than row `b`" under sort key `k`. CPU and memory
/// order descending, name and identifier ascending; every tie falls back to
/// the ascending identifier.
pub open spec fn key_le(k: SortKey, a: ProcessInfoView, b: ProcessInfoView) -> bool {
    match k {
        SortKey::ByCpuDescending => a.cpu_centi_percent > b.cpu_centi_percent || (
        a.cpu_centi_percent == b.cpu_centi_percent && a.pid <= b.pid),
        SortKey::ByMemoryDescending => a.resident_memory_bytes > b.resident_memory_bytes || (
        a.resident_memory_bytes == b.resident_memory_bytes && a.pid <= b.pid),
        SortKey::ByNameAscending => if a.name == b.name {
            a.pid <= b.pid
        } else {
            lex_le(a.name, b.name)
        },
        SortKey::ByPidAscending => a.pid <= b.pid,
    }
}

/// Under every key the order is reflexive and any two rows are comparable.
pub proof fn lemma_key_le_total(k: SortKey, a: ProcessInfoView, b: ProcessInfoView)
    ensures
        key_le(k, a, a),
        key_le(k, a, b) || key_le(k, b, a),
{
    if a.name != b.name {
        lemma_lex_le_total(a.name, b.name);
    }
}

/// Under every key the order is transitive.
pub proof fn lemma_key_le_trans(k: SortKey, a: ProcessInfoView, b: ProcessInfoView, c: ProcessInfoView)
    requires
        key_le(k, a, b),
        key_le(k, b, c),
    ensures
        key_le(k, a, c),
{
    if k == SortKey::ByNameAscending && a.name != b.name && b.name != c.name {
        lemma_lex_le_trans(a.name, b.name, c.name);
        if a.name == c.name {
            lemma_lex_le_antisym(a.name, b.name);
        }
    }
}

/// Rows below each other carry the same identifier: the tie-break leaves no
/// two distinct processes unordered.
pub proof fn lemma_key_le_connected(k: SortKey, a: ProcessInfoView, b: ProcessInfoView)
    requires
        key_le(k, a, b),
        key_le(k, b, a),
    ensures
        a.pid == b.pid,
{
    if k == SortKey::ByNameAscending && a.name != b.name {
        lemma_lex_le_antisym(a.name, b.name);
    }
}

/// Equality of the primary column that key `k` orders by.
pub open spec fn primary_key_eq(k: SortKey, a: ProcessInfoView, b: ProcessInfoView) -> bool {
    match k {
        SortKey::ByCpuDescending => a.cpu_centi_percent == b.cpu_centi_percent,
        SortKey::ByMemoryDescending => a.resident_memory_bytes == b.resident_memory_bytes,
        SortKey::ByNameAscending => a.name == b.name,
        SortKey::ByPidAscending => a.pid == b.pid,
    }
}

/// Bytewise equality of two byte strings.
fn eq_bytes(a: &Vec<u8>, b: &Vec<u8>) -> (r: bool)
    ensures
        r == (a@ == b@),
{
    if a.len() != b.len() {
        return false;
    }
    let mut i: usize = 0;
    while i < a.len()
        invariant
            a@.len() == b@.len(),
            i <= a@.len(),
            forall|m: int| 0 <= m < i ==> a@[m] == b@[m],
        decreases a@.len() - i,
    {
        if a[i] != b[i] {
            return false;
        }
        i = i + 1;
    }
    proof {
        assert(a@ =~= b@);
    }
    true
}

/// Executable form of [`lex_le`].
pub fn lex_le_bytes(a: &Vec<u8>, b: &Vec<u8>) -> (r: bool)
    ensures
        r == lex_le(a@, b@),
{
    let mut i: usize = 0;
    proof {
        assert(a@.skip(0) =~= a@);
        assert(b@.skip(0) =~= b@);
    }
    while i < a.len() && i < b.len()
        invariant
            i <= a@.len(),
            i <= b@.len(),
            lex_le(a@, b@) == lex_le(a@.skip(i as int), b@.skip(i as int)),
        decreases a@.len() - i,
    {
        let x = a[i];
        let y = b[i];
        proof {
            assert(a@.skip(i as int)[0] == a@[i as int]);
            assert(b@.skip(i as int)[0] == b@[i as int]);
        }
        if x < y {
            return true;
        }
        if y < x {
            return false;
        }
        proof {
            assert(a@.skip(i as int).drop_first() =~= a@.skip(i + 1));
            assert(b@.skip(i as int).drop_first() =~= b@.skip(i + 1));
        }
        i = i + 1;
    }
    proof {
        if i >= a.len() {
            assert(a@.skip(i as int).len() == 0);
        } else {
            assert(b@.skip(i as int).len() == 0);
            assert(a@.skip(i as int).len() > 0);
        }
    }
    i >= a.len()
}

/// Executable form of [`key_le`].
pub fn key_le_exec(k: SortKey, a: &ProcessInfo, b: &ProcessInfo) -> (r: bool)
    ensures
        r == key_le(k, a@, b@),
{
    match k {
        SortKey::ByCpuDescending => a.cpu_centi_percent > b.cpu_centi_percent || (
        a.cpu_centi_percent == b.cpu_centi_percent && a.pid <= b.pid),
        SortKey::ByMemoryDescending => a.resident_memory_bytes > b.resident_memory_bytes || (
        a.resident_memory_bytes == b.resident_memory_bytes && a.pid <= b.pid),
        SortKey::ByNameAscending => {
            if eq_bytes(&a.name, &b.name) {
                a.pid <= b.pid
            } else {
                lex_le_bytes(&a.name, &b.name)
            }
        },
        SortKey::ByPidAscending => a.pid <= b.pid,
    }
}

} // verus!

//! The keys that artifacts are stored under.
use vstd::prelude::*;

use crate::numeral::u64_to_decimal;
use crate::path::file_name;

verus! {

/// The index, two underscores and the last component of the path, where it has one.
pub open spec fn semantic_key(index: nat, path: Seq<char>) -> Seq<char> {
    crate::numeral::decimal(index) + seq!['_', '_'] + match crate::path::file_name_of(path) {
        Some(name) => name,
        None => seq![],
    }
}

/// A key for `path`, built from an index that no other artifact has and from its last component.
pub fn indexed_semantic_key(index: usize, path: &str) -> (r: String)
    ensures
        r@ == semantic_key(index as nat, path@),
{
    let mut key = u64_to_decimal(index as u64);
    key.push('_');
    key.push('_');
    assert(key@ =~= crate::numeral::decimal(index as nat) + seq!['_', '_']);
    match file_name(path) {
        Some(name) => {
            key.append(name.as_str());
        },
        None => {
            assert(key@ =~= semantic_key(index as nat, path@));
        },
    }
    key
}

/// Keys with different indexes differ, whatever the paths are.
pub proof fn law_keys_are_unique(i: nat, j: nat, p: Seq<char>, q: Seq<char>)
    requires
        i != j,
    ensures
        semantic_key(i, p) != semantic_key(j, q),
{
    let a = crate::numeral::decimal(i);
    let b = crate::numeral::decimal(j);
    crate::numeral::law_decimal_reads_back(i);
    crate::numeral::law_decimal_reads_back(j);
    if semantic_key(i, p) == semantic_key(j, q) {
        let k = semantic_key(i, p);
        assert(k[a.len() as int] == '_');
        assert(k[b.len() as int] == '_');
        if a.len() < b.len() {
            assert(k[a.len() as int] == b[a.len() as int]);
            assert(crate::numeral::is_digit(b[a.len() as int]));
        } else if b.len() < a.len() {
            assert(k[b.len() as int] == a[b.len() as int]);
            assert(crate::numeral::is_digit(a[b.len() as int]));
        }
        assert(a =~= k.take(a.len() as int));
        assert(b =~= k.take(a.len() as int));
        crate::numeral::law_decimal_is_injective(i, j);
    }
}

/// A key tells its index, which can be read back, and ends with the name of the file.
pub proof fn law_keys_tell_index_and_name(index: usize, path: &str, r: String)
    requires
        call_ensures(indexed_semantic_key, (index, path), r),
    ensures
        ({
            let n = crate::numeral::decimal(index as nat).len() as int;
            let name = crate::path::file_name_of(path@);
            &&& crate::numeral::numeral_value(r@.take(n), false) == Some(index as int)
            &&& r@.subrange(n, n + 2) == seq!['_', '_']
            &&& name matches Some(file) ==> r@.skip(n + 2) == file
            &&& name is None ==> r@.len() == n + 2
        }),
{
    let d = crate::numeral::decimal(index as nat);
    let n = d.len() as int;
    crate::numeral::law_decimal_reads_back(index as nat);
    assert(r@.take(n) =~= d);
    assert(r@.subrange(n, n + 2) =~= seq!['_', '_']);
    if let Some(file) = crate::path::file_name_of(path@) {
        assert(r@.skip(n + 2) =~= file);
    }
}

} // verus!

//! The options that benchmarks run by Node.js need.
use vstd::prelude::*;

use crate::text::{contains_str, join, split_whitespace};

verus! {

/// The option that makes Node.js name the functions it compiles.
pub const NODE_OPTION_TO_ADD: &'static str = "--perf-basic-prof";

/// The options in `existing`, with the one to add at the end where it is missing.
pub open spec fn with_option(existing: Seq<Seq<char>>) -> Seq<Seq<char>> {
    if existing.contains(NODE_OPTION_TO_ADD@) {
        existing
    } else {
        existing.push(NODE_OPTION_TO_ADD@)
    }
}

/// The value for `NODE_OPTIONS`: what it was, which is empty where it was not set, with what is
/// needed added.
pub fn set_node_options(existing: &str) -> (r: String)
    ensures
        r@ == crate::text::joined(with_option(crate::text::words(existing@)), seq![' ']),
{
    let mut parts = split_whitespace(existing);
    let ghost before = parts;
    if !contains_str(&parts, NODE_OPTION_TO_ADD) {
        parts.push(NODE_OPTION_TO_ADD.to_owned());
        proof {
            crate::list::lemma_deep_push(before, parts@.last(), parts);
        }
    }
    proof {
        reveal_strlit(" ");
        assert(" "@ =~= seq![' ']);
    }
    join(&parts, " ")
}

/// The option that is needed is among the options, and only once where it was not there twice.
pub proof fn law_option_is_present(existing: Seq<Seq<char>>)
    ensures
        with_option(existing).contains(NODE_OPTION_TO_ADD@),
        with_option(with_option(existing)) == with_option(existing),
        existing.is_prefix_of(with_option(existing)),
{
    if !existing.contains(NODE_OPTION_TO_ADD@) {
        assert(with_option(existing)[existing.len() as int] == NODE_OPTION_TO_ADD@);
    }
}

/// No option is lost, and the one that makes Node.js name the functions it compiles is among the
/// options that the value holds: once more only where it was missing.
pub proof fn law_options_are_kept(existing: &str, r: String)
    requires
        call_ensures(set_node_options, (existing,), r),
    ensures
        crate::text::words(existing@).contains("--perf-basic-prof"@) ==> crate::text::words(r@)
            == crate::text::words(existing@),
        !crate::text::words(existing@).contains("--perf-basic-prof"@) ==> crate::text::words(r@)
            == crate::text::words(existing@).push("--perf-basic-prof"@),
{
    let old_words = crate::text::words(existing@);
    lemma_words_are_words(existing@);
    let all = with_option(old_words);
    reveal_strlit("--perf-basic-prof");
    assert forall|i: int| 0 <= i < all.len() implies is_word(#[trigger] all[i]) by {
        if i < old_words.len() {
            assert(all[i] == old_words[i]);
        } else {
            assert(all[i] == "--perf-basic-prof"@);
        }
    }
    lemma_words_of_joined(all);
}

/// Whether a text is one word.
pub open spec fn is_word(s: Seq<char>) -> bool {
    s.len() > 0 && forall|i: int| 0 <= i < s.len() ==> !crate::text::whitespace(#[trigger] s[i])
}

proof fn lemma_words_are_words(s: Seq<char>)
    ensures
        forall|i: int|
            0 <= i < crate::text::words(s).len() ==> is_word(#[trigger] crate::text::words(s)[i]),
    decreases s.len(),
{
    let sep = crate::text::Separator::Whitespace;
    if s.len() > 0 {
        if sep.matches(s[0]) {
            lemma_words_are_words(s.skip(1));
            assert(crate::text::words(s) == crate::text::words(s.skip(1)));
        } else {
            crate::text::lemma_field_len(sep, s);
            let n = crate::text::field_len(sep, s) as int;
            lemma_words_are_words(s.skip(n));
            let first = s.take(n);
            assert forall|i: int| 0 <= i < first.len() implies !crate::text::whitespace(
                #[trigger] first[i],
            ) by {
                assert(!sep.matches(s[i]));
            }
            let all = crate::text::words(s);
            let rest = crate::text::words(s.skip(n));
            assert(0 < n <= s.len());
            assert(all == seq![first] + rest);
            assert forall|i: int| 0 <= i < all.len() implies is_word(#[trigger] all[i]) by {
                if i > 0 {
                    assert(all[i] == rest[i - 1]);
                } else {
                    assert(all[0] == first);
                }
            }
        }
    }
}

proof fn lemma_words_of_joined(list: Seq<Seq<char>>)
    requires
        forall|i: int| 0 <= i < list.len() ==> is_word(#[trigger] list[i]),
    ensures
        crate::text::words(crate::text::joined(list, seq![' '])) == list,
    decreases list.len(),
{
    let sep = crate::text::Separator::Whitespace;
    let text = crate::text::joined(list, seq![' ']);
    if list.len() == 0 {
        assert(crate::text::words(text) =~= list);
    } else {
        let last = list.last();
        assert(is_word(list[list.len() - 1]));
        assert forall|i: int| 0 <= i < last.len() implies !sep.matches(#[trigger] last[i]) by {}
        assert(sep.matches(' '));
        crate::text::law_fields_are_cut_at_separators(sep, last, ' ', Seq::empty());
        if list.len() == 1 {
            assert(seq![last] =~= list);
        } else {
            let rest = list.drop_last();
            assert forall|i: int| 0 <= i < rest.len() implies is_word(#[trigger] rest[i]) by {
                assert(rest[i] == list[i]);
            }
            lemma_words_of_joined(rest);
            crate::text::law_fields_are_cut_at_separators(
                sep,
                crate::text::joined(rest, seq![' ']),
                ' ',
                last,
            );
            assert(rest + seq![last] =~= list);
        }
    }
}

} // verus!

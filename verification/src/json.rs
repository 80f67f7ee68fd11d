//! Texts and lists in JSON.
use serde_json::Value;
use vstd::prelude::*;

use crate::text::chars_of;

verus! {

/// A text in JSON.
pub uninterp spec fn json_text(text: Seq<char>) -> Seq<char>;

/// The text that JSON stands for, if it stands for one.
pub uninterp spec fn text_in_json(json: Seq<char>) -> Option<Seq<char>>;

/// A list of texts in JSON.
pub uninterp spec fn json_list(list: Seq<Seq<char>>) -> Seq<char>;

/// The items of the list that JSON stands for, if it stands for one.
pub uninterp spec fn items_in_json(json: Seq<char>) -> Option<Seq<JsonItemView>>;

/// An item of a list in JSON.
#[derive(Debug)]
pub enum JsonItem {
    Text(String),
    /// The keys of an object, and whether their values are null. Of a key that is written twice, the
    /// last value counts.
    Object(Vec<(String, bool)>),
    Other,
}

pub enum JsonItemView {
    Text(Seq<char>),
    Object(Seq<(Seq<char>, bool)>),
    Other,
}

impl DeepView for JsonItem {
    type V = JsonItemView;

    open spec fn deep_view(&self) -> JsonItemView {
        match *self {
            JsonItem::Text(text) => JsonItemView::Text(text@),
            JsonItem::Object(entries) => JsonItemView::Object(entries.deep_view()),
            JsonItem::Other => JsonItemView::Other,
        }
    }
}

/// Texts as items.
pub open spec fn text_items(list: Seq<Seq<char>>) -> Seq<JsonItemView> {
    Seq::new(list.len(), |i: int| JsonItemView::Text(list[i]))
}

/// How many quotes there are in `text`.
pub open spec fn quotes_in(text: Seq<char>) -> nat
    decreases text.len(),
{
    if text.len() == 0 {
        0
    } else if text.last() == '"' {
        quotes_in(text.drop_last()) + 1
    } else {
        quotes_in(text.drop_last())
    }
}

/// How many quotes there are in `text`.
pub fn count_quotes(text: &str) -> (r: usize)
    ensures
        r == quotes_in(text@),
{
    let cs = chars_of(text);
    let mut n: usize = 0;
    let mut i: usize = 0;
    assert(cs@.take(0) =~= seq![]);
    while i < cs.len()
        invariant
            cs@ == text@,
            i <= cs@.len(),
            n <= i,
            n == quotes_in(cs@.take(i as int)),
        decreases cs.len() - i,
    {
        assert(cs@.take(i + 1).drop_last() =~= cs@.take(i as int));
        if cs[i] == '"' {
            n = n + 1;
        }
        i = i + 1;
    }
    assert(cs@.take(cs@.len() as int) =~= cs@);
    n
}

/// `serde_json::to_string` of a text, which cannot fail. The text can be read back.
#[verifier::external_body]
pub(crate) fn text_to_json(text: &str) -> (r: String)
    ensures
        r@ == json_text(text@),
        text_in_json(r@) == Some(text@),
{
    serde_json::to_string(text).unwrap()
}

/// `serde_json::from_str` of a text; `None` for its error.
#[verifier::external_body]
pub(crate) fn text_from_json(json: &str) -> (r: Option<String>)
    ensures
        r.deep_view() == text_in_json(json@),
{
    serde_json::from_str(json).ok()
}

/// `serde_json::to_string` of a list of texts, which cannot fail. The list can be read back. Each text
/// stands between quotes, and there are no others where no text holds one.
#[verifier::external_body]
pub(crate) fn list_to_json(list: &Vec<String>) -> (r: String)
    ensures
        r@ == json_list(list.deep_view()),
        items_in_json(r@) == Some(text_items(list.deep_view())),
        (forall|i: int| 0 <= i < list@.len() ==> quotes_in((#[trigger] list@[i])@) == 0)
            ==> quotes_in(r@) == 2 * list@.len(),
{
    serde_json::to_string(list).unwrap()
}

/// The items of `items`, where it is there.
pub open spec fn items_view(items: Option<Vec<JsonItem>>) -> Option<Seq<JsonItemView>> {
    match items {
        Some(items) => Some(items.deep_view()),
        None => None,
    }
}

/// `serde_json::from_str` of a list of values of any kind; `None` for its error.
#[verifier::external_body]
pub(crate) fn items_from_json(json: &str) -> (r: Option<Vec<JsonItem>>)
    ensures
        items_view(r) == items_in_json(json@),
{
    let values: Vec<Value> = serde_json::from_str(json).ok()?;
    let item_of = |value| match value {
        Value::String(text) => JsonItem::Text(text),
        Value::Object(entries) => JsonItem::Object(
            entries.into_iter().map(|(key, value)| (key, value.is_null())).collect(),
        ),
        _ => JsonItem::Other,
    };
    Some(values.into_iter().map(item_of).collect())
}

/// The quotes of two texts together are those of both, and a text has none if no character of it is
/// one.
pub proof fn law_quotes_are_counted(
    a: &str,
    b: &str,
    both: &str,
    in_a: usize,
    in_b: usize,
    in_both: usize,
)
    requires
        call_ensures(count_quotes, (a,), in_a),
        call_ensures(count_quotes, (b,), in_b),
        call_ensures(count_quotes, (both,), in_both),
        both@ == a@ + b@,
    ensures
        in_both == in_a + in_b,
        in_a == 0 <==> !a@.contains('"'),
        a@ == seq!['"'] ==> in_a == 1,
{
    lemma_quotes(a@, b@);
    lemma_no_quotes(a@);
    if a@ == seq!['"'] {
        assert(a@.drop_last() =~= Seq::empty());
        assert(quotes_in(Seq::empty()) == 0);
    }
}

proof fn lemma_quotes(a: Seq<char>, b: Seq<char>)
    ensures
        quotes_in(a + b) == quotes_in(a) + quotes_in(b),
    decreases b.len(),
{
    if b.len() == 0 {
        assert(a + b =~= a);
    } else {
        assert((a + b).drop_last() =~= a + b.drop_last());
        lemma_quotes(a, b.drop_last());
    }
}

proof fn lemma_no_quotes(a: Seq<char>)
    ensures
        quotes_in(a) == 0 <==> !a.contains('"'),
    decreases a.len(),
{
    if a.len() > 0 {
        let before = a.drop_last();
        lemma_no_quotes(before);
        if before.contains('"') {
            let i = choose|i: int| 0 <= i < before.len() && before[i] == '"';
            assert(a[i] == '"');
        } else if a.last() == '"' {
            assert(a[a.len() - 1] == '"');
        } else {
            assert forall|i: int| 0 <= i < a.len() implies a[i] != '"' by {
                if i < before.len() {
                    assert(before[i] == a[i]);
                }
            }
        }
    }
}

} // verus!

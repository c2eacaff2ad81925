//! The topics that the dashboard lists, and the registry of topics that have
//! a live consumer.

use vstd::prelude::*;
use crate::order::{bytes_lt, lemma_text_order_is_byte_order};
use crate::text::{
    has_prefix, lemma_text_lt_irreflexive, lemma_text_lt_transitive, starts_with, text_less, text_lt,
};

verus! {

broadcast use vstd::seq_lib::group_seq_properties;

/// The texts of a sequence of strings.
pub open spec fn texts(v: Seq<String>) -> Seq<Seq<char>> {
    v.map_values(|s: String| s@)
}

/// Kafka's internal topics, such as `__consumer_offsets`, begin with two
/// underscores.
pub open spec fn is_internal_topic(name: Seq<char>) -> bool {
    has_prefix(name, "__"@)
}

/// The names that are not internal topics, in their order.
pub open spec fn visible(names: Seq<Seq<char>>) -> Seq<Seq<char>> {
    names.filter(|t: Seq<char>| !is_internal_topic(t))
}

/// Whether texts are in ascending order.
pub open spec fn sorted_texts(s: Seq<Seq<char>>) -> bool {
    forall|i: int, j: int| 0 <= i < j < s.len() ==> !text_lt(#[trigger] s[j], #[trigger] s[i])
}

proof fn lemma_insert_sorted(s: Seq<Seq<char>>, pos: int, key: Seq<char>)
    requires
        sorted_texts(s),
        0 <= pos <= s.len(),
        forall|k: int| 0 <= k < pos ==> !text_lt(key, #[trigger] s[k]),
        pos < s.len() ==> text_lt(key, s[pos]),
    ensures
        sorted_texts(s.insert(pos, key)),
{
    let t = s.insert(pos, key);
    assert forall|i: int, j: int| 0 <= i < j < t.len() implies !text_lt(
        #[trigger] t[j],
        #[trigger] t[i],
    ) by {
        if i == pos {
            let sj = s[j - 1];
            if text_lt(sj, key) {
                if j - 1 == pos {
                    lemma_text_lt_transitive(sj, key, s[pos]);
                    lemma_text_lt_irreflexive(sj);
                } else {
                    assert(!text_lt(s[j - 1], s[pos]));
                    lemma_text_lt_transitive(sj, key, s[pos]);
                }
            }
        } else if j == pos {
            assert(t[i] == s[i]);
        } else if i < pos && j < pos {
            assert(t[i] == s[i] && t[j] == s[j]);
        } else if i < pos && j > pos {
            assert(t[i] == s[i] && t[j] == s[j - 1]);
        } else {
            assert(t[i] == s[i - 1] && t[j] == s[j - 1]);
        }
    }
}

/// The topics to show from the names that the broker reports: internal
/// topics left out, the rest in ascending order.
pub fn visible_topics(names: Vec<String>) -> (topics: Vec<String>)
    ensures
        sorted_texts(texts(topics@)),
        texts(topics@).to_multiset() == visible(texts(names@)).to_multiset(),
        forall|t: Seq<char>|
            #[trigger] texts(topics@).contains(t) <==> (texts(names@).contains(t) && !(t.len() >= 2
                && t[0] == '_' && t[1] == '_')),
{
    let mut out: Vec<String> = Vec::new();
    let mut i: usize = 0;
    assert(texts(names@).take(0) =~= Seq::<Seq<char>>::empty());
    assert(texts(out@) =~= Seq::<Seq<char>>::empty());
    while i < names.len()
        invariant
            i <= names.len(),
            sorted_texts(texts(out@)),
            texts(out@).to_multiset() == visible(texts(names@).take(i as int)).to_multiset(),
        decreases names.len() - i,
    {
        let ghost before = texts(names@).take(i as int);
        assert(texts(names@).take(i + 1) =~= before.push(names@[i as int]@));
        let ghost pred = |t: Seq<char>| !is_internal_topic(t);
        assert(before.push(names@[i as int]@).filter(pred) == if pred(names@[i as int]@) {
            before.filter(pred).push(names@[i as int]@)
        } else {
            before.filter(pred)
        }) by {
            before.lemma_filter_push(names@[i as int]@, pred);
        }
        let name = names[i].clone();
        if !starts_with(name.as_str(), "__") {
            let mut pos: usize = 0;
            while pos < out.len() && !text_less(name.as_str(), out[pos].as_str())
                invariant
                    pos <= out.len(),
                    forall|k: int| 0 <= k < pos ==> !text_lt(name@, #[trigger] texts(out@)[k]),
                decreases out.len() - pos,
            {
                pos = pos + 1;
            }
            let ghost old_texts = texts(out@);
            proof {
                lemma_insert_sorted(old_texts, pos as int, name@);
            }
            out.insert(pos, name);
            assert(texts(out@) =~= old_texts.insert(pos as int, names@[i as int]@));
            proof {
                vstd::seq_lib::to_multiset_build(visible(before), names@[i as int]@);
                vstd::seq_lib::to_multiset_insert(old_texts, pos as int, names@[i as int]@);
            }
        }
        i = i + 1;
    }
    assert(texts(names@).take(names@.len() as int) =~= texts(names@));
    assert forall|t: Seq<char>|
        #[trigger] texts(out@).contains(t) <==> (texts(names@).contains(t) && !(t.len() >= 2
            && t[0] == '_' && t[1] == '_')) by {
        lemma_listed_topics(texts(names@), texts(out@), t);
    }
    out
}

/// The internal topics are exactly the names that begin with two underscores.
pub proof fn lemma_internal_topic(name: Seq<char>)
    ensures
        is_internal_topic(name) <==> (name.len() >= 2 && name[0] == '_' && name[1] == '_'),
{
    reveal_strlit("__");
    if name.len() >= 2 && name[0] == '_' && name[1] == '_' {
        assert(name.subrange(0, 2) =~= "__"@);
    }
    if is_internal_topic(name) {
        assert(name.subrange(0, 2)[0] == name[0]);
        assert(name.subrange(0, 2)[1] == name[1]);
    }
}

/// A topic is listed exactly when the broker reported it and it does not
/// begin with two underscores.
pub proof fn lemma_listed_topics(names: Seq<Seq<char>>, topics: Seq<Seq<char>>, t: Seq<char>)
    requires
        topics.to_multiset() == visible(names).to_multiset(),
    ensures
        topics.contains(t) <==> (names.contains(t) && !(t.len() >= 2 && t[0] == '_' && t[1] == '_')),
{
    lemma_internal_topic(t);
    vstd::seq_lib::to_multiset_contains(topics, t);
    vstd::seq_lib::to_multiset_contains(visible(names), t);
    let pred = |x: Seq<char>| !is_internal_topic(x);
    assert(topics.contains(t) <==> visible(names).contains(t));
    if names.contains(t) && pred(t) {
        let i = choose|i: int| 0 <= i < names.len() && names[i] == t;
        names.lemma_filter_contains(pred, i);
    }
    if visible(names).contains(t) {
        names.lemma_filter_contains_rev(pred, t);
    }
}

/// Topics in ascending order are in ascending byte order of their UTF-8
/// encodings, the order of `String`'s `Ord`.
pub proof fn lemma_sorted_in_byte_order(topics: Seq<Seq<char>>)
    requires
        sorted_texts(topics),
    ensures
        forall|i: int, j: int|
            0 <= i < j < topics.len() ==> !bytes_lt(
                vstd::utf8::encode_utf8(#[trigger] topics[j]),
                vstd::utf8::encode_utf8(#[trigger] topics[i]),
            ),
{
    assert forall|i: int, j: int| 0 <= i < j < topics.len() implies !bytes_lt(
        vstd::utf8::encode_utf8(#[trigger] topics[j]),
        vstd::utf8::encode_utf8(#[trigger] topics[i]),
    ) by {
        lemma_text_order_is_byte_order(topics[j], topics[i]);
    }
}

} // verus!

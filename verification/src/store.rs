//! The key-value views of the stored records.
//!
//! The state holds messages and chats in vectors; their mathematical models
//! are maps, keyed by message id and chat title. Later entries win, and under
//! the uniqueness invariants each key occurs at most once.

use crate::chat::ChatView;
use crate::message::MessageView;
use vstd::prelude::*;

verus! {

/// Relies on `str`'s `PartialEq`: two string slices are equal exactly when
/// their character sequences are (UTF-8 encoding is injective).
#[verifier::external_body]
pub(crate) fn str_eq(a: &str, b: &str) -> (r: bool)
    ensures
        r == (a@ == b@),
{
    a == b
}

/// The message store a sequence of records models: each keyed by its id,
/// later entries winning.
pub open spec fn msg_map(s: Seq<MessageView>) -> Map<Seq<char>, MessageView>
    decreases s.len(),
{
    if s.len() == 0 {
        Map::empty()
    } else {
        msg_map(s.drop_last()).insert(s.last().id, s.last())
    }
}

/// No two records carry the same id.
pub open spec fn unique_ids(s: Seq<MessageView>) -> bool {
    forall|i: int, j: int| 0 <= i < j < s.len() ==> s[i].id != s[j].id
}

/// The chat registry a sequence of records models: each keyed by its title,
/// later entries winning.
pub open spec fn chat_map(s: Seq<ChatView>) -> Map<Seq<char>, ChatView>
    decreases s.len(),
{
    if s.len() == 0 {
        Map::empty()
    } else {
        chat_map(s.drop_last()).insert(s.last().title, s.last())
    }
}

/// No two records carry the same title.
pub open spec fn unique_titles(s: Seq<ChatView>) -> bool {
    forall|i: int, j: int| 0 <= i < j < s.len() ==> s[i].title != s[j].title
}

/// An id no record carries is absent from the model.
pub proof fn lemma_msg_map_absent(s: Seq<MessageView>, id: Seq<char>)
    requires
        forall|j: int| 0 <= j < s.len() ==> s[j].id != id,
    ensures
        !msg_map(s).contains_key(id),
    decreases s.len(),
{
    if s.len() > 0 {
        lemma_msg_map_absent(s.drop_last(), id);
    }
}

/// Under unique ids, each record is the model's value at its id.
pub proof fn lemma_msg_map_found(s: Seq<MessageView>, i: int)
    requires
        unique_ids(s),
        0 <= i < s.len(),
    ensures
        msg_map(s).contains_key(s[i].id),
        msg_map(s)[s[i].id] == s[i],
    decreases s.len(),
{
    if i < s.len() - 1 {
        lemma_msg_map_found(s.drop_last(), i);
        assert(s[s.len() - 1].id != s[i].id);
    }
}

/// Appending a record inserts it into the model.
pub proof fn lemma_msg_map_push(s: Seq<MessageView>, v: MessageView)
    ensures
        msg_map(s.push(v)) == msg_map(s).insert(v.id, v),
{
    assert(s.push(v).drop_last() =~= s);
}

/// Under unique ids, the model has exactly one key per record.
pub proof fn lemma_msg_map_dom_len(s: Seq<MessageView>)
    requires
        unique_ids(s),
    ensures
        msg_map(s).dom().finite(),
        msg_map(s).dom().len() == s.len(),
    decreases s.len(),
{
    broadcast use vstd::set::axiom_set_insert_len;

    if s.len() > 0 {
        lemma_msg_map_dom_len(s.drop_last());
        lemma_msg_map_absent(s.drop_last(), s.last().id);
    }
}

/// A title no record carries is absent from the model.
pub proof fn lemma_chat_map_absent(s: Seq<ChatView>, title: Seq<char>)
    requires
        forall|j: int| 0 <= j < s.len() ==> s[j].title != title,
    ensures
        !chat_map(s).contains_key(title),
    decreases s.len(),
{
    if s.len() > 0 {
        lemma_chat_map_absent(s.drop_last(), title);
    }
}

/// Under unique titles, each record is the model's value at its title.
pub proof fn lemma_chat_map_found(s: Seq<ChatView>, i: int)
    requires
        unique_titles(s),
        0 <= i < s.len(),
    ensures
        chat_map(s).contains_key(s[i].title),
        chat_map(s)[s[i].title] == s[i],
    decreases s.len(),
{
    if i < s.len() - 1 {
        lemma_chat_map_found(s.drop_last(), i);
        assert(s[s.len() - 1].title != s[i].title);
    }
}

/// Appending a record inserts it into the model.
pub proof fn lemma_chat_map_push(s: Seq<ChatView>, v: ChatView)
    ensures
        chat_map(s.push(v)) == chat_map(s).insert(v.title, v),
{
    assert(s.push(v).drop_last() =~= s);
}

/// Overwriting the record that carries a title inserts the new record into
/// the model.
pub proof fn lemma_chat_map_update(s: Seq<ChatView>, i: int, v: ChatView)
    requires
        unique_titles(s),
        0 <= i < s.len(),
        s[i].title == v.title,
    ensures
        chat_map(s.update(i, v)) == chat_map(s).insert(v.title, v),
    decreases s.len(),
{
    let t = s.update(i, v);
    if i == s.len() - 1 {
        assert(t.drop_last() =~= s.drop_last());
        assert(chat_map(t) =~= chat_map(s).insert(v.title, v));
    } else {
        assert(t.drop_last() =~= s.drop_last().update(i, v));
        lemma_chat_map_update(s.drop_last(), i, v);
        assert(s[s.len() - 1].title != v.title);
        assert(chat_map(t) =~= chat_map(s).insert(v.title, v));
    }
}

} // verus!

//! Reconstruction of a transcript: walking parent links from a head.

use crate::message::MessageView;
use vstd::prelude::*;

verus! {

/// The outcome of walking parent links from a starting point.
#[verifier::ext_equal]
pub enum Walk {
    /// Every link resolved: the messages in chronological order, root first.
    Chain(Seq<MessageView>),
    /// A link named a message the store does not hold.
    Broken,
    /// The walk did not reach a root within the given number of steps.
    Cyclic,
}

/// Walks parent links from `cur`, taking at most `fuel` steps, and collects
/// the messages oldest first.
pub open spec fn walk(m: Map<Seq<char>, MessageView>, cur: Option<Seq<char>>, fuel: nat) -> Walk
    decreases fuel,
{
    match cur {
        None => Walk::Chain(Seq::empty()),
        Some(id) => {
            if !m.contains_key(id) {
                Walk::Broken
            } else if fuel == 0 {
                Walk::Cyclic
            } else {
                match walk(m, m[id].parent, (fuel - 1) as nat) {
                    Walk::Chain(s) => Walk::Chain(s.push(m[id])),
                    w => w,
                }
            }
        },
    }
}

/// The transcript ending at `head`: parent links walked with fuel equal to
/// the number of stored messages. A chain that never revisits a message has
/// at most that many links, so `Cyclic` arises only when a walk of that
/// length revisited some message — which only a corrupted store can cause.
pub open spec fn history_of(m: Map<Seq<char>, MessageView>, head: Seq<char>) -> Walk {
    walk(m, Some(head), m.dom().len())
}

/// A walk that reaches a root visits only stored messages, so storing a new
/// message under a fresh id leaves it unchanged.
pub proof fn lemma_walk_insert_fresh(
    m: Map<Seq<char>, MessageView>,
    cur: Option<Seq<char>>,
    fuel: nat,
    k: Seq<char>,
    v: MessageView,
)
    requires
        walk(m, cur, fuel) is Chain,
        !m.contains_key(k),
    ensures
        walk(m.insert(k, v), cur, fuel) == walk(m, cur, fuel),
    decreases fuel,
{
    match cur {
        None => {},
        Some(id) => {
            lemma_walk_insert_fresh(m, m[id].parent, (fuel - 1) as nat, k, v);
        },
    }
}

/// Chain reconstruction, root case: a store whose fresh message has no
/// parent reconstructs from that message to the chain of exactly that one
/// message.
pub proof fn lemma_history_root(m: Map<Seq<char>, MessageView>, k: Seq<char>, v: MessageView)
    requires
        m.dom().finite(),
        !m.contains_key(k),
        v.parent is None,
    ensures
        history_of(m.insert(k, v), k) == Walk::Chain(seq![v]),
{
    broadcast use vstd::set::axiom_set_insert_len;

    let m2 = m.insert(k, v);
    assert(walk(m2, None, (m2.dom().len() - 1) as nat) == Walk::Chain(Seq::<MessageView>::empty()));
    assert(Seq::<MessageView>::empty().push(v) =~= seq![v]);
}

/// Chain reconstruction, append case: appending a fresh message whose parent
/// is the current head extends the reconstructed chain by exactly that
/// message, keeping chronological order. A chain built by repeated appends
/// therefore reconstructs to its full length, root first.
pub proof fn lemma_history_append(
    m: Map<Seq<char>, MessageView>,
    head: Seq<char>,
    s: Seq<MessageView>,
    k: Seq<char>,
    v: MessageView,
)
    requires
        m.dom().finite(),
        history_of(m, head) == Walk::Chain(s),
        !m.contains_key(k),
        v.parent == Some(head),
    ensures
        history_of(m.insert(k, v), k) == Walk::Chain(s.push(v)),
{
    broadcast use vstd::set::axiom_set_insert_len;

    let m2 = m.insert(k, v);
    let f = m.dom().len();
    lemma_walk_insert_fresh(m, Some(head), f, k, v);
    assert(walk(m2, Some(head), f) == Walk::Chain(s));
    assert(m2.dom().len() == f + 1);
}

/// Head advancement: when the store holds the user message as a root and the
/// assistant message is stored under a fresh id with the user message as its
/// parent, the transcript at the new head is exactly the user message
/// followed by the assistant message.
pub proof fn lemma_head_advancement(
    m: Map<Seq<char>, MessageView>,
    uid: Seq<char>,
    aid: Seq<char>,
    a: MessageView,
)
    requires
        m.dom().finite(),
        m.contains_key(uid),
        m[uid].parent is None,
        !m.contains_key(aid),
        a.parent == Some(uid),
    ensures
        history_of(m.insert(aid, a), aid) == Walk::Chain(seq![m[uid], a]),
{
    broadcast use vstd::set::axiom_set_contains_len;

    let f = m.dom().len();
    assert(f >= 1);
    assert(walk(m, None, (f - 1) as nat) == Walk::Chain(Seq::<MessageView>::empty()));
    assert(history_of(m, uid) == Walk::Chain(Seq::<MessageView>::empty().push(m[uid])));
    lemma_history_append(m, uid, Seq::<MessageView>::empty().push(m[uid]), aid, a);
    assert(Seq::<MessageView>::empty().push(m[uid]).push(a) =~= seq![m[uid], a]);
}

} // verus!

//! The engine state: message store, chat records, and the title index,
//! with the operations a chat service performs on them.

use crate::chat::{Chat, ChatView};
use crate::history::{history_of, walk, Walk};
use crate::message::{addressed, message_id, Message, MessageView, Role};
use crate::store::{
    chat_map, lemma_chat_map_absent, lemma_chat_map_found, lemma_chat_map_push,
    lemma_chat_map_update, lemma_msg_map_absent, lemma_msg_map_dom_len, lemma_msg_map_found,
    lemma_msg_map_push, msg_map, str_eq, unique_ids, unique_titles,
};
use crate::ChatError;
use vstd::pervasive::VecAdditionalExecFns;
use vstd::prelude::*;

verus! {

/// The values of a sequence of messages.
pub open spec fn msg_views(s: Seq<Message>) -> Seq<MessageView> {
    s.map_values(|m: Message| m@)
}

/// The values of a sequence of chats.
pub open spec fn chat_views(s: Seq<Chat>) -> Seq<ChatView> {
    s.map_values(|c: Chat| c@)
}

/// The values of a sequence of titles.
pub open spec fn title_views(s: Seq<String>) -> Seq<Seq<char>> {
    s.map_values(|t: String| t@)
}

/// What writing a message does to the store: nothing when its id is already
/// present — the store never overwrites an existing id — and an insertion
/// otherwise. Writing the same message twice therefore equals writing it
/// once.
pub open spec fn put_spec(m: Map<Seq<char>, MessageView>, v: MessageView) -> Map<
    Seq<char>,
    MessageView,
> {
    if m.contains_key(v.id) {
        m
    } else {
        m.insert(v.id, v)
    }
}

/// What registering a title does to the index: nothing when it is already
/// present, an append otherwise. Registration order is kept.
pub open spec fn register_spec(ts: Seq<Seq<char>>, t: Seq<char>) -> Seq<Seq<char>> {
    if ts.contains(t) {
        ts
    } else {
        ts.push(t)
    }
}

/// The chats a listing returns: each registered title resolved to its
/// record, in registration order, titles without a record silently skipped.
pub open spec fn list_spec(ts: Seq<Seq<char>>, recs: Map<Seq<char>, ChatView>) -> Seq<ChatView>
    decreases ts.len(),
{
    if ts.len() == 0 {
        Seq::empty()
    } else {
        let pre = list_spec(ts.drop_last(), recs);
        if recs.contains_key(ts.last()) {
            pre.push(recs[ts.last()])
        } else {
            pre
        }
    }
}

/// A partial walk together with the reversed tail already collected: the
/// messages a finished walk would return, oldest first.
spec fn walk_tail(w: Walk, collected: Seq<MessageView>) -> Walk {
    match w {
        Walk::Chain(s) => Walk::Chain(s + collected.reverse()),
        _ => w,
    }
}

/// The whole engine state: the content-addressed message store, the chat
/// metadata records, and the registry of chat titles in registration order.
pub struct State {
    pub messages: Vec<Message>,
    pub chats: Vec<Chat>,
    pub index: Vec<String>,
}

impl State {
    /// The message store: message values keyed by id.
    pub open spec fn msgs(self) -> Map<Seq<char>, MessageView> {
        msg_map(msg_views(self.messages@))
    }

    /// The chat records: chat values keyed by title.
    pub open spec fn chat_recs(self) -> Map<Seq<char>, ChatView> {
        chat_map(chat_views(self.chats@))
    }

    /// The registered titles, in registration order.
    pub open spec fn titles(self) -> Seq<Seq<char>> {
        title_views(self.index@)
    }

    /// Well-formedness: ids, chat titles and registered titles are unique,
    /// and every stored message carries the content address of its fields.
    pub open spec fn wf(self) -> bool {
        &&& unique_ids(msg_views(self.messages@))
        &&& forall|i: int|
            0 <= i < self.messages@.len() ==> addressed(#[trigger] self.messages@[i]@)
        &&& unique_titles(chat_views(self.chats@))
        &&& forall|i: int, j: int|
            0 <= i < j < self.index@.len() ==> self.index@[i]@ != self.index@[j]@
    }

    /// Constructs an empty state: no messages, no chats, no titles.
    pub fn new() -> (s: State)
        ensures
            s.wf(),
            s.msgs() == Map::<Seq<char>, MessageView>::empty(),
            s.chat_recs() == Map::<Seq<char>, ChatView>::empty(),
            s.titles() == Seq::<Seq<char>>::empty(),
    {
        let s = State { messages: Vec::new(), chats: Vec::new(), index: Vec::new() };
        proof {
            assert(msg_views(s.messages@) =~= Seq::<MessageView>::empty());
            assert(chat_views(s.chats@) =~= Seq::<ChatView>::empty());
            assert(s.titles() =~= Seq::<Seq<char>>::empty());
        }
        s
    }

    /// Finds the position of the message with the given id.
    fn find_message(&self, id: &str) -> (r: Option<usize>)
        requires
            self.wf(),
        ensures
            match r {
                Some(i) => {
                    &&& i < self.messages@.len()
                    &&& self.messages@[i as int]@.id == id@
                    &&& self.msgs().contains_key(id@)
                    &&& self.msgs()[id@] == self.messages@[i as int]@
                },
                None => !self.msgs().contains_key(id@),
            },
    {
        let mut i: usize = 0;
        while i < self.messages.len()
            invariant
                self.wf(),
                i <= self.messages@.len(),
                forall|j: int| 0 <= j < i ==> msg_views(self.messages@)[j].id != id@,
            decreases self.messages@.len() - i,
        {
            if str_eq(self.messages[i].id.as_str(), id) {
                proof {
                    lemma_msg_map_found(msg_views(self.messages@), i as int);
                }
                return Some(i);
            }
            i = i + 1;
        }
        proof {
            lemma_msg_map_absent(msg_views(self.messages@), id@);
        }
        None
    }

    /// Finds the position of the chat with the given title.
    fn find_chat(&self, title: &str) -> (r: Option<usize>)
        requires
            self.wf(),
        ensures
            match r {
                Some(i) => {
                    &&& i < self.chats@.len()
                    &&& self.chats@[i as int]@.title == title@
                    &&& self.chat_recs().contains_key(title@)
                    &&& self.chat_recs()[title@] == self.chats@[i as int]@
                },
                None => !self.chat_recs().contains_key(title@),
            },
    {
        let mut i: usize = 0;
        while i < self.chats.len()
            invariant
                self.wf(),
                i <= self.chats@.len(),
                forall|j: int| 0 <= j < i ==> chat_views(self.chats@)[j].title != title@,
            decreases self.chats@.len() - i,
        {
            if str_eq(self.chats[i].title.as_str(), title) {
                proof {
                    lemma_chat_map_found(chat_views(self.chats@), i as int);
                }
                return Some(i);
            }
            i = i + 1;
        }
        proof {
            lemma_chat_map_absent(chat_views(self.chats@), title@);
        }
        None
    }

    /// Whether a title is registered.
    fn index_has(&self, title: &str) -> (r: bool)
        ensures
            r == self.titles().contains(title@),
    {
        let mut i: usize = 0;
        while i < self.index.len()
            invariant
                i <= self.index@.len(),
                forall|j: int| 0 <= j < i ==> self.titles()[j] != title@,
            decreases self.index@.len() - i,
        {
            if str_eq(self.index[i].as_str(), title) {
                assert(self.titles()[i as int] == title@);
                return true;
            }
            i = i + 1;
        }
        false
    }

    /// Writes a message into the store, keyed by its id. Idempotent: an id
    /// already present is left untouched, so a message is never overwritten.
    pub fn save_message(&mut self, msg: &Message)
        requires
            old(self).wf(),
            addressed(msg@),
        ensures
            final(self).wf(),
            final(self).msgs() == put_spec(old(self).msgs(), msg@),
            final(self).chat_recs() == old(self).chat_recs(),
            final(self).titles() == old(self).titles(),
    {
        match self.find_message(msg.id.as_str()) {
            Some(_) => {},
            None => {
                proof {
                    let vs = msg_views(self.messages@);
                    assert forall|j: int| 0 <= j < vs.len() implies vs[j].id != msg@.id by {
                        if vs[j].id == msg@.id {
                            lemma_msg_map_found(vs, j);
                        }
                    }
                    lemma_msg_map_push(vs, msg@);
                }
                self.messages.push(msg.clone());
                proof {
                    assert(msg_views(self.messages@) =~= msg_views(old(self).messages@).push(
                        msg@,
                    ));
                }
            },
        }
    }

    /// Reads the message stored under an id; `NotFound` when none is.
    pub fn load_message(&self, id: &str) -> (r: Result<Message, ChatError>)
        requires
            self.wf(),
        ensures
            match r {
                Ok(m) => self.msgs().contains_key(id@) && m@ == self.msgs()[id@],
                Err(e) => e == ChatError::NotFound && !self.msgs().contains_key(id@),
            },
    {
        match self.find_message(id) {
            Some(i) => Ok(self.messages[i].clone()),
            None => Err(ChatError::NotFound),
        }
    }

    /// Registers a title in the index: appended if absent, untouched if
    /// already present.
    pub fn register(&mut self, title: &str)
        requires
            old(self).wf(),
        ensures
            final(self).wf(),
            final(self).titles() == register_spec(old(self).titles(), title@),
            final(self).msgs() == old(self).msgs(),
            final(self).chat_recs() == old(self).chat_recs(),
    {
        if !self.index_has(title) {
            self.index.push(title.to_owned());
            proof {
                assert(self.titles() =~= old(self).titles().push(title@));
                let n = self.index@.len();
                assert forall|p: int, q: int| 0 <= p < q < n implies self.index@[p]@
                    != self.index@[q]@ by {
                    if q == n - 1 && self.index@[p]@ == title@ {
                        assert(old(self).titles()[p] == title@);
                        assert(old(self).titles().contains(title@));
                    }
                }
            }
        }
    }

    /// Returns the registered titles, in registration order.
    pub fn list_titles(&self) -> (r: Vec<String>)
        ensures
            title_views(r@) == self.titles(),
    {
        let mut out: Vec<String> = Vec::new();
        let mut i: usize = 0;
        while i < self.index.len()
            invariant
                i <= self.index@.len(),
                out@.len() == i,
                title_views(out@) =~= self.titles().take(i as int),
            decreases self.index@.len() - i,
        {
            out.push(self.index[i].clone());
            i = i + 1;
            proof {
                assert(title_views(out@) =~= self.titles().take(i as int));
            }
        }
        proof {
            assert(self.titles().take(self.index@.len() as int) =~= self.titles());
        }
        out
    }

    /// Writes a chat record, keyed by its title: the record is always
    /// rewritten, and the title is registered if it was not yet. Creating a
    /// chat under an existing title thus resets its record while the index
    /// keeps one entry.
    pub fn save_chat(&mut self, chat: &Chat)
        requires
            old(self).wf(),
        ensures
            final(self).wf(),
            final(self).chat_recs() == old(self).chat_recs().insert(chat@.title, chat@),
            final(self).titles() == register_spec(old(self).titles(), chat@.title),
            final(self).msgs() == old(self).msgs(),
    {
        match self.find_chat(chat.title.as_str()) {
            Some(i) => {
                proof {
                    lemma_chat_map_update(chat_views(self.chats@), i as int, chat@);
                }
                self.chats.set(i, chat.clone());
                proof {
                    assert(chat_views(self.chats@) =~= chat_views(old(self).chats@).update(
                        i as int,
                        chat@,
                    ));
                    let vs = chat_views(self.chats@);
                    let ws = chat_views(old(self).chats@);
                    assert forall|p: int, q: int| 0 <= p < q < vs.len() implies vs[p].title
                        != vs[q].title by {
                        assert(ws[p].title == vs[p].title);
                        assert(ws[q].title == vs[q].title);
                    }
                }
            },
            None => {
                proof {
                    let vs = chat_views(self.chats@);
                    assert forall|j: int| 0 <= j < vs.len() implies vs[j].title
                        != chat@.title by {
                        if vs[j].title == chat@.title {
                            lemma_chat_map_found(vs, j);
                        }
                    }
                    lemma_chat_map_push(vs, chat@);
                }
                self.chats.push(chat.clone());
                proof {
                    assert(chat_views(self.chats@) =~= chat_views(old(self).chats@).push(chat@));
                }
            },
        }
        self.register(chat.title.as_str());
    }

    /// Reads the chat record stored under a title; `NotFound` when none is.
    pub fn read_chat(&self, title: &str) -> (r: Result<Chat, ChatError>)
        requires
            self.wf(),
        ensures
            match r {
                Ok(c) => self.chat_recs().contains_key(title@) && c@ == self.chat_recs()[title@]
                    && c@.title == title@,
                Err(e) => e == ChatError::NotFound && !self.chat_recs().contains_key(title@),
            },
    {
        match self.find_chat(title) {
            Some(i) => Ok(self.chats[i].clone()),
            None => Err(ChatError::NotFound),
        }
    }

    /// Reconstructs the transcript that ends at `message_id`: the message it
    /// names, preceded by its transitive parents, oldest first. Fails with
    /// `BrokenChain` when a link names a missing message, and with
    /// `CorruptData` when the walk runs longer than the store's size, which
    /// only a parent cycle in a corrupted store can cause.
    pub fn get_message_history(&self, message_id: &str) -> (r: Result<Vec<Message>, ChatError>)
        requires
            self.wf(),
        ensures
            match r {
                Ok(v) => history_of(self.msgs(), message_id@) == Walk::Chain(msg_views(v@)),
                Err(ChatError::BrokenChain) => history_of(self.msgs(), message_id@) is Broken,
                Err(ChatError::CorruptData) => history_of(self.msgs(), message_id@) is Cyclic,
                Err(_) => false,
            },
    {
        proof {
            lemma_msg_map_dom_len(msg_views(self.messages@));
        }
        let mut collected: Vec<Message> = Vec::new();
        let mut fuel: usize = self.messages.len();
        let mut cur: Option<String> = Some(message_id.to_owned());
        loop
            invariant
                self.wf(),
                fuel <= self.messages@.len(),
                walk_tail(
                    walk(self.msgs(), crate::codec::opt_str_view(cur), fuel as nat),
                    msg_views(collected@),
                ) == history_of(self.msgs(), message_id@),
            ensures
                history_of(self.msgs(), message_id@) == Walk::Chain(
                    msg_views(collected@).reverse(),
                ),
            decreases fuel,
        {
            let id = match cur {
                None => {
                    proof {
                        let s = msg_views(collected@);
                        assert(Seq::<MessageView>::empty() + s.reverse() =~= s.reverse());
                    }
                    break
                },
                Some(id) => id,
            };
            match self.find_message(id.as_str()) {
                None => {
                    return Err(ChatError::BrokenChain);
                },
                Some(idx) => {
                    if fuel == 0 {
                        return Err(ChatError::CorruptData);
                    }
                    let msg = self.messages[idx].clone();
                    cur = match &msg.parent {
                        Some(p) => Some(p.clone()),
                        None => None,
                    };
                    fuel = fuel - 1;
                    proof {
                        let m = self.msgs();
                        let s = msg_views(collected@);
                        let s2 = msg_views(collected@.push(msg));
                        assert(s2 =~= s.push(msg@));
                        assert(s2.reverse() =~= seq![msg@] + s.reverse());
                        assert(crate::codec::opt_str_view(cur) == msg@.parent);
                        let w = walk(m, msg@.parent, fuel as nat);
                        match w {
                            Walk::Chain(t) => {
                                assert(t + s2.reverse() =~= t.push(msg@) + s.reverse());
                                assert(walk_tail(w, s2) =~= walk_tail(
                                    walk(m, Some(id@), (fuel + 1) as nat),
                                    s,
                                ));
                            },
                            _ => {},
                        }
                        assert(walk_tail(w, s2) =~= history_of(m, message_id@));
                    }
                    collected.push(msg);
                },
            }
        }
        let mut hist: Vec<Message> = Vec::new();
        let mut j: usize = collected.len();
        while j > 0
            invariant
                j <= collected@.len(),
                hist@.len() + j == collected@.len(),
                forall|k: int|
                    0 <= k < hist@.len() ==> #[trigger] hist@[k]@ == collected@[collected@.len()
                        - 1 - k]@,
            decreases j,
        {
            j = j - 1;
            hist.push(collected[j].clone());
        }
        proof {
            assert(msg_views(hist@) =~= msg_views(collected@).reverse());
        }
        Ok(hist)
    }

    /// Resolves every registered title to its current record, in
    /// registration order. A title whose record is missing is skipped, so one
    /// lost record does not break the whole listing.
    pub fn list_chats(&self) -> (r: Vec<Chat>)
        requires
            self.wf(),
        ensures
            chat_views(r@) == list_spec(self.titles(), self.chat_recs()),
    {
        let mut out: Vec<Chat> = Vec::new();
        let mut i: usize = 0;
        while i < self.index.len()
            invariant
                self.wf(),
                i <= self.index@.len(),
                chat_views(out@) =~= list_spec(self.titles().take(i as int), self.chat_recs()),
            decreases self.index@.len() - i,
        {
            match self.find_chat(self.index[i].as_str()) {
                Some(j) => {
                    out.push(self.chats[j].clone());
                },
                None => {},
            }
            i = i + 1;
            proof {
                assert(self.titles().take(i as int).drop_last() =~= self.titles().take(
                    i as int - 1,
                ));
                assert(chat_views(out@) =~= list_spec(
                    self.titles().take(i as int),
                    self.chat_recs(),
                ));
            }
        }
        proof {
            assert(self.titles().take(self.index@.len() as int) =~= self.titles());
        }
        out
    }

    /// Creates a chat with no messages: its record is written (resetting any
    /// record the title already had) and its title registered if it was not
    /// yet.
    pub fn create_chat(&mut self, title: String) -> (c: Chat)
        requires
            old(self).wf(),
        ensures
            final(self).wf(),
            c@ == (ChatView { title: title@, head: None }),
            final(self).chat_recs() == old(self).chat_recs().insert(title@, c@),
            final(self).titles() == register_spec(old(self).titles(), title@),
            final(self).msgs() == old(self).msgs(),
    {
        let chat = Chat::new(title);
        self.save_chat(&chat);
        chat
    }

    /// Resolves a chat and reconstructs its transcript from its head; a chat
    /// without messages yields an empty transcript. Fails with `NotFound`
    /// when no chat has the title, and with the reconstruction's failure when
    /// the head chain does not resolve.
    pub fn fetch_transcript(&self, title: &str) -> (r: Result<(Chat, Vec<Message>), ChatError>)
        requires
            self.wf(),
        ensures
            match r {
                Ok((c, v)) => {
                    &&& self.chat_recs().contains_key(title@)
                    &&& c@ == self.chat_recs()[title@]
                    &&& c@.title == title@
                    &&& match c@.head {
                        None => v@.len() == 0,
                        Some(h) => history_of(self.msgs(), h) == Walk::Chain(msg_views(v@)),
                    }
                },
                Err(ChatError::NotFound) => !self.chat_recs().contains_key(title@),
                Err(ChatError::BrokenChain) => self.chat_recs().contains_key(title@)
                    && match self.chat_recs()[title@].head {
                    Some(h) => history_of(self.msgs(), h) is Broken,
                    None => false,
                },
                Err(ChatError::CorruptData) => self.chat_recs().contains_key(title@)
                    && match self.chat_recs()[title@].head {
                    Some(h) => history_of(self.msgs(), h) is Cyclic,
                    None => false,
                },
                Err(_) => false,
            },
    {
        let chat = match self.read_chat(title) {
            Ok(c) => c,
            Err(e) => {
                return Err(e);
            },
        };
        let head = match &chat.head {
            Some(h) => Some(h.clone()),
            None => None,
        };
        match head {
            None => Ok((chat, Vec::new())),
            Some(h) => match self.get_message_history(h.as_str()) {
                Ok(v) => Ok((chat, v)),
                Err(e) => Err(e),
            },
        }
    }

    /// The first half of posting a message: constructs the user message as a
    /// new chain root, persists it, and advances the chat's head to it.
    /// Returns the user message and the history to hand to the completion
    /// call — exactly the user message, since a user message roots a fresh
    /// chain. When no chat has the id, the user message is still persisted
    /// (orphaned messages are harmless) but no head moves.
    pub fn post_user_message(&mut self, chat_id: &str, content: String) -> (r: Result<
        (Message, Vec<Message>),
        ChatError,
    >)
        requires
            old(self).wf(),
        ensures
            final(self).wf(),
            ({
                let uv = (MessageView {
                    role: Role::User,
                    content: content@,
                    parent: None,
                    id: message_id(Role::User, content@, None),
                });
                match r {
                    Ok((u, hist)) => {
                        &&& u@ == uv
                        &&& msg_views(hist@) == seq![uv]
                        &&& old(self).chat_recs().contains_key(chat_id@)
                        &&& final(self).msgs() == put_spec(old(self).msgs(), uv)
                        &&& final(self).chat_recs() == old(self).chat_recs().insert(
                            chat_id@,
                            (ChatView { title: chat_id@, head: Some(uv.id) }),
                        )
                        &&& final(self).titles() == register_spec(old(self).titles(), chat_id@)
                    },
                    Err(e) => {
                        &&& e == ChatError::NotFound
                        &&& !old(self).chat_recs().contains_key(chat_id@)
                        &&& final(self).msgs() == put_spec(old(self).msgs(), uv)
                        &&& final(self).chat_recs() == old(self).chat_recs()
                        &&& final(self).titles() == old(self).titles()
                    },
                }
            }),
    {
        let user = Message::new(Role::User, content, None);
        self.save_message(&user);
        let mut chat = match self.read_chat(chat_id) {
            Ok(c) => c,
            Err(e) => {
                return Err(e);
            },
        };
        chat.head = Some(user.id.clone());
        self.save_chat(&chat);
        let mut hist: Vec<Message> = Vec::new();
        hist.push(user.clone());
        proof {
            assert(msg_views(hist@) =~= seq![user@]);
        }
        Ok((user, hist))
    }

    /// The second half of posting a message: applies the completion outcome.
    /// Text yields the assistant message, persisted as a child of the user
    /// message, with the chat's head advanced to it. A failed completion
    /// changes nothing and reports `CompletionFailed`: the head stays at the
    /// user message, which remains retrievable.
    pub fn post_completion(&mut self, chat_id: &str, user_id: &str, completion: Option<String>)
        -> (r: Result<Message, ChatError>)
        requires
            old(self).wf(),
        ensures
            final(self).wf(),
            match completion {
                None => r == Err::<Message, ChatError>(ChatError::CompletionFailed) && *final(self)
                    == *old(self),
                Some(text) => {
                    let av = (MessageView {
                        role: Role::Assistant,
                        content: text@,
                        parent: Some(user_id@),
                        id: message_id(Role::Assistant, text@, Some(user_id@)),
                    });
                    match r {
                        Ok(a) => {
                            &&& a@ == av
                            &&& old(self).chat_recs().contains_key(chat_id@)
                            &&& final(self).msgs() == put_spec(old(self).msgs(), av)
                            &&& final(self).chat_recs() == old(self).chat_recs().insert(
                                chat_id@,
                                (ChatView { title: chat_id@, head: Some(av.id) }),
                            )
                            &&& final(self).titles() == register_spec(
                                old(self).titles(),
                                chat_id@,
                            )
                        },
                        Err(e) => {
                            &&& e == ChatError::NotFound
                            &&& !old(self).chat_recs().contains_key(chat_id@)
                            &&& final(self).msgs() == put_spec(old(self).msgs(), av)
                            &&& final(self).chat_recs() == old(self).chat_recs()
                            &&& final(self).titles() == old(self).titles()
                        },
                    }
                },
            },
    {
        let text = match completion {
            None => {
                return Err(ChatError::CompletionFailed);
            },
            Some(t) => t,
        };
        let ai = Message::new(Role::Assistant, text, Some(user_id.to_owned()));
        self.save_message(&ai);
        let mut chat = match self.read_chat(chat_id) {
            Ok(c) => c,
            Err(e) => {
                return Err(e);
            },
        };
        chat.head = Some(ai.id.clone());
        self.save_chat(&chat);
        Ok(ai)
    }
}

/// Head advancement, end to end: posting a user message and then a
/// successful completion writes exactly the two records the post operations
/// promise, and the transcript at the new head — where the completion left
/// the chat's head — is the user message followed by the assistant message,
/// the user message being the assistant's parent. Holds whenever neither id
/// was in the store and the two ids differ, which only a digest collision
/// could break.
pub proof fn lemma_post_head_advancement(
    m: Map<Seq<char>, MessageView>,
    content: Seq<char>,
    text: Seq<char>,
)
    requires
        m.dom().finite(),
        !m.contains_key(message_id(Role::User, content, None)),
        !m.contains_key(
            message_id(Role::Assistant, text, Some(message_id(Role::User, content, None))),
        ),
        message_id(Role::User, content, None) != message_id(
            Role::Assistant,
            text,
            Some(message_id(Role::User, content, None)),
        ),
    ensures
        ({
            let uv = (MessageView {
                role: Role::User,
                content: content,
                parent: None,
                id: message_id(Role::User, content, None),
            });
            let av = (MessageView {
                role: Role::Assistant,
                content: text,
                parent: Some(uv.id),
                id: message_id(Role::Assistant, text, Some(uv.id)),
            });
            history_of(put_spec(put_spec(m, uv), av), av.id) == Walk::Chain(seq![uv, av])
        }),
{
    let uv = (MessageView {
        role: Role::User,
        content: content,
        parent: None,
        id: message_id(Role::User, content, None),
    });
    let av = (MessageView {
        role: Role::Assistant,
        content: text,
        parent: Some(uv.id),
        id: message_id(Role::Assistant, text, Some(uv.id)),
    });
    let m1 = m.insert(uv.id, uv);
    assert(put_spec(m, uv) == m1);
    assert(put_spec(m1, av) == m1.insert(av.id, av));
    crate::history::lemma_head_advancement(m1, uv.id, av.id, av);
    assert(seq![m1[uv.id], av] =~= seq![uv, av]);
}

/// Idempotent persistence: writing a message a second time leaves the store
/// exactly as the first write left it, and the message is readable under its
/// id after either write.
pub proof fn lemma_put_idempotent(m: Map<Seq<char>, MessageView>, v: MessageView)
    ensures
        put_spec(put_spec(m, v), v) == put_spec(m, v),
        put_spec(m, v).contains_key(v.id),
        !m.contains_key(v.id) ==> put_spec(m, v)[v.id] == v,
{
}

/// Index monotonicity, same title: registering a title twice leaves the
/// index exactly as one registration left it — in particular its length.
pub proof fn lemma_register_idempotent(ts: Seq<Seq<char>>, t: Seq<char>)
    ensures
        register_spec(register_spec(ts, t), t) == register_spec(ts, t),
        register_spec(register_spec(ts, t), t).len() == register_spec(ts, t).len(),
{
    if !ts.contains(t) {
        assert(ts.push(t)[ts.len() as int] == t);
        assert(ts.push(t).contains(t));
    }
}

/// Index monotonicity, distinct titles: registering two distinct titles, in
/// either order, leaves both present.
pub proof fn lemma_register_both(ts: Seq<Seq<char>>, t1: Seq<char>, t2: Seq<char>)
    requires
        t1 != t2,
    ensures
        register_spec(register_spec(ts, t1), t2).contains(t1),
        register_spec(register_spec(ts, t1), t2).contains(t2),
{
    let r1 = register_spec(ts, t1);
    if !ts.contains(t1) {
        assert(ts.push(t1)[ts.len() as int] == t1);
        assert(r1.contains(t1));
    }
    let i = choose|i: int| 0 <= i < r1.len() && r1[i] == t1;
    if !r1.contains(t2) {
        assert(r1.push(t2)[i] == t1);
        assert(r1.push(t2)[r1.len() as int] == t2);
    }
}

} // verus!

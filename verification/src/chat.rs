//! Chats: a title and a head pointer to the most recent message.

use crate::codec::opt_str_view;
use vstd::prelude::*;

verus! {

/// A chat record. `title` is the chat's identifier; `head` names the most
/// recently appended message, or `None` while the chat has no messages.
pub struct Chat {
    pub title: String,
    pub head: Option<String>,
}

/// The mathematical value of a [`Chat`].
pub struct ChatView {
    pub title: Seq<char>,
    pub head: Option<Seq<char>>,
}

impl View for Chat {
    type V = ChatView;

    open spec fn view(&self) -> ChatView {
        ChatView { title: self.title@, head: opt_str_view(self.head) }
    }
}

impl Chat {
    /// Constructs a chat with no messages yet.
    pub fn new(title: String) -> (c: Chat)
        ensures
            c@ == (ChatView { title: title@, head: None }),
    {
        Chat { title, head: None }
    }
}

impl Clone for Chat {
    /// A clone carries the same title and head.
    fn clone(&self) -> (r: Self)
        ensures
            r == *self,
    {
        let head = match &self.head {
            Some(h) => Some(h.clone()),
            None => None,
        };
        Chat { title: self.title.clone(), head }
    }
}

} // verus!

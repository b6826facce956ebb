//! Normalized view of a chat message as fed into the attribution engine.

use vstd::prelude::*;

verus! {

/// One message of a support thread, normalized from the platform payload.
///
/// `author_id` is the stable identity of the sender; `author_display_name`
/// is used only for persistence and reporting, never for identity
/// comparison. `posted_at` is non-decreasing within a thread history as
/// delivered oldest-first.
pub struct ThreadMessage {
    pub thread_id: u64,
    pub author_id: u64,
    pub author_display_name: String,
    pub content: String,
    pub posted_at: u64,
    pub is_thread_owner: bool,
    pub is_system_actor: bool,
}

impl Clone for ThreadMessage {
    /// Cloning preserves the message model.
    fn clone(&self) -> (r: Self)
        ensures
            r@ == self@,
    {
        ThreadMessage {
            thread_id: self.thread_id,
            author_id: self.author_id,
            author_display_name: self.author_display_name.clone(),
            content: self.content.clone(),
            posted_at: self.posted_at,
            is_thread_owner: self.is_thread_owner,
            is_system_actor: self.is_system_actor,
        }
    }
}

/// Mathematical model of a `ThreadMessage`: the same fields with strings
/// abstracted to character sequences.
pub struct MessageView {
    pub thread_id: u64,
    pub author_id: u64,
    pub author_display_name: Seq<char>,
    pub content: Seq<char>,
    pub posted_at: u64,
    pub is_thread_owner: bool,
    pub is_system_actor: bool,
}

impl View for ThreadMessage {
    type V = MessageView;

    open spec fn view(&self) -> MessageView {
        MessageView {
            thread_id: self.thread_id,
            author_id: self.author_id,
            author_display_name: self.author_display_name@,
            content: self.content@,
            posted_at: self.posted_at,
            is_thread_owner: self.is_thread_owner,
            is_system_actor: self.is_system_actor,
        }
    }
}

/// The model of a message history: each message abstracted to its view.
pub open spec fn history_view(history: Seq<ThreadMessage>) -> Seq<MessageView> {
    history.map_values(|m: ThreadMessage| m@)
}

} // verus!

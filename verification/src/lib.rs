//! Normalized live-chat ingestion for two streaming platforms.
//!
//! Each platform gets a session bootstrap, a wire codec and an adapter state
//! machine; all of them emit the unified [`Message`] record.

use vstd::prelude::*;

pub mod json;
pub mod source;
pub mod text;

verus! {

/// One normalized chat or donation event, the common output record of both
/// platform adapters.
///
/// At least one of `content` and `donated` is meaningful per event, but the
/// model does not enforce this statically: callers must tolerate either field
/// being absent.
#[derive(Debug)]
pub struct Message {
    /// Display name of the sender; non-empty for well-formed events.
    pub sender: String,
    /// Chat body; absent for pure donation events.
    pub content: Option<String>,
    /// Donated amount in the smallest currency unit; absent for pure chat.
    pub donated: Option<u64>,
}

/// Mathematical model of a [`Message`]: its text fields as character
/// sequences.
pub ghost struct MessageModel {
    pub sender: Seq<char>,
    pub content: Option<Seq<char>>,
    pub donated: Option<u64>,
}

impl View for Message {
    type V = MessageModel;

    open spec fn view(&self) -> MessageModel {
        MessageModel {
            sender: self.sender@,
            content: self.content.deep_view(),
            donated: self.donated,
        }
    }
}

impl DeepView for Message {
    type V = MessageModel;

    open spec fn deep_view(&self) -> MessageModel {
        self.view()
    }
}

/// Zero or one messages, as the sequence an adapter emits for one frame.
pub open spec fn opt_messages(m: Option<MessageModel>) -> Seq<MessageModel> {
    match m {
        Some(x) => seq![x],
        None => Seq::<MessageModel>::empty(),
    }
}

} // verus!

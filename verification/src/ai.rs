//! One turn of a chat with the model, as it touches the session history:
//! the user's message is recorded and the request's messages assembled;
//! once the model answered, the answer is recorded.
//!
//! The request itself goes over the network and is made by the caller.

use vstd::prelude::*;

use crate::conversation::{keep_last, messages_view, with_system, ChatMessage, ConversationManager, MessageView};
use crate::text::owned;

verus! {

/// The messages of a request: the given system prompt, or the configured
/// one, then the history.
pub open spec fn request_messages(
    configured: Option<Seq<char>>,
    override_prompt: Option<Seq<char>>,
    history: Seq<MessageView>,
) -> Seq<MessageView> {
    match override_prompt {
        Some(p) => seq![MessageView::System(p)] + history,
        None => with_system(configured, history),
    }
}

/// Records the user's text and returns the messages to send: the history
/// after it, behind `system_prompt` when one is given and behind the
/// configured prompt otherwise.
pub fn begin_turn(
    conv: &mut ConversationManager,
    session_id: &str,
    prompt: &str,
    system_prompt: Option<&str>,
) -> (r: Vec<ChatMessage>)
    requires
        old(conv).wf(),
        old(conv).max_history_view() * 2 <= usize::MAX,
    ensures
        final(conv).wf(),
        final(conv).same_except(old(conv), session_id@),
        final(conv).has_session(session_id@),
        final(conv).history(session_id@) == keep_last(
            old(conv).history(session_id@).push(MessageView::UserText(prompt@)),
            old(conv).limit(),
        ),
        messages_view(r@) == request_messages(
            final(conv).system_prompt_view(),
            match system_prompt {
                Some(p) => Some(p@),
                None => None,
            },
            final(conv).history(session_id@),
        ),
{
    conv.add_user_message(session_id, prompt);
    match system_prompt {
        Some(sp) => conv.get_messages_with_system(session_id, sp),
        None => conv.get_messages(session_id),
    }
}

/// Records the user's text with an image and returns the messages to send.
pub fn begin_image_turn(
    conv: &mut ConversationManager,
    session_id: &str,
    text: &str,
    image_data_url: &str,
) -> (r: Vec<ChatMessage>)
    requires
        old(conv).wf(),
        old(conv).max_history_view() * 2 <= usize::MAX,
    ensures
        final(conv).wf(),
        final(conv).same_except(old(conv), session_id@),
        final(conv).has_session(session_id@),
        final(conv).history(session_id@) == keep_last(
            old(conv).history(session_id@).push(MessageView::UserImage(text@, image_data_url@)),
            old(conv).limit(),
        ),
        messages_view(r@) == with_system(final(conv).system_prompt_view(), final(conv).history(session_id@)),
{
    conv.add_user_message_with_image(session_id, text, image_data_url);
    conv.get_messages(session_id)
}

/// Records the model's answer (empty when it gave no text) and returns it.
pub fn finish_turn(conv: &mut ConversationManager, session_id: &str, reply: Option<String>) -> (r: String)
    requires
        old(conv).wf(),
    ensures
        final(conv).wf(),
        final(conv).same_except(old(conv), session_id@),
        r@ == match reply {
            Some(s) => s@,
            None => Seq::<char>::empty(),
        },
        final(conv).history(session_id@) == if old(conv).has_session(session_id@) {
            old(conv).history(session_id@).push(MessageView::Assistant(Some(r@), None))
        } else {
            Seq::<MessageView>::empty()
        },
{
    let content = match reply {
        Some(s) => s,
        None => String::new(),
    };
    conv.add_assistant_message(session_id, content.as_str());
    content
}

/// The model used for images: the vision model when configured, the chat
/// model otherwise.
pub fn vision_model_for(model: &str, vision_model: &Option<String>) -> (r: String)
    ensures
        r@ == match vision_model {
            Some(v) => v@,
            None => model@,
        },
{
    match vision_model {
        Some(v) => v.clone(),
        None => owned(model),
    }
}

/// A turn's user message is in the history the request carries, as the
/// last message, whatever the history limit.
pub proof fn law_turn_sends_prompt(h: Seq<MessageView>, prompt: Seq<char>, limit: int)
    requires
        limit >= 1,
    ensures
        keep_last(h.push(MessageView::UserText(prompt)), limit).len() > 0,
        keep_last(h.push(MessageView::UserText(prompt)), limit).last() == MessageView::UserText(prompt),
{
}

/// After a whole turn the session's history ends with the user's message
/// followed by the model's answer, when at least one round is kept and the
/// session existed when the answer came.
pub proof fn law_turn_records_prompt_and_reply(h: Seq<MessageView>, prompt: Seq<char>, reply: Seq<char>, limit: int)
    requires
        limit >= 2,
    ensures
        ({
            let after = keep_last(h.push(MessageView::UserText(prompt)), limit).push(
                MessageView::Assistant(Some(reply), None),
            );
            &&& after.len() >= 2
            &&& after[after.len() - 2] == MessageView::UserText(prompt)
            &&& after[after.len() - 1] == MessageView::Assistant(Some(reply), None)
        }),
{
    let pushed = h.push(MessageView::UserText(prompt));
    let kept = keep_last(pushed, limit);
    if pushed.len() > limit {
        assert(kept.len() == limit);
        assert(kept[kept.len() - 1] == pushed[pushed.len() - 1]);
    }
}

} // verus!

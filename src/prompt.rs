//! Rendering a session's messages into one prompt text, one line per
//! message: the role's label, a colon, a space, the content.
use crate::session::{message_views, role_label, Message, MessageView};
use vstd::prelude::*;

verus! {

/// The line that renders one message.
pub open spec fn rendered_line(m: MessageView) -> Seq<char> {
    role_label(m.role) + ": "@ + m.content + "\n"@
}

/// The lines of all the messages, in order.
pub open spec fn rendered(ms: Seq<MessageView>) -> Seq<char>
    decreases ms.len(),
{
    if ms.len() == 0 {
        Seq::empty()
    } else {
        rendered(ms.drop_last()) + rendered_line(ms.last())
    }
}

/// The messages rendered, one line each, oldest first.
pub fn render_messages(messages: &[Message]) -> (r: String)
    ensures
        r@ == rendered(message_views(messages@)),
{
    let mut out = String::new();
    let mut i: usize = 0;
    assert(message_views(messages@).take(0) =~= Seq::<MessageView>::empty());
    while i < messages.len()
        invariant
            i <= messages@.len(),
            out@ == rendered(message_views(messages@).take(i as int)),
        decreases messages@.len() - i,
    {
        let m = &messages[i];
        out.append(m.role.label());
        out.append(": ");
        out.append(m.content.as_str());
        out.append("\n");
        let ghost t = message_views(messages@).take(i + 1);
        assert(t.drop_last() =~= message_views(messages@).take(i as int));
        assert(t.last() == m@);
        assert(out@ =~= rendered(t));
        i = i + 1;
    }
    assert(message_views(messages@).take(messages@.len() as int) =~= message_views(messages@));
    out
}

/// The messages rendered, then a user line holding `prompt`: the text that
/// asks the model to answer `prompt` with the whole session in view.
pub fn render_with_prompt(messages: &[Message], prompt: &str) -> (r: String)
    ensures
        r@ == rendered(message_views(messages@)) + "User: "@ + prompt@ + "\n"@,
{
    let mut out = render_messages(messages);
    out.append("User: ");
    out.append(prompt);
    out.append("\n");
    out
}

/// The messages rendered, then an open assistant line for the reply.
pub fn render_for_reply(messages: &[Message]) -> (r: String)
    ensures
        r@ == rendered(message_views(messages@)) + "Assistant: "@,
{
    let mut out = render_messages(messages);
    out.append("Assistant: ");
    out
}

} // verus!

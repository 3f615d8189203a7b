//! HTTP backend: an OpenAI-compatible chat-completion endpoint.
//!
//! The HTTP call itself is made outside this library; here live the verified
//! parts: the backend's declared model list and the conversion of a
//! `ChatContext` into the plain parts of a chat-completion request.

use vstd::prelude::*;

use crate::backends::{
    spec_backend_models, Backend, ChatContext, ChatContextView, ChatRole, Message, MessageView,
};
use crate::role::spec_prompt_text;
use crate::text::spec_strip_repeated;

verus! {

/// The HTTP backend: the configuration record it answers for.
pub struct OpenAI {
    pub backend: Backend,
}

/// An HTTP backend's own default model: the first of its declared models.
pub open spec fn spec_openai_default_model(b: crate::backends::BackendView) -> Option<Seq<char>> {
    if spec_backend_models(b).len() > 0 {
        Some(spec_backend_models(b)[0])
    } else {
        None
    }
}

impl OpenAI {
    /// An HTTP backend for the given configuration record.
    pub fn new(backend: &Backend) -> (r: Self)
        ensures
            r.backend@ == backend@,
    {
        OpenAI { backend: backend.clone() }
    }

    /// The models available to this backend; they cannot be queried, so they
    /// are read from the configuration.
    pub fn list_models(&self) -> (r: Vec<String>)
        ensures
            r.deep_view() == spec_backend_models(self.backend@),
    {
        match &self.backend.models {
            Some(m) => crate::backends::clone_string_vec(m),
            None => {
                let r: Vec<String> = Vec::new();
                proof {
                    assert(r.deep_view() =~= Seq::<Seq<char>>::empty());
                }
                r
            },
        }
    }

    /// The default model for this backend: the first of its declared models.
    pub fn default_model(&self) -> (r: Option<String>)
        ensures
            r.deep_view() == spec_openai_default_model(self.backend@),
    {
        match &self.backend.models {
            Some(m) => {
                if m.len() > 0 {
                    proof {
                        assert(m.deep_view()[0] == m@[0]@);
                    }
                    Some(m[0].clone())
                } else {
                    None
                }
            },
            None => None,
        }
    }
}

/// What a completion choice's content comes to: the text itself, or an
/// explicit placeholder when the choice carried none.
pub fn response_text(content: Option<String>) -> (r: String)
    ensures
        r@ == (match content {
            Some(ref text) => text@,
            None => "Error retrieving response"@,
        }),
{
    match content {
        Some(text) => text,
        None => String::from_str("Error retrieving response"),
    }
}

/// The messages of the chat-completion request: an optional leading system
/// message carrying the role's prompt, then the conversation unchanged.
pub open spec fn spec_request_messages(ctx: ChatContextView) -> Seq<MessageView> {
    (match ctx.role {
        Some(rd) => seq![MessageView { role: ChatRole::System, content: spec_prompt_text(rd) }],
        None => Seq::<MessageView>::empty(),
    }) + ctx.messages
}

/// The model named in the chat-completion request: the context's model with
/// every leading `prefix:` removed, falling back to the backend's default
/// when nothing is left.
pub open spec fn spec_request_model(
    ctx: ChatContextView,
    model_prefix: Seq<char>,
    default_model: Option<Seq<char>>,
) -> Seq<char> {
    let m0 = match ctx.model {
        Some(m) => m,
        None => Seq::<char>::empty(),
    };
    let stripped = spec_strip_repeated(m0, model_prefix + ":"@);
    if stripped.len() == 0 {
        match default_model {
            Some(d) => d,
            None => Seq::<char>::empty(),
        }
    } else {
        stripped
    }
}

/// Convert the context into the plain parts of a chat-completion request:
/// the model to ask for and the ordered request messages.
pub fn convert_to_chat_request(
    context: &ChatContext,
    model_prefix: &str,
    default_model: &Option<String>,
) -> (r: (String, Vec<Message>))
    ensures
        r.0@ == spec_request_model(context@, model_prefix@, default_model.deep_view()),
        r.1.deep_view() == spec_request_messages(context@),
{
    let mut messages: Vec<Message> = Vec::new();
    let ghost lead = (match context@.role {
        Some(rd) => seq![MessageView { role: ChatRole::System, content: spec_prompt_text(rd) }],
        None => Seq::<MessageView>::empty(),
    });
    if let Some(role) = &context.role {
        messages.push(Message::new(ChatRole::System, role.get_prompt()));
        proof {
            assert(messages.deep_view() =~= lead);
        }
    } else {
        proof {
            assert(messages.deep_view() =~= lead);
        }
    }
    let ghost msgs = context.messages.deep_view();
    let mut i: usize = 0;
    while i < context.messages.len()
        invariant
            i <= context.messages.len(),
            msgs == context.messages.deep_view(),
            lead == (match context@.role {
                Some(rd) => seq![
                    MessageView { role: ChatRole::System, content: spec_prompt_text(rd) },
                ],
                None => Seq::<MessageView>::empty(),
            }),
            messages.deep_view() == lead + msgs.take(i as int),
        decreases context.messages.len() - i,
    {
        let ghost dv = messages.deep_view();
        messages.push(context.messages[i].clone());
        proof {
            assert(msgs[i as int] == context.messages[i as int]@);
            assert(messages.deep_view() =~= dv.push(msgs[i as int]));
            assert(messages.deep_view() =~= lead + msgs.take(i + 1));
        }
        i += 1;
    }
    proof {
        assert(msgs.take(context.messages.len() as int) =~= msgs);
    }
    let model_source: String = match &context.model {
        Some(m) => m.clone(),
        None => String::new(),
    };
    let mut pfx = String::from_str(model_prefix);
    pfx.append(":");
    let stripped = crate::text::strip_prefix_repeated(model_source.as_str(), pfx.as_str());
    proof {
        assert(pfx@ =~= model_prefix@ + ":"@);
    }
    let model: String = if stripped.as_str().unicode_len() == 0 {
        match default_model {
            Some(d) => d.clone(),
            None => String::new(),
        }
    } else {
        stripped
    };
    (model, messages)
}

} // verus!

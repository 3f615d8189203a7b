//! Backends: the configured LLM providers, and the manager that lists,
//! validates and routes model names across them.
//!
//! Model names are namespaced as `"<backend_name>:<model>"` whenever more
//! than one backend is configured; with a single backend they stay bare.

use vstd::prelude::*;

use crate::role::{spec_prepend_role_internal, RoleDetails, RoleDetailsView};
use crate::text::{spec_has_prefix, str_eq};

verus! {

/// The role a message plays in a conversation.
#[derive(Clone, Copy, Debug, PartialEq, Eq, Structural)]
pub enum ChatRole {
    User,
    Assistant,
    System,
}

/// A generic message of the conversation.
#[derive(Debug)]
pub struct Message {
    pub role: ChatRole,
    pub content: String,
}

pub struct MessageView {
    pub role: ChatRole,
    pub content: Seq<char>,
}

impl View for Message {
    type V = MessageView;

    open spec fn view(&self) -> MessageView {
        MessageView { role: self.role, content: self.content@ }
    }
}

impl DeepView for Message {
    type V = MessageView;

    open spec fn deep_view(&self) -> MessageView {
        self.view()
    }
}

impl Clone for Message {
    fn clone(&self) -> (r: Self)
        ensures
            r@ == self@,
    {
        Message { role: self.role, content: self.content.clone() }
    }
}

/// The label under which a chat role appears in a rendered transcript.
pub open spec fn spec_role_label(r: ChatRole) -> Seq<char> {
    match r {
        ChatRole::User => "USER"@,
        ChatRole::Assistant => "ASSISTANT"@,
        ChatRole::System => "SYSTEM"@,
    }
}

impl Message {
    /// Create a new message.
    pub fn new(role: ChatRole, content: String) -> (r: Message)
        ensures
            r.role == role,
            r.content == content,
    {
        Message { role, content }
    }

    /// The message as one `LABEL: content` transcript line, without newline.
    pub fn display_string(&self) -> (r: String)
        ensures
            r@ == spec_role_label(self@.role) + ": "@ + self@.content,
    {
        let mut s = role_label(self.role);
        s.append(": ");
        s.append(self.content.as_str());
        s
    }
}

/// The rendered label of a chat role.
pub fn role_label(r: ChatRole) -> (s: String)
    ensures
        s@ == spec_role_label(r),
{
    match r {
        ChatRole::User => String::from_str("USER"),
        ChatRole::Assistant => String::from_str("ASSISTANT"),
        ChatRole::System => String::from_str("SYSTEM"),
    }
}

/// The unit of work sent to a backend: the ordered conversation, the chosen
/// model, media references and the persona to prepend.
pub struct ChatContext {
    /// The conversation, oldest first
    pub messages: Vec<Message>,
    /// The model to answer with, when one was chosen
    pub model: Option<String>,
    /// References to media attached to the conversation, oldest first
    pub media: Vec<String>,
    /// The persona to prepend, when one is configured
    pub role: Option<RoleDetails>,
}

pub struct ChatContextView {
    pub messages: Seq<MessageView>,
    pub model: Option<Seq<char>>,
    pub media: Seq<Seq<char>>,
    pub role: Option<RoleDetailsView>,
}

impl View for ChatContext {
    type V = ChatContextView;

    open spec fn view(&self) -> ChatContextView {
        ChatContextView {
            messages: self.messages.deep_view(),
            model: self.model.deep_view(),
            media: self.media.deep_view(),
            role: match self.role {
                Some(ref r) => Some(r@),
                None => None,
            },
        }
    }
}

/// One rendered transcript line, newline-terminated.
pub open spec fn spec_message_line(m: MessageView) -> Seq<char> {
    spec_role_label(m.role) + ": "@ + m.content + "\n"@
}

/// The rendered transcript: one line per message, in order.
pub open spec fn spec_prompt_body(msgs: Seq<MessageView>) -> Seq<char>
    decreases msgs.len(),
{
    if msgs.len() == 0 {
        Seq::empty()
    } else {
        spec_message_line(msgs[0]) + spec_prompt_body(msgs.drop_first())
    }
}

/// The full prompt: the transcript followed by a cue for the assistant to
/// speak next.
pub open spec fn spec_string_prompt(msgs: Seq<MessageView>) -> Seq<char> {
    spec_prompt_body(msgs) + "ASSISTANT: "@
}

/// The full prompt with the role's preamble prepended, when a role is set.
pub open spec fn spec_string_prompt_with_role(ctx: ChatContextView) -> Seq<char> {
    match ctx.role {
        Some(rd) => spec_prepend_role_internal(spec_string_prompt(ctx.messages), rd),
        None => spec_string_prompt(ctx.messages),
    }
}

proof fn lemma_prompt_body_take_succ(msgs: Seq<MessageView>, i: int)
    requires
        0 <= i < msgs.len(),
    ensures
        spec_prompt_body(msgs.take(i + 1)) == spec_prompt_body(msgs.take(i)) + spec_message_line(
            msgs[i],
        ),
    decreases i,
{
    if i == 0 {
        assert(msgs.take(1)[0] == msgs[0]);
        assert(msgs.take(1).drop_first() =~= Seq::<MessageView>::empty());
        assert(msgs.take(0) =~= Seq::<MessageView>::empty());
        assert(spec_prompt_body(msgs.take(1)) =~= spec_prompt_body(msgs.take(0))
            + spec_message_line(msgs[0]));
    } else {
        let t = msgs.drop_first();
        lemma_prompt_body_take_succ(t, i - 1);
        assert(msgs.take(i + 1).drop_first() =~= t.take(i));
        assert(msgs.take(i).drop_first() =~= t.take(i - 1));
        assert(msgs.take(i + 1)[0] == msgs[0]);
        assert(msgs.take(i)[0] == msgs[0]);
        assert(t[i - 1] == msgs[i]);
        assert(spec_prompt_body(msgs.take(i + 1)) =~= spec_prompt_body(msgs.take(i))
            + spec_message_line(msgs[i]));
    }
}

impl ChatContext {
    /// Render the conversation as a single prompt string: one line per
    /// message, then a cue for the assistant to speak next.
    pub fn string_prompt(&self) -> (r: String)
        ensures
            r@ == spec_string_prompt(self@.messages),
    {
        let ghost msgs = self.messages.deep_view();
        let mut prompt = String::new();
        proof {
            assert(msgs.take(0) =~= Seq::<MessageView>::empty());
            assert(prompt@ =~= spec_prompt_body(msgs.take(0)));
        }
        let mut i: usize = 0;
        while i < self.messages.len()
            invariant
                i <= self.messages.len(),
                msgs == self.messages.deep_view(),
                prompt@ == spec_prompt_body(msgs.take(i as int)),
            decreases self.messages.len() - i,
        {
            let line = self.messages[i].display_string();
            prompt.append(line.as_str());
            prompt.append("\n");
            proof {
                lemma_prompt_body_take_succ(msgs, i as int);
                assert(msgs[i as int] == self.messages[i as int]@);
                assert(prompt@ =~= spec_prompt_body(msgs.take(i as int)) + spec_message_line(
                    msgs[i as int],
                ));
            }
            i += 1;
        }
        proof {
            assert(msgs.take(self.messages.len() as int) =~= msgs);
        }
        prompt.append("ASSISTANT: ");
        prompt
    }

    /// Render the conversation as a single prompt string with the role's
    /// preamble prepended.
    pub fn string_prompt_with_role(&self) -> (r: String)
        ensures
            r@ == spec_string_prompt_with_role(self@),
    {
        let prompt = self.string_prompt();
        if let Some(role) = &self.role {
            crate::role::prepend_role_internal(prompt, role)
        } else {
            prompt
        }
    }
}

/// The kind of a configured backend.
#[derive(Clone, Copy, Debug, PartialEq, Eq, Structural)]
pub enum BackendType {
    AIChat,
    OpenAICompatible,
}

/// Configuration record for one backend.
#[derive(Debug)]
pub struct Backend {
    /// The kind of backend
    pub backend_type: BackendType,
    /// The base URL for the API (HTTP backends only)
    pub api_base: Option<String>,
    /// The API key to use for the API (HTTP backends only)
    pub api_key: Option<String>,
    /// Models known to this backend; for HTTP backends declared in the
    /// config, for subprocess backends filled from a probe of the binary
    pub models: Option<Vec<String>>,
    /// Name of this backend, used to namespace its models as "name:model";
    /// defaults by kind to "aichat" or "openai"
    pub name: Option<String>,
    /// The config directory, used by the subprocess backend
    pub config_dir: Option<String>,
    /// The backend's default model, where known ahead of time; for
    /// subprocess backends filled from a probe of the binary
    pub default_model: Option<String>,
}

pub struct BackendView {
    pub backend_type: BackendType,
    pub api_base: Option<Seq<char>>,
    pub api_key: Option<Seq<char>>,
    pub models: Option<Seq<Seq<char>>>,
    pub name: Option<Seq<char>>,
    pub config_dir: Option<Seq<char>>,
    pub default_model: Option<Seq<char>>,
}

impl View for Backend {
    type V = BackendView;

    open spec fn view(&self) -> BackendView {
        BackendView {
            backend_type: self.backend_type,
            api_base: self.api_base.deep_view(),
            api_key: self.api_key.deep_view(),
            models: self.models.deep_view(),
            name: self.name.deep_view(),
            config_dir: self.config_dir.deep_view(),
            default_model: self.default_model.deep_view(),
        }
    }
}

impl DeepView for Backend {
    type V = BackendView;

    open spec fn deep_view(&self) -> BackendView {
        self.view()
    }
}

/// Clone an optional string, field for field.
fn clone_opt_string(o: &Option<String>) -> (r: Option<String>)
    ensures
        r.deep_view() == o.deep_view(),
{
    match o {
        Some(s) => Some(s.clone()),
        None => None,
    }
}

/// Clone a vector of strings, element for element.
pub fn clone_string_vec(v: &Vec<String>) -> (r: Vec<String>)
    ensures
        r.deep_view() == v.deep_view(),
{
    let mut r: Vec<String> = Vec::new();
    let mut i: usize = 0;
    while i < v.len()
        invariant
            i <= v.len(),
            r.deep_view() =~= v.deep_view().take(i as int),
        decreases v.len() - i,
    {
        let ghost dv = r.deep_view();
        r.push(v[i].clone());
        proof {
            assert(v.deep_view()[i as int] == v[i as int]@);
            assert(r.deep_view() =~= dv.push(v.deep_view()[i as int]));
            assert(dv.push(v.deep_view()[i as int]) =~= v.deep_view().take(i + 1));
        }
        i += 1;
    }
    proof {
        assert(v.deep_view().take(v.len() as int) =~= v.deep_view());
    }
    r
}

impl Clone for Backend {
    fn clone(&self) -> (r: Self)
        ensures
            r@ == self@,
    {
        let r = Backend {
            backend_type: self.backend_type,
            api_base: clone_opt_string(&self.api_base),
            api_key: clone_opt_string(&self.api_key),
            models: match &self.models {
                Some(m) => Some(clone_string_vec(m)),
                None => None,
            },
            name: clone_opt_string(&self.name),
            config_dir: clone_opt_string(&self.config_dir),
            default_model: clone_opt_string(&self.default_model),
        };
        assert(r@ =~= self@);
        r
    }
}

/// The display name of a backend: its explicit name, else a default derived
/// from its kind.
pub open spec fn spec_get_name(b: BackendView) -> Seq<char> {
    match b.name {
        Some(n) => n,
        None => match b.backend_type {
            BackendType::AIChat => "aichat"@,
            BackendType::OpenAICompatible => "openai"@,
        },
    }
}

impl Backend {
    /// A bare backend of the given kind, with nothing else configured.
    pub fn new(backend_type: BackendType) -> (r: Self)
        ensures
            r@.backend_type == backend_type,
            r@.api_base is None,
            r@.api_key is None,
            r@.models is None,
            r@.name is None,
            r@.config_dir is None,
            r@.default_model is None,
    {
        Backend {
            backend_type,
            api_base: None,
            api_key: None,
            models: None,
            name: None,
            config_dir: None,
            default_model: None,
        }
    }

    /// Get the display name for this backend.
    pub fn get_name(&self) -> (r: String)
        ensures
            r@ == spec_get_name(self@),
    {
        match &self.name {
            Some(name) => name.clone(),
            None => match self.backend_type {
                BackendType::AIChat => String::from_str("aichat"),
                BackendType::OpenAICompatible => String::from_str("openai"),
            },
        }
    }
}

/// The models a backend declares, empty when none are declared.
pub open spec fn spec_backend_models(b: BackendView) -> Seq<Seq<char>> {
    match b.models {
        Some(m) => m,
        None => Seq::empty(),
    }
}

/// A backend's declared models, each namespaced with its display name.
pub open spec fn spec_prefixed_models(b: BackendView) -> Seq<Seq<char>> {
    spec_backend_models(b).map_values(|m: Seq<char>| spec_get_name(b) + ":"@ + m)
}

/// The namespaced models of every backend of the list, in order.
pub open spec fn spec_all_prefixed(bs: Seq<BackendView>) -> Seq<Seq<char>>
    decreases bs.len(),
{
    if bs.len() == 0 {
        Seq::empty()
    } else {
        spec_prefixed_models(bs[0]) + spec_all_prefixed(bs.drop_first())
    }
}

proof fn lemma_all_prefixed_take_succ(bs: Seq<BackendView>, i: int)
    requires
        0 <= i < bs.len(),
    ensures
        spec_all_prefixed(bs.take(i + 1)) == spec_all_prefixed(bs.take(i)) + spec_prefixed_models(
            bs[i],
        ),
    decreases i,
{
    if i == 0 {
        assert(bs.take(1)[0] == bs[0]);
        assert(bs.take(1).drop_first() =~= Seq::<BackendView>::empty());
        assert(bs.take(0) =~= Seq::<BackendView>::empty());
        assert(spec_all_prefixed(bs.take(1)) =~= spec_all_prefixed(bs.take(0))
            + spec_prefixed_models(bs[0]));
    } else {
        let t = bs.drop_first();
        lemma_all_prefixed_take_succ(t, i - 1);
        assert(bs.take(i + 1).drop_first() =~= t.take(i));
        assert(bs.take(i).drop_first() =~= t.take(i - 1));
        assert(bs.take(i + 1)[0] == bs[0]);
        assert(bs.take(i)[0] == bs[0]);
        assert(t[i - 1] == bs[i]);
        assert(spec_all_prefixed(bs.take(i + 1)) =~= spec_all_prefixed(bs.take(i))
            + spec_prefixed_models(bs[i]));
    }
}

/// All model names the manager knows: bare with a single backend, namespaced
/// with its owning backend's name otherwise.
pub open spec fn spec_list_known_models(bs: Seq<BackendView>) -> Seq<Seq<char>> {
    if bs.len() == 1 {
        spec_backend_models(bs[0])
    } else {
        spec_all_prefixed(bs)
    }
}

/// Whether a model name passes validation: it is known, or there is only one
/// backend (names cannot be locally verified then), or it carries a
/// configured backend's display name as prefix — the explicit name, else
/// the kind-derived default.
pub open spec fn spec_validate_ok(bs: Seq<BackendView>, m: Seq<char>) -> bool {
    ||| spec_list_known_models(bs).contains(m)
    ||| bs.len() == 1
    ||| exists|i: int|
        #![trigger bs[i]]
        0 <= i < bs.len() && spec_has_prefix(m, spec_get_name(bs[i]) + ":"@)
}

/// Law: with exactly one configured backend, every model name passes
/// validation — it cannot be verified locally.
pub proof fn lemma_single_backend_validates(bs: Seq<BackendView>, m: Seq<char>)
    requires
        bs.len() == 1,
    ensures
        spec_validate_ok(bs, m),
{
}

/// Law: with more than one backend, every listed model carries some
/// backend's display name and the separator as a prefix; with exactly one
/// backend the list is that backend's own, unprefixed.
pub proof fn lemma_models_namespaced(bs: Seq<BackendView>)
    ensures
        bs.len() != 1 ==> forall|k: int|
            0 <= k < spec_list_known_models(bs).len() ==> exists|i: int|
                0 <= i < bs.len() && spec_has_prefix(
                    #[trigger] spec_list_known_models(bs)[k],
                    spec_get_name(bs[i]) + ":"@,
                ),
        bs.len() == 1 ==> spec_list_known_models(bs) == spec_backend_models(bs[0]),
{
    if bs.len() != 1 {
        lemma_all_prefixed_namespaced(bs, 0);
        assert(bs.skip(0) =~= bs);
    }
}

/// Every entry of the namespaced listing of a suffix of the backend list
/// carries one of the full list's backend names as a prefix.
proof fn lemma_all_prefixed_namespaced(all: Seq<BackendView>, offset: int)
    requires
        0 <= offset <= all.len(),
    ensures
        forall|k: int|
            0 <= k < spec_all_prefixed(all.skip(offset)).len() ==> exists|i: int|
                0 <= i < all.len() && spec_has_prefix(
                    #[trigger] spec_all_prefixed(all.skip(offset))[k],
                    spec_get_name(all[i]) + ":"@,
                ),
    decreases all.len() - offset,
{
    let bs = all.skip(offset);
    if bs.len() == 0 {
    } else {
        let b = bs[0];
        assert(b == all[offset]);
        assert(bs.drop_first() =~= all.skip(offset + 1));
        lemma_all_prefixed_namespaced(all, offset + 1);
        let head = spec_prefixed_models(b);
        let tail = spec_all_prefixed(all.skip(offset + 1));
        assert forall|k: int| 0 <= k < spec_all_prefixed(bs).len() implies exists|i: int|
            0 <= i < all.len() && spec_has_prefix(
                #[trigger] spec_all_prefixed(bs)[k],
                spec_get_name(all[i]) + ":"@,
            ) by {
            if k < head.len() {
                let m = spec_backend_models(b)[k];
                assert(spec_all_prefixed(bs)[k] == spec_get_name(b) + ":"@ + m);
                assert(spec_has_prefix(spec_get_name(b) + ":"@ + m, spec_get_name(b) + ":"@)) by {
                    assert((spec_get_name(b) + ":"@ + m).subrange(
                        0,
                        (spec_get_name(b) + ":"@).len() as int,
                    ) =~= spec_get_name(b) + ":"@);
                }
                assert(0 <= offset < all.len() && spec_has_prefix(
                    spec_all_prefixed(bs)[k],
                    spec_get_name(all[offset]) + ":"@,
                ));
            } else {
                assert(spec_all_prefixed(bs)[k] == tail[k - head.len()]);
            }
        }
    }
}

/// Owns the ordered list of configured backends and routes model names
/// across them; index 0 is the default backend.
pub struct BackendManager {
    backends: Vec<Backend>,
}

impl View for BackendManager {
    type V = Seq<BackendView>;

    closed spec fn view(&self) -> Seq<BackendView> {
        self.backends.deep_view()
    }
}

impl BackendManager {
    /// Create a new backend manager.
    ///
    /// If no backends are provided, it defaults to a single bare subprocess
    /// backend.
    pub fn new(backends: &Option<Vec<Backend>>) -> (r: Self)
        ensures
            match backends {
                Some(v) => r@ == v.deep_view(),
                None => r@.len() == 1 && r@[0].backend_type == BackendType::AIChat && r@[0].name
                    is None && r@[0].models is None && r@[0].default_model is None,
            },
    {
        match backends {
            Some(v) => {
                let mut bs: Vec<Backend> = Vec::new();
                let mut i: usize = 0;
                while i < v.len()
                    invariant
                        i <= v.len(),
                        bs.deep_view() =~= v.deep_view().take(i as int),
                    decreases v.len() - i,
                {
                    let ghost dv = bs.deep_view();
                    bs.push(v[i].clone());
                    proof {
                        assert(v.deep_view()[i as int] == v[i as int]@);
                        assert(bs.deep_view() =~= dv.push(v.deep_view()[i as int]));
                        assert(dv.push(v.deep_view()[i as int]) =~= v.deep_view().take(i + 1));
                    }
                    i += 1;
                }
                proof {
                    assert(v.deep_view().take(v.len() as int) =~= v.deep_view());
                }
                BackendManager { backends: bs }
            },
            None => {
                let bs = vec![Backend::new(BackendType::AIChat)];
                assert(bs.deep_view() =~= seq![bs@[0]@]);
                BackendManager { backends: bs }
            },
        }
    }

    /// Lists the display names of all known backends, in order.
    pub fn list_known_backends(&self) -> (r: Vec<String>)
        ensures
            r.deep_view() == self@.map_values(|b: BackendView| spec_get_name(b)),
    {
        let ghost goal = self@.map_values(|b: BackendView| spec_get_name(b));
        let mut r: Vec<String> = Vec::new();
        let mut i: usize = 0;
        while i < self.backends.len()
            invariant
                i <= self.backends.len(),
                self@.len() == self.backends.len(),
                goal == self@.map_values(|b: BackendView| spec_get_name(b)),
                r.deep_view() =~= goal.take(i as int),
            decreases self.backends.len() - i,
        {
            let ghost dv = r.deep_view();
            r.push(self.backends[i].get_name());
            proof {
                assert(self@[i as int] == self.backends[i as int]@);
                assert(r.deep_view() =~= dv.push(spec_get_name(self@[i as int])));
                assert(dv.push(goal[i as int]) =~= goal.take(i + 1));
            }
            i += 1;
        }
        proof {
            assert(goal.take(goal.len() as int) =~= goal);
        }
        r
    }

    /// Lists all known models.
    ///
    /// Models may be valid even if they are not listed: subprocess backends
    /// cannot be enumerated exhaustively.
    pub fn list_known_models(&self) -> (r: Vec<String>)
        ensures
            r.deep_view() == spec_list_known_models(self@),
    {
        if self.backends.len() == 1 {
            let b = &self.backends[0];
            proof {
                assert(self@[0] == self.backends[0]@);
            }
            match &b.models {
                Some(m) => clone_string_vec(m),
                None => {
                    let r: Vec<String> = Vec::new();
                    proof {
                        assert(r.deep_view() =~= Seq::<Seq<char>>::empty());
                    }
                    r
                },
            }
        } else {
            let mut r: Vec<String> = Vec::new();
            proof {
                assert(r.deep_view() =~= Seq::<Seq<char>>::empty());
                assert(Seq::<Seq<char>>::empty() =~= spec_all_prefixed(self@.take(0)));
            }
            let mut i: usize = 0;
            while i < self.backends.len()
                invariant
                    i <= self.backends.len(),
                    self@.len() == self.backends.len(),
                    r.deep_view() =~= spec_all_prefixed(self@.take(i as int)),
                decreases self.backends.len() - i,
            {
                let b = &self.backends[i];
                proof {
                    assert(self@[i as int] == self.backends[i as int]@);
                }
                let name = b.get_name();
                let ghost before_backend = r.deep_view();
                match &b.models {
                    Some(m) => {
                        let mut j: usize = 0;
                        while j < m.len()
                            invariant
                                j <= m.len(),
                                b == self.backends[i as int],
                                i < self.backends.len(),
                                self@.len() == self.backends.len(),
                                self@[i as int] == self.backends[i as int]@,
                                name@ == spec_get_name(b@),
                                b@.models == Some(m.deep_view()),
                                r.deep_view() =~= before_backend + spec_prefixed_models(
                                    b@,
                                ).take(j as int),
                            decreases m.len() - j,
                        {
                            let mut entry = name.clone();
                            entry.append(":");
                            entry.append(m[j].as_str());
                            let ghost dv = r.deep_view();
                            r.push(entry);
                            proof {
                                assert(m.deep_view()[j as int] == m[j as int]@);
                                assert(spec_prefixed_models(b@)[j as int] == spec_get_name(b@)
                                    + ":"@ + m.deep_view()[j as int]);
                                assert(r.deep_view() =~= dv.push(
                                    spec_prefixed_models(b@)[j as int],
                                ));
                                assert(spec_prefixed_models(b@).take(j + 1)
                                    =~= spec_prefixed_models(b@).take(j as int).push(
                                    spec_prefixed_models(b@)[j as int],
                                ));
                                assert(r.deep_view() =~= before_backend + spec_prefixed_models(
                                    b@,
                                ).take(j + 1));
                            }
                            j += 1;
                        }
                        proof {
                            assert(spec_prefixed_models(b@).take(m.len() as int)
                                =~= spec_prefixed_models(b@));
                        }
                    },
                    None => {
                        proof {
                            assert(spec_prefixed_models(b@) =~= Seq::<Seq<char>>::empty());
                            assert(r.deep_view() =~= before_backend + spec_prefixed_models(b@));
                        }
                    },
                }
                proof {
                    lemma_all_prefixed_take_succ(self@, i as int);
                }
                i += 1;
            }
            proof {
                assert(self@.take(self@.len() as int) =~= self@);
            }
            r
        }
    }

    /// Returns true if the model is among the known models.
    pub fn is_known_model(&self, model: &str) -> (r: bool)
        ensures
            r == spec_list_known_models(self@).contains(model@),
    {
        let models = self.list_known_models();
        let mut i: usize = 0;
        while i < models.len()
            invariant
                i <= models.len(),
                models.deep_view() == spec_list_known_models(self@),
                forall|j: int| 0 <= j < i ==> models.deep_view()[j] != model@,
            decreases models.len() - i,
        {
            if str_eq(models[i].as_str(), model) {
                proof {
                    assert(models.deep_view()[i as int] == model@);
                }
                return true;
            }
            proof {
                assert(models.deep_view()[i as int] == models[i as int]@);
            }
            i += 1;
        }
        proof {
            if spec_list_known_models(self@).contains(model@) {
                let k = choose|k: int|
                    0 <= k < spec_list_known_models(self@).len() && spec_list_known_models(self@)[k]
                        == model@;
                assert(models.deep_view()[k] == model@);
            }
        }
        false
    }

    /// Validate a model name.
    ///
    /// With exactly one backend any name is accepted, since it cannot be
    /// verified locally; with more than one, the name must be known or be
    /// prefixed by a configured backend's display name.
    pub fn validate_model(&self, model: &str) -> (r: Result<(), String>)
        ensures
            r is Ok <==> spec_validate_ok(self@, model@),
            r is Err ==> r->Err_0@
                == "Multiple backends exist, please specify the model name with the backend prepended, e.g. openai:gpt-4o or aichat:ollama:llama3"@,
    {
        if self.is_known_model(model) {
            return Ok(());
        }
        if self.backends.len() == 1 {
            return Ok(());
        }
        let mut i: usize = 0;
        while i < self.backends.len()
            invariant
                i <= self.backends.len(),
                self@.len() == self.backends.len(),
                forall|j: int|
                    #![trigger self@[j]]
                    0 <= j < i ==> !spec_has_prefix(model@, spec_get_name(self@[j]) + ":"@),
            decreases self.backends.len() - i,
        {
            let mut pfx: String = self.backends[i].get_name();
            pfx.append(":");
            proof {
                assert(self@[i as int] == self.backends[i as int]@);
                assert(pfx@ =~= spec_get_name(self@[i as int]) + ":"@);
            }
            if crate::text::has_prefix(model, pfx.as_str()) {
                return Ok(());
            }
            i += 1;
        }
        Err(
            String::from_str(
                "Multiple backends exist, please specify the model name with the backend prepended, e.g. openai:gpt-4o or aichat:ollama:llama3",
            ),
        )
    }

    /// Get the default model: the first backend's own default, namespaced
    /// with that backend's name when several backends exist.
    pub fn default_model(&self) -> (r: Option<String>)
        ensures
            r.deep_view() == spec_default_model(self@),
    {
        if self.backends.len() == 0 {
            return None;
        }
        let b = &self.backends[0];
        proof {
            assert(self@[0] == self.backends[0]@);
        }
        let base: Option<String> = match b.backend_type {
            BackendType::AIChat => clone_opt_string(&b.default_model),
            BackendType::OpenAICompatible => match &b.models {
                Some(m) => if m.len() > 0 {
                    proof {
                        assert(m.deep_view()[0] == m@[0]@);
                    }
                    Some(m[0].clone())
                } else {
                    None
                },
                None => None,
            },
        };
        match base {
            None => None,
            Some(m) => {
                if self.backends.len() == 1 {
                    Some(m)
                } else {
                    let mut r = b.get_name();
                    r.append(":");
                    r.append(m.as_str());
                    proof {
                        assert(r@ =~= spec_get_name(self@[0]) + ":"@ + m@);
                    }
                    Some(r)
                }
            },
        }
    }
}

/// Everything a backend run needs, computed ahead of the unverified
/// transport: either a subprocess invocation or an HTTP chat-completion
/// request.
#[derive(Debug)]
pub enum ExecutionPlan {
    Subprocess { binary: String, args: Vec<String>, config_dir: Option<String> },
    Http { api_base: String, api_key: String, model: String, messages: Vec<Message> },
}

#[verifier::ext_equal]
pub enum ExecutionPlanView {
    Subprocess { binary: Seq<char>, args: Seq<Seq<char>>, config_dir: Option<Seq<char>> },
    Http { api_base: Seq<char>, api_key: Seq<char>, model: Seq<char>, messages: Seq<MessageView> },
}

impl View for ExecutionPlan {
    type V = ExecutionPlanView;

    open spec fn view(&self) -> ExecutionPlanView {
        match self {
            ExecutionPlan::Subprocess { binary, args, config_dir } => ExecutionPlanView::Subprocess {
                binary: binary@,
                args: args.deep_view(),
                config_dir: config_dir.deep_view(),
            },
            ExecutionPlan::Http { api_base, api_key, model, messages } => ExecutionPlanView::Http {
                api_base: api_base@,
                api_key: api_key@,
                model: model@,
                messages: messages.deep_view(),
            },
        }
    }
}

/// The first backend whose display name is `f`, if any.
pub open spec fn spec_find_backend(bs: Seq<BackendView>, f: Seq<char>) -> Option<int>
    decreases bs.len(),
{
    if bs.len() == 0 {
        None
    } else if spec_get_name(bs[0]) == f {
        Some(0)
    } else {
        match spec_find_backend(bs.drop_first(), f) {
            Some(i) => Some(i + 1),
            None => None,
        }
    }
}

pub proof fn lemma_find_backend_bounds(bs: Seq<BackendView>, f: Seq<char>)
    ensures
        match spec_find_backend(bs, f) {
            Some(i) => 0 <= i < bs.len() && spec_get_name(bs[i]) == f,
            None => true,
        },
    decreases bs.len(),
{
    if bs.len() == 0 {
    } else if spec_get_name(bs[0]) == f {
    } else {
        lemma_find_backend_bounds(bs.drop_first(), f);
        if spec_find_backend(bs.drop_first(), f) is Some {
            let i = spec_find_backend(bs.drop_first(), f)->Some_0;
            assert(bs.drop_first()[i] == bs[i + 1]);
        }
    }
}

proof fn lemma_find_backend_skip(bs: Seq<BackendView>, f: Seq<char>, i: int)
    requires
        0 <= i <= bs.len(),
        forall|j: int| 0 <= j < i ==> spec_get_name(#[trigger] bs[j]) != f,
    ensures
        spec_find_backend(bs, f) == (match spec_find_backend(bs.skip(i), f) {
            Some(k) => Some(k + i),
            None => None::<int>,
        }),
    decreases i,
{
    if i == 0 {
        assert(bs.skip(0) =~= bs);
        match spec_find_backend(bs, f) {
            Some(k) => {
                assert(k + 0 == k);
            },
            None => {},
        }
    } else {
        assert(spec_get_name(bs[0]) != f);
        lemma_find_backend_skip(bs.drop_first(), f, i - 1);
        assert(forall|j: int| 0 <= j < i - 1 ==> #[trigger] bs.drop_first()[j] == bs[j + 1]);
        assert(bs.drop_first().skip(i - 1) =~= bs.skip(i));
    }
}

/// The index of the backend a context's model routes to: the first backend
/// whose display name matches the model's prefix, else index 0.
pub open spec fn spec_selected_index(bs: Seq<BackendView>, model: Option<Seq<char>>) -> int {
    match model {
        Some(m) => match spec_find_backend(bs, crate::text::spec_split(m, ':')[0]) {
            Some(i) => i,
            None => 0,
        },
        None => 0,
    }
}

/// What executing a context comes to: the selected backend's invocation,
/// fully computed, or the error that precludes it.
pub open spec fn spec_plan(bs: Seq<BackendView>, ctx: ChatContextView) -> Result<
    ExecutionPlanView,
    Seq<char>,
> {
    if bs.len() == 0 {
        Err("No backends configured"@)
    } else {
        let b = bs[spec_selected_index(bs, ctx.model)];
        match b.backend_type {
            BackendType::AIChat => Ok(
                ExecutionPlanView::Subprocess {
                    binary: "aichat"@,
                    args: crate::aichat::spec_aichat_args(b, ctx),
                    config_dir: b.config_dir,
                },
            ),
            BackendType::OpenAICompatible => match b.api_key {
                None => Err("API key doesn't exist"@),
                Some(key) => match b.api_base {
                    None => Err("API base doesn't exist"@),
                    Some(base) => Ok(
                        ExecutionPlanView::Http {
                            api_base: base,
                            api_key: key,
                            model: crate::openai::spec_request_model(
                                ctx,
                                spec_get_name(b),
                                crate::openai::spec_openai_default_model(b),
                            ),
                            messages: crate::openai::spec_request_messages(ctx),
                        },
                    ),
                },
            },
        }
    }
}

impl BackendManager {
    /// The index of the first backend whose display name is `f`, if any.
    fn find_backend_index(&self, f: &str) -> (r: Option<usize>)
        ensures
            match r {
                Some(i) => i < self@.len() && spec_find_backend(self@, f@) == Some(i as int),
                None => spec_find_backend(self@, f@) is None,
            },
    {
        let mut i: usize = 0;
        while i < self.backends.len()
            invariant
                i <= self.backends.len(),
                self@.len() == self.backends.len(),
                forall|j: int| 0 <= j < i ==> spec_get_name(#[trigger] self@[j]) != f@,
            decreases self.backends.len() - i,
        {
            proof {
                assert(self@[i as int] == self.backends[i as int]@);
            }
            let name = self.backends[i].get_name();
            let matched: bool = str_eq(name.as_str(), f);
            if matched {
                proof {
                    lemma_find_backend_skip(self@, f@, i as int);
                    assert(self@.skip(i as int).len() > 0);
                    assert(self@.skip(i as int)[0] == self@[i as int]);
                    assert(spec_find_backend(self@.skip(i as int), f@) == Some(0int));
                }
                return Some(i);
            }
            i += 1;
        }
        proof {
            lemma_find_backend_skip(self@, f@, self@.len() as int);
            assert(self@.skip(self@.len() as int) =~= Seq::<BackendView>::empty());
        }
        None
    }

    /// Compute the selected backend's invocation for this context.
    ///
    /// Selects the backend whose display name matches the model's prefix,
    /// falling back to the first configured backend; with no backends
    /// configured this is an error, as is an HTTP backend missing its key
    /// or base URL.
    pub fn plan_execute(&self, context: &ChatContext) -> (r: Result<ExecutionPlan, String>)
        ensures
            r is Ok <==> spec_plan(self@, context@) is Ok,
            r is Ok ==> r->Ok_0@ == spec_plan(self@, context@)->Ok_0,
            r is Err ==> r->Err_0@ == spec_plan(self@, context@)->Err_0,
    {
        if self.backends.len() == 0 {
            return Err(String::from_str("No backends configured"));
        }
        let idx: usize = match &context.model {
            Some(m) => {
                let parts = crate::text::split_on(m.as_str(), ':');
                let found = self.find_backend_index(parts[0].as_str());
                proof {
                    assert(parts.deep_view()[0] == parts@[0]@);
                }
                match found {
                    Some(i) => i,
                    None => 0,
                }
            },
            None => 0,
        };
        proof {
            assert(idx as int == spec_selected_index(self@, context@.model));
        }
        let b = &self.backends[idx];
        proof {
            assert(self@[idx as int] == self.backends[idx as int]@);
        }
        match b.backend_type {
            BackendType::AIChat => {
                let args = crate::aichat::build_args(b, context);
                let plan = ExecutionPlan::Subprocess {
                    binary: String::from_str("aichat"),
                    args,
                    config_dir: clone_opt_string(&b.config_dir),
                };
                proof {
                    assert(plan@ =~= spec_plan(self@, context@)->Ok_0);
                }
                Ok(plan)
            },
            BackendType::OpenAICompatible => {
                let api_key = match &b.api_key {
                    Some(k) => k.clone(),
                    None => {
                        return Err(String::from_str("API key doesn't exist"));
                    },
                };
                let api_base = match &b.api_base {
                    Some(base) => base.clone(),
                    None => {
                        return Err(String::from_str("API base doesn't exist"));
                    },
                };
                let prefix = b.get_name();
                let default = crate::openai::OpenAI::new(b).default_model();
                let (model, messages) = crate::openai::convert_to_chat_request(
                    context,
                    prefix.as_str(),
                    &default,
                );
                let plan = ExecutionPlan::Http { api_base, api_key, model, messages };
                proof {
                    assert(plan@ =~= spec_plan(self@, context@)->Ok_0);
                }
                Ok(plan)
            },
        }
    }
}

/// A backend's own default model: for a subprocess backend what its probe
/// reported, for an HTTP backend the first of its declared models.
pub open spec fn spec_backend_default(b: BackendView) -> Option<Seq<char>> {
    match b.backend_type {
        BackendType::AIChat => b.default_model,
        BackendType::OpenAICompatible => {
            if spec_backend_models(b).len() > 0 {
                Some(spec_backend_models(b)[0])
            } else {
                None
            }
        },
    }
}

/// The manager's default model: the first backend's own default, namespaced
/// with that backend's name when several backends exist.
pub open spec fn spec_default_model(bs: Seq<BackendView>) -> Option<Seq<char>> {
    if bs.len() == 0 {
        None
    } else {
        match spec_backend_default(bs[0]) {
            None => None,
            Some(m) => if bs.len() == 1 {
                Some(m)
            } else {
                Some(spec_get_name(bs[0]) + ":"@ + m)
            },
        }
    }
}

} // verus!

//! Roles: a named persona consisting of a system prompt and an optional
//! example dialogue, prepended to a prompt before it is sent to a backend.
//!
//! A role is looked up by name, first among the user-defined roles and then
//! among the built-in defaults; the first match wins.

use vstd::prelude::*;

verus! {

/// The speaker of one example message in a role's example dialogue.
#[derive(Clone, Copy, Debug, PartialEq, Eq, Structural)]
pub enum ExampleSpeaker {
    User,
    Assistant,
}

/// One message of a role's example dialogue.
#[derive(Debug)]
pub struct RoleMessage {
    pub user: ExampleSpeaker,
    pub message: String,
}

/// A named persona: a system prompt plus an optional example dialogue.
#[derive(Debug)]
pub struct RoleDetails {
    /// Name of the role, used to reference it
    pub name: String,
    /// Description of the role
    pub description: Option<String>,
    /// The system prompt for the model
    pub prompt: Option<String>,
    /// Example conversations
    pub example: Option<Vec<RoleMessage>>,
}

pub struct RoleMessageView {
    pub user: ExampleSpeaker,
    pub message: Seq<char>,
}

pub struct RoleDetailsView {
    pub name: Seq<char>,
    pub description: Option<Seq<char>>,
    pub prompt: Option<Seq<char>>,
    pub example: Option<Seq<RoleMessageView>>,
}

impl View for RoleMessage {
    type V = RoleMessageView;

    open spec fn view(&self) -> RoleMessageView {
        RoleMessageView { user: self.user, message: self.message@ }
    }
}

impl View for RoleDetails {
    type V = RoleDetailsView;

    open spec fn view(&self) -> RoleDetailsView {
        RoleDetailsView {
            name: self.name@,
            description: match self.description {
                Some(ref d) => Some(d@),
                None => None,
            },
            prompt: match self.prompt {
                Some(ref p) => Some(p@),
                None => None,
            },
            example: match self.example {
                Some(ref e) => Some(e.deep_view()),
                None => None,
            },
        }
    }
}

impl DeepView for RoleMessage {
    type V = RoleMessageView;

    open spec fn deep_view(&self) -> RoleMessageView {
        self.view()
    }
}

impl DeepView for RoleDetails {
    type V = RoleDetailsView;

    open spec fn deep_view(&self) -> RoleDetailsView {
        self.view()
    }
}

impl Clone for RoleMessage {
    fn clone(&self) -> (r: Self)
        ensures
            r@ == self@,
    {
        RoleMessage { user: self.user, message: self.message.clone() }
    }
}

impl Clone for RoleDetails {
    fn clone(&self) -> (r: Self)
        ensures
            r@ == self@,
    {
        let example: Option<Vec<RoleMessage>> = match &self.example {
            Some(e) => {
                let mut v: Vec<RoleMessage> = Vec::new();
                let mut i: usize = 0;
                while i < e.len()
                    invariant
                        i <= e.len(),
                        v.deep_view() =~= e.deep_view().take(i as int),
                    decreases e.len() - i,
                {
                    let ghost dv = v.deep_view();
                    v.push(e[i].clone());
                    proof {
                        assert(e.deep_view()[i as int] == e[i as int]@);
                        assert(v.deep_view() =~= dv.push(e[i as int]@));
                        assert(dv.push(e.deep_view()[i as int]) =~= e.deep_view().take(i + 1));
                    }
                    i += 1;
                }
                proof {
                    assert(e.deep_view().take(e.len() as int) =~= e.deep_view());
                }
                Some(v)
            },
            None => None,
        };
        let r = RoleDetails {
            name: self.name.clone(),
            description: match &self.description {
                Some(d) => Some(d.clone()),
                None => None,
            },
            prompt: match &self.prompt {
                Some(p) => Some(p.clone()),
                None => None,
            },
            example,
        };
        assert(r@ =~= self@);
        r
    }
}

impl RoleDetails {
    /// Build a role from its parts.
    pub fn new(
        name: String,
        description: Option<String>,
        prompt: Option<String>,
        example: Option<Vec<RoleMessage>>,
    ) -> (r: RoleDetails)
        ensures
            r.name == name,
            r.description == description,
            r.prompt == prompt,
            r.example == example,
    {
        RoleDetails { name, description, prompt, example }
    }

    /// The role's system-prompt text, empty when none is set.
    pub fn get_prompt(&self) -> (r: String)
        ensures
            r@ == spec_prompt_text(self@),
    {
        match &self.prompt {
            Some(p) => p.clone(),
            None => String::new(),
        }
    }
}

/// The role's system-prompt text, empty when none is set.
pub open spec fn spec_prompt_text(rd: RoleDetailsView) -> Seq<char> {
    match rd.prompt {
        Some(p) => p,
        None => Seq::empty(),
    }
}

/// The label under which an example speaker appears in a rendered transcript.
pub open spec fn spec_speaker_label(s: ExampleSpeaker) -> Seq<char> {
    match s {
        ExampleSpeaker::User => "USER"@,
        ExampleSpeaker::Assistant => "ASSISTANT"@,
    }
}

/// The rendered label of an example speaker.
pub fn speaker_label(s: ExampleSpeaker) -> (r: &'static str)
    ensures
        r@ == spec_speaker_label(s),
{
    match s {
        ExampleSpeaker::User => "USER",
        ExampleSpeaker::Assistant => "ASSISTANT",
    }
}

/// The rendered example dialogue: one `LABEL: text` line per message.
pub open spec fn spec_example_lines(ex: Seq<RoleMessageView>) -> Seq<char>
    decreases ex.len(),
{
    if ex.len() == 0 {
        Seq::empty()
    } else {
        spec_speaker_label(ex[0].user) + ": "@ + ex[0].message + "\n"@ + spec_example_lines(
            ex.drop_first(),
        )
    }
}

/// Appending one example message extends the rendered dialogue by one line.
pub proof fn lemma_example_lines_take_succ(ex: Seq<RoleMessageView>, i: int)
    requires
        0 <= i < ex.len(),
    ensures
        spec_example_lines(ex.take(i + 1)) == spec_example_lines(ex.take(i)) + (spec_speaker_label(
            ex[i].user,
        ) + ": "@ + ex[i].message + "\n"@),
    decreases i,
{
    if i == 0 {
        assert(ex.take(1)[0] == ex[0]);
        assert(ex.take(1).drop_first() =~= Seq::<RoleMessageView>::empty());
        assert(ex.take(0) =~= Seq::<RoleMessageView>::empty());
        assert(spec_example_lines(ex.take(1)) =~= spec_example_lines(ex.take(0))
            + (spec_speaker_label(ex[0].user) + ": "@ + ex[0].message + "\n"@));
    } else {
        let t = ex.drop_first();
        lemma_example_lines_take_succ(t, i - 1);
        assert(ex.take(i + 1).drop_first() =~= t.take(i));
        assert(ex.take(i).drop_first() =~= t.take(i - 1));
        assert(ex.take(i + 1)[0] == ex[0]);
        assert(ex.take(i)[0] == ex[0]);
        assert(t[i - 1] == ex[i]);
        assert(spec_example_lines(ex.take(i + 1)) =~= spec_example_lines(ex.take(i))
            + (spec_speaker_label(ex[i].user) + ": "@ + ex[i].message + "\n"@));
    }
}

/// The preamble a role contributes: its prompt (newline-terminated when
/// non-empty) followed by the rendered example dialogue.
pub open spec fn spec_role_preamble(rd: RoleDetailsView) -> Seq<char> {
    let p = spec_prompt_text(rd);
    let p_term = if p.len() > 0 {
        p + "\n"@
    } else {
        p
    };
    p_term + (match rd.example {
        Some(e) => spec_example_lines(e),
        None => Seq::empty(),
    })
}

/// The message with the role's preamble prepended.
pub open spec fn spec_prepend_role_internal(message: Seq<char>, rd: RoleDetailsView) -> Seq<char> {
    spec_role_preamble(rd) + message
}

/// Prepend the role's prompt and example dialogue to the message.
pub fn prepend_role_internal(message: String, role_details: &RoleDetails) -> (r: String)
    ensures
        r@ == spec_prepend_role_internal(message@, role_details@),
{
    let mut role_prompt: String = role_details.get_prompt();
    if role_prompt.as_str().unicode_len() != 0 {
        role_prompt.append("\n");
    }
    let ghost p_term = role_prompt@;
    if let Some(example) = &role_details.example {
        let mut i: usize = 0;
        while i < example.len()
            invariant
                i <= example.len(),
                role_prompt@ == p_term + spec_example_lines(example.deep_view().take(i as int)),
            decreases example.len() - i,
        {
            let m = &example[i];
            role_prompt.append(speaker_label(m.user));
            role_prompt.append(": ");
            role_prompt.append(m.message.as_str());
            role_prompt.append("\n");
            proof {
                lemma_example_lines_take_succ(example.deep_view(), i as int);
                assert(example.deep_view()[i as int] == example[i as int]@);
            }
            i += 1;
        }
        proof {
            assert(example.deep_view().take(example.len() as int) =~= example.deep_view());
        }
    } else {
        proof {
            assert(role_prompt@ =~= p_term + Seq::<char>::empty());
        }
    }
    role_prompt.append(message.as_str());
    assert(role_prompt@ =~= spec_prepend_role_internal(message@, role_details@));
    role_prompt
}

/// The first role of `roles` whose name is `name`, if any.
pub open spec fn spec_find_role(roles: Seq<RoleDetailsView>, name: Seq<char>) -> Option<
    RoleDetailsView,
>
    decreases roles.len(),
{
    if roles.len() == 0 {
        None
    } else if roles[0].name == name {
        Some(roles[0])
    } else {
        spec_find_role(roles.drop_first(), name)
    }
}

proof fn lemma_find_role_prefix(roles: Seq<RoleDetailsView>, name: Seq<char>, i: int)
    requires
        0 <= i <= roles.len(),
        forall|j: int| 0 <= j < i ==> roles[j].name != name,
    ensures
        spec_find_role(roles, name) == spec_find_role(roles.skip(i), name),
    decreases i,
{
    if i > 0 {
        assert(roles[0].name != name);
        lemma_find_role_prefix(roles.drop_first(), name, i - 1);
        assert(roles.drop_first().skip(i - 1) =~= roles.skip(i));
    } else {
        assert(roles.skip(0) =~= roles);
    }
}

/// Search a role list for a name; the first match wins.
fn find_role(roles: &Vec<RoleDetails>, name: &str) -> (r: Option<RoleDetails>)
    ensures
        match r {
            Some(rd) => spec_find_role(roles.deep_view(), name@) == Some(rd@),
            None => spec_find_role(roles.deep_view(), name@) is None,
        },
{
    let n = roles.len();
    let mut i: usize = 0;
    while i < n
        invariant
            i <= n,
            n == roles.len(),
            forall|j: int| 0 <= j < i ==> roles.deep_view()[j].name != name@,
        decreases n - i,
    {
        if crate::text::str_eq(roles[i].name.as_str(), name) {
            let rd = roles[i].clone();
            proof {
                lemma_find_role_prefix(roles.deep_view(), name@, i as int);
                assert(roles.deep_view().skip(i as int)[0] == roles.deep_view()[i as int]);
                assert(roles.deep_view()[i as int] == roles[i as int]@);
            }
            return Some(rd);
        }
        assert(roles.deep_view()[i as int] == roles[i as int]@);
        i += 1;
    }
    proof {
        lemma_find_role_prefix(roles.deep_view(), name@, n as int);
        assert(roles.deep_view().skip(n as int) =~= Seq::<RoleDetailsView>::empty());
    }
    None
}

/// Where a role name resolves: user-defined roles are searched first, then
/// the built-in defaults; the first match wins.
pub open spec fn spec_get_role(
    role: Option<Seq<char>>,
    role_list: Option<Seq<RoleDetailsView>>,
    default_roles: Option<Seq<RoleDetailsView>>,
) -> Option<RoleDetailsView> {
    match role {
        None => None,
        Some(name) => {
            let from_list = match role_list {
                Some(l) => spec_find_role(l, name),
                None => None,
            };
            match from_list {
                Some(rd) => Some(rd),
                None => match default_roles {
                    Some(d) => spec_find_role(d, name),
                    None => None,
                },
            }
        },
    }
}

/// Get the role details from the role name.
pub fn get_role(
    role: Option<String>,
    role_list: Option<Vec<RoleDetails>>,
    default_roles: Option<Vec<RoleDetails>>,
) -> (r: Option<RoleDetails>)
    ensures
        match r {
            Some(rd) => spec_get_role(
                role.deep_view(),
                role_list.deep_view(),
                default_roles.deep_view(),
            ) == Some(rd@),
            None => spec_get_role(
                role.deep_view(),
                role_list.deep_view(),
                default_roles.deep_view(),
            ) is None,
        },
{
    let name = match &role {
        Some(n) => n,
        None => {
            return None;
        },
    };
    if let Some(list) = &role_list {
        if let Some(rd) = find_role(list, name.as_str()) {
            return Some(rd);
        }
    }
    if let Some(defaults) = &default_roles {
        if let Some(rd) = find_role(defaults, name.as_str()) {
            return Some(rd);
        }
    }
    None
}

/// The example dialogue as indented report lines.
pub open spec fn spec_example_report(ex: Seq<RoleMessageView>) -> Seq<char>
    decreases ex.len(),
{
    if ex.len() == 0 {
        Seq::empty()
    } else {
        "  "@ + spec_speaker_label(ex[0].user) + ": "@ + ex[0].message + "\n"@
            + spec_example_report(ex.drop_first())
    }
}

proof fn lemma_example_report_take_succ(ex: Seq<RoleMessageView>, i: int)
    requires
        0 <= i < ex.len(),
    ensures
        spec_example_report(ex.take(i + 1)) == spec_example_report(ex.take(i)) + ("  "@
            + spec_speaker_label(ex[i].user) + ": "@ + ex[i].message + "\n"@),
    decreases i,
{
    if i == 0 {
        assert(ex.take(1)[0] == ex[0]);
        assert(ex.take(1).drop_first() =~= Seq::<RoleMessageView>::empty());
        assert(ex.take(0) =~= Seq::<RoleMessageView>::empty());
        assert(spec_example_report(ex.take(1)) =~= spec_example_report(ex.take(0)) + ("  "@
            + spec_speaker_label(ex[0].user) + ": "@ + ex[0].message + "\n"@));
    } else {
        let t = ex.drop_first();
        lemma_example_report_take_succ(t, i - 1);
        assert(ex.take(i + 1).drop_first() =~= t.take(i));
        assert(ex.take(i).drop_first() =~= t.take(i - 1));
        assert(ex.take(i + 1)[0] == ex[0]);
        assert(ex.take(i)[0] == ex[0]);
        assert(t[i - 1] == ex[i]);
        assert(spec_example_report(ex.take(i + 1)) =~= spec_example_report(ex.take(i)) + ("  "@
            + spec_speaker_label(ex[i].user) + ": "@ + ex[i].message + "\n"@));
    }
}

/// The printable report of a role: its name, and whichever of description,
/// prompt and example dialogue it has, one line each.
pub open spec fn spec_role_report(rd: RoleDetailsView) -> Seq<char> {
    "Role: "@ + rd.name + "\n"@ + (match rd.description {
        Some(d) => "Description: "@ + d + "\n"@,
        None => Seq::<char>::empty(),
    }) + (match rd.prompt {
        Some(p) => "Prompt: "@ + p + "\n"@,
        None => Seq::<char>::empty(),
    }) + (match rd.example {
        Some(e) => "Example Messages:\n"@ + spec_example_report(e),
        None => Seq::<char>::empty(),
    })
}

/// Compose the printable report of the named role, when the name resolves.
pub fn role_report(
    role: Option<String>,
    role_list: Option<Vec<RoleDetails>>,
    default_roles: Option<Vec<RoleDetails>>,
) -> (r: Option<String>)
    ensures
        ({
            let found = spec_get_role(
                role.deep_view(),
                role_list.deep_view(),
                default_roles.deep_view(),
            );
            &&& r is Some <==> found is Some
            &&& r is Some ==> r->Some_0@ == spec_role_report(found->Some_0)
        }),
{
    let rd = match get_role(role, role_list, default_roles) {
        Some(rd) => rd,
        None => {
            return None;
        },
    };
    let mut s = String::from_str("Role: ");
    s.append(rd.name.as_str());
    s.append("\n");
    let ghost part1 = s@;
    if let Some(d) = &rd.description {
        s.append("Description: ");
        s.append(d.as_str());
        s.append("\n");
    }
    let ghost part2 = s@;
    proof {
        assert(part2 =~= part1 + (match rd@.description {
            Some(d) => "Description: "@ + d + "\n"@,
            None => Seq::<char>::empty(),
        }));
    }
    if let Some(p) = &rd.prompt {
        s.append("Prompt: ");
        s.append(p.as_str());
        s.append("\n");
    }
    let ghost part3 = s@;
    proof {
        assert(part3 =~= part2 + (match rd@.prompt {
            Some(p) => "Prompt: "@ + p + "\n"@,
            None => Seq::<char>::empty(),
        }));
    }
    if let Some(example) = &rd.example {
        s.append("Example Messages:\n");
        let ghost base = s@;
        let mut i: usize = 0;
        while i < example.len()
            invariant
                i <= example.len(),
                s@ == base + spec_example_report(example.deep_view().take(i as int)),
            decreases example.len() - i,
        {
            let m = &example[i];
            s.append("  ");
            s.append(speaker_label(m.user));
            s.append(": ");
            s.append(m.message.as_str());
            s.append("\n");
            proof {
                lemma_example_report_take_succ(example.deep_view(), i as int);
                assert(example.deep_view()[i as int] == example[i as int]@);
                assert(s@ =~= base + spec_example_report(
                    example.deep_view().take(i as int),
                ) + ("  "@ + spec_speaker_label(example.deep_view()[i as int].user) + ": "@
                    + example.deep_view()[i as int].message + "\n"@));
            }
            i += 1;
        }
        proof {
            assert(example.deep_view().take(example.len() as int) =~= example.deep_view());
        }
    }
    proof {
        assert(s@ =~= spec_role_report(rd@));
    }
    Some(s)
}

/// Prepend the named role's preamble to the message; when the name resolves
/// to no role, the message is returned unchanged.
pub fn prepend_role(
    message: String,
    role: Option<String>,
    role_list: Option<Vec<RoleDetails>>,
    default_roles: Option<Vec<RoleDetails>>,
) -> (r: String)
    ensures
        r@ == (match spec_get_role(
            role.deep_view(),
            role_list.deep_view(),
            default_roles.deep_view(),
        ) {
            Some(rd) => spec_prepend_role_internal(message@, rd),
            None => message@,
        }),
{
    if let Some(role_details) = get_role(role, role_list, default_roles) {
        return prepend_role_internal(message, &role_details);
    }
    message
}

} // verus!

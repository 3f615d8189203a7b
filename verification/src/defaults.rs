//! The built-in roles: personas any user can select by name, searched after
//! the user-defined roles.

use vstd::prelude::*;

use crate::role::{ExampleSpeaker, RoleDetails, RoleMessage};

verus! {

/// One example exchange: the user asks whether the persona is ready, and it
/// answers in its own voice.
fn ready_example(answer: &str) -> (r: Vec<RoleMessage>)
    ensures
        r.deep_view().len() == 2,
        r.deep_view()[0].user == ExampleSpeaker::User,
        r.deep_view()[0].message == "Are you ready?"@,
        r.deep_view()[1].user == ExampleSpeaker::Assistant,
        r.deep_view()[1].message == answer@,
{
    let mut v: Vec<RoleMessage> = Vec::new();
    v.push(
        RoleMessage { user: ExampleSpeaker::User, message: String::from_str("Are you ready?") },
    );
    v.push(RoleMessage { user: ExampleSpeaker::Assistant, message: String::from_str(answer) });
    proof {
        assert(v.deep_view().len() == 2);
        assert(v.deep_view()[0] == v@[0]@);
        assert(v.deep_view()[1] == v@[1]@);
    }
    v
}

/// A shell-command persona: it turns a description into one command of the
/// named shell and outputs nothing else.
fn shell_role(name: &str, description: &str, shell: &str) -> (r: RoleDetails)
    ensures
        r@.name == name@,
        r@.description == Some(description@),
        r@.prompt is Some,
        r@.example is None,
{
    let mut prompt = String::from_str(
        "Based on the following user description, generate a corresponding ",
    );
    prompt.append(shell);
    prompt.append(
        " shell command. Focus solely on interpreting the requirements and translating them into a single, executable ",
    );
    prompt.append(shell);
    prompt.append(
        " command. Ensure accuracy and relevance to the user's description. The output should be a valid ",
    );
    prompt.append(shell);
    prompt.append(
        " command that directly aligns with the user's intent, ready for execution in a command-line environment. Do not output anything except for the command. No code block, no English explanation, no newlines, and no start/end tags.",
    );
    RoleDetails::new(
        String::from_str(name),
        Some(String::from_str(description)),
        Some(prompt),
        None,
    )
}

/// The built-in roles, in search order.
pub fn default_roles() -> (r: Vec<RoleDetails>)
    ensures
        r.deep_view().len() == 8,
        r.deep_view()[0].name == "chaz"@,
        r.deep_view()[1].name == "chazmina"@,
        r.deep_view()[2].name == "cave-chaz"@,
        r.deep_view()[3].name == "cave-chazmina"@,
        r.deep_view()[4].name == "bash"@,
        r.deep_view()[5].name == "fish"@,
        r.deep_view()[6].name == "zsh"@,
        r.deep_view()[7].name == "nu"@,
{
    let mut v: Vec<RoleDetails> = Vec::new();
    v.push(
        RoleDetails::new(
            String::from_str("chaz"),
            Some(String::from_str("Chaz is Chaz")),
            Some(
                String::from_str(
                    "Your name is Chaz, you are an AI assistant, and you refer to yourself in the third person.",
                ),
            ),
            Some(ready_example("Chaz is ready.")),
        ),
    );
    v.push(
        RoleDetails::new(
            String::from_str("chazmina"),
            Some(String::from_str("Chaz is Chazmina")),
            Some(
                String::from_str(
                    "Your name is Chazmina, you are an AI assistant, and you refer to yourself in the third person.",
                ),
            ),
            Some(ready_example("Chazmina is ready.")),
        ),
    );
    v.push(
        RoleDetails::new(
            String::from_str("cave-chaz"),
            Some(String::from_str("Chaz is Cave Man Chaz")),
            Some(
                String::from_str(
                    "Your name is Chaz, you are an AI assistant, you talk like a cave man, and you refer to yourself in the third person.",
                ),
            ),
            Some(ready_example("Chaz is ready.")),
        ),
    );
    v.push(
        RoleDetails::new(
            String::from_str("cave-chazmina"),
            Some(String::from_str("Chaz is Cave Man Chazmina")),
            Some(
                String::from_str(
                    "Your name is Chazmina, you are an AI assistant, you talk like a cave man, and you refer to yourself in the third person.",
                ),
            ),
            Some(ready_example("Chazmina is ready.")),
        ),
    );
    v.push(shell_role("bash", "Get a bash shell command", "Bash"));
    v.push(shell_role("fish", "Get a fish shell command", "Fish"));
    v.push(shell_role("zsh", "Get a zsh shell command", "Zsh"));
    v.push(shell_role("nu", "Get a nushell command", "Nushell"));
    proof {
        assert(v.deep_view().len() == 8);
        assert(v.deep_view()[0] == v@[0]@);
        assert(v.deep_view()[1] == v@[1]@);
        assert(v.deep_view()[2] == v@[2]@);
        assert(v.deep_view()[3] == v@[3]@);
        assert(v.deep_view()[4] == v@[4]@);
        assert(v.deep_view()[5] == v@[5]@);
        assert(v.deep_view()[6] == v@[6]@);
        assert(v.deep_view()[7] == v@[7]@);
    }
    v
}

} // verus!

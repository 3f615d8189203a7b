//! The bot's configuration: plain data provided at startup.

use vstd::prelude::*;

use crate::backends::Backend;
use crate::role::RoleDetails;

verus! {

/// What logging in to the chat server takes.
#[derive(Debug, Clone)]
pub struct Login {
    /// The homeserver URL to connect to
    pub homeserver_url: String,
    /// The username to login with
    pub username: String,
    /// The password; asked for on the command line when absent
    pub password: Option<String>,
}

/// What the protocol-client side of the bot is configured with.
#[derive(Debug, Clone)]
pub struct BotConfig {
    /// Login info for the chat server
    pub login: Login,
    /// Name to use for the bot; defaults to the login username
    pub name: Option<String>,
    /// Allow list of which accounts the bot responds to
    pub allow_list: Option<String>,
    /// The state directory to use; defaults to the platform state directory
    /// plus the bot's name
    pub state_dir: Option<String>,
}

/// Everything the bot is configured with.
#[derive(Debug)]
pub struct Config {
    /// The homeserver to connect to
    pub homeserver_url: String,
    /// The account to log in as
    pub username: String,
    /// The password; asked for interactively when absent
    pub password: Option<String>,
    /// Pattern of the accounts the bot responds to
    pub allow_list: Option<String>,
    /// Per-account message limit while the bot is running
    pub message_limit: Option<u64>,
    /// Room size limit to respond to
    pub room_size_limit: Option<usize>,
    /// The state directory
    pub state_dir: Option<String>,
    /// Model to use for summarizing chats, for the room name and topic
    pub chat_summary_model: Option<String>,
    /// Default role
    pub role: Option<String>,
    /// Definitions of roles
    pub roles: Option<Vec<RoleDetails>>,
    /// Disable sending media context to the subprocess backend
    pub disable_media_context: Option<bool>,
    /// Backend configuration; when absent a single subprocess backend is
    /// assumed
    pub backends: Option<Vec<Backend>>,
}

impl Config {
    /// The model configured for chat summaries, if any.
    pub fn get_chat_summary_model(&self) -> (r: Option<String>)
        ensures
            r.deep_view() == self.chat_summary_model.deep_view(),
    {
        match &self.chat_summary_model {
            Some(m) => Some(m.clone()),
            None => None,
        }
    }

    /// Whether media context is enabled: it is unless disabled explicitly.
    pub fn media_context_enabled(&self) -> (r: bool)
        ensures
            r == !(self.disable_media_context == Some(true)),
    {
        match self.disable_media_context {
            Some(d) => !d,
            None => true,
        }
    }
}

} // verus!

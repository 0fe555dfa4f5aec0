//! Handles on the outside services that deliver messages, render approval
//! prompts and answer prompts. Each holds the credential its calls need; the
//! calls themselves are made by the caller of this crate.
use vstd::prelude::*;
use std::sync::Arc;

verus! {

/// Posts messages to channels of the chat platform.
pub struct DiscordSender {
    token: String,
}

impl DiscordSender {
    /// A sender that authenticates with `token`.
    pub fn new(token: String) -> (r: DiscordSender)
        ensures
            r.token() == token,
    {
        DiscordSender { token }
    }

    /// The credential of the sender.
    pub closed spec fn token(&self) -> String {
        self.token
    }

    /// The credential of the sender.
    pub fn credential(&self) -> (r: &str)
        ensures
            r@ == self.token()@,
    {
        self.token.as_str()
    }
}

/// Sends direct messages to users of the chat platform.
pub struct DiscordDmSender {
    token: String,
}

impl DiscordDmSender {
    /// A sender that authenticates with `token`.
    pub fn new(token: String) -> (r: DiscordDmSender)
        ensures
            r.token() == token,
    {
        DiscordDmSender { token }
    }

    /// The credential of the sender.
    pub closed spec fn token(&self) -> String {
        self.token
    }

    /// The credential of the sender.
    pub fn credential(&self) -> (r: &str)
        ensures
            r@ == self.token()@,
    {
        self.token.as_str()
    }
}

/// Answers prompts through the language model's completion API.
pub struct OpenAIService {
    api_key: String,
}

impl OpenAIService {
    /// A client that authenticates with `api_key`.
    pub fn new(api_key: String) -> (r: OpenAIService)
        ensures
            r.api_key() == api_key,
    {
        OpenAIService { api_key }
    }

    /// The credential of the client.
    pub closed spec fn api_key(&self) -> String {
        self.api_key
    }

    /// The credential of the client.
    pub fn credential(&self) -> (r: &str)
        ensures
            r@ == self.api_key()@,
    {
        self.api_key.as_str()
    }
}

/// Renders approval prompts and status messages on the chat platform.
pub struct DiscordApprovalPromptService {
    token: Arc<String>,
}

impl DiscordApprovalPromptService {
    /// A service that authenticates with `token`.
    pub fn new(token: Arc<String>) -> (r: DiscordApprovalPromptService)
        ensures
            r.token() == token,
    {
        DiscordApprovalPromptService { token }
    }

    /// The credential of the service.
    pub closed spec fn token(&self) -> Arc<String> {
        self.token
    }

    /// The credential of the service.
    pub fn credential(&self) -> (r: &str)
        ensures
            r@ == (*self.token())@,
    {
        self.token.as_str()
    }
}

} // verus!

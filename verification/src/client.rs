//! What goes to a model that writes policies and what is made of its
//! answer. Sending and receiving is left to the caller.

use vstd::prelude::*;
use vstd::string::StringExecFns;
use crate::error::ErrorText;
use crate::literal::{parse_u64, unsigned_of};
use crate::policy::{some_fallback, Policy};
use crate::response::{fenced_policy, joined_text, MessageResponse};
use crate::text::{append_decimal, chars_of, decimal_text};
use crate::toon::{parse, policy_model, policy_of, PolicyText};

verus! {

/// The most tokens asked of the model.
pub const MAX_TOKENS: u32 = 4096;

/// The seconds to wait after a refusal for too many requests that names no
/// time.
pub const DEFAULT_RETRY_SECONDS: u64 = 60;

/// What a client is made with.
#[derive(Debug, Clone)]
pub struct ClientConfig {
    /// The key for the service.
    pub api_key: String,
    /// The model to use.
    pub model: String,
    /// Seconds to wait for an answer.
    pub timeout_seconds: u64,
}

/// What can go wrong with the model.
#[derive(Debug, Clone, PartialEq, Eq)]
pub enum ClientError {
    /// The service refused the request.
    ApiError(String),
    /// Too many requests.
    RateLimited {
        /// Seconds to wait before the next request.
        retry_after_seconds: u64,
    },
    /// The key is missing or refused.
    InvalidApiKey,
    /// The answer cannot be read.
    ParseError(String),
    /// The answer holds no valid policy.
    ToonValidationError(String),
}

/// An error of the client, by what it says.
pub enum ClientErrorText {
    ApiError(Seq<char>),
    RateLimited { retry_after_seconds: u64 },
    InvalidApiKey,
    ParseError(Seq<char>),
    ToonValidationError(Seq<char>),
}

impl View for ClientError {
    type V = ClientErrorText;

    open spec fn view(&self) -> ClientErrorText {
        match self {
            ClientError::ApiError(m) => ClientErrorText::ApiError(m@),
            ClientError::RateLimited { retry_after_seconds } => ClientErrorText::RateLimited {
                retry_after_seconds: *retry_after_seconds,
            },
            ClientError::InvalidApiKey => ClientErrorText::InvalidApiKey,
            ClientError::ParseError(m) => ClientErrorText::ParseError(m@),
            ClientError::ToonValidationError(m) => ClientErrorText::ToonValidationError(m@),
        }
    }
}

impl ClientErrorText {
    /// The message shown to the user.
    pub open spec fn message(self) -> Seq<char> {
        match self {
            ClientErrorText::ApiError(m) => "API request failed: "@ + m,
            ClientErrorText::RateLimited { retry_after_seconds } => "rate limited, retry after "@
                + decimal_text(retry_after_seconds as nat) + "s"@,
            ClientErrorText::InvalidApiKey => "invalid API key"@,
            ClientErrorText::ParseError(m) => "failed to parse response: "@ + m,
            ClientErrorText::ToonValidationError(m) => "TOON validation failed: "@ + m,
        }
    }
}

impl ClientError {
    /// The message shown to the user.
    pub fn message(&self) -> (s: String)
        ensures
            s@ == self@.message(),
    {
        let mut out = String::new();
        match self {
            ClientError::ApiError(m) => {
                out.append("API request failed: ");
                out.append(m.as_str());
                assert(out@ =~= "API request failed: "@ + m@);
            },
            ClientError::RateLimited { retry_after_seconds } => {
                out.append("rate limited, retry after ");
                append_decimal(&mut out, *retry_after_seconds as u128);
                out.append("s");
                assert(out@ =~= "rate limited, retry after "@ + decimal_text(
                    *retry_after_seconds as nat,
                ) + "s"@);
            },
            ClientError::InvalidApiKey => {
                out.append("invalid API key");
                assert(out@ =~= "invalid API key"@);
            },
            ClientError::ParseError(m) => {
                out.append("failed to parse response: ");
                out.append(m.as_str());
                assert(out@ =~= "failed to parse response: "@ + m@);
            },
            ClientError::ToonValidationError(m) => {
                out.append("TOON validation failed: ");
                out.append(m.as_str());
                assert(out@ =~= "TOON validation failed: "@ + m@);
            },
        }
        out
    }
}

/// One message of a conversation.
#[derive(Debug, Clone, PartialEq, Eq)]
pub struct Message {
    /// Who speaks.
    pub role: String,
    /// What is said.
    pub content: String,
}

/// A request to the model.
#[derive(Debug, Clone, PartialEq, Eq)]
pub struct MessageRequest {
    /// The model to use.
    pub model: String,
    /// The most tokens of the answer.
    pub max_tokens: u32,
    /// The conversation so far.
    pub messages: Vec<Message>,
    /// What the model is told about its task.
    pub system: Option<String>,
}

/// What the model is told about its task.
pub open spec fn system_prompt() -> Seq<char> {
    "You are a sampling policy expert for Honeycomb Refinery.\nYour task is to generate TOON-formatted sampling policies based on user requirements.\n\nIMPORTANT:\n- Always output valid TOON format\n- Include explicit array counts [N] that match actual items\n- Include descriptions for all rules\n- Never drop error traces (status >= 500)\n- Always include a fallback rule (match: true)\n- Order rules by priority (highest first)"@
}

/// A client of the model.
#[derive(Debug, Clone)]
pub struct Client {
    /// The key for the service.
    pub api_key: String,
    /// The model to use.
    pub model: String,
    /// Seconds to wait for an answer.
    pub timeout_seconds: u64,
}

/// The error of an answer without a block of policy text.
pub open spec fn no_block_error() -> ClientErrorText {
    ClientErrorText::ParseError("No TOON code block found in response"@)
}

/// The error of an answer whose policy has no fallback rule.
pub open spec fn no_fallback_error() -> ClientErrorText {
    ClientErrorText::ToonValidationError(
        "Generated policy lacks a fallback rule (match: true)"@,
    )
}

/// The error of an answer whose policy text cannot be read.
pub open spec fn unreadable_error(e: ErrorText) -> ClientErrorText {
    ClientErrorText::ToonValidationError("Invalid TOON in the response: "@ + e.message())
}

/// Whether a policy text names a fallback rule.
pub open spec fn text_has_fallback(p: PolicyText) -> bool {
    exists|i: int| 0 <= i < p.rules.len() && (#[trigger] p.rules[i]).match_expr == "true"@
}

/// The seconds to wait that a refusal for too many requests names, or a
/// minute.
pub open spec fn retry_seconds(retry_after: Option<&str>) -> u64 {
    match retry_after {
        Some(text) => match unsigned_of(text@) {
            Some(v) if v <= u64::MAX => v as u64,
            _ => DEFAULT_RETRY_SECONDS,
        },
        None => DEFAULT_RETRY_SECONDS,
    }
}

/// The error that the status of an answer stands for, if it stands for
/// one: too many requests, a key refused, or any other status outside the
/// two hundreds, with the status as the service words it and the body of
/// the answer.
pub open spec fn status_error(
    status: u16,
    status_text: Seq<char>,
    retry_after: Option<&str>,
    body: Seq<char>,
) -> Option<ClientErrorText> {
    if status == 429 {
        Some(ClientErrorText::RateLimited { retry_after_seconds: retry_seconds(retry_after) })
    } else if status == 401 {
        Some(ClientErrorText::InvalidApiKey)
    } else if !(200 <= status <= 299) {
        Some(
            ClientErrorText::ApiError(
                "API request failed with status "@ + status_text + ": "@ + body,
            ),
        )
    } else {
        None
    }
}

/// Holds the status of an answer against what is expected.
pub fn check_status(status: u16, status_text: &str, retry_after: Option<&str>, body: &str) -> (r:
    Result<(), ClientError>)
    ensures
        match status_error(status, status_text@, retry_after, body@) {
            Some(e) => r is Err && r->Err_0@ == e,
            None => r is Ok,
        },
{
    if status == 429 {
        let seconds = match retry_after {
            Some(text) => {
                let chars = chars_of(text);
                match parse_u64(chars.as_slice()) {
                    Some(v) => v,
                    None => DEFAULT_RETRY_SECONDS,
                }
            },
            None => DEFAULT_RETRY_SECONDS,
        };
        return Err(ClientError::RateLimited { retry_after_seconds: seconds });
    }
    if status == 401 {
        return Err(ClientError::InvalidApiKey);
    }
    if status < 200 || status > 299 {
        let mut message = String::new();
        message.append("API request failed with status ");
        message.append(status_text);
        message.append(": ");
        message.append(body);
        assert(message@ =~= "API request failed with status "@ + status_text@ + ": "@ + body@);
        return Err(ClientError::ApiError(message));
    }
    Ok(())
}

impl Default for ClientConfig {
    /// No key and no model yet, and two minutes for an answer.
    fn default() -> (c: Self)
        ensures
            c.api_key@.len() == 0,
            c.model@.len() == 0,
            c.timeout_seconds == 120,
    {
        ClientConfig { api_key: String::new(), model: String::new(), timeout_seconds: 120 }
    }
}

impl Client {
    /// Creates a client. A configuration without a key is refused.
    pub fn new(config: ClientConfig) -> (r: Result<Self, ClientError>)
        ensures
            match r {
                Ok(client) => config.api_key@.len() > 0 && client.api_key == config.api_key
                    && client.model == config.model && client.timeout_seconds
                    == config.timeout_seconds,
                Err(e) => config.api_key@.len() == 0 && e == ClientError::InvalidApiKey,
            },
    {
        if config.api_key.as_str().unicode_len() == 0 {
            return Err(ClientError::InvalidApiKey);
        }
        Ok(
            Client {
                api_key: config.api_key,
                model: config.model,
                timeout_seconds: config.timeout_seconds,
            },
        )
    }

    /// The request that asks the model to answer a prompt.
    pub fn request_for(&self, prompt: &str) -> (r: MessageRequest)
        ensures
            r.model == self.model,
            r.max_tokens == MAX_TOKENS,
            r.messages@.len() == 1,
            r.messages@[0].role@ == "user"@,
            r.messages@[0].content@ == prompt@,
            r.system is Some,
            r.system->0@ == system_prompt(),
    {
        let mut messages: Vec<Message> = Vec::new();
        messages.push(Message { role: "user".to_owned(), content: prompt.to_owned() });
        MessageRequest {
            model: self.model.clone(),
            max_tokens: MAX_TOKENS,
            messages,
            system: Some(
                "You are a sampling policy expert for Honeycomb Refinery.\nYour task is to generate TOON-formatted sampling policies based on user requirements.\n\nIMPORTANT:\n- Always output valid TOON format\n- Include explicit array counts [N] that match actual items\n- Include descriptions for all rules\n- Never drop error traces (status >= 500)\n- Always include a fallback rule (match: true)\n- Order rules by priority (highest first)".to_owned(),
            ),
        }
    }

    /// The policy that an answer holds: the text of its fenced block, read
    /// as a policy, which must have a fallback rule.
    pub fn parse_policy_response(response: &MessageResponse) -> (r: Result<Policy, ClientError>)
        ensures
            match fenced_policy(joined_text(response.content@, response.content@.len())) {
                None => r is Err && r->Err_0@ == no_block_error(),
                Some(toon) => match policy_of(toon) {
                    Err(e) => r is Err && r->Err_0@ == unreadable_error(e),
                    Ok(text) => if text_has_fallback(text) {
                        r is Ok && policy_model(r->Ok_0) == text
                    } else {
                        r is Err && r->Err_0@ == no_fallback_error()
                    },
                },
            },
    {
        let toon = match response.extract_toon() {
            Some(toon) => toon,
            None => {
                return Err(
                    ClientError::ParseError("No TOON code block found in response".to_owned()),
                );
            },
        };
        let policy = match parse(toon.as_str()) {
            Ok(policy) => policy,
            Err(e) => {
                let mut message = String::new();
                message.append("Invalid TOON in the response: ");
                message.append(e.message().as_str());
                assert(message@ =~= "Invalid TOON in the response: "@ + e@.message());
                return Err(ClientError::ToonValidationError(message));
            },
        };
        let fallback = policy.has_fallback();
        proof {
            let text = policy_model(policy);
            if some_fallback(policy.rules@) {
                let i = choose|i: int|
                    0 <= i < policy.rules@.len() && (#[trigger] policy.rules@[i]).is_fallback();
                assert(text.rules[i].match_expr == "true"@);
            }
            if text_has_fallback(text) {
                let i = choose|i: int|
                    0 <= i < text.rules.len() && (#[trigger] text.rules[i]).match_expr == "true"@;
                assert(policy.rules@[i].is_fallback());
            }
        }
        if !fallback {
            return Err(
                ClientError::ToonValidationError(
                    "Generated policy lacks a fallback rule (match: true)".to_owned(),
                ),
            );
        }
        Ok(policy)
    }
}

} // verus!

use vstd::prelude::*;
use vstd::string::StringExecFns;
use vstd::utf8::encode_utf8;

use crate::activator::{trim_of, trimmed};

verus! {

/// Longest command, in bytes, that the command service accepts.
pub const MAX_INPUT_LENGTH: usize = 20000;

/// The instructions and example that open every prompt.
pub const PROMPT_HEAD: &'static str = "You are a command handler for a voice assistant. Return a short single sentence describing what the user asked about.\n\nExample:\nUser: \"turn on the living room lights\"\nAssistant: \"User asked about turning on the living room lights.\"\n\nUser: \"";

/// What follows the quoted command in a prompt.
pub const PROMPT_TAIL: &'static str = "\"\nAssistant:";

/// How the command service acknowledges a command.
pub const ACK_HEAD: &'static str = "User asked about ";

/// Why a command was refused.
#[derive(Clone, Copy, Debug, PartialEq, Eq, Structural)]
pub enum CommandError {
    /// Nothing but whitespace was sent.
    MissingText,
    /// The trimmed command is longer than the limit.
    TooLong,
}

/// Trims a command and checks that it is present and within the length limit.
pub fn check_command(text: &str) -> (r: Result<String, CommandError>)
    ensures
        trim_of(text@).len() == 0 ==> r == Err::<String, CommandError>(CommandError::MissingText),
        trim_of(text@).len() > 0 && encode_utf8(trim_of(text@)).len() > MAX_INPUT_LENGTH ==> r
            == Err::<String, CommandError>(CommandError::TooLong),
        trim_of(text@).len() > 0 && encode_utf8(trim_of(text@)).len() <= MAX_INPUT_LENGTH ==> (r matches Ok(
            c,
        ) && c@ == trim_of(text@)),
{
    let command = trimmed(text);
    if command.as_str().is_empty() {
        return Err(CommandError::MissingText);
    }
    if command.as_str().as_bytes().len() > MAX_INPUT_LENGTH {
        return Err(CommandError::TooLong);
    }
    Ok(command)
}

/// The prompt that asks the language model to describe `command`.
pub fn build_prompt(command: &str) -> (r: String)
    ensures
        r@ == PROMPT_HEAD@ + command@ + PROMPT_TAIL@,
{
    let mut prompt = String::from_str(PROMPT_HEAD);
    prompt.append(command);
    prompt.append(PROMPT_TAIL);
    prompt
}

/// The acknowledgement returned for `command`.
pub fn ack_message(command: &str) -> (r: String)
    ensures
        r@ == ACK_HEAD@ + command@,
{
    let mut message = String::from_str(ACK_HEAD);
    message.append(command);
    message
}

/// Address the command service listens on when none is configured.
pub const DEFAULT_COMMAND_BIND_ADDR: &'static str = "127.0.0.1:8092";

/// Language-model server used when none is configured.
pub const DEFAULT_OLLAMA_BASE_URL: &'static str = "http://localhost:11434";

/// Language model used when none is configured.
pub const DEFAULT_OLLAMA_MODEL: &'static str = "gemma3n";

/// Path of the generation endpoint below the server's base URL.
pub const GENERATE_PATH: &'static str = "/api/generate";

/// A setting of the command service that must not be blank.
#[derive(Clone, Copy, Debug, PartialEq, Eq, Structural)]
pub enum CommandSetting {
    OllamaBaseUrl,
    OllamaModel,
}

/// The command service's validated settings.
#[derive(Debug)]
pub struct CommandConfig {
    pub bind_addr: String,
    pub ollama_base_url: String,
    pub ollama_model: String,
}

/// A setting's value, or its default when absent.
pub open spec fn or_default(v: Option<String>, d: Seq<char>) -> Seq<char> {
    match v {
        Some(s) => s@,
        None => d,
    }
}

fn value_or(v: Option<String>, default: &str) -> (r: String)
    ensures
        match v {
            Some(s) => r == s,
            None => r@ == default@,
        },
{
    match v {
        Some(s) => s,
        None => String::from_str(default),
    }
}

impl CommandConfig {
    /// Validates the command service's settings: each has a default; the
    /// server URL and model are kept trimmed and must not be blank.
    pub fn from_values(
        bind_addr: Option<String>,
        ollama_base_url: Option<String>,
        ollama_model: Option<String>,
    ) -> (r: Result<CommandConfig, CommandSetting>)
        ensures
            ({
                let url = trim_of(or_default(ollama_base_url, DEFAULT_OLLAMA_BASE_URL@));
                let model = trim_of(or_default(ollama_model, DEFAULT_OLLAMA_MODEL@));
                &&& url.len() == 0 ==> r == Err::<CommandConfig, CommandSetting>(
                    CommandSetting::OllamaBaseUrl,
                )
                &&& url.len() > 0 && model.len() == 0 ==> r == Err::<CommandConfig, CommandSetting>(
                    CommandSetting::OllamaModel,
                )
                &&& url.len() > 0 && model.len() > 0 ==> {
                    &&& r is Ok
                    &&& r->Ok_0.bind_addr@ == or_default(bind_addr, DEFAULT_COMMAND_BIND_ADDR@)
                    &&& r->Ok_0.ollama_base_url@ == url
                    &&& r->Ok_0.ollama_model@ == model
                }
            }),
    {
        let bind_addr = value_or(bind_addr, DEFAULT_COMMAND_BIND_ADDR);
        let url = value_or(ollama_base_url, DEFAULT_OLLAMA_BASE_URL);
        let ollama_base_url = trimmed(url.as_str());
        if ollama_base_url.as_str().is_empty() {
            return Err(CommandSetting::OllamaBaseUrl);
        }
        let model = value_or(ollama_model, DEFAULT_OLLAMA_MODEL);
        let ollama_model = trimmed(model.as_str());
        if ollama_model.as_str().is_empty() {
            return Err(CommandSetting::OllamaModel);
        }
        Ok(CommandConfig { bind_addr, ollama_base_url, ollama_model })
    }
}

/// `s` without the slashes it ends with.
pub open spec fn without_trailing_slashes(s: Seq<char>) -> Seq<char>
    decreases s.len(),
{
    if s.len() > 0 && s.last() == '/' {
        without_trailing_slashes(s.drop_last())
    } else {
        s
    }
}

/// Relies on `str::trim_end_matches` with a `char` pattern: every trailing
/// `/` removed, nothing else.
#[verifier::external_body]
fn strip_trailing_slashes(s: &str) -> (r: String)
    ensures
        r@ == without_trailing_slashes(s@),
{
    s.trim_end_matches('/').to_string()
}

/// The generation endpoint below a server's base URL.
pub fn generate_url(base_url: &str) -> (r: String)
    ensures
        r@ == without_trailing_slashes(base_url@) + GENERATE_PATH@,
{
    let mut url = strip_trailing_slashes(base_url);
    url.append(GENERATE_PATH);
    url
}

} // verus!

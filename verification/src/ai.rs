//! The AI models the bot offers and the requests it sends to the inference service.
use vstd::prelude::*;

verus! {

/// The base URL of the inference service.
pub const DO_INFERENCE_BASE_URL: &'static str = "https://inference.do-ai.run/v1";

/// Seconds allowed for connecting to the inference service.
pub const AI_CONNECT_TIMEOUT_SECS: u64 = 10;

/// Seconds allowed for a whole request to the inference service.
pub const AI_REQUEST_TIMEOUT_SECS: u64 = 45;

/// The model used when none is configured.
pub const DEFAULT_AI_MODEL: &'static str = "openai-gpt-oss-120b";

/// The models a user may pick for a slash command.
#[derive(Debug, Clone, Copy, PartialEq, Eq, Structural)]
pub enum AiModel {
    Llama3_3_70b,
    Llama3_8b,
    DeepSeekR1_70b,
    MistralNemo,
    Qwen3_32b,
    GptOss120b,
    GptOss20b,
}

impl AiModel {
    /// The id under which the inference service knows the model.
    pub open spec fn id(self) -> Seq<char> {
        match self {
            AiModel::Llama3_3_70b => "llama3.3-70b-instruct"@,
            AiModel::Llama3_8b => "llama3-8b-instruct"@,
            AiModel::DeepSeekR1_70b => "deepseek-r1-distill-llama-70b"@,
            AiModel::MistralNemo => "mistral-nemo-instruct-2407"@,
            AiModel::Qwen3_32b => "alibaba-qwen3-32b"@,
            AiModel::GptOss120b => "openai-gpt-oss-120b"@,
            AiModel::GptOss20b => "openai-gpt-oss-20b"@,
        }
    }

    /// The name shown to users when they pick a model.
    pub open spec fn display_name(self) -> Seq<char> {
        match self {
            AiModel::Llama3_3_70b => "Llama 3.3 70B"@,
            AiModel::Llama3_8b => "Llama 3 8B"@,
            AiModel::DeepSeekR1_70b => "DeepSeek R1 70B"@,
            AiModel::MistralNemo => "Mistral Nemo"@,
            AiModel::Qwen3_32b => "Qwen 3 32B"@,
            AiModel::GptOss120b => "GPT OSS 120B"@,
            AiModel::GptOss20b => "GPT OSS 20B"@,
        }
    }

    /// The id under which the inference service knows the model.
    pub fn model_id(self) -> (id: &'static str)
        ensures
            id@ == self.id(),
    {
        match self {
            AiModel::Llama3_3_70b => "llama3.3-70b-instruct",
            AiModel::Llama3_8b => "llama3-8b-instruct",
            AiModel::DeepSeekR1_70b => "deepseek-r1-distill-llama-70b",
            AiModel::MistralNemo => "mistral-nemo-instruct-2407",
            AiModel::Qwen3_32b => "alibaba-qwen3-32b",
            AiModel::GptOss120b => "openai-gpt-oss-120b",
            AiModel::GptOss20b => "openai-gpt-oss-20b",
        }
    }

    /// The name shown to users when they pick a model.
    pub fn name(self) -> (n: &'static str)
        ensures
            n@ == self.display_name(),
    {
        match self {
            AiModel::Llama3_3_70b => "Llama 3.3 70B",
            AiModel::Llama3_8b => "Llama 3 8B",
            AiModel::DeepSeekR1_70b => "DeepSeek R1 70B",
            AiModel::MistralNemo => "Mistral Nemo",
            AiModel::Qwen3_32b => "Qwen 3 32B",
            AiModel::GptOss120b => "GPT OSS 120B",
            AiModel::GptOss20b => "GPT OSS 20B",
        }
    }
}

/// The model a slash command asks for: the one picked, else the configured default.
pub open spec fn selected_model_spec(model: Option<AiModel>, default_model: Seq<char>) -> Seq<
    char,
> {
    match model {
        Some(m) => m.id(),
        None => default_model,
    }
}

/// The model a slash command asks for: the one picked, else the configured default.
pub fn select_model(model: Option<AiModel>, default_model: &str) -> (m: String)
    ensures
        m@ == selected_model_spec(model, default_model@),
        model matches Some(picked) ==> m@ == picked.id(),
        model is None ==> m@ == default_model@,
{
    match model {
        Some(m) => m.model_id().to_owned(),
        None => default_model.to_owned(),
    }
}

/// Who wrote a message of a conversation with the model.
#[derive(Debug, Clone, Copy, PartialEq, Eq, Structural)]
pub enum Role {
    System,
    User,
}

/// One message of a conversation with the model.
pub struct ChatMessage {
    pub role: Role,
    pub content: String,
}

/// A request for a completion.
pub struct ChatRequest {
    pub model: String,
    pub messages: Vec<ChatMessage>,
}

/// The request for a reply of `model` to `user_message`: the system prompt, then the
/// user's message.
pub fn build_chat_request(model: &str, system_prompt: &str, user_message: &str) -> (r: ChatRequest)
    ensures
        r.model@ == model@,
        r.messages.len() == 2,
        r.messages[0].role == Role::System,
        r.messages[0].content@ == system_prompt@,
        r.messages[1].role == Role::User,
        r.messages[1].content@ == user_message@,
{
    let mut messages: Vec<ChatMessage> = Vec::new();
    messages.push(ChatMessage { role: Role::System, content: system_prompt.to_owned() });
    messages.push(ChatMessage { role: Role::User, content: user_message.to_owned() });
    ChatRequest { model: model.to_owned(), messages }
}

/// Why no reply came out of a completion.
#[derive(Debug, Clone, Copy, PartialEq, Eq, Structural)]
pub enum AiError {
    EmptyResponse,
}

impl AiError {
    /// The message of the error.
    pub fn message(self) -> (m: &'static str)
        ensures
            m@ == "The AI model returned an empty response."@,
    {
        "The AI model returned an empty response."
    }
}

/// The reply in a completion whose choices hold the texts `contents`: the text of the
/// first choice, if there is a first choice and it has a text.
pub fn reply_from_choices(contents: &Vec<Option<String>>) -> (r: Result<String, AiError>)
    ensures
        match r {
            Ok(t) => contents@.len() > 0 && contents@[0] is Some && t@ == contents@[0]->Some_0@,
            Err(e) => e == AiError::EmptyResponse && (contents@.len() == 0 || contents@[0] is None),
        },
{
    if contents.len() == 0 {
        return Err(AiError::EmptyResponse);
    }
    match &contents[0] {
        Some(t) => Ok(t.clone()),
        None => Err(AiError::EmptyResponse),
    }
}

/// Distinct models have distinct ids.
pub proof fn lemma_model_ids_distinct(a: AiModel, b: AiModel)
    requires
        a != b,
    ensures
        a.id() != b.id(),
{
    reveal_strlit("llama3.3-70b-instruct");
    reveal_strlit("llama3-8b-instruct");
    reveal_strlit("deepseek-r1-distill-llama-70b");
    reveal_strlit("mistral-nemo-instruct-2407");
    reveal_strlit("alibaba-qwen3-32b");
    reveal_strlit("openai-gpt-oss-120b");
    reveal_strlit("openai-gpt-oss-20b");
    if a.id() == b.id() {
        assert(a.id().len() == b.id().len());
        assert(a.id()[0] == b.id()[0]);
        assert(a.id()[5] == b.id()[5]);
        assert(a.id()[12] == b.id()[12]);
    }
}

/// The ids of the models, each pinned.
pub proof fn lemma_model_id_values()
    ensures
        AiModel::Llama3_3_70b.id() == "llama3.3-70b-instruct"@,
        AiModel::Llama3_8b.id() == "llama3-8b-instruct"@,
        AiModel::DeepSeekR1_70b.id() == "deepseek-r1-distill-llama-70b"@,
        AiModel::MistralNemo.id() == "mistral-nemo-instruct-2407"@,
        AiModel::Qwen3_32b.id() == "alibaba-qwen3-32b"@,
        AiModel::GptOss120b.id() == "openai-gpt-oss-120b"@,
        AiModel::GptOss20b.id() == "openai-gpt-oss-20b"@,
{
}

/// A picked model is the one asked for, and two different picks never ask for the same
/// model, whatever the default.
pub proof fn lemma_selected_model_is_pick(a: AiModel, b: AiModel, default_model: Seq<char>)
    ensures
        selected_model_spec(Some(a), default_model) == a.id(),
        selected_model_spec(None, default_model) == default_model,
        a != b ==> selected_model_spec(Some(a), default_model) != selected_model_spec(
            Some(b),
            default_model,
        ),
{
    if a != b {
        lemma_model_ids_distinct(a, b);
    }
}

} // verus!


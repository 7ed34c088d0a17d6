//! The agent control channel: the envelope payloads exchanged between
//! the balancer and a connected agent.

use vstd::prelude::*;

use crate::agents::UpdateAgentStatusParams;
use crate::embedding::GenerateEmbeddingBatchParams;
use crate::inference_client::EmbeddingResult;
use crate::inference_client::GeneratedTokenResult;
use crate::inference_server::ContinueFromConversationHistoryParams;
use crate::inference_server::ContinueFromRawPromptParams;
use crate::inference_server::ValidatedParametersSchema;
use crate::jsonrpc::ErrorEnvelope;
use crate::jsonrpc::ResponseEnvelope;
use crate::state::AgentDesiredState;
use crate::state::ChatTemplate;

verus! {

/// What an agent reports about its loaded model.
#[derive(Clone, Debug, PartialEq, Eq)]
pub struct ModelMetadata {
    pub model_name: String,
}

/// A balancer-initiated request to an agent. Conversation-history
/// requests carry only validated tool schemas.
#[derive(Debug, PartialEq, Eq)]
pub enum Request {
    ContinueFromConversationHistory(
        ContinueFromConversationHistoryParams<ValidatedParametersSchema>,
    ),
    ContinueFromRawPrompt(ContinueFromRawPromptParams),
    GenerateEmbeddingBatch(GenerateEmbeddingBatchParams),
    GetChatTemplateOverride,
    GetModelMetadata,
}

impl From<ContinueFromConversationHistoryParams<ValidatedParametersSchema>> for Request {
    fn from(params: ContinueFromConversationHistoryParams<ValidatedParametersSchema>) -> (r: Self)
    {
        Request::ContinueFromConversationHistory(params)
    }
}

impl vstd::std_specs::convert::FromSpecImpl<ContinueFromConversationHistoryParams<ValidatedParametersSchema>> for Request {
    open spec fn obeys_from_spec() -> bool {
        true
    }

    open spec fn from_spec(
        params: ContinueFromConversationHistoryParams<ValidatedParametersSchema>,
    ) -> Self {
        Request::ContinueFromConversationHistory(params)
    }
}

impl From<ContinueFromRawPromptParams> for Request {
    fn from(params: ContinueFromRawPromptParams) -> (r: Self) {
        Request::ContinueFromRawPrompt(params)
    }
}

impl vstd::std_specs::convert::FromSpecImpl<ContinueFromRawPromptParams> for Request {
    open spec fn obeys_from_spec() -> bool {
        true
    }

    open spec fn from_spec(params: ContinueFromRawPromptParams) -> Self {
        Request::ContinueFromRawPrompt(params)
    }
}

impl From<GenerateEmbeddingBatchParams> for Request {
    fn from(params: GenerateEmbeddingBatchParams) -> (r: Self) {
        Request::GenerateEmbeddingBatch(params)
    }
}

impl vstd::std_specs::convert::FromSpecImpl<GenerateEmbeddingBatchParams> for Request {
    open spec fn obeys_from_spec() -> bool {
        true
    }

    open spec fn from_spec(params: GenerateEmbeddingBatchParams) -> Self {
        Request::GenerateEmbeddingBatch(params)
    }
}

/// An agent's reply to a balancer-initiated request.
#[derive(Debug, PartialEq, Eq)]
pub enum Response {
    ChatTemplateOverride(Option<ChatTemplate>),
    Embedding(EmbeddingResult),
    GeneratedToken(GeneratedTokenResult),
    ModelMetadata(Option<ModelMetadata>),
}

impl From<Option<ChatTemplate>> for Response {
    fn from(chat_template: Option<ChatTemplate>) -> (r: Self) {
        Response::ChatTemplateOverride(chat_template)
    }
}

impl vstd::std_specs::convert::FromSpecImpl<Option<ChatTemplate>> for Response {
    open spec fn obeys_from_spec() -> bool {
        true
    }

    open spec fn from_spec(chat_template: Option<ChatTemplate>) -> Self {
        Response::ChatTemplateOverride(chat_template)
    }
}

impl From<EmbeddingResult> for Response {
    fn from(embedding_result: EmbeddingResult) -> (r: Self) {
        Response::Embedding(embedding_result)
    }
}

impl vstd::std_specs::convert::FromSpecImpl<EmbeddingResult> for Response {
    open spec fn obeys_from_spec() -> bool {
        true
    }

    open spec fn from_spec(embedding_result: EmbeddingResult) -> Self {
        Response::Embedding(embedding_result)
    }
}

impl From<GeneratedTokenResult> for Response {
    fn from(generated_token_result: GeneratedTokenResult) -> (r: Self) {
        Response::GeneratedToken(generated_token_result)
    }
}

impl vstd::std_specs::convert::FromSpecImpl<GeneratedTokenResult> for Response {
    open spec fn obeys_from_spec() -> bool {
        true
    }

    open spec fn from_spec(generated_token_result: GeneratedTokenResult) -> Self {
        Response::GeneratedToken(generated_token_result)
    }
}

impl From<Option<ModelMetadata>> for Response {
    fn from(model_metadata: Option<ModelMetadata>) -> (r: Self) {
        Response::ModelMetadata(model_metadata)
    }
}

impl vstd::std_specs::convert::FromSpecImpl<Option<ModelMetadata>> for Response {
    open spec fn obeys_from_spec() -> bool {
        true
    }

    open spec fn from_spec(model_metadata: Option<ModelMetadata>) -> Self {
        Response::ModelMetadata(model_metadata)
    }
}

/// An agent-to-balancer notification.
#[derive(Debug, PartialEq, Eq)]
pub enum Notification {
    UpdateAgentStatus(UpdateAgentStatusParams),
}

/// A balancer-to-agent configuration notification.
#[derive(Debug, PartialEq, Eq)]
pub enum ConfigurationNotification {
    SetAgentDesiredState(AgentDesiredState),
}

/// One message arriving on the agent control channel.
#[derive(Debug, PartialEq, Eq)]
pub enum Message {
    Error(ErrorEnvelope),
    Notification(Notification),
    Response(ResponseEnvelope<Response>),
}

/// What the agent socket controller does with one incoming message:
/// errors are logged and never end the session, a status notification
/// updates the agent's slot accounting, and a response envelope is routed
/// to the pending request bearing its id.
#[derive(Debug, PartialEq, Eq)]
pub enum AgentSocketAction {
    LogAgentError { request_id: Option<String>, code: i32, description: String },
    ApplyStatus(UpdateAgentStatusParams),
    RouteResponse(ResponseEnvelope<Response>),
}

/// Decide what one agent-channel message means. Agent error envelopes are
/// diagnostic and non-fatal; status notifications are authoritative slot
/// state; responses are routed by request id. The session always
/// continues.
pub fn handle_agent_message(message: Message) -> (r: AgentSocketAction)
    ensures
        match message {
            Message::Error(envelope) => r matches AgentSocketAction::LogAgentError {
                request_id,
                code,
                description,
            } && request_id == envelope.request_id && code == envelope.error.code && description
                == envelope.error.description,
            Message::Notification(Notification::UpdateAgentStatus(params)) => r
                == AgentSocketAction::ApplyStatus(params),
            Message::Response(envelope) => r == AgentSocketAction::RouteResponse(envelope),
        },
{
    match message {
        Message::Error(envelope) => AgentSocketAction::LogAgentError {
            request_id: envelope.request_id,
            code: envelope.error.code,
            description: envelope.error.description,
        },
        Message::Notification(Notification::UpdateAgentStatus(params)) => {
            AgentSocketAction::ApplyStatus(params)
        },
        Message::Response(envelope) => AgentSocketAction::RouteResponse(envelope),
    }
}


/// The mathematical content of a [`ModelMetadata`].
pub struct ModelMetadataView {
    pub model_name: Seq<char>,
}

impl View for ModelMetadata {
    type V = ModelMetadataView;

    open spec fn view(&self) -> ModelMetadataView {
        ModelMetadataView { model_name: self.model_name@ }
    }
}

/// The mathematical content of a [`Response`].
pub enum AgentResponseView {
    ChatTemplateOverride(Option<Seq<char>>),
    Embedding(crate::inference_client::EmbeddingResultView),
    GeneratedToken(crate::inference_client::GeneratedTokenResultView),
    ModelMetadata(Option<ModelMetadataView>),
}

impl View for Response {
    type V = AgentResponseView;

    open spec fn view(&self) -> AgentResponseView {
        match self {
            Response::ChatTemplateOverride(t) => AgentResponseView::ChatTemplateOverride(
                match t {
                    Some(ct) => Some(ct@),
                    None => None,
                },
            ),
            Response::Embedding(e) => AgentResponseView::Embedding(e@),
            Response::GeneratedToken(t) => AgentResponseView::GeneratedToken(t@),
            Response::ModelMetadata(m) => AgentResponseView::ModelMetadata(
                match m {
                    Some(mm) => Some(mm@),
                    None => None,
                },
            ),
        }
    }
}

/// The mathematical content of a [`Notification`].
pub enum NotificationView {
    UpdateAgentStatus(Seq<crate::agents::SlotSnapshotEntryView>),
}

impl View for Notification {
    type V = NotificationView;

    open spec fn view(&self) -> NotificationView {
        match self {
            Notification::UpdateAgentStatus(params) => NotificationView::UpdateAgentStatus(
                params@,
            ),
        }
    }
}

/// The mathematical content of an agent-channel response envelope.
pub struct AgentResponseEnvelopeView {
    pub request_id: Seq<char>,
    pub response: AgentResponseView,
}

impl View for ResponseEnvelope<Response> {
    type V = AgentResponseEnvelopeView;

    open spec fn view(&self) -> AgentResponseEnvelopeView {
        AgentResponseEnvelopeView { request_id: self.request_id@, response: self.response@ }
    }
}

/// The mathematical content of an agent-channel [`Message`].
pub enum AgentMessageView {
    Error(crate::jsonrpc::ErrorEnvelopeView),
    Notification(NotificationView),
    Response(AgentResponseEnvelopeView),
}

impl View for Message {
    type V = AgentMessageView;

    open spec fn view(&self) -> AgentMessageView {
        match self {
            Message::Error(envelope) => AgentMessageView::Error(envelope@),
            Message::Notification(n) => AgentMessageView::Notification(n@),
            Message::Response(envelope) => AgentMessageView::Response(envelope@),
        }
    }
}

} // verus!

//! The messages a client receives while one inference request streams,
//! and the terminal predicate that ends such a stream.

use vstd::prelude::*;

use crate::embedding::Embedding;
use crate::jsonrpc::ErrorEnvelope;
use crate::jsonrpc::ResponseEnvelope;

verus! {

/// One element of an embedding response stream.
#[derive(Clone, Debug, PartialEq, Eq)]
pub enum EmbeddingResult {
    /// One finished embedding vector.
    Embedding(Embedding),
    /// The batch is complete.
    Done,
    /// The engine failed on this batch.
    Error(String),
}

impl EmbeddingResult {
    /// Whether this element ends its stream.
    pub open spec fn spec_is_done(&self) -> bool {
        match self {
            EmbeddingResult::Embedding(_) => false,
            EmbeddingResult::Done => true,
            EmbeddingResult::Error(_) => true,
        }
    }

    pub fn is_done(&self) -> (r: bool)
        ensures
            r == self.spec_is_done(),
    {
        match self {
            EmbeddingResult::Embedding(_) => false,
            EmbeddingResult::Done => true,
            EmbeddingResult::Error(_) => true,
        }
    }
}

/// One element of a token response stream.
#[derive(Clone, Debug, PartialEq, Eq)]
pub enum GeneratedTokenResult {
    /// One generated token.
    Token(String),
    /// The last token has been produced.
    Done,
}

impl GeneratedTokenResult {
    /// Whether this element ends its stream.
    pub open spec fn spec_is_done(&self) -> bool {
        self is Done
    }

    pub fn is_done(&self) -> (r: bool)
        ensures
            r == self.spec_is_done(),
    {
        match self {
            GeneratedTokenResult::Token(_) => false,
            GeneratedTokenResult::Done => true,
        }
    }
}

/// The typed payload of a response streamed back to a client.
#[derive(Clone, Debug, PartialEq, Eq)]
pub enum Response {
    Embedding(EmbeddingResult),
    GeneratedToken(GeneratedTokenResult),
    Timeout,
    TooManyBufferedRequests,
}

/// One message on a client's inference stream.
#[derive(Clone, Debug, PartialEq, Eq)]
pub enum Message {
    Error(ErrorEnvelope),
    Response(ResponseEnvelope<Response>),
}

/// Whether `message` ends the stream of its request id: every error is
/// terminal, and so is a response whose payload is `Timeout`,
/// `TooManyBufferedRequests`, or a result that signals completion.
pub open spec fn spec_is_terminal_message(message: Message) -> bool {
    match message {
        Message::Error(_) => true,
        Message::Response(envelope) => match envelope.response {
            Response::Embedding(result) => result.spec_is_done(),
            Response::GeneratedToken(result) => result.spec_is_done(),
            Response::Timeout => true,
            Response::TooManyBufferedRequests => true,
        },
    }
}

/// The terminal predicate over one streamed message.
pub fn is_terminal_message(message: &Message) -> (r: bool)
    ensures
        r == spec_is_terminal_message(*message),
{
    match message {
        Message::Error(_) => true,
        Message::Response(envelope) => match &envelope.response {
            Response::Embedding(result) => result.is_done(),
            Response::GeneratedToken(result) => result.is_done(),
            Response::Timeout => true,
            Response::TooManyBufferedRequests => true,
        },
    }
}

/// The request id a streamed message belongs to, if it names one.
pub open spec fn spec_message_request_id(message: Message) -> Option<Seq<char>> {
    match message {
        Message::Error(envelope) => match envelope.request_id {
            Some(id) => Some(id@),
            None => None,
        },
        Message::Response(envelope) => Some(envelope.request_id@),
    }
}

/// Read the request id a streamed message belongs to, if it names one.
pub fn message_request_id(message: &Message) -> (r: Option<&String>)
    ensures
        match r {
            Some(id) => spec_message_request_id(*message) == Some(id@),
            None => spec_message_request_id(*message) is None,
        },
{
    match message {
        Message::Error(envelope) => match &envelope.request_id {
            Some(id) => Some(id),
            None => None,
        },
        Message::Response(envelope) => Some(&envelope.request_id),
    }
}


/// The mathematical content of an [`EmbeddingResult`].
pub enum EmbeddingResultView {
    Embedding(crate::embedding::EmbeddingView),
    Done,
    Error(Seq<char>),
}

impl View for EmbeddingResult {
    type V = EmbeddingResultView;

    open spec fn view(&self) -> EmbeddingResultView {
        match self {
            EmbeddingResult::Embedding(e) => EmbeddingResultView::Embedding(e@),
            EmbeddingResult::Done => EmbeddingResultView::Done,
            EmbeddingResult::Error(e) => EmbeddingResultView::Error(e@),
        }
    }
}

/// The mathematical content of a [`GeneratedTokenResult`].
pub enum GeneratedTokenResultView {
    Token(Seq<char>),
    Done,
}

impl View for GeneratedTokenResult {
    type V = GeneratedTokenResultView;

    open spec fn view(&self) -> GeneratedTokenResultView {
        match self {
            GeneratedTokenResult::Token(t) => GeneratedTokenResultView::Token(t@),
            GeneratedTokenResult::Done => GeneratedTokenResultView::Done,
        }
    }
}

/// The mathematical content of a [`Response`].
pub enum ResponseView {
    Embedding(EmbeddingResultView),
    GeneratedToken(GeneratedTokenResultView),
    Timeout,
    TooManyBufferedRequests,
}

impl View for Response {
    type V = ResponseView;

    open spec fn view(&self) -> ResponseView {
        match self {
            Response::Embedding(e) => ResponseView::Embedding(e@),
            Response::GeneratedToken(t) => ResponseView::GeneratedToken(t@),
            Response::Timeout => ResponseView::Timeout,
            Response::TooManyBufferedRequests => ResponseView::TooManyBufferedRequests,
        }
    }
}

/// The mathematical content of a response envelope on this stream.
pub struct ResponseEnvelopeView {
    pub request_id: Seq<char>,
    pub response: ResponseView,
}

impl View for ResponseEnvelope<Response> {
    type V = ResponseEnvelopeView;

    open spec fn view(&self) -> ResponseEnvelopeView {
        ResponseEnvelopeView { request_id: self.request_id@, response: self.response@ }
    }
}

/// The mathematical content of a [`Message`].
pub enum MessageView {
    Error(crate::jsonrpc::ErrorEnvelopeView),
    Response(ResponseEnvelopeView),
}

impl View for Message {
    type V = MessageView;

    open spec fn view(&self) -> MessageView {
        match self {
            Message::Error(envelope) => MessageView::Error(envelope@),
            Message::Response(envelope) => MessageView::Response(envelope@),
        }
    }
}

} // verus!

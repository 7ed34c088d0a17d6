//! The client-facing inference socket: incoming request envelopes, the
//! tool-schema validation pass, and the per-message decision of the
//! socket controller.

use vstd::prelude::*;

use crate::error::Error;
use crate::json::is_digit;
use crate::json::spec_digit_run_end;
use crate::json::spec_parse_string_body;
use crate::json::parse_string_body;
use crate::json::parse_u64;
use crate::jsonrpc::ErrorEnvelope;
use crate::jsonrpc::RequestEnvelope;
use crate::text::chars_of;

verus! {

/// The index just past the JSON value starting at `i`, if one starts
/// there. Objects and arrays recurse; numbers are unsigned digit runs.
pub open spec fn spec_value_end(t: Seq<char>, i: int) -> Option<int>
    decreases t.len() - i, 0int,
    when 0 <= i <= t.len()
{
    if i >= t.len() {
        None
    } else if t[i] == '"' {
        match spec_parse_string_body(t.skip(i + 1)) {
            Some(p) => Some(i + 1 + p.1),
            None => None,
        }
    } else if is_digit(t[i]) {
        Some(spec_digit_run_end(t, i))
    } else if t[i] == 't' {
        if i + 4 <= t.len() && t.subrange(i, i + 4) == "true"@ {
            Some(i + 4)
        } else {
            None
        }
    } else if t[i] == 'f' {
        if i + 5 <= t.len() && t.subrange(i, i + 5) == "false"@ {
            Some(i + 5)
        } else {
            None
        }
    } else if t[i] == 'n' {
        if i + 4 <= t.len() && t.subrange(i, i + 4) == "null"@ {
            Some(i + 4)
        } else {
            None
        }
    } else if t[i] == '[' {
        if i + 1 < t.len() && t[i + 1] == ']' {
            Some(i + 2)
        } else {
            spec_elems_end(t, i + 1)
        }
    } else if t[i] == '{' {
        if i + 1 < t.len() && t[i + 1] == '}' {
            Some(i + 2)
        } else {
            spec_members_end(t, i + 1)
        }
    } else {
        None
    }
}

/// The index just past a `]`-terminated list of values starting at `i`.
pub open spec fn spec_elems_end(t: Seq<char>, i: int) -> Option<int>
    decreases t.len() - i, 1int,
    when 0 <= i <= t.len()
{
    match spec_value_end(t, i) {
        Some(j0) => {
            let j = if j0 >= i + 1 {
                j0
            } else {
                i + 1
            };
            if j < t.len() && t[j] == ',' {
                spec_elems_end(t, j + 1)
            } else if j < t.len() && t[j] == ']' {
                Some(j + 1)
            } else {
                None
            }
        },
        None => None,
    }
}

/// The index just past a `}`-terminated list of `"key":value` members
/// starting at `i`.
pub open spec fn spec_members_end(t: Seq<char>, i: int) -> Option<int>
    decreases t.len() - i, 1int,
    when 0 <= i <= t.len()
{
    if i < t.len() && t[i] == '"' {
        match spec_parse_string_body(t.skip(i + 1)) {
            Some(p) => {
                let k0 = i + 1 + p.1;
                let k = if k0 >= i + 1 {
                    k0
                } else {
                    i + 1
                };
                if k < t.len() && t[k] == ':' {
                    match spec_value_end(t, k + 1) {
                        Some(j0) => {
                            let j = if j0 >= k + 2 {
                                j0
                            } else {
                                k + 2
                            };
                            if j < t.len() && t[j] == ',' {
                                spec_members_end(t, j + 1)
                            } else if j < t.len() && t[j] == '}' {
                                Some(j + 1)
                            } else {
                                None
                            }
                        },
                        None => None,
                    }
                } else {
                    None
                }
            },
            None => None,
        }
    } else {
        None
    }
}

/// Whether the whole of `t` is one well-formed JSON value in the wire
/// form this codec reads and writes.
pub open spec fn spec_is_json_value(t: Seq<char>) -> bool {
    spec_value_end(t, 0) == Some(t.len() as int)
}

fn value_end(t: &Vec<char>, i: usize) -> (r: Option<usize>)
    requires
        i <= t@.len(),
    ensures
        match r {
            Some(j) => i < j <= t@.len() && spec_value_end(t@, i as int) == Some(j as int),
            None => spec_value_end(t@, i as int) is None,
        },
    decreases t@.len() - i, 0int,
{
    if i >= t.len() {
        return None;
    }
    let c = t[i];
    if c == '"' {
        proof {
            assert(t@.skip(i + 1) == t@.skip(i + 1));
        }
        match parse_string_body(t, i + 1) {
            Some((_, end)) => {
                proof {
                    let p = spec_parse_string_body(t@.skip(i + 1)).unwrap();
                    assert(p.1 == end - (i + 1));
                }
                Some(end)
            },
            None => None,
        }
    } else if c == '0' || c == '1' || c == '2' || c == '3' || c == '4' || c == '5' || c == '6'
        || c == '7' || c == '8' || c == '9' {
        proof {
            crate::json::lemma_digit_run_bounds(t@, i as int);
        }
        match parse_u64(t, i) {
            Some((_, end)) => Some(end),
            None => {
                let mut j = i;
                while j < t.len() && digit_at(t, j)
                    invariant
                        i <= j <= t@.len(),
                        forall|k: int| i <= k < j ==> is_digit(t@[k]),
                    decreases t@.len() - j,
                {
                    j = j + 1;
                }
                proof {
                    crate::json::lemma_digit_run_of_digits(t@, i as int, j - i);
                }
                Some(j)
            },
        }
    } else if c == 't' {
        proof {
            reveal_strlit("true");
        }
        match crate::codec::strip_lit(t, i, "true") {
            Some(j) => {
                proof {
                    lemma_strip_subrange(t@, i as int, "true"@);
                }
                Some(j)
            },
            None => {
                proof {
                    lemma_strip_subrange(t@, i as int, "true"@);
                }
                None
            },
        }
    } else if c == 'f' {
        proof {
            reveal_strlit("false");
        }
        match crate::codec::strip_lit(t, i, "false") {
            Some(j) => {
                proof {
                    lemma_strip_subrange(t@, i as int, "false"@);
                }
                Some(j)
            },
            None => {
                proof {
                    lemma_strip_subrange(t@, i as int, "false"@);
                }
                None
            },
        }
    } else if c == 'n' {
        proof {
            reveal_strlit("null");
        }
        match crate::codec::strip_lit(t, i, "null") {
            Some(j) => {
                proof {
                    lemma_strip_subrange(t@, i as int, "null"@);
                }
                Some(j)
            },
            None => {
                proof {
                    lemma_strip_subrange(t@, i as int, "null"@);
                }
                None
            },
        }
    } else if c == '[' {
        if i + 1 < t.len() && t[i + 1] == ']' {
            Some(i + 2)
        } else {
            elems_end(t, i + 1)
        }
    } else if c == '{' {
        if i + 1 < t.len() && t[i + 1] == '}' {
            Some(i + 2)
        } else {
            members_end(t, i + 1)
        }
    } else {
        None
    }
}

fn digit_at(t: &Vec<char>, j: usize) -> (r: bool)
    requires
        j < t@.len(),
    ensures
        r == is_digit(t@[j as int]),
{
    let c = t[j];
    c == '0' || c == '1' || c == '2' || c == '3' || c == '4' || c == '5' || c == '6' || c == '7'
        || c == '8' || c == '9'
}

/// A successful strip of a literal means the literal stands as a
/// subrange, and conversely.
proof fn lemma_strip_subrange(t: Seq<char>, i: int, lit: Seq<char>)
    requires
        0 <= i <= t.len(),
    ensures
        crate::codec::spec_strip(t.skip(i), lit) is Some <==> (i + lit.len() <= t.len()
            && t.subrange(i, i + lit.len()) == lit),
{
    let tail = t.skip(i);
    if lit.len() <= tail.len() && tail.take(lit.len() as int) == lit {
        assert(t.subrange(i, i + lit.len()) =~= tail.take(lit.len() as int));
    }
    if i + lit.len() <= t.len() && t.subrange(i, i + lit.len()) == lit {
        assert(tail.take(lit.len() as int) =~= t.subrange(i, i + lit.len()));
    }
}

fn elems_end(t: &Vec<char>, i: usize) -> (r: Option<usize>)
    requires
        i <= t@.len(),
    ensures
        match r {
            Some(j) => i < j <= t@.len() && spec_elems_end(t@, i as int) == Some(j as int),
            None => spec_elems_end(t@, i as int) is None,
        },
    decreases t@.len() - i, 1int,
{
    match value_end(t, i) {
        Some(j) => {
            if j < t.len() {
                let c = t[j];
                if c == ',' {
                    elems_end(t, j + 1)
                } else if c == ']' {
                    Some(j + 1)
                } else {
                    None
                }
            } else {
                None
            }
        },
        None => None,
    }
}

fn members_end(t: &Vec<char>, i: usize) -> (r: Option<usize>)
    requires
        i <= t@.len(),
    ensures
        match r {
            Some(j) => i < j <= t@.len() && spec_members_end(t@, i as int) == Some(j as int),
            None => spec_members_end(t@, i as int) is None,
        },
    decreases t@.len() - i, 1int,
{
    if i >= t.len() {
        return None;
    }
    if t[i] != '"' {
        return None;
    }
    proof {
        assert(t@.skip(i + 1) == t@.skip(i + 1));
    }
    let k = match parse_string_body(t, i + 1) {
        Some((_, end)) => end,
        None => {
            return None;
        },
    };
    proof {
        let p = spec_parse_string_body(t@.skip(i + 1)).unwrap();
        assert(p.1 == k - (i + 1));
    }
    if k >= t.len() {
        return None;
    }
    if t[k] != ':' {
        return None;
    }
    match value_end(t, k + 1) {
        Some(j) => {
            if j < t.len() {
                let c = t[j];
                if c == ',' {
                    members_end(t, j + 1)
                } else if c == '}' {
                    Some(j + 1)
                } else {
                    None
                }
            } else {
                None
            }
        },
        None => None,
    }
}

/// Decide whether the whole of `input` is one well-formed JSON value.
pub fn is_json_value(input: &str) -> (r: bool)
    ensures
        r == spec_is_json_value(input@),
{
    let t = chars_of(input);
    match value_end(&t, 0) {
        Some(j) => j == t.len(),
        None => false,
    }
}

/// A tool-call parameters schema as the client sent it: unchecked text.
#[derive(Clone, Debug, PartialEq, Eq)]
pub struct RawParametersSchema {
    pub schema: String,
}

/// A tool-call parameters schema that passed validation: its text is one
/// well-formed JSON value.
#[derive(Clone, Debug, PartialEq, Eq)]
pub struct ValidatedParametersSchema {
    schema: String,
}

impl ValidatedParametersSchema {
    /// The validated schema text.
    pub closed spec fn spec_schema(&self) -> Seq<char> {
        self.schema@
    }

    /// Every value of this type carries a well-formed JSON schema.
    pub closed spec fn wf(&self) -> bool {
        spec_is_json_value(self.schema@)
    }

    /// Read the validated schema text.
    pub fn schema_text(&self) -> (r: &String)
        ensures
            r@ == self.spec_schema(),
    {
        &self.schema
    }
}

impl RawParametersSchema {
    /// Validate this schema: succeeds exactly when the text is one
    /// well-formed JSON value, and then carries the text unchanged.
    pub fn validate(self) -> (r: Result<ValidatedParametersSchema, Error>)
        ensures
            r is Ok <==> spec_is_json_value(self.schema@),
            r matches Ok(v) ==> v.spec_schema() == self.schema@ && v.wf(),
    {
        if is_json_value(self.schema.as_str()) {
            Ok(ValidatedParametersSchema { schema: self.schema })
        } else {
            Err(Error::Other("tool parameters schema is not well-formed JSON".to_owned()))
        }
    }
}

/// One turn of the conversation handed in for continuation.
#[derive(Clone, Debug, PartialEq, Eq)]
pub struct ConversationMessage {
    pub content: String,
    pub role: String,
}

/// A tool offered to the model, with its parameters schema.
#[derive(Clone, Debug, PartialEq, Eq)]
pub struct ToolDefinition<TSchema> {
    pub name: String,
    pub parameters_schema: TSchema,
}

/// Parameters of a continue-from-conversation-history request.
#[derive(Clone, Debug, PartialEq, Eq)]
pub struct ContinueFromConversationHistoryParams<TSchema> {
    pub conversation_history: Vec<ConversationMessage>,
    pub max_tokens: u32,
    pub tools: Vec<ToolDefinition<TSchema>>,
}

/// Parameters of a continue-from-raw-prompt request.
#[derive(Clone, Debug, PartialEq, Eq)]
pub struct ContinueFromRawPromptParams {
    pub max_tokens: u32,
    pub raw_prompt: String,
}

impl ContinueFromConversationHistoryParams<RawParametersSchema> {
    /// The separable validation pass: every tool's raw schema must be
    /// well-formed JSON. On success the parameters are unchanged but for
    /// the schemas' type; the first ill-formed schema fails the whole
    /// request.
    pub fn validate(self) -> (r: Result<
        ContinueFromConversationHistoryParams<ValidatedParametersSchema>,
        Error,
    >)
        ensures
            r is Ok <==> forall|i: int|
                0 <= i < self.tools@.len() ==> spec_is_json_value(
                    (#[trigger] self.tools@[i]).parameters_schema.schema@,
                ),
            r matches Ok(v) ==> {
                &&& v.conversation_history == self.conversation_history
                &&& v.max_tokens == self.max_tokens
                &&& v.tools@.len() == self.tools@.len()
                &&& forall|i: int|
                    0 <= i < v.tools@.len() ==> {
                        &&& (#[trigger] v.tools@[i]).name == self.tools@[i].name
                        &&& v.tools@[i].parameters_schema.spec_schema()
                            == self.tools@[i].parameters_schema.schema@
                        &&& v.tools@[i].parameters_schema.wf()
                    }
            },
    {
        let ghost original = self.tools@;
        let mut raw_tools = self.tools;
        let mut tools: Vec<ToolDefinition<ValidatedParametersSchema>> = Vec::new();
        while raw_tools.len() > 0
            invariant
                original == self.tools@,
                tools@.len() + raw_tools@.len() == original.len(),
                raw_tools@ == original.skip(tools@.len() as int),
                forall|i: int|
                    0 <= i < tools@.len() ==> {
                        &&& (#[trigger] tools@[i]).name == original[i].name
                        &&& tools@[i].parameters_schema.spec_schema()
                            == original[i].parameters_schema.schema@
                        &&& tools@[i].parameters_schema.wf()
                        &&& spec_is_json_value(original[i].parameters_schema.schema@)
                    },
            decreases raw_tools@.len(),
        {
            let ghost k = tools@.len() as int;
            let tool = raw_tools.remove(0);
            proof {
                assert(tool == original[k]);
            }
            let validated = match tool.parameters_schema.validate() {
                Ok(v) => v,
                Err(e) => {
                    proof {
                        assert(!spec_is_json_value(original[k].parameters_schema.schema@));
                        assert(0 <= k < self.tools@.len());
                        assert(!spec_is_json_value(
                            self.tools@[k].parameters_schema.schema@,
                        ));
                    }
                    return Err(e);
                },
            };
            let ghost prev_tools = tools@;
            tools.push(ToolDefinition { name: tool.name, parameters_schema: validated });
            proof {
                assert(raw_tools@ =~= original.skip(tools@.len() as int));
                assert forall|i: int|
                    0 <= i < tools@.len() implies {
                    &&& (#[trigger] tools@[i]).name == original[i].name
                    &&& tools@[i].parameters_schema.spec_schema()
                        == original[i].parameters_schema.schema@
                    &&& tools@[i].parameters_schema.wf()
                    &&& spec_is_json_value(original[i].parameters_schema.schema@)
                } by {
                    if i < k {
                        assert(tools@[i] == prev_tools[i]);
                    } else {
                        assert(i == k);
                        assert(tools@[i] == tools@.last());
                    }
                }
            }
        }
        proof {
            assert(original.skip(original.len() as int).len() == 0);
            assert(tools@.len() == original.len());
            assert forall|i: int|
                0 <= i < self.tools@.len() implies spec_is_json_value(
                (#[trigger] self.tools@[i]).parameters_schema.schema@,
            ) by {
                assert(original[i] == self.tools@[i]);
                assert(0 <= i < tools@.len());
                assert((#[trigger] tools@[i]).name == original[i].name);
            }
        }
        Ok(
            ContinueFromConversationHistoryParams {
                conversation_history: self.conversation_history,
                max_tokens: self.max_tokens,
                tools,
            },
        )
    }
}

/// A client request arriving on the inference socket: tool schemas are
/// still raw and must pass validation before dispatch.
#[derive(Debug, PartialEq, Eq)]
pub enum Request {
    ContinueFromConversationHistory(ContinueFromConversationHistoryParams<RawParametersSchema>),
    ContinueFromRawPrompt(ContinueFromRawPromptParams),
}

/// One message arriving on a client's inference socket.
#[derive(Debug, PartialEq, Eq)]
pub enum Message {
    Error(ErrorEnvelope),
    Request(RequestEnvelope<Request>),
}

/// Whether the session goes on after a message.
#[derive(Clone, Copy, Debug, PartialEq, Eq, Structural)]
pub enum ContinuationDecision {
    Continue,
    Close,
}

/// What the inference socket controller does with one incoming message.
#[derive(Debug, PartialEq, Eq)]
pub enum InferenceSocketAction {
    /// A client error envelope: diagnostic only, logged.
    LogClientError { request_id: Option<String>, code: i32, description: String },
    /// A validated request, ready for admission under its id.
    Submit { request_id: String, request: crate::agent_rpc::Request },
    /// The request's tool schemas failed validation: one diagnostic
    /// `InvalidParameters` response for its id, nothing dispatched.
    RejectInvalidParameters { request_id: String },
}

/// Decide what one inference-socket message means. Client error
/// envelopes are logged and the session continues; a conversation-history
/// request is submitted only once its raw tool schemas validate, and is
/// otherwise rejected for its own id; a raw-prompt request is submitted
/// as it is. No message closes the session.
pub fn handle_inference_socket_message(message: Message) -> (r: (
    InferenceSocketAction,
    ContinuationDecision,
))
    ensures
        r.1 is Continue,
        match message {
            Message::Error(envelope) => r.0 matches InferenceSocketAction::LogClientError {
                request_id,
                code,
                description,
            } && request_id == envelope.request_id && code == envelope.error.code && description
                == envelope.error.description,
            Message::Request(envelope) => match envelope.request {
                Request::ContinueFromConversationHistory(params) => {
                    if forall|i: int|
                        0 <= i < params.tools@.len() ==> spec_is_json_value(
                            (#[trigger] params.tools@[i]).parameters_schema.schema@,
                        ) {
                        r.0 matches InferenceSocketAction::Submit { request_id, request } && (
                        r.0 matches InferenceSocketAction::Submit { request_id, request } ==> {
                            &&& request_id == envelope.id
                            &&& request matches crate::agent_rpc::Request::ContinueFromConversationHistory(
                                v,
                            )
                            &&& (request matches crate::agent_rpc::Request::ContinueFromConversationHistory(
                                v,
                            ) ==> {
                                &&& v.conversation_history == params.conversation_history
                                &&& v.max_tokens == params.max_tokens
                                &&& v.tools@.len() == params.tools@.len()
                            })
                        })
                    } else {
                        r.0 matches InferenceSocketAction::RejectInvalidParameters { request_id }
                            && (r.0
                            matches InferenceSocketAction::RejectInvalidParameters { request_id }
                            ==> request_id == envelope.id)
                    }
                },
                Request::ContinueFromRawPrompt(params) => r.0
                    == InferenceSocketAction::Submit {
                    request_id: envelope.id,
                    request: crate::agent_rpc::Request::ContinueFromRawPrompt(params),
                },
            },
        },
{
    match message {
        Message::Error(envelope) => (
            InferenceSocketAction::LogClientError {
                request_id: envelope.request_id,
                code: envelope.error.code,
                description: envelope.error.description,
            },
            ContinuationDecision::Continue,
        ),
        Message::Request(envelope) => match envelope.request {
            Request::ContinueFromConversationHistory(params) => {
                match params.validate() {
                    Ok(validated) => (
                        InferenceSocketAction::Submit {
                            request_id: envelope.id,
                            request: crate::agent_rpc::Request::ContinueFromConversationHistory(
                                validated,
                            ),
                        },
                        ContinuationDecision::Continue,
                    ),
                    Err(_) => (
                        InferenceSocketAction::RejectInvalidParameters { request_id: envelope.id },
                        ContinuationDecision::Continue,
                    ),
                }
            },
            Request::ContinueFromRawPrompt(params) => (
                InferenceSocketAction::Submit {
                    request_id: envelope.id,
                    request: crate::agent_rpc::Request::ContinueFromRawPrompt(params),
                },
                ContinuationDecision::Continue,
            ),
        },
    }
}


/// The schema text of a [`RawParametersSchema`].
impl View for RawParametersSchema {
    type V = Seq<char>;

    open spec fn view(&self) -> Seq<char> {
        self.schema@
    }
}

/// The mathematical content of a [`ConversationMessage`].
pub struct ConversationMessageView {
    pub content: Seq<char>,
    pub role: Seq<char>,
}

impl View for ConversationMessage {
    type V = ConversationMessageView;

    open spec fn view(&self) -> ConversationMessageView {
        ConversationMessageView { content: self.content@, role: self.role@ }
    }
}

/// The mathematical content of a tool offered with raw schemas.
pub struct ToolDefinitionView {
    pub name: Seq<char>,
    pub parameters_schema: Seq<char>,
}

impl View for ToolDefinition<RawParametersSchema> {
    type V = ToolDefinitionView;

    open spec fn view(&self) -> ToolDefinitionView {
        ToolDefinitionView { name: self.name@, parameters_schema: self.parameters_schema@ }
    }
}

/// The mathematical content of conversation-history parameters with raw
/// schemas.
pub struct ConversationParamsView {
    pub conversation_history: Seq<ConversationMessageView>,
    pub max_tokens: u32,
    pub tools: Seq<ToolDefinitionView>,
}

impl View for ContinueFromConversationHistoryParams<RawParametersSchema> {
    type V = ConversationParamsView;

    open spec fn view(&self) -> ConversationParamsView {
        ConversationParamsView {
            conversation_history: Seq::new(
                self.conversation_history@.len(),
                |i: int| self.conversation_history@[i]@,
            ),
            max_tokens: self.max_tokens,
            tools: Seq::new(self.tools@.len(), |i: int| self.tools@[i]@),
        }
    }
}

/// The mathematical content of raw-prompt parameters.
pub struct RawPromptParamsView {
    pub max_tokens: u32,
    pub raw_prompt: Seq<char>,
}

impl View for ContinueFromRawPromptParams {
    type V = RawPromptParamsView;

    open spec fn view(&self) -> RawPromptParamsView {
        RawPromptParamsView { max_tokens: self.max_tokens, raw_prompt: self.raw_prompt@ }
    }
}

/// The mathematical content of a client [`Request`].
pub enum InferenceRequestView {
    ContinueFromConversationHistory(ConversationParamsView),
    ContinueFromRawPrompt(RawPromptParamsView),
}

impl View for Request {
    type V = InferenceRequestView;

    open spec fn view(&self) -> InferenceRequestView {
        match self {
            Request::ContinueFromConversationHistory(p) =>
                InferenceRequestView::ContinueFromConversationHistory(p@),
            Request::ContinueFromRawPrompt(p) => InferenceRequestView::ContinueFromRawPrompt(p@),
        }
    }
}

/// The mathematical content of a request envelope on the inference
/// socket.
pub struct InferenceRequestEnvelopeView {
    pub id: Seq<char>,
    pub request: InferenceRequestView,
}

impl View for RequestEnvelope<Request> {
    type V = InferenceRequestEnvelopeView;

    open spec fn view(&self) -> InferenceRequestEnvelopeView {
        InferenceRequestEnvelopeView { id: self.id@, request: self.request@ }
    }
}

/// The mathematical content of a client-bound [`Message`].
pub enum InferenceServerMessageView {
    Error(crate::jsonrpc::ErrorEnvelopeView),
    Request(InferenceRequestEnvelopeView),
}

impl View for Message {
    type V = InferenceServerMessageView;

    open spec fn view(&self) -> InferenceServerMessageView {
        match self {
            Message::Error(envelope) => InferenceServerMessageView::Error(envelope@),
            Message::Request(envelope) => InferenceServerMessageView::Request(envelope@),
        }
    }
}

} // verus!

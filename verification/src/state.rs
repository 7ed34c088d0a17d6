//! Desired and applicable balancer state.
//!
//! The admin API declares a [`BalancerDesiredState`]; the reconciler derives
//! from it the per-agent applicable state and drives each agent toward it.

use vstd::prelude::*;

verus! {

/// A chat template override, carried as its source text.
#[derive(Debug, PartialEq, Eq)]
pub struct ChatTemplate {
    pub content: String,
}

impl View for ChatTemplate {
    type V = Seq<char>;

    open spec fn view(&self) -> Seq<char> {
        self.content@
    }
}

impl Clone for ChatTemplate {
    fn clone(&self) -> (r: Self)
        ensures
            r@ == self@,
    {
        ChatTemplate { content: self.content.clone() }
    }
}

/// Inference parameters forwarded to an agent's engine.
#[derive(Clone, Copy, Debug, PartialEq, Eq)]
pub struct InferenceParameters {
    pub batch_n_tokens: u32,
    pub context_size: u32,
    pub max_tokens: u32,
}

impl Default for InferenceParameters {
    /// The defaults used when no parameters were declared.
    fn default() -> (r: Self)
        ensures
            r == (InferenceParameters { batch_n_tokens: 512u32, context_size: 4096u32, max_tokens: 1024u32 }),
    {
        InferenceParameters { batch_n_tokens: 512, context_size: 4096, max_tokens: 1024 }
    }
}

/// A model hosted on Hugging Face, by repository and file.
#[derive(Debug, PartialEq, Eq)]
pub struct HuggingFaceModelReference {
    pub filename: String,
    pub repo_id: String,
}

/// The components of a [`HuggingFaceModelReference`].
pub struct HuggingFaceModelReferenceView {
    pub filename: Seq<char>,
    pub repo_id: Seq<char>,
}

impl View for HuggingFaceModelReference {
    type V = HuggingFaceModelReferenceView;

    open spec fn view(&self) -> HuggingFaceModelReferenceView {
        HuggingFaceModelReferenceView { filename: self.filename@, repo_id: self.repo_id@ }
    }
}

impl Clone for HuggingFaceModelReference {
    fn clone(&self) -> (r: Self)
        ensures
            r@ == self@,
    {
        HuggingFaceModelReference {
            filename: self.filename.clone(),
            repo_id: self.repo_id.clone(),
        }
    }
}

/// Which model the fleet should serve.
#[derive(Debug, PartialEq, Eq)]
pub enum AgentDesiredModel {
    /// Download the referenced model from Hugging Face.
    HuggingFace(HuggingFaceModelReference),
    /// Use a file already present on the agent's machine.
    LocalToAgent(String),
    /// No model is declared.
    Unmanaged,
}

/// The mathematical content of an [`AgentDesiredModel`].
pub enum AgentDesiredModelView {
    HuggingFace(HuggingFaceModelReferenceView),
    LocalToAgent(Seq<char>),
    Unmanaged,
}

impl View for AgentDesiredModel {
    type V = AgentDesiredModelView;

    open spec fn view(&self) -> AgentDesiredModelView {
        match self {
            AgentDesiredModel::HuggingFace(hf) => AgentDesiredModelView::HuggingFace(hf@),
            AgentDesiredModel::LocalToAgent(path) => AgentDesiredModelView::LocalToAgent(path@),
            AgentDesiredModel::Unmanaged => AgentDesiredModelView::Unmanaged,
        }
    }
}

impl Clone for AgentDesiredModel {
    fn clone(&self) -> (r: Self)
        ensures
            r@ == self@,
    {
        match self {
            AgentDesiredModel::HuggingFace(hf) => AgentDesiredModel::HuggingFace(hf.clone()),
            AgentDesiredModel::LocalToAgent(path) => AgentDesiredModel::LocalToAgent(path.clone()),
            AgentDesiredModel::Unmanaged => AgentDesiredModel::Unmanaged,
        }
    }
}

impl Default for AgentDesiredModel {
    /// By default no model is declared.
    fn default() -> (r: Self)
        ensures
            r is Unmanaged,
    {
        AgentDesiredModel::Unmanaged
    }
}

/// The state the admin API declares for the whole balancer.
#[derive(Debug, PartialEq, Eq)]
pub struct BalancerDesiredState {
    pub chat_template_override: Option<ChatTemplate>,
    pub inference_parameters: InferenceParameters,
    pub model: AgentDesiredModel,
    pub use_chat_template_override: bool,
}

/// The mathematical content of a [`BalancerDesiredState`].
pub struct BalancerDesiredStateView {
    pub chat_template_override: Option<Seq<char>>,
    pub inference_parameters: InferenceParameters,
    pub model: AgentDesiredModelView,
    pub use_chat_template_override: bool,
}

impl View for BalancerDesiredState {
    type V = BalancerDesiredStateView;

    open spec fn view(&self) -> BalancerDesiredStateView {
        BalancerDesiredStateView {
            chat_template_override: match self.chat_template_override {
                Some(t) => Some(t@),
                None => None,
            },
            inference_parameters: self.inference_parameters,
            model: self.model@,
            use_chat_template_override: self.use_chat_template_override,
        }
    }
}

impl Clone for BalancerDesiredState {
    fn clone(&self) -> (r: Self)
        ensures
            r@ == self@,
    {
        BalancerDesiredState {
            chat_template_override: match &self.chat_template_override {
                Some(t) => Some(t.clone()),
                None => None,
            },
            inference_parameters: self.inference_parameters,
            model: self.model.clone(),
            use_chat_template_override: self.use_chat_template_override,
        }
    }
}

impl Default for BalancerDesiredState {
    /// The state declared before any admin PUT: no override, default
    /// parameters, no model.
    fn default() -> (r: Self)
        ensures
            r.chat_template_override is None,
            r.inference_parameters == (InferenceParameters {
                batch_n_tokens: 512u32,
                context_size: 4096u32,
                max_tokens: 1024u32,
            }),
            r.model is Unmanaged,
            !r.use_chat_template_override,
    {
        BalancerDesiredState {
            chat_template_override: None,
            inference_parameters: InferenceParameters::default(),
            model: AgentDesiredModel::Unmanaged,
            use_chat_template_override: false,
        }
    }
}

/// The per-agent state derived from the balancer's desired state.
#[derive(Debug, PartialEq, Eq)]
pub struct AgentDesiredState {
    pub chat_template_override: Option<ChatTemplate>,
    pub inference_parameters: InferenceParameters,
    pub model: AgentDesiredModel,
}

/// The mathematical content of an [`AgentDesiredState`].
pub struct AgentDesiredStateView {
    pub chat_template_override: Option<Seq<char>>,
    pub inference_parameters: InferenceParameters,
    pub model: AgentDesiredModelView,
}

impl View for AgentDesiredState {
    type V = AgentDesiredStateView;

    open spec fn view(&self) -> AgentDesiredStateView {
        AgentDesiredStateView {
            chat_template_override: match self.chat_template_override {
                Some(t) => Some(t@),
                None => None,
            },
            inference_parameters: self.inference_parameters,
            model: self.model@,
        }
    }
}

/// The balancer-wide applicable state: what each agent should converge to.
#[derive(Debug, PartialEq, Eq)]
pub struct BalancerApplicableState {
    pub agent_desired_state: AgentDesiredState,
}

/// The concrete configuration an agent has resolved and applied.
#[derive(Debug, PartialEq, Eq)]
pub struct AgentApplicableState {
    pub chat_template_override: Option<ChatTemplate>,
    pub inference_parameters: InferenceParameters,
    pub model_path: Option<String>,
}

/// The mathematical content of an [`AgentApplicableState`].
pub struct AgentApplicableStateView {
    pub chat_template_override: Option<Seq<char>>,
    pub inference_parameters: InferenceParameters,
    pub model_path: Option<Seq<char>>,
}

impl View for AgentApplicableState {
    type V = AgentApplicableStateView;

    open spec fn view(&self) -> AgentApplicableStateView {
        AgentApplicableStateView {
            chat_template_override: match self.chat_template_override {
                Some(t) => Some(t@),
                None => None,
            },
            inference_parameters: self.inference_parameters,
            model_path: match self.model_path {
                Some(p) => Some(p@),
                None => None,
            },
        }
    }
}

impl BalancerDesiredState {
    /// Derive the applicable state: the chat template override is carried
    /// only when `use_chat_template_override` is set; parameters and model
    /// pass through unchanged.
    pub fn to_applicable_state(&self) -> (r: BalancerApplicableState)
        ensures
            r.agent_desired_state@.chat_template_override == (if self.use_chat_template_override {
                self@.chat_template_override
            } else {
                None::<Seq<char>>
            }),
            r.agent_desired_state@.inference_parameters == self.inference_parameters,
            r.agent_desired_state@.model == self@.model,
    {
        BalancerApplicableState {
            agent_desired_state: AgentDesiredState {
                chat_template_override: if self.use_chat_template_override {
                    match &self.chat_template_override {
                        Some(t) => Some(t.clone()),
                        None => None,
                    }
                } else {
                    None
                },
                inference_parameters: self.inference_parameters,
                model: self.model.clone(),
            },
        }
    }
}


impl ChatTemplate {
    /// Whether two templates hold the same text.
    pub fn same_as(&self, other: &ChatTemplate) -> (r: bool)
        ensures
            r <==> self@ == other@,
    {
        self.content.eq(&other.content)
    }
}

/// Whether two optional templates hold the same text.
pub fn chat_template_override_eq(a: &Option<ChatTemplate>, b: &Option<ChatTemplate>) -> (r: bool)
    ensures
        r <==> (match (a, b) {
            (Some(x), Some(y)) => x@ == y@,
            (None, None) => true,
            _ => false,
        }),
{
    match (a, b) {
        (Some(x), Some(y)) => x.same_as(y),
        (None, None) => true,
        _ => false,
    }
}

impl InferenceParameters {
    /// Whether two parameter sets are identical.
    pub fn same_as(&self, other: &InferenceParameters) -> (r: bool)
        ensures
            r <==> *self == *other,
    {
        self.batch_n_tokens == other.batch_n_tokens && self.context_size == other.context_size
            && self.max_tokens == other.max_tokens
    }
}

impl AgentDesiredModel {
    /// Whether two model references point at the same model.
    pub fn same_as(&self, other: &AgentDesiredModel) -> (r: bool)
        ensures
            r <==> self@ == other@,
    {
        match (self, other) {
            (AgentDesiredModel::HuggingFace(a), AgentDesiredModel::HuggingFace(b)) => {
                a.filename.eq(&b.filename) && a.repo_id.eq(&b.repo_id)
            },
            (AgentDesiredModel::LocalToAgent(a), AgentDesiredModel::LocalToAgent(b)) => a.eq(b),
            (AgentDesiredModel::Unmanaged, AgentDesiredModel::Unmanaged) => true,
            _ => false,
        }
    }
}

impl AgentDesiredState {
    /// Whether two desired states are observationally the same.
    pub fn same_as(&self, other: &AgentDesiredState) -> (r: bool)
        ensures
            r <==> self@ == other@,
    {
        chat_template_override_eq(&self.chat_template_override, &other.chat_template_override)
            && self.inference_parameters.same_as(&other.inference_parameters)
            && self.model.same_as(&other.model)
    }
}

/// What a desired-state PUT leaves in the store: the declared state
/// replaces the old one wholesale.
pub open spec fn spec_put_desired_state(
    current: BalancerDesiredStateView,
    next: BalancerDesiredStateView,
) -> BalancerDesiredStateView {
    next
}

/// The single-writer store behind the desired-state admin API.
pub struct DesiredStateStore {
    pub state: BalancerDesiredState,
}

impl DesiredStateStore {
    /// A store holding `initial`.
    pub fn new(initial: BalancerDesiredState) -> (r: Self)
        ensures
            r.state@ == initial@,
    {
        DesiredStateStore { state: initial }
    }

    /// Replace the declared state (the admin PUT).
    pub fn put(&mut self, next: BalancerDesiredState)
        ensures
            final(self).state@ == spec_put_desired_state(old(self).state@, next@),
    {
        self.state = next;
    }

    /// Read the declared state (the admin GET).
    pub fn get(&self) -> (r: BalancerDesiredState)
        ensures
            r@ == self.state@,
    {
        self.state.clone()
    }
}

/// Law: two identical PUTs are observationally equivalent to one. After
/// the second PUT of the same declared state, a GET observes exactly what
/// it observed after the first.
pub proof fn lemma_put_desired_state_idempotent(
    current: BalancerDesiredStateView,
    next: BalancerDesiredStateView,
)
    ensures
        spec_put_desired_state(spec_put_desired_state(current, next), next)
            == spec_put_desired_state(current, next),
{
}

} // verus!

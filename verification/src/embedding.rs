//! Embedding parameters: normalization methods, pooling, input documents,
//! and the batch chunking policy.
//!
//! Embedding vectors are produced and consumed by the inference engine as
//! 32-bit floating-point components; the library carries each component as
//! its raw bit pattern, so that embeddings can flow through the verified
//! dispatch logic. The numeric kernels themselves live outside the library.

use vstd::prelude::*;

use crate::error::Error;

verus! {

/// How an embedding vector has been (or should be) normalized.
///
/// For `RmsNorm`, `epsilon_bits` carries the bit pattern of the 32-bit
/// floating-point epsilon handed to the kernel.
#[derive(Clone, Copy, Debug, PartialEq, Eq)]
pub enum EmbeddingNormalizationMethod {
    L2,
    NoNormalization,
    RmsNorm { epsilon_bits: u32 },
}

impl EmbeddingNormalizationMethod {
    /// Whether the two methods are the same kind, epsilon aside.
    pub open spec fn same_kind(self, other: EmbeddingNormalizationMethod) -> bool {
        match (self, other) {
            (EmbeddingNormalizationMethod::L2, EmbeddingNormalizationMethod::L2) => true,
            (EmbeddingNormalizationMethod::NoNormalization, EmbeddingNormalizationMethod::NoNormalization) => true,
            (
                EmbeddingNormalizationMethod::RmsNorm { .. },
                EmbeddingNormalizationMethod::RmsNorm { .. },
            ) => true,
            _ => false,
        }
    }

    /// A vector can only be transformed if it has not been normalized yet:
    /// `None` can transform to any method, every other method to none.
    pub fn can_transform_to(&self, other: &EmbeddingNormalizationMethod) -> (r: bool)
        ensures
            r <==> self is NoNormalization,
    {
        match self {
            EmbeddingNormalizationMethod::NoNormalization => {
                let _ = other;
                true
            },
            _ => false,
        }
    }

    /// A transformation is needed exactly when the method kind changes;
    /// two `RmsNorm` methods with different epsilons are the same kind.
    pub fn needs_transformation_to(&self, other: &EmbeddingNormalizationMethod) -> (r: bool)
        ensures
            r <==> !self.same_kind(*other),
    {
        match (self, other) {
            (EmbeddingNormalizationMethod::L2, EmbeddingNormalizationMethod::L2) => false,
            (EmbeddingNormalizationMethod::NoNormalization, EmbeddingNormalizationMethod::NoNormalization) => false,
            (
                EmbeddingNormalizationMethod::RmsNorm { .. },
                EmbeddingNormalizationMethod::RmsNorm { .. },
            ) => false,
            _ => true,
        }
    }
}

/// How an agent pools token states into one embedding vector.
#[derive(Clone, Copy, Debug, PartialEq, Eq)]
pub enum PoolingType {
    Unspecified,
    NoPooling,
    Mean,
    Cls,
    Last,
    Rank,
}

/// The mathematical content of an [`Embedding`].
pub struct EmbeddingView {
    pub embedding: Seq<u32>,
    pub normalization_method: EmbeddingNormalizationMethod,
    pub pooling_type: PoolingType,
    pub source_document_id: Seq<char>,
}

/// One embedding vector with its provenance.
///
/// `embedding` holds the bit patterns of the vector's 32-bit
/// floating-point components.
#[derive(Clone, Debug, PartialEq, Eq)]
pub struct Embedding {
    pub embedding: Vec<u32>,
    pub normalization_method: EmbeddingNormalizationMethod,
    pub pooling_type: PoolingType,
    pub source_document_id: String,
}

impl View for Embedding {
    type V = EmbeddingView;

    open spec fn view(&self) -> EmbeddingView {
        EmbeddingView {
            embedding: self.embedding@,
            normalization_method: self.normalization_method,
            pooling_type: self.pooling_type,
            source_document_id: self.source_document_id@,
        }
    }
}

/// The numeric kernel that normalization applies to a vector's components.
#[derive(Clone, Copy, Debug, PartialEq, Eq)]
pub enum NormalizationAction {
    /// The vector already has the requested method: keep it unchanged.
    Keep,
    /// Divide each component by the vector's Euclidean norm.
    ApplyL2,
    /// Divide each component by the root-mean-square, offset by epsilon.
    ApplyRmsNorm { epsilon_bits: u32 },
}

impl Embedding {
    /// Decide how this embedding is normalized to `method`.
    ///
    /// Fails exactly when the embedding has already been normalized
    /// (its method is not `None`); succeeds with the kernel to apply, or
    /// `Keep` when no transformation is needed.
    pub fn normalize_action(&self, method: &EmbeddingNormalizationMethod) -> (r: Result<
        NormalizationAction,
        Error,
    >)
        ensures
            r is Ok <==> self.normalization_method is NoNormalization,
            self.normalization_method is NoNormalization ==> r == Ok::<_, Error>(
                match *method {
                    EmbeddingNormalizationMethod::NoNormalization => NormalizationAction::Keep,
                    EmbeddingNormalizationMethod::L2 => NormalizationAction::ApplyL2,
                    EmbeddingNormalizationMethod::RmsNorm { epsilon_bits } =>
                        NormalizationAction::ApplyRmsNorm { epsilon_bits },
                },
            ),
    {
        if !self.normalization_method.can_transform_to(method) {
            return Err(Error::Other("cannot transform an already normalized embedding".to_owned()));
        }
        if !self.normalization_method.needs_transformation_to(method) {
            return Ok(NormalizationAction::Keep);
        }
        match method {
            EmbeddingNormalizationMethod::NoNormalization => Ok(NormalizationAction::Keep),
            EmbeddingNormalizationMethod::L2 => Ok(NormalizationAction::ApplyL2),
            EmbeddingNormalizationMethod::RmsNorm { epsilon_bits } => Ok(
                NormalizationAction::ApplyRmsNorm { epsilon_bits: *epsilon_bits },
            ),
        }
    }

    /// Rebuild this embedding after the kernel has produced `components`:
    /// the method is replaced, and the pooling type and source document id
    /// are preserved.
    pub fn with_normalized(
        self,
        method: EmbeddingNormalizationMethod,
        components: Vec<u32>,
    ) -> (r: Embedding)
        ensures
            r.embedding@ == components@,
            r.normalization_method == method,
            r.pooling_type == self.pooling_type,
            r.source_document_id@ == self.source_document_id@,
    {
        Embedding {
            embedding: components,
            normalization_method: method,
            pooling_type: self.pooling_type,
            source_document_id: self.source_document_id,
        }
    }
}

/// The content and identifier of one input document.
pub struct DocumentView {
    pub content: Seq<char>,
    pub id: Seq<char>,
}

/// One document handed in for embedding.
#[derive(Clone, Debug, PartialEq, Eq)]
pub struct EmbeddingInputDocument {
    pub content: String,
    pub id: String,
}

impl View for EmbeddingInputDocument {
    type V = DocumentView;

    open spec fn view(&self) -> DocumentView {
        DocumentView { content: self.content@, id: self.id@ }
    }
}

impl DeepView for EmbeddingInputDocument {
    type V = DocumentView;

    open spec fn deep_view(&self) -> DocumentView {
        self.view()
    }
}

/// The body of a `generate_embedding_batch` request.
#[derive(Clone, Debug, PartialEq, Eq)]
pub struct GenerateEmbeddingBatchParams {
    pub input_batch: Vec<EmbeddingInputDocument>,
    pub normalization_method: EmbeddingNormalizationMethod,
}

/// One greedy chunking step: `state` is the closed batches, the open batch,
/// and the open batch's total character count; `d` is the next document.
/// A document that would push the open batch past `chunk_size` closes it;
/// a document never splits, so an oversized one sits alone in its batch.
pub open spec fn spec_chunk_step(
    state: (Seq<Seq<DocumentView>>, Seq<DocumentView>, nat),
    d: DocumentView,
    chunk_size: nat,
) -> (Seq<Seq<DocumentView>>, Seq<DocumentView>, nat) {
    let dlen = d.content.len();
    if state.1.len() > 0 && state.2 + dlen > chunk_size {
        (state.0.push(state.1), seq![d], dlen)
    } else {
        (state.0, state.1.push(d), (state.2 + dlen) as nat)
    }
}

/// The chunking state after folding `docs` left to right.
pub open spec fn spec_chunk_fold(docs: Seq<DocumentView>, chunk_size: nat) -> (
    Seq<Seq<DocumentView>>,
    Seq<DocumentView>,
    nat,
)
    decreases docs.len(),
{
    if docs.len() == 0 {
        (Seq::empty(), Seq::empty(), 0nat)
    } else {
        spec_chunk_step(spec_chunk_fold(docs.drop_last(), chunk_size), docs.last(), chunk_size)
    }
}

/// The batches that greedy chunking splits `docs` into: character counts,
/// not bytes, bound each batch, and the final open batch is closed.
pub open spec fn spec_chunk_by_input_size(docs: Seq<DocumentView>, chunk_size: nat) -> Seq<
    Seq<DocumentView>,
> {
    let state = spec_chunk_fold(docs, chunk_size);
    if state.1.len() > 0 {
        state.0.push(state.1)
    } else {
        state.0
    }
}

/// The number of characters (not bytes) in `content`.
fn char_count(content: &str) -> (r: usize)
    ensures
        r == content@.len(),
{
    let v = crate::text::chars_of(content);
    v.len()
}

impl GenerateEmbeddingBatchParams {
    /// Split the input batch into consecutive batches whose total input
    /// size (characters over all documents) stays within `chunk_size`,
    /// except that a single oversized document forms its own batch. Every
    /// batch carries this request's normalization method.
    pub fn chunk_by_input_size(&self, chunk_size: usize) -> (r: Vec<GenerateEmbeddingBatchParams>)
        ensures
            Seq::new(r@.len(), |i: int| r@[i].input_batch.deep_view())
                == spec_chunk_by_input_size(self.input_batch.deep_view(), chunk_size as nat),
            forall|i: int|
                0 <= i < r@.len() ==> r@[i].normalization_method == self.normalization_method,
    {
        let ghost docs = self.input_batch.deep_view();
        let mut closed: Vec<GenerateEmbeddingBatchParams> = Vec::new();
        let mut open: Vec<EmbeddingInputDocument> = Vec::new();
        let mut open_len: usize = 0;
        let mut i: usize = 0;
        while i < self.input_batch.len()
            invariant
                i <= docs.len(),
                docs == self.input_batch.deep_view(),
                docs.len() == self.input_batch@.len(),
                ({
                    let state = spec_chunk_fold(docs.take(i as int), chunk_size as nat);
                    &&& Seq::new(closed@.len(), |j: int| closed@[j].input_batch.deep_view())
                        == state.0
                    &&& open.deep_view() == state.1
                    &&& open_len == state.2
                }),
                forall|j: int|
                    0 <= j < closed@.len() ==> closed@[j].normalization_method
                        == self.normalization_method,
            decreases docs.len() - i,
        {
            let d = EmbeddingInputDocument {
                content: self.input_batch[i].content.clone(),
                id: self.input_batch[i].id.clone(),
            };
            assert(d@ == docs[i as int]);
            let dlen = char_count(d.content.as_str());
            let overflows = if open.len() > 0 {
                if open_len > chunk_size {
                    true
                } else {
                    dlen > chunk_size - open_len
                }
            } else {
                false
            };
            proof {
                assert(docs.take(i + 1).drop_last() =~= docs.take(i as int));
                assert(docs.take(i + 1).last() == docs[i as int]);
            }
            let ghost old_closed = closed@;
            let ghost old_open = open.deep_view();
            if overflows {
                let finished = GenerateEmbeddingBatchParams {
                    input_batch: open,
                    normalization_method: self.normalization_method,
                };
                closed.push(finished);
                open = Vec::new();
                open.push(d);
                open_len = dlen;
                proof {
                    assert(Seq::new(closed@.len(), |j: int| closed@[j].input_batch.deep_view())
                        =~= Seq::new(old_closed.len(), |j: int| old_closed[j].input_batch.deep_view())
                            .push(old_open));
                    assert(open.deep_view() =~= seq![docs[i as int]]);
                }
            } else {
                open.push(d);
                open_len = open_len + dlen;
                proof {
                    assert(open.deep_view() =~= old_open.push(docs[i as int]));
                }
            }
            i = i + 1;
        }
        proof {
            assert(docs.take(docs.len() as int) =~= docs);
        }
        if open.len() > 0 {
            let ghost old_closed = closed@;
            let finished = GenerateEmbeddingBatchParams {
                input_batch: open,
                normalization_method: self.normalization_method,
            };
            closed.push(finished);
            proof {
                assert(Seq::new(closed@.len(), |j: int| closed@[j].input_batch.deep_view())
                    =~= Seq::new(old_closed.len(), |j: int| old_closed[j].input_batch.deep_view())
                        .push(spec_chunk_fold(docs, chunk_size as nat).1));
            }
        }
        closed
    }
}

} // verus!

use paddler::embedding::Embedding;
use paddler::embedding::EmbeddingInputDocument;
use paddler::embedding::EmbeddingNormalizationMethod;
use paddler::embedding::GenerateEmbeddingBatchParams;
use paddler::embedding::NormalizationAction;
use paddler::embedding::PoolingType;

fn make_doc(id: &str, content: &str) -> EmbeddingInputDocument {
    EmbeddingInputDocument {
        content: content.to_string(),
        id: id.to_string(),
    }
}

fn make_params(docs: Vec<EmbeddingInputDocument>) -> GenerateEmbeddingBatchParams {
    GenerateEmbeddingBatchParams {
        input_batch: docs,
        normalization_method: EmbeddingNormalizationMethod::NoNormalization,
    }
}

#[test]
fn test_can_transform_from_none_to_l2() {
    let source = EmbeddingNormalizationMethod::NoNormalization;

    assert!(source.can_transform_to(&EmbeddingNormalizationMethod::L2));
}

#[test]
fn test_can_transform_from_none_to_rms_norm() {
    let source = EmbeddingNormalizationMethod::NoNormalization;

    assert!(source.can_transform_to(&EmbeddingNormalizationMethod::RmsNorm {
        epsilon_bits: 1e-6_f32.to_bits(),
    }));
}

#[test]
fn test_can_transform_from_none_to_none() {
    let source = EmbeddingNormalizationMethod::NoNormalization;

    assert!(source.can_transform_to(&EmbeddingNormalizationMethod::NoNormalization));
}

#[test]
fn test_cannot_transform_from_l2_to_anything() {
    let source = EmbeddingNormalizationMethod::L2;

    assert!(!source.can_transform_to(&EmbeddingNormalizationMethod::NoNormalization));
    assert!(!source.can_transform_to(&EmbeddingNormalizationMethod::L2));
    assert!(!source.can_transform_to(&EmbeddingNormalizationMethod::RmsNorm {
        epsilon_bits: 1e-6_f32.to_bits(),
    }));
}

#[test]
fn test_cannot_transform_from_rms_norm_to_anything() {
    let source = EmbeddingNormalizationMethod::RmsNorm {
        epsilon_bits: 1e-6_f32.to_bits(),
    };

    assert!(!source.can_transform_to(&EmbeddingNormalizationMethod::NoNormalization));
    assert!(!source.can_transform_to(&EmbeddingNormalizationMethod::L2));
    assert!(!source.can_transform_to(&EmbeddingNormalizationMethod::RmsNorm {
        epsilon_bits: 1e-6_f32.to_bits(),
    }));
}

#[test]
fn test_needs_transformation_between_different_methods() {
    let none = EmbeddingNormalizationMethod::NoNormalization;
    let l2 = EmbeddingNormalizationMethod::L2;
    let rms = EmbeddingNormalizationMethod::RmsNorm {
        epsilon_bits: 1e-6_f32.to_bits(),
    };

    assert!(none.needs_transformation_to(&l2));
    assert!(none.needs_transformation_to(&rms));
    assert!(l2.needs_transformation_to(&none));
    assert!(l2.needs_transformation_to(&rms));
    assert!(rms.needs_transformation_to(&none));
    assert!(rms.needs_transformation_to(&l2));
}

#[test]
fn test_no_transformation_needed_for_same_method() {
    assert!(!EmbeddingNormalizationMethod::NoNormalization
        .needs_transformation_to(&EmbeddingNormalizationMethod::NoNormalization));
    assert!(
        !EmbeddingNormalizationMethod::L2.needs_transformation_to(&EmbeddingNormalizationMethod::L2)
    );
}

#[test]
fn test_no_transformation_needed_for_rms_norm_with_different_epsilon() {
    let rms_a = EmbeddingNormalizationMethod::RmsNorm {
        epsilon_bits: 1e-6_f32.to_bits(),
    };
    let rms_b = EmbeddingNormalizationMethod::RmsNorm {
        epsilon_bits: 1e-3_f32.to_bits(),
    };

    assert!(!rms_a.needs_transformation_to(&rms_b));
}

#[test]
fn test_normalize_action_from_none_to_l2() {
    let embedding = Embedding {
        embedding: vec![3.0_f32.to_bits(), 4.0_f32.to_bits()],
        normalization_method: EmbeddingNormalizationMethod::NoNormalization,
        pooling_type: PoolingType::Mean,
        source_document_id: "test".to_string(),
    };

    assert_eq!(
        embedding
            .normalize_action(&EmbeddingNormalizationMethod::L2)
            .unwrap(),
        NormalizationAction::ApplyL2
    );
}

#[test]
fn test_normalize_action_none_to_none_is_noop() {
    let embedding = Embedding {
        embedding: vec![1.0_f32.to_bits()],
        normalization_method: EmbeddingNormalizationMethod::NoNormalization,
        pooling_type: PoolingType::Mean,
        source_document_id: "test".to_string(),
    };

    assert_eq!(
        embedding
            .normalize_action(&EmbeddingNormalizationMethod::NoNormalization)
            .unwrap(),
        NormalizationAction::Keep
    );
}

#[test]
fn test_normalize_action_rejects_normalized_source() {
    let embedding = Embedding {
        embedding: vec![0.6_f32.to_bits(), 0.8_f32.to_bits()],
        normalization_method: EmbeddingNormalizationMethod::L2,
        pooling_type: PoolingType::Mean,
        source_document_id: "test".to_string(),
    };

    assert!(embedding
        .normalize_action(&EmbeddingNormalizationMethod::NoNormalization)
        .is_err());
}

#[test]
fn test_with_normalized_preserves_metadata() {
    let embedding = Embedding {
        embedding: vec![3.0_f32.to_bits(), 4.0_f32.to_bits()],
        normalization_method: EmbeddingNormalizationMethod::NoNormalization,
        pooling_type: PoolingType::Cls,
        source_document_id: "doc-42".to_string(),
    };
    let result = embedding.with_normalized(
        EmbeddingNormalizationMethod::L2,
        vec![0.6_f32.to_bits(), 0.8_f32.to_bits()],
    );

    assert!(matches!(result.pooling_type, PoolingType::Cls));
    assert_eq!(result.source_document_id, "doc-42");
    assert_eq!(
        result.normalization_method,
        EmbeddingNormalizationMethod::L2
    );
}

#[test]
fn test_chunk_by_input_size() {
    let params = make_params(vec![
        make_doc("1", "Hello"),
        make_doc("2", "World"),
        make_doc("3", "This is a test"),
    ]);

    let batches = params.chunk_by_input_size(10);

    assert_eq!(batches.len(), 2);
    assert_eq!(batches[0].input_batch.len(), 2);
    assert_eq!(batches[0].input_batch[0].id, "1");
    assert_eq!(batches[0].input_batch[1].id, "2");
    assert_eq!(batches[1].input_batch.len(), 1);
    assert_eq!(batches[1].input_batch[0].id, "3");
}

#[test]
fn test_chunk_empty_batch() {
    let params = make_params(vec![]);
    let batches = params.chunk_by_input_size(100);

    assert!(batches.is_empty());
}

#[test]
fn test_chunk_single_item_larger_than_chunk_size() {
    let params = make_params(vec![make_doc("1", "This content exceeds the chunk limit")]);

    let batches = params.chunk_by_input_size(5);

    assert_eq!(batches.len(), 1);
    assert_eq!(batches[0].input_batch.len(), 1);
    assert_eq!(batches[0].input_batch[0].id, "1");
}

#[test]
fn test_chunk_oversized_item_does_not_merge_with_next() {
    let params = make_params(vec![
        make_doc("1", "This is way too long for chunk"),
        make_doc("2", "Short"),
    ]);

    let batches = params.chunk_by_input_size(5);

    assert_eq!(batches.len(), 2);
    assert_eq!(batches[0].input_batch[0].id, "1");
    assert_eq!(batches[1].input_batch[0].id, "2");
}

#[test]
fn test_chunk_exact_fit() {
    let params = make_params(vec![make_doc("1", "12345"), make_doc("2", "67890")]);

    let batches = params.chunk_by_input_size(10);

    assert_eq!(batches.len(), 1);
    assert_eq!(batches[0].input_batch.len(), 2);
}

#[test]
fn test_chunk_one_over_limit_splits() {
    let params = make_params(vec![make_doc("1", "12345"), make_doc("2", "678901")]);

    let batches = params.chunk_by_input_size(10);

    assert_eq!(batches.len(), 2);
    assert_eq!(batches[0].input_batch.len(), 1);
    assert_eq!(batches[1].input_batch.len(), 1);
}

#[test]
fn test_chunk_preserves_normalization_method() {
    let params = GenerateEmbeddingBatchParams {
        input_batch: vec![make_doc("1", "test")],
        normalization_method: EmbeddingNormalizationMethod::L2,
    };

    let batches = params.chunk_by_input_size(100);

    assert!(matches!(
        batches[0].normalization_method,
        EmbeddingNormalizationMethod::L2
    ));
}

#[test]
fn test_chunk_counts_unicode_chars_not_bytes() {
    let params = make_params(vec![make_doc("1", "café"), make_doc("2", "naïve")]);

    let batches = params.chunk_by_input_size(9);

    assert_eq!(batches.len(), 1);
    assert_eq!(batches[0].input_batch.len(), 2);
}

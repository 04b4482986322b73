use meetily_models::config::DEFAULT_PARAKEET_MODEL;
use meetily_models::transcription_catalog::{
    get_transcription_model, is_nemo_model, nemo_models, parakeet_onnx_models, TranscriptionRuntime,
    NEMO_PARAKEET_RNNT_1_1B,
};

#[test]
fn resolves_default_parakeet_to_onnx_runtime() {
    let entry = get_transcription_model(DEFAULT_PARAKEET_MODEL).unwrap();
    assert_eq!(entry.runtime, TranscriptionRuntime::ParakeetOnnx);
}

#[test]
fn resolves_rnnt_model_to_nemo_runtime() {
    let entry = get_transcription_model(NEMO_PARAKEET_RNNT_1_1B).unwrap();
    assert_eq!(entry.provider, "parakeet");
    assert_eq!(entry.runtime, TranscriptionRuntime::Nemo);
    assert_eq!(entry.repo_id, Some("nvidia/parakeet-rnnt-1.1b"));
    assert_eq!(entry.filename, Some("parakeet-rnnt-1.1b.nemo"));
}

#[test]
fn transcription_catalog_lists_and_flags() {
    assert_eq!(parakeet_onnx_models().len(), 2);
    assert_eq!(nemo_models().len(), 1);
    assert_eq!(parakeet_onnx_models()[1].model_id, "parakeet-tdt-0.6b-v2-int8");
    assert_eq!(nemo_models()[0].size_mb, 4280);
    assert!(is_nemo_model(NEMO_PARAKEET_RNNT_1_1B));
    assert!(!is_nemo_model(DEFAULT_PARAKEET_MODEL));
    assert!(!is_nemo_model("large-v3"));
    assert!(get_transcription_model("large-v3").is_none());
}

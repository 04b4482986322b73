use meetily_models::config::DEFAULT_PARAKEET_MODEL;
use meetily_models::model_catalog::{
    detect_model_format, get_custom_models, get_ready_custom_models, is_custom_model,
    is_nemo_model, lookup_custom_model, lookup_model, models_for_runtime, register_custom_model,
    resolve_runtime, unregister_custom_model, update_custom_model_status, CustomModelCatalogEntry,
    CustomModelRegistry, CustomModelStatus, ModelFormat, ModelRuntime,
};

#[test]
fn test_onnx_model_resolves_to_parakeet_runtime() {
    let registry = CustomModelRegistry::new();
    let runtime = resolve_runtime(&registry, "parakeet", "parakeet-tdt-0.6b-v3-int8");
    assert_eq!(runtime, Some(ModelRuntime::Parakeet));
}

#[test]
fn test_nemo_model_resolves_to_nemo_runtime() {
    let registry = CustomModelRegistry::new();
    let runtime = resolve_runtime(&registry, "parakeet", "nvidia/parakeet-rnnt-1.1b");
    assert_eq!(runtime, Some(ModelRuntime::Nemo));
}

#[test]
fn test_whisper_resolves_to_local_whisper_runtime() {
    let registry = CustomModelRegistry::new();
    let runtime = resolve_runtime(&registry, "localWhisper", "large-v3-turbo");
    assert_eq!(runtime, Some(ModelRuntime::LocalWhisper));
}

#[test]
fn test_unknown_model_returns_none() {
    let registry = CustomModelRegistry::new();
    let runtime = resolve_runtime(&registry, "parakeet", "nonexistent-model");
    assert_eq!(runtime, None);
}

#[test]
fn test_is_nemo_model() {
    let registry = CustomModelRegistry::new();
    assert!(is_nemo_model(&registry, "nvidia/parakeet-rnnt-1.1b"));
    assert!(!is_nemo_model(&registry, "parakeet-tdt-0.6b-v3-int8"));
}

#[test]
fn test_lookup_model() {
    let entry = lookup_model("nvidia/parakeet-rnnt-1.1b").unwrap();
    assert_eq!(entry.provider, "parakeet");
    assert_eq!(entry.runtime, ModelRuntime::Nemo);
    assert_eq!(entry.size_mb, 4280);
    assert_eq!(entry.sample_rate, 16000);
}

#[test]
fn test_models_for_runtime() {
    let onnx_models = models_for_runtime(ModelRuntime::Parakeet);
    assert_eq!(onnx_models.len(), 2);

    let nemo_models = models_for_runtime(ModelRuntime::Nemo);
    assert_eq!(nemo_models.len(), 1);
    assert_eq!(nemo_models[0].model_id, "nvidia/parakeet-rnnt-1.1b");
}

#[test]
fn test_default_model_is_in_catalog() {
    let entry = lookup_model(DEFAULT_PARAKEET_MODEL);
    assert!(entry.is_some(), "Default parakeet model must be in catalog");
    assert_eq!(entry.unwrap().runtime, ModelRuntime::Parakeet);
}

#[test]
fn test_detect_onnx_format() {
    let files = vec![
        "encoder-model.int8.onnx".to_string(),
        "decoder_joint-model.int8.onnx".to_string(),
        "vocab.txt".to_string(),
    ];
    assert_eq!(detect_model_format(&files), ModelFormat::Onnx);
}

#[test]
fn test_detect_mlx_format() {
    let files = vec![
        "config.json".to_string(),
        "weights.safetensors".to_string(),
        "tokenizer.json".to_string(),
    ];
    assert_eq!(detect_model_format(&files), ModelFormat::Mlx);
}

#[test]
fn test_detect_safetensors_format() {
    let files = vec![
        "pytorch_model.safetensors".to_string(),
        "tokenizer.json".to_string(),
    ];
    assert_eq!(detect_model_format(&files), ModelFormat::Safetensors);
}

#[test]
fn test_detect_nemo_format() {
    let files = vec!["parakeet-rnnt-1.1b.nemo".to_string()];
    assert_eq!(detect_model_format(&files), ModelFormat::NemoCheckpoint);
}

#[test]
fn test_detect_unknown_format() {
    let files = vec!["README.md".to_string(), "LICENSE".to_string()];
    assert_eq!(detect_model_format(&files), ModelFormat::Unknown);
}

#[test]
fn test_onnx_takes_priority_over_safetensors() {
    let files = vec!["model.onnx".to_string(), "model.safetensors".to_string()];
    assert_eq!(detect_model_format(&files), ModelFormat::Onnx);
}

#[test]
fn test_is_custom_model() {
    assert!(is_custom_model("custom/nvidia/parakeet-tdt-0.6b"));
    assert!(is_custom_model("local/my-model"));
    assert!(!is_custom_model("parakeet-tdt-0.6b-v3-int8"));
}

#[test]
fn test_custom_model_from_huggingface() {
    let entry = CustomModelCatalogEntry::from_huggingface(
        "nvidia/parakeet-tdt-0.6b",
        ModelFormat::Onnx,
        vec!["encoder.onnx".to_string(), "decoder.onnx".to_string()],
        650,
        Some("My Custom Parakeet".to_string()),
        None,
    );

    assert_eq!(entry.model_id, "custom/nvidia/parakeet-tdt-0.6b");
    assert_eq!(entry.runtime, ModelRuntime::Parakeet);
    assert_eq!(entry.format, ModelFormat::Onnx);
    assert!(!entry.is_ready());
    assert!(!entry.needs_conversion());
}

#[test]
fn test_custom_model_needs_conversion() {
    let entry = CustomModelCatalogEntry::from_huggingface(
        "some/mlx-model",
        ModelFormat::Mlx,
        vec!["weights.safetensors".to_string()],
        300,
        None,
        None,
    );

    assert!(entry.needs_conversion());
}

#[test]
fn test_model_format_display() {
    assert_eq!(ModelFormat::Onnx.to_display_string(), "ONNX");
    assert_eq!(ModelFormat::Mlx.to_display_string(), "MLX");
    assert_eq!(ModelFormat::Safetensors.to_display_string(), "Safetensors");
    assert_eq!(ModelFormat::NemoCheckpoint.to_display_string(), "NeMo");
    assert_eq!(ModelFormat::Unknown.to_display_string(), "Unknown");
}

// ── Further cases ───────────────────────────────────────────────────────────

#[test]
fn custom_model_description_defaults_name_the_repo_and_format() {
    let entry = CustomModelCatalogEntry::from_huggingface(
        "org/model",
        ModelFormat::Safetensors,
        vec![],
        12,
        None,
        None,
    );
    assert_eq!(entry.label, "org/model");
    assert_eq!(entry.description, "Custom HuggingFace model: org/model (Safetensors)");
    assert_eq!(entry.provider, "parakeet");
    assert_eq!(entry.sample_rate, 16000);
    assert_eq!(entry.repo.as_deref(), Some("org/model"));
    assert_eq!(entry.status, CustomModelStatus::Pending);
}

#[test]
fn nemo_checkpoint_custom_model_runs_on_nemo() {
    let entry = CustomModelCatalogEntry::from_huggingface(
        "org/ckpt",
        ModelFormat::NemoCheckpoint,
        vec!["a.nemo".to_string()],
        1,
        None,
        Some("desc".to_string()),
    );
    assert_eq!(entry.runtime, ModelRuntime::Nemo);
    assert_eq!(entry.description, "desc");
}

#[test]
fn local_model_ids_use_the_directory_name() {
    let entry = CustomModelCatalogEntry::from_local_path(
        "/models/my-parakeet".to_string(),
        ModelFormat::Onnx,
        vec!["model.onnx".to_string()],
        5,
        None,
    );
    assert_eq!(entry.model_id, "local/my-parakeet");
    assert_eq!(entry.label, "/models/my-parakeet");
    assert_eq!(entry.description, "Local model: /models/my-parakeet (ONNX)");
    assert_eq!(entry.local_path.as_deref(), Some("/models/my-parakeet"));
    assert!(entry.repo.is_none());

    let rootless = CustomModelCatalogEntry::from_local_path(
        "/".to_string(),
        ModelFormat::Onnx,
        vec![],
        0,
        Some("root".to_string()),
    );
    assert_eq!(rootless.model_id, "local/unknown");
    assert_eq!(rootless.label, "root");
}

#[test]
fn registry_register_lookup_update_unregister() {
    let mut registry = CustomModelRegistry::new();
    let entry = CustomModelCatalogEntry::from_huggingface(
        "org/custom-onnx",
        ModelFormat::Onnx,
        vec!["model.onnx".to_string()],
        10,
        None,
        None,
    );
    assert!(register_custom_model(&mut registry, entry.clone()).is_ok());
    let dup = register_custom_model(&mut registry, entry.clone());
    assert_eq!(
        dup,
        Err("Custom model 'custom/org/custom-onnx' is already registered".to_string())
    );
    assert_eq!(get_custom_models(&registry).len(), 1);

    let found = lookup_custom_model(&registry, "custom/org/custom-onnx").unwrap();
    assert_eq!(found.files, vec!["model.onnx".to_string()]);
    assert_eq!(
        resolve_runtime(&registry, "parakeet", "custom/org/custom-onnx"),
        Some(ModelRuntime::Parakeet)
    );

    assert!(get_ready_custom_models(&registry).is_empty());
    assert!(update_custom_model_status(&mut registry, "custom/org/custom-onnx", CustomModelStatus::Ready).is_ok());
    assert_eq!(get_ready_custom_models(&registry).len(), 1);
    assert_eq!(
        update_custom_model_status(&mut registry, "missing", CustomModelStatus::Ready),
        Err("Custom model 'missing' not found in registry".to_string())
    );

    let removed = unregister_custom_model(&mut registry, "custom/org/custom-onnx").unwrap();
    assert_eq!(removed.model_id, "custom/org/custom-onnx");
    assert!(removed.is_ready());
    assert!(lookup_custom_model(&registry, "custom/org/custom-onnx").is_none());
    assert_eq!(
        unregister_custom_model(&mut registry, "custom/org/custom-onnx").map(|e| e.model_id),
        Err("Custom model 'custom/org/custom-onnx' not found in registry".to_string())
    );
}

#[test]
fn builtin_catalog_wins_over_custom_registry() {
    let mut registry = CustomModelRegistry::new();
    let mut entry = CustomModelCatalogEntry::from_huggingface(
        "x",
        ModelFormat::NemoCheckpoint,
        vec![],
        1,
        None,
        None,
    );
    entry.model_id = "parakeet-tdt-0.6b-v3-int8".to_string();
    register_custom_model(&mut registry, entry).unwrap();
    assert_eq!(
        resolve_runtime(&registry, "parakeet", "parakeet-tdt-0.6b-v3-int8"),
        Some(ModelRuntime::Parakeet)
    );
    assert_eq!(
        resolve_runtime(&registry, "whisper", "parakeet-tdt-0.6b-v3-int8"),
        Some(ModelRuntime::LocalWhisper)
    );
}

#[test]
fn mlx_config_alone_is_not_mlx() {
    let files = vec!["mlx_config.json".to_string(), "tokenizer.json".to_string()];
    assert_eq!(detect_model_format(&files), ModelFormat::Unknown);
    let files = vec!["my-mlx-notes.txt".to_string(), "model.safetensors".to_string()];
    assert_eq!(detect_model_format(&files), ModelFormat::Mlx);
    let files = vec!["a.nemo".to_string(), "weights.safetensors".to_string(), "config.json".to_string()];
    assert_eq!(detect_model_format(&files), ModelFormat::NemoCheckpoint);
}

#[test]
fn runtime_display_strings() {
    assert_eq!(ModelRuntime::LocalWhisper.to_display_string(), "localWhisper");
    assert_eq!(ModelRuntime::Parakeet.to_display_string(), "parakeet");
    assert_eq!(ModelRuntime::Nemo.to_display_string(), "nemo");
}

use meetily_models::json::JsonValue;
use meetily_models::model_catalog::{CustomModelStatus, ModelFormat};
use meetily_models::parakeet_engine::commands::{
    choose_parakeet_model, configured_parakeet_model, custom_model_added_reply,
    custom_model_dir_name, custom_model_from_inspection, custom_model_location,
    custom_model_removed_message, download_event_status, inspection_failure_message,
    registration_failure_message, has_available_model, local_model_entry,
    local_model_added_reply, status_debug_text, string_list_debug, CustomModelLocation,
    NO_MODELS_AVAILABLE,
};
use meetily_models::parakeet_engine::huggingface_api::{
    content_range_total, download_status_ok, download_total_bytes, file_download_url,
    file_tree_url, inspection_result, is_stt_model, model_info_url, model_relevant_files,
    download_failure_message, resume_range_header, should_report_download_progress,
    total_size_bytes, validate_local_model_files, DownloadCounter, HuggingFaceFileEntry, HuggingFaceModelInfo, LfsInfo,
    ModelInspectionResult,
};
use meetily_models::parakeet_engine::mlx_converter::{
    check_mlx_platform_support, conversion_outcome, get_conversion_capabilities,
    get_mlx_compatibility_message, mlx_conversion_precheck, mlx_conversion_script,
    safetensors_conversion_precheck, ConversionStatus, MlxPlatformSupport,
};
use meetily_models::parakeet_engine::{ModelInfo, ModelStatus, QuantizationType};

#[test]
fn test_platform_support_detection() {
    let support = check_mlx_platform_support("windows", "x86_64");
    assert_eq!(support, MlxPlatformSupport::UnsupportedWindows);
    let support = check_mlx_platform_support("linux", "x86_64");
    assert_eq!(support, MlxPlatformSupport::UnsupportedLinux);
    assert_eq!(check_mlx_platform_support("macos", "aarch64"), MlxPlatformSupport::Supported);
    assert_eq!(check_mlx_platform_support("macos", "x86_64"), MlxPlatformSupport::UnsupportedIntelMac);
}

#[test]
fn test_compatibility_message_not_empty() {
    let msg = get_mlx_compatibility_message(check_mlx_platform_support("linux", "x86_64"));
    assert!(!msg.is_empty());
    assert!(msg.contains("On Linux"));
}

fn member<'a>(v: &'a JsonValue, key: &str) -> Option<&'a JsonValue> {
    match v {
        JsonValue::Object(ms) => ms.iter().find(|(k, _)| k == key).map(|(_, v)| v),
        _ => None,
    }
}

#[test]
fn test_conversion_capabilities() {
    let caps = get_conversion_capabilities(check_mlx_platform_support("linux", "x86_64"));
    assert!(member(&caps, "platform").is_some());
    assert!(member(&caps, "conversions").is_some());
    assert!(member(&caps, "recommendation").is_some());
    assert_eq!(member(&caps, "platform"), Some(&JsonValue::String("Unsupported (Linux)".to_string())));
    assert_eq!(member(&caps, "mlxSupported"), Some(&JsonValue::Bool(false)));
}

#[test]
fn test_platform_display() {
    assert_eq!(MlxPlatformSupport::UnsupportedWindows.to_display_string(), "Unsupported (Windows)");
}

#[test]
fn conversion_prechecks() {
    match mlx_conversion_precheck(MlxPlatformSupport::UnsupportedIntelMac, true, true) {
        Err(guidance) => assert_eq!(
            guidance,
            get_mlx_compatibility_message(MlxPlatformSupport::UnsupportedIntelMac)
        ),
        other => panic!("unexpected {:?}", other),
    }
    match mlx_conversion_precheck(MlxPlatformSupport::UnsupportedWindows, false, false) {
        Err(guidance) => assert!(guidance.contains("On Windows")),
        other => panic!("unexpected {:?}", other),
    }
    match mlx_conversion_precheck(MlxPlatformSupport::Supported, false, true) {
        Ok(Some(ConversionStatus::Failed { error })) => assert!(error.starts_with("Python 3.10+")),
        other => panic!("unexpected {:?}", other),
    }
    match mlx_conversion_precheck(MlxPlatformSupport::Supported, true, false) {
        Ok(Some(ConversionStatus::Failed { error })) => {
            assert!(error.contains("pip install mlx-onnx"))
        }
        other => panic!("unexpected {:?}", other),
    }
    assert!(matches!(mlx_conversion_precheck(MlxPlatformSupport::Supported, true, true), Ok(None)));
    assert!(safetensors_conversion_precheck(true).is_none());
    assert!(matches!(safetensors_conversion_precheck(false), Some(ConversionStatus::Failed { .. })));
}

#[test]
fn conversion_script_uses_forward_slashes() {
    let script = mlx_conversion_script("C:\\models\\m", "C:\\out");
    assert!(script.contains("convert(\"C:/models/m\", \"C:/out\")"));
    assert!(script.contains("print(f\"CONVERSION_ERROR: {e}\")"));
}

#[test]
fn conversion_outcomes() {
    match conversion_outcome(true, "ok\nCONVERSION_SUCCESS\n", "", "/out".to_string()) {
        ConversionStatus::Completed { output_path } => assert_eq!(output_path, "/out"),
        other => panic!("unexpected {:?}", other),
    }
    match conversion_outcome(true, "nothing", "", "/out".to_string()) {
        ConversionStatus::Failed { error } => assert_eq!(error, "Conversion failed: nothing"),
        other => panic!("unexpected {:?}", other),
    }
    match conversion_outcome(false, "CONVERSION_SUCCESS", "boom", "/out".to_string()) {
        ConversionStatus::Failed { error } => assert_eq!(error, "Conversion failed: boom"),
        other => panic!("unexpected {:?}", other),
    }
}

fn file(name: &str, size: u64, lfs: Option<u64>) -> HuggingFaceFileEntry {
    HuggingFaceFileEntry {
        filename: name.to_string(),
        size,
        blob_id: None,
        lfs: lfs.map(|s| LfsInfo { sha256: None, size: s }),
    }
}

#[test]
fn hub_urls() {
    assert_eq!(model_info_url("nvidia/x"), "https://huggingface.co/api/models/nvidia/x");
    assert_eq!(file_tree_url("nvidia/x"), "https://huggingface.co/api/models/nvidia/x/tree/main");
    assert_eq!(
        file_download_url("nvidia/x", "sub/encoder.onnx"),
        "https://huggingface.co/nvidia/x/resolve/main/sub/encoder.onnx"
    );
}

#[test]
fn inspection_of_a_model() {
    let info = HuggingFaceModelInfo {
        model_id: "istupakov/parakeet-tdt-0.6b-v3-onnx".to_string(),
        author: None,
        tags: vec!["onnx".to_string(), "ASR-model".to_string()],
        pipeline_tag: None,
        downloads: 0,
        likes: 0,
    };
    let files = vec![
        file("README.md", 100, None),
        file("encoder-model.onnx", 10, Some(600 * 1024 * 1024)),
        file("encoder-model.onnx.data", 50 * 1024 * 1024, None),
        file("vocab.txt", 2000, None),
        file(".gitattributes", 1500, None),
    ];
    let total = total_size_bytes(&files);
    assert_eq!(total, 100 + 600 * 1024 * 1024 + 50 * 1024 * 1024 + 2000 + 1500);
    let r: ModelInspectionResult = inspection_result("istupakov/parakeet-tdt-0.6b-v3-onnx", &info, files);
    assert_eq!(r.model_id, "istupakov/parakeet-tdt-0.6b-v3-onnx");
    assert_eq!(r.format, ModelFormat::Onnx);
    assert_eq!(r.total_size_mb, 650);
    assert_eq!(
        r.model_files,
        vec![
            "encoder-model.onnx".to_string(),
            "encoder-model.onnx.data".to_string(),
            "vocab.txt".to_string()
        ]
    );
    // "ASR-model" is not lowercase, so only the tag match counts: none here.
    assert!(!r.is_stt_model);
}

#[test]
fn speech_models_are_recognised() {
    assert!(is_stt_model(&Some("automatic-speech-recognition".to_string()), &vec![]));
    assert!(!is_stt_model(&Some("text-generation".to_string()), &vec![]));
    assert!(is_stt_model(&None, &vec!["nemo".to_string()]));
    assert!(is_stt_model(&None, &vec!["en".to_string(), "whisper-small".to_string()]));
    assert!(!is_stt_model(&None, &vec!["vision".to_string()]));
}

#[test]
fn relevant_files_keep_their_order() {
    let names = vec![
        "config.json".to_string(),
        "model.safetensors".to_string(),
        "notes.txt".to_string(),
        "pytorch_model.bin".to_string(),
        "tokenizer.json".to_string(),
        "x.nemo".to_string(),
    ];
    assert_eq!(
        model_relevant_files(&names),
        vec![
            "config.json".to_string(),
            "model.safetensors".to_string(),
            "pytorch_model.bin".to_string(),
            "tokenizer.json".to_string(),
            "x.nemo".to_string()
        ]
    );
}

#[test]
fn resumed_downloads() {
    assert_eq!(resume_range_header(1234), "bytes=1234-");
    assert_eq!(content_range_total("bytes 100-999/1000"), Some(1000));
    assert_eq!(content_range_total("bytes 100-999/*"), None);
    assert_eq!(download_total_bytes(true, Some("bytes 100-999/1000"), 100, Some(900)), 1000);
    assert_eq!(download_total_bytes(true, Some("garbage"), 100, Some(900)), 1000);
    assert_eq!(download_total_bytes(true, None, 100, None), 100);
    assert_eq!(download_total_bytes(false, Some("bytes 0-1/2"), 100, Some(900)), 900);
    assert_eq!(download_total_bytes(false, None, 0, None), 0);
    assert!(download_status_ok(200));
    assert!(download_status_ok(206));
    assert!(!download_status_ok(404));
    assert!(!download_status_ok(302));
    assert!(!should_report_download_progress(200_000_000));
    assert!(should_report_download_progress(200_000_001));
}

#[test]
fn local_directory_validation() {
    assert_eq!(validate_local_model_files("/m", vec![]), Err("Directory is empty: /m".to_string()));
    assert_eq!(
        validate_local_model_files("/m", vec!["readme.md".to_string()]),
        Err("No recognized model files found in /m. Expected ONNX, Safetensors, MLX, or NeMo files.".to_string())
    );
    assert_eq!(
        validate_local_model_files("/m", vec!["model.onnx".to_string()]),
        Ok(vec!["model.onnx".to_string()])
    );
}

fn model(name: &str, status: ModelStatus, q: QuantizationType) -> ModelInfo {
    ModelInfo {
        name: name.to_string(),
        path: format!("/models/{}", name),
        size_mb: 100,
        quantization: q,
        runtime: "parakeet".to_string(),
        speed: "fast".to_string(),
        status,
        description: String::new(),
    }
}

#[test]
fn model_choice_prefers_configured_then_int8() {
    let models = vec![
        model("a-fp32", ModelStatus::Available, QuantizationType::FP32),
        model("b-int8-missing", ModelStatus::Missing, QuantizationType::Int8),
        model("c-int8", ModelStatus::Available, QuantizationType::Int8),
    ];
    assert!(has_available_model(&models));
    assert_eq!(choose_parakeet_model(None, &models), Ok("c-int8".to_string()));
    assert_eq!(choose_parakeet_model(Some("a-fp32".to_string()), &models), Ok("a-fp32".to_string()));
    assert_eq!(
        choose_parakeet_model(Some("b-int8-missing".to_string()), &models),
        Ok("c-int8".to_string())
    );
    let fp_only = vec![model("a", ModelStatus::Available, QuantizationType::FP32)];
    assert_eq!(choose_parakeet_model(Some("zzz".to_string()), &fp_only), Ok("a".to_string()));
    let none = vec![model("x", ModelStatus::Downloading { progress: 3 }, QuantizationType::Int8)];
    assert!(!has_available_model(&none));
    assert_eq!(choose_parakeet_model(None, &none), Err(NO_MODELS_AVAILABLE.to_string()));
}

#[test]
fn configured_model_only_for_parakeet() {
    assert_eq!(configured_parakeet_model("parakeet", "m"), Some("m".to_string()));
    assert_eq!(configured_parakeet_model("parakeet", ""), None);
    assert_eq!(configured_parakeet_model("localWhisper", "m"), None);
    assert_eq!(download_event_status(100), "completed");
    assert_eq!(download_event_status(99), "downloading");
}

fn inspection(format: ModelFormat, files: Vec<&str>) -> ModelInspectionResult {
    ModelInspectionResult {
        model_id: "org/repo".to_string(),
        files: vec![],
        format,
        total_size_mb: 42,
        model_files: files.into_iter().map(|f| f.to_string()).collect(),
        is_stt_model: true,
    }
}

#[test]
fn custom_models_from_the_hub() {
    let err = custom_model_from_inspection("org/repo", &inspection(ModelFormat::Unknown, vec!["a.txt", "b\"c"]), None);
    assert_eq!(
        err.err().unwrap(),
        "Model 'org/repo' has no recognized model files (ONNX, Safetensors, MLX, or NeMo). Found files: [\"a.txt\", \"b\\\"c\"]"
    );
    let e = custom_model_from_inspection("org/repo", &inspection(ModelFormat::Onnx, vec!["m.onnx"]), Some("Mine".to_string())).unwrap();
    assert_eq!(e.model_id, "custom/org/repo");
    assert_eq!(e.label, "Mine");
    assert_eq!(e.size_mb, 42);
    assert_eq!(e.files, vec!["m.onnx".to_string()]);
    assert_eq!(e.status, CustomModelStatus::Pending);
    assert_eq!(custom_model_dir_name("org/repo"), "org_repo");
    assert_eq!(string_list_debug(&vec![]), "[]");
}

#[test]
fn replies_for_added_models() {
    let reply = custom_model_added_reply("custom/org/repo", ModelFormat::Onnx, 42, &vec!["m.onnx".to_string()], true);
    assert_eq!(
        reply,
        JsonValue::Object(vec![
            ("modelId".to_string(), JsonValue::String("custom/org/repo".to_string())),
            ("format".to_string(), JsonValue::String("ONNX".to_string())),
            ("sizeMb".to_string(), JsonValue::Number("42".to_string())),
            ("files".to_string(), JsonValue::Array(vec![JsonValue::String("m.onnx".to_string())])),
            ("isSttModel".to_string(), JsonValue::Bool(true)),
            ("status".to_string(), JsonValue::String("downloading".to_string())),
        ])
    );
    let local = local_model_added_reply("local/m", ModelFormat::NemoCheckpoint, 0, &vec![]);
    assert_eq!(member(&local, "status"), Some(&JsonValue::String("ready".to_string())));
    assert_eq!(member(&local, "sizeMb"), Some(&JsonValue::Number("0".to_string())));
    assert_eq!(custom_model_removed_message("custom/x"), "Custom model 'custom/x' removed successfully");
}

#[test]
fn local_models_are_ready_at_once() {
    let e = local_model_entry(
        "/data/my-model".to_string(),
        vec!["model.onnx".to_string(), "vocab.txt".to_string()],
        &vec![3 * 1024 * 1024, 1024 * 1024 - 1],
        None,
    )
    .unwrap();
    assert_eq!(e.model_id, "local/my-model");
    assert_eq!(e.size_mb, 3);
    assert_eq!(e.status, CustomModelStatus::Ready);
    assert_eq!(e.local_path, Some("/data/my-model".to_string()));
    let err = local_model_entry("/data/x".to_string(), vec!["a.txt".to_string()], &vec![], None);
    assert_eq!(
        err.err().unwrap(),
        "No recognized model files found at '/data/x'. Expected ONNX, Safetensors, MLX, or NeMo files."
    );
}

#[test]
fn loading_a_custom_model() {
    assert_eq!(custom_model_location("custom/x", None), Err("Custom model 'custom/x' not found".to_string()));
    let mut e = custom_model_from_inspection("org/repo", &inspection(ModelFormat::Onnx, vec!["m.onnx"]), None).unwrap();
    e.status = CustomModelStatus::Downloading { progress: 7 };
    assert_eq!(
        custom_model_location("custom/org/repo", Some(e.clone())),
        Err("Custom model 'custom/org/repo' is not ready (status: Downloading { progress: 7 })".to_string())
    );
    e.status = CustomModelStatus::Error("bad \"file\"".to_string());
    assert_eq!(
        status_debug_text(&e.status),
        format!("{:?}", CustomModelStatus::Error("bad \"file\"".to_string()))
    );
    e.status = CustomModelStatus::Ready;
    assert_eq!(
        custom_model_location("custom/org/repo", Some(e.clone())),
        Ok(CustomModelLocation::Downloaded("org_repo".to_string()))
    );
    e.format = ModelFormat::Safetensors;
    assert_eq!(
        custom_model_location("custom/org/repo", Some(e.clone())),
        Err("Custom model 'custom/org/repo' has format 'Safetensors' which requires conversion to ONNX before loading. Please convert the model first.".to_string())
    );
    e.format = ModelFormat::Onnx;
    e.repo = None;
    assert_eq!(
        custom_model_location("custom/org/repo", Some(e.clone())),
        Err("Custom model has no path or repo configured".to_string())
    );
    e.local_path = Some("/m".to_string());
    assert_eq!(custom_model_location("custom/org/repo", Some(e)), Ok(CustomModelLocation::Local("/m".to_string())));
    assert_eq!(status_debug_text(&CustomModelStatus::Pending), "Pending");
}

#[test]
fn download_counter_starts_at_the_resume_offset() {
    let counter = DownloadCounter::new(0);
    assert_eq!(counter.downloaded(), 0);
    let resumed = DownloadCounter::new(1000);
    assert_eq!(resumed.downloaded(), 1000);
}

#[test]
fn download_counter_adds_each_chunk_to_the_offset() {
    let mut counter = DownloadCounter::new(1000);
    let mut last = counter.downloaded();
    for (len, expected) in [(500u64, 1500u64), (0, 1500), (8192, 9692), (1, 9693)] {
        let now = counter.add_chunk(len);
        assert_eq!(now, expected);
        assert!(now >= last);
        last = now;
    }
    assert_eq!(counter.downloaded(), 9693);
}

#[test]
fn download_failure_message_names_file_and_status() {
    assert_eq!(
        download_failure_message("encoder-model.int8.onnx", "404 Not Found"),
        "Failed to download encoder-model.int8.onnx: HTTP 404 Not Found"
    );
}

#[test]
fn inspection_and_registration_failures_name_the_cause() {
    assert_eq!(
        inspection_failure_message("org/model", "HTTP 404"),
        "Failed to inspect model 'org/model': HTTP 404"
    );
    assert_eq!(
        registration_failure_message("Model 'x' already exists"),
        "Failed to register custom model: Model 'x' already exists"
    );
}

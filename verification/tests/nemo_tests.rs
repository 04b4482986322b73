use meetily_models::nemo_engine::commands::{
    download_event_name, has_available_nemo_model, nemo_model_to_load, nemo_readiness,
};
use meetily_models::nemo_engine::nemo_engine::{
    already_downloaded, base_url, deleted_message, discovered_status, download_source,
    download_total_size, endpoint_url, expected_size_bytes, is_current_model, is_healthy_answer,
    load_answer_check, load_precheck, model_dir_name, model_file_name, model_status_from_file,
    nemo_catalog_entry, nemo_download_url, nemo_model_info, python_command, resolve_port,
    sanitize_repo_id, should_report_progress, transcribe_plan, wav_header_16khz_mono,
    NemoDownloads, TranscribePlan, DEFAULT_NEMO_PORT,
};
use meetily_models::nemo_provider::{language_ignored, transcript_text, NemoProvider};
use meetily_models::parakeet_engine::{ModelInfo, ModelStatus, QuantizationType};
use meetily_models::transcription_catalog::NEMO_PARAKEET_RNNT_1_1B;

#[test]
fn repo_ids_are_sanitized_for_directories() {
    assert_eq!(sanitize_repo_id("nvidia/parakeet-rnnt-1.1b"), "nvidia--parakeet-rnnt-1.1b");
}

#[test]
fn port_and_urls() {
    assert_eq!(resolve_port(None), DEFAULT_NEMO_PORT);
    assert_eq!(resolve_port(Some("6000")), 6000);
    assert_eq!(resolve_port(Some("+7000")), 7000);
    assert_eq!(resolve_port(Some("70000")), DEFAULT_NEMO_PORT);
    assert_eq!(resolve_port(Some("")), DEFAULT_NEMO_PORT);
    assert_eq!(resolve_port(Some(" 6000")), DEFAULT_NEMO_PORT);
    assert_eq!(base_url(5877), "http://127.0.0.1:5877");
    assert_eq!(endpoint_url(80, "/health"), "http://127.0.0.1:80/health");
    assert_eq!(python_command(None), "python");
    assert_eq!(python_command(Some("/usr/bin/python3".to_string())), "/usr/bin/python3");
}

#[test]
fn catalog_entry_and_paths() {
    let entry = nemo_catalog_entry(NEMO_PARAKEET_RNNT_1_1B).unwrap();
    assert_eq!(expected_size_bytes(&entry), 4280 * 1024 * 1024 * 95 / 100);
    assert_eq!(model_dir_name(&entry), Ok("nvidia--parakeet-rnnt-1.1b".to_string()));
    assert_eq!(model_file_name(&entry), Ok("parakeet-rnnt-1.1b.nemo"));
    assert_eq!(download_source(&entry, NEMO_PARAKEET_RNNT_1_1B), Ok(("nvidia/parakeet-rnnt-1.1b", "parakeet-rnnt-1.1b.nemo")));
    assert_eq!(
        nemo_catalog_entry("parakeet-tdt-0.6b-v3-int8").err().unwrap(),
        "NeMo model 'parakeet-tdt-0.6b-v3-int8' is not in the transcription catalog"
    );
    assert_eq!(
        nemo_download_url("nvidia/parakeet-rnnt-1.1b", "parakeet-rnnt-1.1b.nemo"),
        "https://huggingface.co/nvidia/parakeet-rnnt-1.1b/resolve/main/parakeet-rnnt-1.1b.nemo"
    );
    let info = nemo_model_info(&entry, "/m/x.nemo".to_string(), ModelStatus::Missing);
    assert_eq!(info.name, NEMO_PARAKEET_RNNT_1_1B);
    assert_eq!(info.runtime, "nemo");
    assert_eq!(info.quantization, QuantizationType::FP32);
    assert_eq!(info.size_mb, 4280);
}

#[test]
fn model_file_status() {
    assert_eq!(model_status_from_file(false, Ok(10), 5), ModelStatus::Missing);
    assert_eq!(model_status_from_file(true, Ok(10), 5), ModelStatus::Available);
    assert_eq!(
        model_status_from_file(true, Ok(4), 5),
        ModelStatus::Corrupted { file_size: 4, expected_min_size: 5 }
    );
    assert_eq!(model_status_from_file(true, Err("denied".to_string()), 5), ModelStatus::Error("denied".to_string()));
    assert_eq!(discovered_status(true, ModelStatus::Available), ModelStatus::Downloading { progress: 0 });
    assert_eq!(discovered_status(false, ModelStatus::Missing), ModelStatus::Missing);
}

#[test]
fn load_checks() {
    assert_eq!(load_precheck("m", &ModelStatus::Available), Ok(()));
    assert_eq!(load_precheck("m", &ModelStatus::Missing), Err("NeMo model m is not downloaded".to_string()));
    assert_eq!(
        load_precheck("m", &ModelStatus::Downloading { progress: 4 }),
        Err("NeMo model m is currently downloading".to_string())
    );
    assert_eq!(load_precheck("m", &ModelStatus::Error("x".to_string())), Err("NeMo model m has error: x".to_string()));
    assert_eq!(
        load_precheck("m", &ModelStatus::Corrupted { file_size: 12, expected_min_size: 3000 }),
        Err("NeMo model m is incomplete: 12 bytes (expected at least 3000)".to_string())
    );
    assert!(is_current_model(&Some("m".to_string()), "m"));
    assert!(!is_current_model(&None, "m"));
    assert_eq!(load_answer_check("loaded"), Ok(()));
    assert_eq!(load_answer_check("busy"), Err("Unexpected NeMo load status: busy".to_string()));
    assert!(is_healthy_answer("ok"));
    assert!(!is_healthy_answer("starting"));
    assert_eq!(deleted_message("m"), "Successfully deleted NeMo model 'm'");
}

#[test]
fn transcription_plans() {
    assert_eq!(
        transcribe_plan(None, 10),
        Err("No NeMo model loaded. Please load a model first.".to_string())
    );
    assert_eq!(transcribe_plan(Some("m".to_string()), 0), Ok(TranscribePlan::Empty));
    assert_eq!(transcribe_plan(Some("m".to_string()), 5), Ok(TranscribePlan::Run("m".to_string())));
}

#[test]
fn download_bookkeeping() {
    let mut d = NemoDownloads::new();
    assert!(d.begin("m").is_ok());
    assert!(d.is_active("m"));
    assert_eq!(d.begin("m"), Err("Download already in progress for m".to_string()));
    assert!(d.begin("n").is_ok());
    d.cancel("m");
    assert!(d.is_cancelled("m"));
    assert!(!d.is_active("m"));
    assert!(d.is_active("n"));
    assert!(d.begin("m").is_ok());
    assert!(!d.is_cancelled("m"));
    d.finish("m");
    assert!(!d.is_active("m"));
    assert!(d.is_active("n"));
}

#[test]
fn download_sizes_and_reports() {
    assert!(already_downloaded(Some(100), 100));
    assert!(!already_downloaded(Some(99), 100));
    assert!(!already_downloaded(None, 0));
    assert_eq!(download_total_size(Some(50), 100), 100);
    assert_eq!(download_total_size(Some(150), 100), 150);
    assert_eq!(download_total_size(None, 100), 100);
    assert!(should_report_progress(500, 0, 10));
    assert!(!should_report_progress(499, 9, 10));
    assert!(should_report_progress(0, 10, 10));
}

#[test]
fn wav_header_layout() {
    let h = wav_header_16khz_mono(3);
    assert_eq!(h.len(), 44);
    assert_eq!(&h[0..4], b"RIFF");
    assert_eq!(&h[4..8], &(36u32 + 6).to_le_bytes());
    assert_eq!(&h[8..16], b"WAVEfmt ");
    assert_eq!(&h[24..28], &16000u32.to_le_bytes());
    assert_eq!(&h[28..32], &32000u32.to_le_bytes());
    assert_eq!(&h[36..40], b"data");
    assert_eq!(&h[40..44], &6u32.to_le_bytes());
}

fn nemo_model(name: &str, status: ModelStatus) -> ModelInfo {
    ModelInfo {
        name: name.to_string(),
        path: String::new(),
        size_mb: 1,
        quantization: QuantizationType::FP32,
        runtime: "nemo".to_string(),
        speed: "Medium".to_string(),
        status,
        description: String::new(),
    }
}

#[test]
fn readiness_answers() {
    let models = vec![nemo_model(NEMO_PARAKEET_RNNT_1_1B, ModelStatus::Downloading { progress: 42 })];
    assert!(!has_available_nemo_model(&models));
    assert_eq!(
        nemo_readiness(NEMO_PARAKEET_RNNT_1_1B, &models),
        Err("NeMo model 'nvidia/parakeet-rnnt-1.1b' is currently downloading (42%). Please wait for it to complete.".to_string())
    );
    assert_eq!(
        nemo_readiness("other", &models),
        Err("NeMo model 'other' is not supported".to_string())
    );
    let ready = vec![nemo_model("a", ModelStatus::Missing), nemo_model("b", ModelStatus::Available)];
    assert!(has_available_nemo_model(&ready));
    assert_eq!(nemo_readiness("b", &ready), Ok(()));
    assert_eq!(
        nemo_readiness("a", &ready),
        Err("NeMo model 'a' is not downloaded. Please download it from transcription settings.".to_string())
    );
}

#[test]
fn model_to_load() {
    assert_eq!(nemo_model_to_load(Some("x".to_string()), None), "x");
    assert_eq!(nemo_model_to_load(Some(String::new()), None), NEMO_PARAKEET_RNNT_1_1B);
    assert_eq!(
        nemo_model_to_load(None, Some(("parakeet".to_string(), NEMO_PARAKEET_RNNT_1_1B.to_string()))),
        NEMO_PARAKEET_RNNT_1_1B
    );
    assert_eq!(
        nemo_model_to_load(None, Some(("parakeet".to_string(), "parakeet-tdt-0.6b-v3-int8".to_string()))),
        NEMO_PARAKEET_RNNT_1_1B
    );
    assert_eq!(download_event_name("nemo-model", "progress"), "nemo-model-download-progress");
}

#[test]
fn provider_behaviour() {
    let p = NemoProvider::new(7u8);
    assert_eq!(*p.engine(), 7);
    assert_eq!(p.provider_name(), "NeMo");
    assert!(!language_ignored(None));
    assert!(!language_ignored(Some("en")));
    assert!(!language_ignored(Some("auto-translate")));
    assert!(language_ignored(Some("de")));
    assert_eq!(transcript_text("  hello world \n"), "hello world");
}

#[test]
fn transcript_text_strips_unicode_whitespace() {
    assert_eq!(transcript_text("\u{3000}\u{2009}hello\u{a0}\u{85}\t"), "hello");
    assert_eq!(transcript_text("\u{200b}hello\u{1f}"), "\u{200b}hello\u{1f}");
    assert_eq!(transcript_text(" \n\r "), "");
    assert_eq!(transcript_text("a b"), "a b");
}

#[test]
fn transcript_text_matches_str_trim() {
    let samples = [
        "",
        " x ",
        "\u{2028}line\u{2029}",
        "\u{1680}\u{202f}\u{205f}mid dle\u{2000}\u{200a}",
        "\u{1c}\u{1d}keep\u{1e}\u{1f}",
        "\u{feff}bom\u{feff}",
    ];
    for s in samples {
        assert_eq!(transcript_text(s), s.trim());
    }
}

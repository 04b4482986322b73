//! Shared transcription model catalog.
//!
//! The saved transcript setting remains `{ provider, model }`; this catalog
//! resolves the model id to the runtime that should execute it.
use vstd::prelude::*;

use crate::seq_search::{first_index, lemma_first_index_absent, lemma_first_index_found};
use crate::text::str_eq;

verus! {

/// Runtime that executes a transcription model.
#[derive(Debug, Clone, Copy, PartialEq, Eq, Structural)]
pub enum TranscriptionRuntime {
    WhisperCpp,
    ParakeetOnnx,
    Nemo,
}

/// One model of the shared transcription catalog.
#[derive(Debug, Clone, Copy)]
pub struct TranscriptionModelCatalogEntry {
    pub provider: &'static str,
    pub model_id: &'static str,
    pub display_name: &'static str,
    pub runtime: TranscriptionRuntime,
    pub size_mb: u32,
    pub accuracy: &'static str,
    pub speed: &'static str,
    pub description: &'static str,
    pub repo_id: Option<&'static str>,
    pub filename: Option<&'static str>,
}

/// Model id of the NeMo Parakeet RNNT 1.1B checkpoint.
pub const NEMO_PARAKEET_RNNT_1_1B: &'static str = "nvidia/parakeet-rnnt-1.1b";

/// The ONNX Parakeet models, in order.
pub open spec fn spec_parakeet_onnx_catalog() -> Seq<TranscriptionModelCatalogEntry> {
    seq![
        TranscriptionModelCatalogEntry {
            provider: "parakeet",
            model_id: "parakeet-tdt-0.6b-v3-int8",
            display_name: "Parakeet TDT 0.6B v3 Int8",
            runtime: TranscriptionRuntime::ParakeetOnnx,
            size_mb: 670,
            accuracy: "High",
            speed: "Ultra Fast (v3)",
            description: "Real time on M4 Max, latest version with int8 quantization",
            repo_id: None,
            filename: None,
        },
        TranscriptionModelCatalogEntry {
            provider: "parakeet",
            model_id: "parakeet-tdt-0.6b-v2-int8",
            display_name: "Parakeet TDT 0.6B v2 Int8",
            runtime: TranscriptionRuntime::ParakeetOnnx,
            size_mb: 661,
            accuracy: "High",
            speed: "Fast (v2)",
            description: "Previous version with int8 quantization, good balance of speed and accuracy",
            repo_id: None,
            filename: None,
        },
    ]
}

/// The NeMo models, in order.
pub open spec fn spec_nemo_catalog() -> Seq<TranscriptionModelCatalogEntry> {
    seq![
        TranscriptionModelCatalogEntry {
            provider: "parakeet",
            model_id: NEMO_PARAKEET_RNNT_1_1B,
            display_name: "Parakeet RNNT 1.1B",
            runtime: TranscriptionRuntime::Nemo,
            size_mb: 4280,
            accuracy: "High",
            speed: "Medium",
            description: "NVIDIA NeMo RNNT checkpoint for high-accuracy English transcription",
            repo_id: Some("nvidia/parakeet-rnnt-1.1b"),
            filename: Some("parakeet-rnnt-1.1b.nemo"),
        },
    ]
}

/// The ONNX Parakeet models.
pub fn parakeet_onnx_models() -> (v: Vec<TranscriptionModelCatalogEntry>)
    ensures
        v@ == spec_parakeet_onnx_catalog(),
{
    let v = vec![
        TranscriptionModelCatalogEntry {
            provider: "parakeet",
            model_id: "parakeet-tdt-0.6b-v3-int8",
            display_name: "Parakeet TDT 0.6B v3 Int8",
            runtime: TranscriptionRuntime::ParakeetOnnx,
            size_mb: 670,
            accuracy: "High",
            speed: "Ultra Fast (v3)",
            description: "Real time on M4 Max, latest version with int8 quantization",
            repo_id: None,
            filename: None,
        },
        TranscriptionModelCatalogEntry {
            provider: "parakeet",
            model_id: "parakeet-tdt-0.6b-v2-int8",
            display_name: "Parakeet TDT 0.6B v2 Int8",
            runtime: TranscriptionRuntime::ParakeetOnnx,
            size_mb: 661,
            accuracy: "High",
            speed: "Fast (v2)",
            description: "Previous version with int8 quantization, good balance of speed and accuracy",
            repo_id: None,
            filename: None,
        },
    ];
    assert(v@ =~= spec_parakeet_onnx_catalog());
    v
}

/// The NeMo models.
pub fn nemo_models() -> (v: Vec<TranscriptionModelCatalogEntry>)
    ensures
        v@ == spec_nemo_catalog(),
{
    let v = vec![
        TranscriptionModelCatalogEntry {
            provider: "parakeet",
            model_id: NEMO_PARAKEET_RNNT_1_1B,
            display_name: "Parakeet RNNT 1.1B",
            runtime: TranscriptionRuntime::Nemo,
            size_mb: 4280,
            accuracy: "High",
            speed: "Medium",
            description: "NVIDIA NeMo RNNT checkpoint for high-accuracy English transcription",
            repo_id: Some("nvidia/parakeet-rnnt-1.1b"),
            filename: Some("parakeet-rnnt-1.1b.nemo"),
        },
    ];
    assert(v@ =~= spec_nemo_catalog());
    v
}

/// Selects entries whose model id is `id`.
pub open spec fn transcription_entry_has_id(id: Seq<char>) -> spec_fn(TranscriptionModelCatalogEntry) -> bool {
    |e: TranscriptionModelCatalogEntry| e.model_id@ == id
}

/// The whole catalog: the ONNX models, then the NeMo models.
pub open spec fn spec_transcription_catalog() -> Seq<TranscriptionModelCatalogEntry> {
    spec_parakeet_onnx_catalog() + spec_nemo_catalog()
}

/// The first catalog entry with model id `model_id`.
pub open spec fn spec_get_transcription_model(model_id: Seq<char>) -> Option<TranscriptionModelCatalogEntry> {
    let cat = spec_transcription_catalog();
    let i = first_index(cat, transcription_entry_has_id(model_id));
    if i >= 0 {
        Some(cat[i])
    } else {
        None
    }
}

/// Looks up a model of the catalog by id, the ONNX models first.
pub fn get_transcription_model(model_id: &str) -> (r: Option<TranscriptionModelCatalogEntry>)
    ensures
        r == spec_get_transcription_model(model_id@),
{
    let mut all = parakeet_onnx_models();
    let mut nemo = nemo_models();
    all.append(&mut nemo);
    let ghost cat = spec_transcription_catalog();
    assert(all@ =~= cat);
    let mut i: usize = 0;
    while i < all.len()
        invariant
            i <= all.len(),
            all@ == cat,
            cat == spec_transcription_catalog(),
            forall|j: int| 0 <= j < i ==> !#[trigger] transcription_entry_has_id(model_id@)(cat[j]),
        decreases all.len() - i,
    {
        if str_eq(all[i].model_id, model_id) {
            proof {
                lemma_first_index_found(cat, transcription_entry_has_id(model_id@), i as int);
            }
            return Some(all[i]);
        }
        i = i + 1;
    }
    proof {
        lemma_first_index_absent(cat, transcription_entry_has_id(model_id@));
    }
    None
}

/// Whether `model_id` names a catalog model that runs on NeMo.
pub fn is_nemo_model(model_id: &str) -> (r: bool)
    ensures
        r == (spec_get_transcription_model(model_id@) matches Some(e) && e.runtime
            == TranscriptionRuntime::Nemo),
{
    match get_transcription_model(model_id) {
        Some(entry) => entry.runtime == TranscriptionRuntime::Nemo,
        None => false,
    }
}

/// The catalog's model ids are distinct, so looking up the id of any
/// catalog model finds that model.
pub proof fn lemma_transcription_lookup_finds_each(k: int)
    requires
        0 <= k < spec_transcription_catalog().len(),
    ensures
        spec_get_transcription_model(spec_transcription_catalog()[k].model_id@) == Some(
            spec_transcription_catalog()[k],
        ),
{
    let cat = spec_transcription_catalog();
    reveal_strlit("parakeet-tdt-0.6b-v3-int8");
    reveal_strlit("parakeet-tdt-0.6b-v2-int8");
    reveal_strlit("nvidia/parakeet-rnnt-1.1b");
    assert(cat[0] == spec_parakeet_onnx_catalog()[0]);
    assert(cat[1] == spec_parakeet_onnx_catalog()[1]);
    assert(cat[2] == spec_nemo_catalog()[0]);
    let id = cat[k].model_id@;
    assert forall|j: int| 0 <= j < k implies !#[trigger] transcription_entry_has_id(id)(cat[j]) by {
        assert(cat[j].model_id@[0] != cat[k].model_id@[0] || cat[j].model_id@[19]
            != cat[k].model_id@[19]);
    }
    lemma_first_index_found(cat, transcription_entry_has_id(id), k);
}

} // verus!

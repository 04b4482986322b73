//! The decisions behind the NeMo commands: which model a readiness check
//! loads, what it answers for each model status, and the names of the
//! download events.
use vstd::prelude::*;

use crate::decimal::{decimal_text, u64_to_decimal};
use crate::parakeet_engine::{model_is_available, ModelInfo, ModelStatus, ModelStatusView};
use crate::seq_search::{any_index, first_index, lemma_first_index_absent, lemma_first_index_found};
use crate::text::{concat, owned, str_eq};
use crate::transcription_catalog::{
    is_nemo_model, spec_get_transcription_model, TranscriptionRuntime, NEMO_PARAKEET_RNNT_1_1B,
};

verus! {

/// The error of every command while the engine is not initialized.
pub const ENGINE_NOT_INITIALIZED: &'static str = "NeMo engine not initialized";

/// Event prefix of the NeMo model downloads.
pub const DEFAULT_EVENT_PREFIX: &'static str = "nemo-model";

/// `model` names a catalog model that runs on NeMo.
pub open spec fn is_catalog_nemo_model(model: Seq<char>) -> bool {
    spec_get_transcription_model(model) matches Some(e) && e.runtime == TranscriptionRuntime::Nemo
}

/// The model a readiness check loads: the requested one when given and not
/// empty; else the model of the user's transcript settings (`config`:
/// provider and model, when they could be read) when it is a Parakeet-family
/// NeMo model; else the NeMo Parakeet RNNT 1.1B model.
pub open spec fn spec_model_to_load(
    requested: Option<Seq<char>>,
    config: Option<(Seq<char>, Seq<char>)>,
) -> Seq<char> {
    match requested {
        Some(m) if m.len() > 0 => m,
        _ => match config {
            Some((provider, model)) if provider == "parakeet"@ && is_catalog_nemo_model(model) => model,
            _ => NEMO_PARAKEET_RNNT_1_1B@,
        },
    }
}

/// Chooses the model a readiness check loads (see `spec_model_to_load`).
pub fn nemo_model_to_load(requested: Option<String>, config: Option<(String, String)>) -> (r: String)
    ensures
        r@ == spec_model_to_load(
            match requested {
                Some(m) => Some(m@),
                None => None,
            },
            match config {
                Some((p, m)) => Some((p@, m@)),
                None => None,
            },
        ),
{
    if let Some(m) = requested {
        if !m.as_str().is_empty() {
            return m;
        }
    }
    if let Some((provider, model)) = config {
        if str_eq(provider.as_str(), "parakeet") && is_nemo_model(model.as_str()) {
            return model;
        }
    }
    owned(NEMO_PARAKEET_RNNT_1_1B)
}

/// Selects models named `name`.
pub open spec fn named(name: Seq<char>) -> spec_fn(ModelInfo) -> bool {
    |m: ModelInfo| m.name@ == name
}

/// Selects available models.
pub open spec fn available() -> spec_fn(ModelInfo) -> bool {
    |m: ModelInfo| m.status is Available
}

/// Whether some model of `models` is available.
pub fn has_available_nemo_model(models: &Vec<ModelInfo>) -> (r: bool)
    ensures
        r == any_index(models@, available()),
{
    let mut i: usize = 0;
    while i < models.len()
        invariant
            i <= models.len(),
            forall|j: int| 0 <= j < i ==> !#[trigger] available()(models@[j]),
        decreases models.len() - i,
    {
        if model_is_available(&models[i]) {
            assert(available()(models@[i as int]));
            return true;
        }
        i = i + 1;
    }
    false
}

/// What a readiness check answers for the model `name` with status `status`:
/// `None` when it is to be loaded, else the error.
pub open spec fn spec_readiness_refusal(name: Seq<char>, status: ModelStatusView) -> Option<Seq<char>> {
    match status {
        ModelStatusView::Available => None,
        ModelStatusView::Missing => Some(
            "NeMo model '"@ + name
                + "' is not downloaded. Please download it from transcription settings."@,
        ),
        ModelStatusView::Downloading { progress } => Some(
            "NeMo model '"@ + name + "' is currently downloading ("@ + decimal_text(progress as nat)
                + "%). Please wait for it to complete."@,
        ),
        ModelStatusView::Error(e) => Some("NeMo model '"@ + name + "' has an error: "@ + e),
        ModelStatusView::Corrupted { .. } => Some(
            "NeMo model '"@ + name
                + "' is incomplete or corrupted. Please delete it and download again."@,
        ),
    }
}

/// The message for a model that the NeMo engine does not offer.
pub open spec fn unsupported_model_message(name: Seq<char>) -> Seq<char> {
    "NeMo model '"@ + name + "' is not supported"@
}

/// Checks that `name` can be loaded, given the models the engine offers:
/// the first model of that name must exist and be available.
pub fn nemo_readiness(name: &str, models: &Vec<ModelInfo>) -> (r: Result<(), String>)
    ensures
        first_index(models@, named(name@)) < 0 ==> (r matches Err(m) && m@
            == unsupported_model_message(name@)),
        first_index(models@, named(name@)) >= 0 ==> match spec_readiness_refusal(
            name@,
            models@[first_index(models@, named(name@))].status@,
        ) {
            None => r is Ok,
            Some(m) => r matches Err(e) && e@ == m,
        },
{
    let mut i: usize = 0;
    while i < models.len()
        invariant
            i <= models.len(),
            forall|j: int| 0 <= j < i ==> !#[trigger] named(name@)(models@[j]),
        decreases models.len() - i,
    {
        if str_eq(models[i].name.as_str(), name) {
            proof {
                lemma_first_index_found(models@, named(name@), i as int);
            }
            let head = concat("NeMo model '", name);
            return match &models[i].status {
                ModelStatus::Available => Ok(()),
                ModelStatus::Missing => Err(
                    concat(
                        head.as_str(),
                        "' is not downloaded. Please download it from transcription settings.",
                    ),
                ),
                ModelStatus::Downloading { progress } => {
                    let p = u64_to_decimal(*progress as u64);
                    let a = concat(head.as_str(), "' is currently downloading (");
                    let b = concat(a.as_str(), p.as_str());
                    let m = concat(b.as_str(), "%). Please wait for it to complete.");
                    assert(m@ =~= "NeMo model '"@ + name@ + "' is currently downloading ("@
                        + decimal_text(*progress as nat) + "%). Please wait for it to complete."@);
                    Err(m)
                },
                ModelStatus::Error(e) => {
                    let a = concat(head.as_str(), "' has an error: ");
                    Err(concat(a.as_str(), e.as_str()))
                },
                ModelStatus::Corrupted { .. } => Err(
                    concat(
                        head.as_str(),
                        "' is incomplete or corrupted. Please delete it and download again.",
                    ),
                ),
            };
        }
        i = i + 1;
    }
    proof {
        lemma_first_index_absent(models@, named(name@));
    }
    let a = concat("NeMo model '", name);
    Err(concat(a.as_str(), "' is not supported"))
}

/// The name of a download event: the prefix, `-download-`, and the kind
/// (`progress`, `complete` or `error`).
pub fn download_event_name(prefix: &str, kind: &str) -> (r: String)
    ensures
        r@ == prefix@ + "-download-"@ + kind@,
{
    let a = concat(prefix, "-download-");
    concat(a.as_str(), kind)
}

} // verus!

//! The decisions behind the Parakeet engine commands: which model to load,
//! how a custom model is registered and where it lives, and the replies the
//! commands give. The commands' I/O (engine calls, events, files) is the
//! application's.
use vstd::prelude::*;

use crate::decimal::{decimal_text, u64_to_decimal};
use crate::json::{number_u64, string_array, JsonValue, JsonView};
use crate::model_catalog::{
    detect_model_format, path_file_name, runtime_for_format, spec_detect_model_format, strings_view,
    CustomModelCatalogEntry, CustomModelStatus, CustomModelStatusView, ModelFormat,
};
use crate::parakeet_engine::huggingface_api::ModelInspectionResult;
use crate::parakeet_engine::{is_available, model_is_available, ModelInfo, QuantizationType};
use crate::seq_search::{
    any_index, first_index, is_first_index, lemma_first_index_absent, lemma_first_index_filter,
    lemma_first_index_found, lemma_first_index_spec,
};
use crate::text::{concat, owned, replace_char, seq_replace_char, str_eq};

verus! {

/// The error of every command while the engine is not initialized.
pub const ENGINE_NOT_INITIALIZED: &'static str = "Parakeet engine not initialized";

/// The error when no model is downloaded.
pub const NO_MODELS_AVAILABLE: &'static str =
    "No Parakeet models are available. Please download a model to enable fast transcription.";

/// Selects available models, only Int8 ones when `int8_only`, only the one
/// named `name` when a name is given.
pub open spec fn model_matches(int8_only: bool, name: Option<Seq<char>>) -> spec_fn(ModelInfo) -> bool {
    |m: ModelInfo|
        is_available(m) && (int8_only ==> m.quantization == QuantizationType::Int8) && (name matches Some(
            n,
        ) ==> m.name@ == n)
}

/// The position of the first model of `models` that `model_matches`.
pub fn find_model(models: &Vec<ModelInfo>, int8_only: bool, name: Option<&str>) -> (r: Option<usize>)
    ensures
        match r {
            Some(k) => k < models@.len() && first_index(
                models@,
                model_matches(
                    int8_only,
                    match name {
                        Some(n) => Some(n@),
                        None => None,
                    },
                ),
            ) == k,
            None => first_index(
                models@,
                model_matches(
                    int8_only,
                    match name {
                        Some(n) => Some(n@),
                        None => None,
                    },
                ),
            ) == -1,
        },
{
    let ghost pred = model_matches(
        int8_only,
        match name {
            Some(n) => Some(n@),
            None => None,
        },
    );
    let mut i: usize = 0;
    while i < models.len()
        invariant
            i <= models.len(),
            pred == model_matches(
                int8_only,
                match name {
                    Some(n) => Some(n@),
                    None => None,
                },
            ),
            forall|j: int| 0 <= j < i ==> !#[trigger] pred(models@[j]),
        decreases models.len() - i,
    {
        let m = &models[i];
        let ok = model_is_available(m) && (!int8_only || m.quantization == QuantizationType::Int8)
            && match name {
            Some(n) => str_eq(m.name.as_str(), n),
            None => true,
        };
        if ok {
            proof {
                lemma_first_index_found(models@, pred, i as int);
            }
            return Some(i);
        }
        i = i + 1;
    }
    proof {
        lemma_first_index_absent(models@, pred);
    }
    None
}

/// Whether some model of `models` is available.
pub fn has_available_model(models: &Vec<ModelInfo>) -> (r: bool)
    ensures
        r == (first_index(models@, model_matches(false, None)) >= 0),
        r == any_index(models@, model_matches(false, None)),
{
    proof {
        lemma_first_index_spec(models@, model_matches(false, None));
    }
    find_model(models, false, None).is_some()
}

/// The model to load among `models`, given the user's configured model:
/// `None` when no model is available; the configured model when it is
/// available; else the first available Int8 model, or failing that the first
/// available model.
pub open spec fn spec_choose_model(configured: Option<Seq<char>>, models: Seq<ModelInfo>) -> Option<
    Seq<char>,
> {
    let first = first_index(models, model_matches(false, None));
    let int8 = first_index(models, model_matches(true, None));
    if first < 0 {
        None
    } else if configured matches Some(c) && first_index(models, model_matches(false, Some(c))) >= 0 {
        configured
    } else if int8 >= 0 {
        Some(models[int8].name@)
    } else {
        Some(models[first].name@)
    }
}

/// Chooses the Parakeet model to load (see `spec_choose_model`); fails when
/// no model is available.
pub fn choose_parakeet_model(configured: Option<String>, models: &Vec<ModelInfo>) -> (r: Result<
    String,
    String,
>)
    ensures
        match r {
            Ok(n) => spec_choose_model(
                match configured {
                    Some(c) => Some(c@),
                    None => None,
                },
                models@,
            ) == Some(n@),
            Err(e) => spec_choose_model(
                match configured {
                    Some(c) => Some(c@),
                    None => None,
                },
                models@,
            ) is None && e@ == NO_MODELS_AVAILABLE@,
        },
{
    let first = match find_model(models, false, None) {
        Some(k) => k,
        None => return Err(owned(NO_MODELS_AVAILABLE)),
    };
    if let Some(c) = configured {
        if find_model(models, false, Some(c.as_str())).is_some() {
            return Ok(c);
        }
    }
    match find_model(models, true, None) {
        Some(k) => Ok(models[k].name.clone()),
        None => Ok(models[first].name.clone()),
    }
}

/// The model chosen for loading is always one of the available models, and
/// there is one exactly when some model is available; a configured model
/// that is available is the one chosen.
pub proof fn lemma_chosen_model_is_available(configured: Option<Seq<char>>, models: Seq<ModelInfo>)
    ensures
        spec_choose_model(configured, models) is Some <==> any_index(
            models,
            model_matches(false, None),
        ),
        spec_choose_model(configured, models) matches Some(n) ==> exists|i: int|
            0 <= i < models.len() && is_available(#[trigger] models[i]) && models[i].name@ == n,
        (configured matches Some(c) && any_index(models, model_matches(false, Some(c))))
            ==> spec_choose_model(configured, models) == configured,
{
    lemma_first_index_spec(models, model_matches(false, None));
    lemma_first_index_spec(models, model_matches(true, None));
    if let Some(c) = configured {
        lemma_first_index_spec(models, model_matches(false, Some(c)));
        let k = first_index(models, model_matches(false, Some(c)));
        if k >= 0 {
            assert(model_matches(false, Some(c))(models[k]));
            assert(any_index(models, model_matches(false, None))) by {
                assert(model_matches(false, None)(models[k]));
            }
        }
    }
    let first = first_index(models, model_matches(false, None));
    let int8 = first_index(models, model_matches(true, None));
    if first >= 0 {
        assert(model_matches(false, None)(models[first]));
        if int8 >= 0 {
            assert(model_matches(true, None)(models[int8]));
        }
    }
}

/// Whether a model has status Available, as a predicate.
pub open spec fn available_pred() -> spec_fn(ModelInfo) -> bool {
    |m: ModelInfo| is_available(m)
}

/// The models of `models` with status Available, in their order.
pub open spec fn available_models(models: Seq<ModelInfo>) -> Seq<ModelInfo> {
    models.filter(available_pred())
}

/// The model-choice rule over the available models `A` (those of `models`
/// with status Available, in order): none when `A` is empty; else the
/// configured model when some model of `A` has its name; else the first
/// Int8 model of `A`; else the first model of `A`.
pub proof fn lemma_choose_over_available(configured: Option<Seq<char>>, models: Seq<ModelInfo>)
    ensures
        ({
            let avail = available_models(models);
            let int8 = |m: ModelInfo| m.quantization == QuantizationType::Int8;
            spec_choose_model(configured, models) == if avail.len() == 0 {
                None
            } else if configured matches Some(c) && exists|k: int|
                0 <= k < avail.len() && #[trigger] avail[k].name@ == c {
                configured
            } else if first_index(avail, int8) >= 0 {
                Some(avail[first_index(avail, int8)].name@)
            } else {
                Some(avail[0].name@)
            }
        }),
{
    let avail = available_models(models);
    let avail_pred = available_pred();
    let int8 = |m: ModelInfo| m.quantization == QuantizationType::Int8;
    let always = |m: ModelInfo| true;
    lemma_first_index_filter(models, avail_pred, always, model_matches(false, None));
    lemma_first_index_filter(models, avail_pred, int8, model_matches(true, None));
    lemma_first_index_spec(avail, always);
    lemma_first_index_spec(avail, int8);
    lemma_first_index_spec(models, model_matches(false, None));
    if avail.len() > 0 {
        assert(always(avail[0]));
        assert(is_first_index(avail, always, 0));
        lemma_first_index_found(avail, always, 0);
    } else {
        lemma_first_index_absent(avail, always);
    }
    if let Some(c) = configured {
        let named = |m: ModelInfo| m.name@ == c;
        lemma_first_index_filter(models, avail_pred, named, model_matches(false, Some(c)));
        lemma_first_index_spec(avail, named);
        if exists|k: int| 0 <= k < avail.len() && #[trigger] avail[k].name@ == c {
            let k = choose|k: int| 0 <= k < avail.len() && #[trigger] avail[k].name@ == c;
            assert(named(avail[k]));
        }
        if first_index(avail, named) >= 0 {
            assert(avail[first_index(avail, named)].name@ == c);
        }
    }
}

/// The model from the user's transcript settings, when they name a
/// Parakeet model.
pub fn configured_parakeet_model(provider: &str, model: &str) -> (r: Option<String>)
    ensures
        provider@ == "parakeet"@ && model@.len() > 0 ==> (r matches Some(m) && m@ == model@),
        !(provider@ == "parakeet"@ && model@.len() > 0) ==> r is None,
{
    if str_eq(provider, "parakeet") && !model.is_empty() {
        Some(owned(model))
    } else {
        None
    }
}

/// The model already loaded, when the engine reports one loaded.
pub fn loaded_model(is_loaded: bool, current: Option<String>) -> (r: Option<String>)
    ensures
        r == (if is_loaded { current } else { None }),
{
    if is_loaded {
        current
    } else {
        None
    }
}

/// The error when loading `model_name` failed with `error`.
pub fn load_failure_message(model_name: &str, error: &str) -> (r: String)
    ensures
        r@ == "Failed to load Parakeet model "@ + model_name@ + ": "@ + error@,
{
    let a = concat("Failed to load Parakeet model ", model_name);
    let b = concat(a.as_str(), ": ");
    concat(b.as_str(), error)
}

/// The status of a download progress event: `completed` at 100 percent,
/// `downloading` before.
pub fn download_event_status(percent: u8) -> (r: &'static str)
    ensures
        percent == 100 ==> r@ == "completed"@,
        percent != 100 ==> r@ == "downloading"@,
{
    if percent == 100 {
        "completed"
    } else {
        "downloading"
    }
}

// ============================================================================
// CUSTOM MODELS
// ============================================================================

/// The directory name under `parakeet/custom` of a model downloaded from
/// `repo_id`: the repo id with `/` replaced by `_`.
pub fn custom_model_dir_name(repo_id: &str) -> (r: String)
    ensures
        r@ == seq_replace_char(repo_id@, '/', "_"@),
        forall|i: int| 0 <= i < r@.len() ==> #[trigger] r@[i] != '/',
{
    proof {
        reveal_strlit("_");
        crate::text::lemma_replace_char_removes(repo_id@, '/', "_"@);
    }
    replace_char(repo_id, '/', "_")
}

/// The text `{:?}` gives for a string: the string quoted and escaped.
pub uninterp spec fn str_debug(s: Seq<char>) -> Seq<char>;

/// Formats `s` with `{:?}` (std's `Debug` for `str`); the contract claims
/// only that the result is `str_debug` of the string's characters.
#[verifier::external_body]
fn debug_quoted(s: &str) -> (r: String)
    ensures
        r@ == str_debug(s@),
{
    format!("{:?}", s)
}

/// The items of a `{:?}`-formatted list of strings, separated by `, `.
pub open spec fn debug_list_items(s: Seq<Seq<char>>) -> Seq<char>
    decreases s.len(),
{
    if s.len() == 0 {
        Seq::empty()
    } else if s.len() == 1 {
        str_debug(s[0])
    } else {
        debug_list_items(s.drop_last()) + ", "@ + str_debug(s.last())
    }
}

/// The text `{:?}` gives for a list of strings.
pub open spec fn debug_list(s: Seq<Seq<char>>) -> Seq<char> {
    "["@ + debug_list_items(s) + "]"@
}

/// Formats a list of strings as `{:?}` does.
pub fn string_list_debug(v: &Vec<String>) -> (r: String)
    ensures
        r@ == debug_list(strings_view(v@)),
{
    let ghost sv = strings_view(v@);
    let mut items = String::new();
    let mut i: usize = 0;
    while i < v.len()
        invariant
            i <= v.len(),
            sv == strings_view(v@),
            items@ == debug_list_items(sv.take(i as int)),
        decreases v.len() - i,
    {
        let d = debug_quoted(v[i].as_str());
        proof {
            assert(sv.take(i + 1).drop_last() =~= sv.take(i as int));
        }
        if i == 0 {
            items = d;
        } else {
            let with_sep = concat(items.as_str(), ", ");
            items = concat(with_sep.as_str(), d.as_str());
        }
        i = i + 1;
    }
    assert(sv.take(v.len() as int) =~= sv);
    let a = concat("[", items.as_str());
    concat(a.as_str(), "]")
}

/// The repository of an entry's optional repo (arbitrary when absent).
pub open spec fn repo_text(repo: Option<String>) -> String {
    repo->Some_0
}

/// The failure reported when inspecting the HuggingFace model `repo_id`
/// fails with `error`.
pub fn inspection_failure_message(repo_id: &str, error: &str) -> (r: String)
    ensures
        r@ == "Failed to inspect model '"@ + repo_id@ + "': "@ + error@,
{
    let a = concat("Failed to inspect model '", repo_id);
    let b = concat(a.as_str(), "': ");
    concat(b.as_str(), error)
}

/// The failure reported when a custom model cannot be registered.
pub fn registration_failure_message(error: &str) -> (r: String)
    ensures
        r@ == "Failed to register custom model: "@ + error@,
{
    concat("Failed to register custom model: ", error)
}

/// The message for a HuggingFace model with no recognised model files.
pub open spec fn unrecognized_repo_message(repo_id: Seq<char>, model_files: Seq<Seq<char>>) -> Seq<
    char,
> {
    "Model '"@ + repo_id + "' has no recognized model files (ONNX, Safetensors, MLX, or NeMo). Found files: "@
        + debug_list(model_files)
}

/// The catalog entry for the HuggingFace model `repo_id` that `inspection`
/// describes; fails when no model file of a known format was found.
pub fn custom_model_from_inspection(
    repo_id: &str,
    inspection: &ModelInspectionResult,
    label: Option<String>,
) -> (r: Result<CustomModelCatalogEntry, String>)
    ensures
        inspection.format == ModelFormat::Unknown ==> (r matches Err(m) && m@
            == unrecognized_repo_message(repo_id@, strings_view(inspection.model_files@))),
        inspection.format != ModelFormat::Unknown ==> (r matches Ok(e) && e.model_id@ == "custom/"@
            + repo_id@ && e.format == inspection.format && e.files@ == inspection.model_files@
            && e.size_mb == inspection.total_size_mb && e.repo == Some(repo_text(e.repo)) && repo_text(e.repo)@
            == repo_id@ && e.label@ == (match label {
            Some(l) => l@,
            None => repo_id@,
        }) && e.status == CustomModelStatus::Pending && e.provider@ == "parakeet"@ && e.runtime
            == runtime_for_format(inspection.format) && e.local_path is None && e.sample_rate == 16000
            && e.description@ == "Custom HuggingFace model: "@ + repo_id@ + " ("@
            + inspection.format.spec_text() + ")"@),
{
    if inspection.format == ModelFormat::Unknown {
        let listing = string_list_debug(&inspection.model_files);
        let a = concat("Model '", repo_id);
        let b = concat(
            a.as_str(),
            "' has no recognized model files (ONNX, Safetensors, MLX, or NeMo). Found files: ",
        );
        let m = concat(b.as_str(), listing.as_str());
        assert(m@ =~= unrecognized_repo_message(repo_id@, strings_view(inspection.model_files@)));
        return Err(m);
    }
    let files = inspection.model_files.clone();
    let e = CustomModelCatalogEntry::from_huggingface(
        repo_id,
        inspection.format,
        files,
        inspection.total_size_mb,
        label,
        None,
    );
    Ok(e)
}

/// The reply after a HuggingFace model was registered and its download
/// started.
pub open spec fn spec_custom_model_added(
    model_id: Seq<char>,
    format: ModelFormat,
    size_mb: u32,
    files: Seq<String>,
    is_stt_model: bool,
) -> JsonView {
    JsonView::Object(
        seq![
            ("modelId"@, JsonView::Str(model_id)),
            ("format"@, JsonView::Str(format.spec_text())),
            ("sizeMb"@, JsonView::Number(decimal_text(size_mb as nat))),
            ("files"@, JsonView::Array(files.map_values(|s: String| JsonView::Str(s@)))),
            ("isSttModel"@, JsonView::Bool(is_stt_model)),
            ("status"@, JsonView::Str("downloading"@)),
        ],
    )
}

/// Builds the reply after a HuggingFace model was registered.
pub fn custom_model_added_reply(
    model_id: &str,
    format: ModelFormat,
    size_mb: u32,
    files: &Vec<String>,
    is_stt_model: bool,
) -> (r: JsonValue)
    ensures
        r@ == spec_custom_model_added(model_id@, format, size_mb, files@, is_stt_model),
{
    let members = vec![
        (owned("modelId"), JsonValue::String(owned(model_id))),
        (owned("format"), JsonValue::String(format.to_display_string())),
        (owned("sizeMb"), number_u64(size_mb as u64)),
        (owned("files"), string_array(files)),
        (owned("isSttModel"), JsonValue::Bool(is_stt_model)),
        (owned("status"), JsonValue::String(owned("downloading"))),
    ];
    proof {
        crate::json::lemma_members_view(members@, members@.len());
        assert(crate::json::members_view(members@) =~= spec_custom_model_added(
            model_id@,
            format,
            size_mb,
            files@,
            is_stt_model,
        )->Object_0);
    }
    JsonValue::Object(members)
}

/// The sum of `sizes`.
pub open spec fn sum_sizes(sizes: Seq<u64>) -> nat
    decreases sizes.len(),
{
    if sizes.len() == 0 {
        0
    } else {
        sum_sizes(sizes.drop_last()) + sizes.last() as nat
    }
}

proof fn lemma_sum_sizes_prefix(sizes: Seq<u64>, k: int)
    requires
        0 <= k <= sizes.len(),
    ensures
        sum_sizes(sizes.take(k)) <= sum_sizes(sizes),
    decreases sizes.len(),
{
    if k < sizes.len() {
        assert(sizes.drop_last().take(k) =~= sizes.take(k));
        lemma_sum_sizes_prefix(sizes.drop_last(), k);
    } else {
        assert(sizes.take(k) =~= sizes);
    }
}

/// The message for a local directory with no recognised model files.
pub open spec fn unrecognized_local_message(path: Seq<char>) -> Seq<char> {
    "No recognized model files found at '"@ + path
        + "'. Expected ONNX, Safetensors, MLX, or NeMo files."@
}

/// The catalog entry for the local model directory `path`, holding `files`
/// whose sizes in bytes (of those that could be read) are `file_sizes`:
/// ready at once, sized in whole megabytes (as a `u32`, truncating); fails
/// when no model file of a known format is among `files`.
pub fn local_model_entry(
    path: String,
    files: Vec<String>,
    file_sizes: &Vec<u64>,
    label: Option<String>,
) -> (r: Result<CustomModelCatalogEntry, String>)
    requires
        sum_sizes(file_sizes@) <= u64::MAX,
    ensures
        spec_detect_model_format(strings_view(files@)) == ModelFormat::Unknown ==> (r matches Err(m)
            && m@ == unrecognized_local_message(path@)),
        spec_detect_model_format(strings_view(files@)) != ModelFormat::Unknown ==> (r matches Ok(e)
            && e.status == CustomModelStatus::Ready && (CustomModelCatalogEntry {
            status: CustomModelStatus::Pending,
            ..e
        }).is_local_entry(
            path,
            path_file_name(path@),
            spec_detect_model_format(strings_view(files@)),
            files,
            (sum_sizes(file_sizes@) / 1048576) as u32,
            label,
        )),
{
    let format = detect_model_format(files.as_slice());
    if format == ModelFormat::Unknown {
        let a = concat("No recognized model files found at '", path.as_str());
        let m = concat(a.as_str(), "'. Expected ONNX, Safetensors, MLX, or NeMo files.");
        assert(m@ =~= unrecognized_local_message(path@));
        return Err(m);
    }
    let mut total: u64 = 0;
    let mut i: usize = 0;
    while i < file_sizes.len()
        invariant
            i <= file_sizes.len(),
            sum_sizes(file_sizes@) <= u64::MAX,
            total == sum_sizes(file_sizes@.take(i as int)),
        decreases file_sizes.len() - i,
    {
        proof {
            assert(file_sizes@.take(i + 1).drop_last() =~= file_sizes@.take(i as int));
            lemma_sum_sizes_prefix(file_sizes@, i + 1);
        }
        total = total + file_sizes[i];
        i = i + 1;
    }
    assert(file_sizes@.take(i as int) =~= file_sizes@);
    let size_mb = (total / 1048576) as u32;
    let mut e = CustomModelCatalogEntry::from_local_path(path, format, files, size_mb, label);
    e.status = CustomModelStatus::Ready;
    Ok(e)
}

/// The reply after a local model was registered.
pub open spec fn spec_local_model_added(
    model_id: Seq<char>,
    format: ModelFormat,
    size_mb: u32,
    files: Seq<String>,
) -> JsonView {
    JsonView::Object(
        seq![
            ("modelId"@, JsonView::Str(model_id)),
            ("format"@, JsonView::Str(format.spec_text())),
            ("sizeMb"@, JsonView::Number(decimal_text(size_mb as nat))),
            ("files"@, JsonView::Array(files.map_values(|s: String| JsonView::Str(s@)))),
            ("status"@, JsonView::Str("ready"@)),
        ],
    )
}

/// Builds the reply after a local model was registered.
pub fn local_model_added_reply(model_id: &str, format: ModelFormat, size_mb: u32, files: &Vec<String>) -> (r:
    JsonValue)
    ensures
        r@ == spec_local_model_added(model_id@, format, size_mb, files@),
{
    let members = vec![
        (owned("modelId"), JsonValue::String(owned(model_id))),
        (owned("format"), JsonValue::String(format.to_display_string())),
        (owned("sizeMb"), number_u64(size_mb as u64)),
        (owned("files"), string_array(files)),
        (owned("status"), JsonValue::String(owned("ready"))),
    ];
    proof {
        crate::json::lemma_members_view(members@, members@.len());
        assert(crate::json::members_view(members@) =~= spec_local_model_added(
            model_id@,
            format,
            size_mb,
            files@,
        )->Object_0);
    }
    JsonValue::Object(members)
}

/// The reply after the custom model `model_id` was removed.
pub fn custom_model_removed_message(model_id: &str) -> (r: String)
    ensures
        r@ == "Custom model '"@ + model_id@ + "' removed successfully"@,
{
    let a = concat("Custom model '", model_id);
    concat(a.as_str(), "' removed successfully")
}

/// The text `{:?}` gives for a custom model status.
pub open spec fn status_debug(s: CustomModelStatusView) -> Seq<char> {
    match s {
        CustomModelStatusView::Pending => "Pending"@,
        CustomModelStatusView::Downloading { progress } => "Downloading { progress: "@ + decimal_text(
            progress as nat,
        ) + " }"@,
        CustomModelStatusView::Converting => "Converting"@,
        CustomModelStatusView::Ready => "Ready"@,
        CustomModelStatusView::Error(msg) => "Error("@ + str_debug(msg) + ")"@,
    }
}

/// Formats a custom model status as `{:?}` does.
pub fn status_debug_text(s: &CustomModelStatus) -> (r: String)
    ensures
        r@ == status_debug(s@),
{
    match s {
        CustomModelStatus::Pending => owned("Pending"),
        CustomModelStatus::Downloading { progress } => {
            let n = u64_to_decimal(*progress as u64);
            let a = concat("Downloading { progress: ", n.as_str());
            concat(a.as_str(), " }")
        },
        CustomModelStatus::Converting => owned("Converting"),
        CustomModelStatus::Ready => owned("Ready"),
        CustomModelStatus::Error(msg) => {
            let d = debug_quoted(msg.as_str());
            let a = concat("Error(", d.as_str());
            concat(a.as_str(), ")")
        },
    }
}

/// Where a custom model's files are.
#[derive(Debug, PartialEq, Eq)]
pub enum CustomModelLocation {
    /// In this local directory.
    Local(String),
    /// In this directory under `parakeet/custom` of the models directory.
    Downloaded(String),
}

/// The message for a custom model id that is not registered.
pub open spec fn custom_not_found_message(id: Seq<char>) -> Seq<char> {
    "Custom model '"@ + id + "' not found"@
}

/// The message for a custom model that is not ready.
pub open spec fn custom_not_ready_message(id: Seq<char>, status: CustomModelStatusView) -> Seq<char> {
    "Custom model '"@ + id + "' is not ready (status: "@ + status_debug(status) + ")"@
}

/// The message for a custom model that must be converted first.
pub open spec fn custom_needs_onnx_message(id: Seq<char>, format: ModelFormat) -> Seq<char> {
    "Custom model '"@ + id + "' has format '"@ + format.spec_text()
        + "' which requires conversion to ONNX before loading. Please convert the model first."@
}

/// Where the registered custom model `model_id` (`custom`, as the registry
/// gave it) can be loaded from: it must exist, be ready and be in ONNX
/// format; its files are in its local directory, or else in the download
/// directory of its repo.
pub fn custom_model_location(model_id: &str, custom: Option<CustomModelCatalogEntry>) -> (r: Result<
    CustomModelLocation,
    String,
>)
    ensures
        custom is None ==> (r matches Err(m) && m@ == custom_not_found_message(model_id@)),
        custom matches Some(c) ==> (if !(c.status is Ready) {
            r matches Err(m) && m@ == custom_not_ready_message(model_id@, c.status@)
        } else if c.format != ModelFormat::Onnx {
            r matches Err(m) && m@ == custom_needs_onnx_message(model_id@, c.format)
        } else {
            match (c.local_path, c.repo) {
                (Some(p), _) => r == Ok::<CustomModelLocation, String>(CustomModelLocation::Local(p)),
                (None, Some(repo)) => r matches Ok(CustomModelLocation::Downloaded(d)) && d@
                    == seq_replace_char(repo@, '/', "_"@),
                (None, None) => r matches Err(m) && m@
                    == "Custom model has no path or repo configured"@,
            }
        }),
{
    let c = match custom {
        Some(c) => c,
        None => {
            let a = concat("Custom model '", model_id);
            return Err(concat(a.as_str(), "' not found"));
        },
    };
    if !c.is_ready() {
        let st = status_debug_text(&c.status);
        let a = concat("Custom model '", model_id);
        let b = concat(a.as_str(), "' is not ready (status: ");
        let d = concat(b.as_str(), st.as_str());
        let m = concat(d.as_str(), ")");
        assert(m@ =~= custom_not_ready_message(model_id@, c.status@));
        return Err(m);
    }
    if c.format != ModelFormat::Onnx {
        let f = c.format.to_display_string();
        let a = concat("Custom model '", model_id);
        let b = concat(a.as_str(), "' has format '");
        let d = concat(b.as_str(), f.as_str());
        let m = concat(
            d.as_str(),
            "' which requires conversion to ONNX before loading. Please convert the model first.",
        );
        assert(m@ =~= custom_needs_onnx_message(model_id@, c.format));
        return Err(m);
    }
    match c.local_path {
        Some(p) => Ok(CustomModelLocation::Local(p)),
        None => match c.repo {
            Some(repo) => Ok(CustomModelLocation::Downloaded(custom_model_dir_name(repo.as_str()))),
            None => Err(owned("Custom model has no path or repo configured")),
        },
    }
}

/// The file whose presence marks a custom model with Int8 weights.
pub const INT8_ENCODER_FILE: &'static str = "encoder-model.int8.onnx";

} // verus!

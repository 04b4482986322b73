//! Transcription model catalog.
//!
//! The built-in catalog of Parakeet-family models (ONNX and NeMo), the
//! registry of user-added custom models, runtime resolution for a
//! `(provider, model)` pair, and model-format detection from file names.
use vstd::prelude::*;

use crate::seq_search::{
    first_index, lemma_first_index_absent, lemma_first_index_found,
    lemma_first_index_push, lemma_first_index_same, lemma_first_index_spec,
};
use crate::text::{
    concat, contains, ends_with, owned, seq_contains, seq_ends_with, seq_starts_with, starts_with,
    str_eq,
};

verus! {

// ============================================================================
// RUNTIME & FORMAT ENUMS
// ============================================================================

/// Runtime backend used to execute a transcription model.
#[derive(Debug, Clone, Copy, PartialEq, Eq, Structural)]
pub enum ModelRuntime {
    /// ggml Whisper runtime
    LocalWhisper,
    /// ONNX Parakeet runtime
    Parakeet,
    /// NeMo `.nemo` runtime (Python sidecar)
    Nemo,
}

impl ModelRuntime {
    /// The display text of the runtime.
    pub open spec fn spec_text(self) -> Seq<char> {
        match self {
            ModelRuntime::LocalWhisper => "localWhisper"@,
            ModelRuntime::Parakeet => "parakeet"@,
            ModelRuntime::Nemo => "nemo"@,
        }
    }

    /// The display text of the runtime, as an owned string.
    pub fn to_display_string(&self) -> (s: String)
        ensures
            s@ == self.spec_text(),
    {
        match self {
            ModelRuntime::LocalWhisper => owned("localWhisper"),
            ModelRuntime::Parakeet => owned("parakeet"),
            ModelRuntime::Nemo => owned("nemo"),
        }
    }
}

/// Detected format of a model from HuggingFace or a local path.
#[derive(Debug, Clone, Copy, PartialEq, Eq, Structural)]
pub enum ModelFormat {
    /// ONNX format - ready to use with the ONNX runtime
    Onnx,
    /// MLX format - Apple Silicon optimized (safetensors with MLX config)
    Mlx,
    /// Safetensors format - needs conversion to ONNX
    Safetensors,
    /// NeMo checkpoint format
    NemoCheckpoint,
    /// Unknown format
    Unknown,
}

impl ModelFormat {
    /// The display text of the format.
    pub open spec fn spec_text(self) -> Seq<char> {
        match self {
            ModelFormat::Onnx => "ONNX"@,
            ModelFormat::Mlx => "MLX"@,
            ModelFormat::Safetensors => "Safetensors"@,
            ModelFormat::NemoCheckpoint => "NeMo"@,
            ModelFormat::Unknown => "Unknown"@,
        }
    }

    /// The display text of the format, as an owned string.
    pub fn to_display_string(&self) -> (s: String)
        ensures
            s@ == self.spec_text(),
    {
        match self {
            ModelFormat::Onnx => owned("ONNX"),
            ModelFormat::Mlx => owned("MLX"),
            ModelFormat::Safetensors => owned("Safetensors"),
            ModelFormat::NemoCheckpoint => owned("NeMo"),
            ModelFormat::Unknown => owned("Unknown"),
        }
    }
}

/// Status of a custom model download/conversion.
#[derive(Debug, Clone, PartialEq)]
pub enum CustomModelStatus {
    /// Model metadata fetched, not yet downloaded
    Pending,
    /// Model is being downloaded
    Downloading { progress: u8 },
    /// Model is being converted (e.g., Safetensors to ONNX)
    Converting,
    /// Model is ready to use
    Ready,
    /// Model download/conversion failed
    Error(String),
}

/// The mathematical value of a `CustomModelStatus`.
pub enum CustomModelStatusView {
    Pending,
    Downloading { progress: u8 },
    Converting,
    Ready,
    Error(Seq<char>),
}

impl View for CustomModelStatus {
    type V = CustomModelStatusView;

    open spec fn view(&self) -> CustomModelStatusView {
        match self {
            CustomModelStatus::Pending => CustomModelStatusView::Pending,
            CustomModelStatus::Downloading { progress } => CustomModelStatusView::Downloading {
                progress: *progress,
            },
            CustomModelStatus::Converting => CustomModelStatusView::Converting,
            CustomModelStatus::Ready => CustomModelStatusView::Ready,
            CustomModelStatus::Error(msg) => CustomModelStatusView::Error(msg@),
        }
    }
}

impl CustomModelStatus {
    /// A copy of the status.
    pub fn duplicate(&self) -> (r: Self)
        ensures
            r@ == self@,
    {
        match self {
            CustomModelStatus::Pending => CustomModelStatus::Pending,
            CustomModelStatus::Downloading { progress } => CustomModelStatus::Downloading {
                progress: *progress,
            },
            CustomModelStatus::Converting => CustomModelStatus::Converting,
            CustomModelStatus::Ready => CustomModelStatus::Ready,
            CustomModelStatus::Error(msg) => CustomModelStatus::Error(msg.clone()),
        }
    }
}

// ============================================================================
// CATALOG ENTRY
// ============================================================================

/// A single entry in the built-in transcription model catalog.
#[derive(Debug, Clone, Copy)]
pub struct CatalogEntry {
    /// Unique model identifier used in the DB `model` column.
    pub model_id: &'static str,
    /// Provider string stored in the DB `provider` column.
    pub provider: &'static str,
    /// Runtime backend that executes this model.
    pub runtime: ModelRuntime,
    /// HuggingFace repo ID (for downloadable models).
    pub repo: Option<&'static str>,
    /// Primary model filename within the repo or local directory.
    pub file: Option<&'static str>,
    /// Approximate download size in MB.
    pub size_mb: u32,
    /// Expected audio sample rate in Hz.
    pub sample_rate: u32,
    /// Human-readable label for UI display.
    pub label: &'static str,
    /// Short description for UI display.
    pub description: &'static str,
}

/// The built-in catalog of Parakeet-family models, in order.
pub open spec fn spec_parakeet_catalog() -> Seq<CatalogEntry> {
    seq![
        CatalogEntry {
            model_id: "parakeet-tdt-0.6b-v3-int8",
            provider: "parakeet",
            runtime: ModelRuntime::Parakeet,
            repo: None,
            file: None,
            size_mb: 670,
            sample_rate: 16000,
            label: "Parakeet TDT 0.6B v3 (Int8)",
            description: "Ultra Fast – real time on M4 Max, latest version with int8 quantization",
        },
        CatalogEntry {
            model_id: "parakeet-tdt-0.6b-v2-int8",
            provider: "parakeet",
            runtime: ModelRuntime::Parakeet,
            repo: None,
            file: None,
            size_mb: 661,
            sample_rate: 16000,
            label: "Parakeet TDT 0.6B v2 (Int8)",
            description: "Fast – previous version with int8 quantization, good balance of speed and accuracy",
        },
        CatalogEntry {
            model_id: "nvidia/parakeet-rnnt-1.1b",
            provider: "parakeet",
            runtime: ModelRuntime::Nemo,
            repo: Some("nvidia/parakeet-rnnt-1.1b"),
            file: Some("parakeet-rnnt-1.1b.nemo"),
            size_mb: 4280,
            sample_rate: 16000,
            label: "Parakeet RNNT 1.1B",
            description: "High-accuracy English ASR – opt-in download, requires ~4.3 GB",
        },
    ]
}

/// The built-in catalog of Parakeet-family models (ONNX and NeMo).
pub fn parakeet_model_catalog() -> (v: Vec<CatalogEntry>)
    ensures
        v@ == spec_parakeet_catalog(),
{
    let v = vec![
        CatalogEntry {
            model_id: "parakeet-tdt-0.6b-v3-int8",
            provider: "parakeet",
            runtime: ModelRuntime::Parakeet,
            repo: None,
            file: None,
            size_mb: 670,
            sample_rate: 16000,
            label: "Parakeet TDT 0.6B v3 (Int8)",
            description: "Ultra Fast – real time on M4 Max, latest version with int8 quantization",
        },
        CatalogEntry {
            model_id: "parakeet-tdt-0.6b-v2-int8",
            provider: "parakeet",
            runtime: ModelRuntime::Parakeet,
            repo: None,
            file: None,
            size_mb: 661,
            sample_rate: 16000,
            label: "Parakeet TDT 0.6B v2 (Int8)",
            description: "Fast – previous version with int8 quantization, good balance of speed and accuracy",
        },
        CatalogEntry {
            model_id: "nvidia/parakeet-rnnt-1.1b",
            provider: "parakeet",
            runtime: ModelRuntime::Nemo,
            repo: Some("nvidia/parakeet-rnnt-1.1b"),
            file: Some("parakeet-rnnt-1.1b.nemo"),
            size_mb: 4280,
            sample_rate: 16000,
            label: "Parakeet RNNT 1.1B",
            description: "High-accuracy English ASR – opt-in download, requires ~4.3 GB",
        },
    ];
    assert(v@ =~= spec_parakeet_catalog());
    v
}

/// Selects catalog entries whose model id is `id`.
pub open spec fn entry_has_id(id: Seq<char>) -> spec_fn(CatalogEntry) -> bool {
    |e: CatalogEntry| e.model_id@ == id
}

/// The first entry of `entries` whose model id is `id`.
pub open spec fn find_entry(entries: Seq<CatalogEntry>, id: Seq<char>) -> Option<CatalogEntry> {
    let i = first_index(entries, entry_has_id(id));
    if i >= 0 {
        Some(entries[i])
    } else {
        None
    }
}

/// The catalog entry for `model_id`, as `lookup_model` returns it.
pub open spec fn spec_lookup_model(model_id: Seq<char>) -> Option<CatalogEntry> {
    find_entry(spec_parakeet_catalog(), model_id)
}

/// The first entry of `entries` whose model id equals `model_id`.
fn find_in_entries(entries: &Vec<CatalogEntry>, model_id: &str) -> (r: Option<CatalogEntry>)
    ensures
        r == find_entry(entries@, model_id@),
{
    let mut i: usize = 0;
    while i < entries.len()
        invariant
            i <= entries.len(),
            forall|j: int| 0 <= j < i ==> !#[trigger] entry_has_id(model_id@)(entries@[j]),
        decreases entries.len() - i,
    {
        if str_eq(entries[i].model_id, model_id) {
            proof {
                lemma_first_index_found(entries@, entry_has_id(model_id@), i as int);
            }
            return Some(entries[i]);
        }
        i = i + 1;
    }
    proof {
        lemma_first_index_absent(entries@, entry_has_id(model_id@));
    }
    None
}

/// Looks up a built-in catalog entry by model id.
pub fn lookup_model(model_id: &str) -> (r: Option<CatalogEntry>)
    ensures
        r == spec_lookup_model(model_id@),
{
    let catalog = parakeet_model_catalog();
    find_in_entries(&catalog, model_id)
}

/// All built-in catalog entries that run on `runtime`, in catalog order.
pub fn models_for_runtime(runtime: ModelRuntime) -> (r: Vec<CatalogEntry>)
    ensures
        r@ == spec_parakeet_catalog().filter(|e: CatalogEntry| e.runtime == runtime),
{
    let catalog = parakeet_model_catalog();
    let mut r: Vec<CatalogEntry> = Vec::new();
    let mut i: usize = 0;
    while i < catalog.len()
        invariant
            i <= catalog.len(),
            catalog@ == spec_parakeet_catalog(),
            r@ == catalog@.take(i as int).filter(|e: CatalogEntry| e.runtime == runtime),
        decreases catalog.len() - i,
    {
        proof {
            catalog@.take(i as int).lemma_filter_push(catalog@[i as int], |e: CatalogEntry| e.runtime == runtime);
            assert(catalog@.take(i as int).push(catalog@[i as int]) =~= catalog@.take(i + 1));
        }
        if catalog[i].runtime == runtime {
            r.push(catalog[i]);
        }
        i = i + 1;
    }
    assert(catalog@.take(catalog.len() as int) =~= catalog@);
    r
}

// ============================================================================
// CUSTOM MODEL CATALOG ENTRY (user-added HuggingFace or local models)
// ============================================================================

/// A user-added custom model from HuggingFace or a local path.
#[derive(Debug, Clone)]
pub struct CustomModelCatalogEntry {
    /// Unique model identifier ("custom/<repo>" or "local/<dir name>").
    pub model_id: String,
    /// Provider string stored in the DB `provider` column.
    pub provider: String,
    /// Runtime backend that executes this model.
    pub runtime: ModelRuntime,
    /// Detected model format from file inspection.
    pub format: ModelFormat,
    /// HuggingFace repo ID (if sourced from HuggingFace).
    pub repo: Option<String>,
    /// Local directory path (if sourced from the local filesystem).
    pub local_path: Option<String>,
    /// Model files (file names within the repo or directory).
    pub files: Vec<String>,
    /// Approximate download size in MB.
    pub size_mb: u32,
    /// Expected audio sample rate in Hz.
    pub sample_rate: u32,
    /// Human-readable label for UI display.
    pub label: String,
    /// Short description for UI display.
    pub description: String,
    /// Current status of the custom model.
    pub status: CustomModelStatus,
}

/// The characters of each string of `v`.
pub open spec fn strings_view(v: Seq<String>) -> Seq<Seq<char>> {
    v.map_values(|s: String| s@)
}

/// The characters of an optional string.
pub open spec fn opt_text(o: Option<String>) -> Option<Seq<char>> {
    match o {
        Some(s) => Some(s@),
        None => None,
    }
}

/// The mathematical value of a `CustomModelCatalogEntry`.
pub struct CustomModelView {
    pub model_id: Seq<char>,
    pub provider: Seq<char>,
    pub runtime: ModelRuntime,
    pub format: ModelFormat,
    pub repo: Option<Seq<char>>,
    pub local_path: Option<Seq<char>>,
    pub files: Seq<Seq<char>>,
    pub size_mb: u32,
    pub sample_rate: u32,
    pub label: Seq<char>,
    pub description: Seq<char>,
    pub status: CustomModelStatusView,
}

impl View for CustomModelCatalogEntry {
    type V = CustomModelView;

    open spec fn view(&self) -> CustomModelView {
        CustomModelView {
            model_id: self.model_id@,
            provider: self.provider@,
            runtime: self.runtime,
            format: self.format,
            repo: opt_text(self.repo),
            local_path: opt_text(self.local_path),
            files: strings_view(self.files@),
            size_mb: self.size_mb,
            sample_rate: self.sample_rate,
            label: self.label@,
            description: self.description@,
            status: self.status@,
        }
    }
}

/// The runtime that a custom model of format `format` runs on: NeMo checkpoints
/// on NeMo, everything else on the ONNX Parakeet runtime (after conversion where needed).
pub open spec fn runtime_for_format(format: ModelFormat) -> ModelRuntime {
    match format {
        ModelFormat::NemoCheckpoint => ModelRuntime::Nemo,
        _ => ModelRuntime::Parakeet,
    }
}

fn runtime_of_format(format: ModelFormat) -> (r: ModelRuntime)
    ensures
        r == runtime_for_format(format),
{
    match format {
        ModelFormat::Onnx => ModelRuntime::Parakeet,
        ModelFormat::NemoCheckpoint => ModelRuntime::Nemo,
        _ => ModelRuntime::Parakeet,
    }
}

/// The last component of `path` as `std::path::Path::file_name` gives it.
pub uninterp spec fn path_file_name(path: Seq<char>) -> Option<Seq<char>>;

/// Calls `std::path::Path::file_name` on `path`; the contract claims only that the
/// result is `path_file_name` of the path's characters.
#[verifier::external_body]
fn file_name_of(path: &str) -> (r: Option<String>)
    ensures
        match r {
            Some(n) => path_file_name(path@) == Some(n@),
            None => path_file_name(path@).is_none(),
        },
{
    match std::path::Path::new(path).file_name() {
        Some(name) => Some(name.to_string_lossy().into_owned()),
        None => None,
    }
}

/// The text of an optional string: its characters, or `default` when absent.
pub open spec fn text_or(o: Option<String>, default: Seq<char>) -> Seq<char> {
    match o {
        Some(s) => s@,
        None => default,
    }
}

impl CustomModelCatalogEntry {
    /// The entry's model id is `id`.
    pub open spec fn has_id(self, id: Seq<char>) -> bool {
        self.model_id@ == id
    }

    /// The model is ready for transcription.
    pub open spec fn spec_is_ready(self) -> bool {
        self.status is Ready
    }

    /// The model's format must be converted to ONNX before use.
    pub open spec fn spec_needs_conversion(self) -> bool {
        self.format == ModelFormat::Mlx || self.format == ModelFormat::Safetensors
    }

    /// Creates a new custom model entry from a HuggingFace repo.
    pub fn from_huggingface(
        repo_id: &str,
        format: ModelFormat,
        files: Vec<String>,
        size_mb: u32,
        label: Option<String>,
        description: Option<String>,
    ) -> (r: Self)
        ensures
            r.model_id@ == "custom/"@ + repo_id@,
            r.provider@ == "parakeet"@,
            r.runtime == runtime_for_format(format),
            r.format == format,
            r.repo matches Some(repo) && repo@ == repo_id@,
            r.local_path is None,
            r.files == files,
            r.size_mb == size_mb,
            r.sample_rate == 16000,
            r.label@ == text_or(label, repo_id@),
            r.description@ == text_or(
                description,
                "Custom HuggingFace model: "@ + repo_id@ + " ("@ + format.spec_text() + ")"@,
            ),
            r.status == CustomModelStatus::Pending,
    {
        let runtime = runtime_of_format(format);
        let label = match label {
            Some(l) => l,
            None => owned(repo_id),
        };
        let description = match description {
            Some(d) => d,
            None => {
                let d = concat("Custom HuggingFace model: ", repo_id);
                let fmt = format.to_display_string();
                let tail = concat(" (", fmt.as_str());
                let tail = concat(tail.as_str(), ")");
                let d = concat(d.as_str(), tail.as_str());
                proof {
                    assert(d@ =~= "Custom HuggingFace model: "@ + repo_id@ + " ("@
                        + format.spec_text() + ")"@);
                }
                d
            },
        };
        Self {
            model_id: concat("custom/", repo_id),
            provider: owned("parakeet"),
            runtime,
            format,
            repo: Some(owned(repo_id)),
            local_path: None,
            files,
            size_mb,
            sample_rate: 16000,
            label,
            description,
            status: CustomModelStatus::Pending,
        }
    }

    /// `self` is the entry built for the local directory `path` whose last
    /// component is `file_name`.
    pub open spec fn is_local_entry(
        self,
        path: String,
        file_name: Option<Seq<char>>,
        format: ModelFormat,
        files: Vec<String>,
        size_mb: u32,
        label: Option<String>,
    ) -> bool {
        &&& self.model_id@ == "local/"@ + match file_name {
            Some(n) => n,
            None => "unknown"@,
        }
        &&& self.provider@ == "parakeet"@
        &&& self.runtime == runtime_for_format(format)
        &&& self.format == format
        &&& self.repo is None
        &&& self.local_path == Some(path)
        &&& self.files == files
        &&& self.size_mb == size_mb
        &&& self.sample_rate == 16000
        &&& self.label@ == text_or(label, path@)
        &&& self.description@ == "Local model: "@ + path@ + " ("@ + format.spec_text() + ")"@
        &&& self.status == CustomModelStatus::Pending
    }

    /// Creates a new custom model entry from a local directory `path`.
    pub fn from_local_path(
        path: String,
        format: ModelFormat,
        files: Vec<String>,
        size_mb: u32,
        label: Option<String>,
    ) -> (r: Self)
        ensures
            r.is_local_entry(path, path_file_name(path@), format, files, size_mb, label),
    {
        let name = file_name_of(path.as_str());
        Self::from_local_parts(path, name, format, files, size_mb, label)
    }

    /// Creates the entry for the local directory `path`, given the directory's
    /// last path component `file_name` (absent when the path has none).
    pub fn from_local_parts(
        path: String,
        file_name: Option<String>,
        format: ModelFormat,
        files: Vec<String>,
        size_mb: u32,
        label: Option<String>,
    ) -> (r: Self)
        ensures
            r.is_local_entry(
                path,
                match file_name {
                    Some(n) => Some(n@),
                    None => None,
                },
                format,
                files,
                size_mb,
                label,
            ),
    {
        let runtime = runtime_of_format(format);
        let model_id = match file_name {
            Some(n) => concat("local/", n.as_str()),
            None => concat("local/", "unknown"),
        };
        let label = match label {
            Some(l) => l,
            None => path.clone(),
        };
        let fmt = format.to_display_string();
        let d = concat("Local model: ", path.as_str());
        let tail = concat(" (", fmt.as_str());
        let tail = concat(tail.as_str(), ")");
        let description = concat(d.as_str(), tail.as_str());
        proof {
            assert(description@ =~= "Local model: "@ + path@ + " ("@ + format.spec_text() + ")"@);
        }
        Self {
            model_id,
            provider: owned("parakeet"),
            runtime,
            format,
            repo: None,
            local_path: Some(path),
            files,
            size_mb,
            sample_rate: 16000,
            label,
            description,
            status: CustomModelStatus::Pending,
        }
    }

    /// Whether this model is ready for transcription.
    pub fn is_ready(&self) -> (r: bool)
        ensures
            r == self.spec_is_ready(),
    {
        match self.status {
            CustomModelStatus::Ready => true,
            _ => false,
        }
    }

    /// Whether this model needs format conversion before use.
    pub fn needs_conversion(&self) -> (r: bool)
        ensures
            r == self.spec_needs_conversion(),
            r == (self.format is Mlx || self.format is Safetensors),
    {
        match self.format {
            ModelFormat::Mlx | ModelFormat::Safetensors => true,
            _ => false,
        }
    }

    /// A copy of the entry.
    pub fn duplicate(&self) -> (r: Self)
        ensures
            r@ == self@,
    {
        let files = self.files.clone();
        assert(strings_view(files@) =~= strings_view(self.files@));
        Self {
            model_id: self.model_id.clone(),
            provider: self.provider.clone(),
            runtime: self.runtime,
            format: self.format,
            repo: match &self.repo {
                Some(r) => Some(r.clone()),
                None => None,
            },
            local_path: match &self.local_path {
                Some(p) => Some(p.clone()),
                None => None,
            },
            files,
            size_mb: self.size_mb,
            sample_rate: self.sample_rate,
            label: self.label.clone(),
            description: self.description.clone(),
            status: self.status.duplicate(),
        }
    }
}

// ============================================================================
// CUSTOM MODEL REGISTRY
// ============================================================================

/// No two entries of `s` share a model id.
pub open spec fn unique_ids(s: Seq<CustomModelView>) -> bool {
    forall|i: int, j: int|
        0 <= i < s.len() && 0 <= j < s.len() && i != j ==> #[trigger] s[i].model_id
            != #[trigger] s[j].model_id
}

/// Selects registry entries whose model id is `id`.
pub open spec fn view_has_id(id: Seq<char>) -> spec_fn(CustomModelView) -> bool {
    |v: CustomModelView| v.model_id == id
}

/// Some entry of `s` has model id `id`.
pub open spec fn registry_has(s: Seq<CustomModelView>, id: Seq<char>) -> bool {
    exists|i: int| 0 <= i < s.len() && #[trigger] s[i].model_id == id
}

/// The position of the entry with model id `id`, or -1.
pub open spec fn registry_index(s: Seq<CustomModelView>, id: Seq<char>) -> int {
    first_index(s, view_has_id(id))
}

/// The entry with model id `id`, if any.
pub open spec fn registry_find(s: Seq<CustomModelView>, id: Seq<char>) -> Option<CustomModelView> {
    let i = registry_index(s, id);
    if i >= 0 {
        Some(s[i])
    } else {
        None
    }
}

/// The entries of `s` that are ready for transcription, in order.
pub open spec fn ready_entries(s: Seq<CustomModelView>) -> Seq<CustomModelView> {
    s.filter(|v: CustomModelView| v.status is Ready)
}

/// `e` with its status replaced by `status`.
pub open spec fn with_status(e: CustomModelView, status: CustomModelStatusView) -> CustomModelView {
    CustomModelView { status, ..e }
}

/// The views of a sequence of entries.
pub open spec fn entries_view(v: Seq<CustomModelCatalogEntry>) -> Seq<CustomModelView> {
    v.map_values(|e: CustomModelCatalogEntry| e@)
}

/// The registry of user-added custom models. Model ids are unique.
pub struct CustomModelRegistry {
    entries: Vec<CustomModelCatalogEntry>,
}

impl View for CustomModelRegistry {
    type V = Seq<CustomModelView>;

    closed spec fn view(&self) -> Seq<CustomModelView> {
        entries_view(self.entries@)
    }
}

impl CustomModelRegistry {
    #[verifier::type_invariant]
    closed spec fn ids_unique(self) -> bool {
        unique_ids(entries_view(self.entries@))
    }

    /// An empty registry.
    pub fn new() -> (r: Self)
        ensures
            r@ == Seq::<CustomModelView>::empty(),
    {
        let r = CustomModelRegistry { entries: Vec::new() };
        assert(entries_view(r.entries@) =~= Seq::<CustomModelView>::empty());
        r
    }
}

/// When model ids are unique, the entry found for an id is the only one with that id.
pub proof fn lemma_unique_find(s: Seq<CustomModelView>, id: Seq<char>, k: int)
    requires
        unique_ids(s),
        0 <= k < s.len(),
        s[k].model_id == id,
    ensures
        registry_index(s, id) == k,
        registry_find(s, id) == Some(s[k]),
{
    assert forall|j: int| 0 <= j < k implies !#[trigger] view_has_id(id)(s[j]) by {
        assert(s[j].model_id != s[k].model_id);
    }
    lemma_first_index_found(s, view_has_id(id), k);
}

/// Finds the position of the registry entry whose model id is `model_id`.
fn position_of(entries: &Vec<CustomModelCatalogEntry>, model_id: &str) -> (r: Option<usize>)
    ensures
        match r {
            Some(i) => i < entries@.len() && registry_index(entries_view(entries@), model_id@)
                == i,
            None => registry_index(entries_view(entries@), model_id@) == -1,
        },
{
    let ghost view = entries_view(entries@);
    let mut i: usize = 0;
    while i < entries.len()
        invariant
            i <= entries.len(),
            view == entries_view(entries@),
            forall|j: int| 0 <= j < i ==> !#[trigger] view_has_id(model_id@)(view[j]),
        decreases entries.len() - i,
    {
        if str_eq(entries[i].model_id.as_str(), model_id) {
            proof {
                lemma_first_index_found(view, view_has_id(model_id@), i as int);
            }
            return Some(i);
        }
        i = i + 1;
    }
    proof {
        lemma_first_index_absent(view, view_has_id(model_id@));
    }
    None
}

/// Looks up a custom model by model id; the result is a copy of the registered entry.
pub fn lookup_custom_model(registry: &CustomModelRegistry, model_id: &str) -> (r: Option<
    CustomModelCatalogEntry,
>)
    ensures
        match r {
            Some(e) => registry_find(registry@, model_id@) == Some(e@),
            None => registry_find(registry@, model_id@) is None,
        },
{
    match position_of(&registry.entries, model_id) {
        Some(i) => Some(registry.entries[i].duplicate()),
        None => None,
    }
}

/// The message for registering a model id that is already registered.
pub open spec fn already_registered_message(id: Seq<char>) -> Seq<char> {
    "Custom model '"@ + id + "' is already registered"@
}

/// The message for a model id that is not in the registry.
pub open spec fn not_found_message(id: Seq<char>) -> Seq<char> {
    "Custom model '"@ + id + "' not found in registry"@
}

fn quoted_message(id: &str, suffix: &str) -> (r: String)
    ensures
        r@ == "Custom model '"@ + id@ + suffix@,
{
    let head = concat("Custom model '", id);
    let r = concat(head.as_str(), suffix);
    assert(r@ =~= "Custom model '"@ + id@ + suffix@);
    r
}

/// Registers a new custom model; fails, leaving the registry unchanged, when
/// its model id is already registered.
pub fn register_custom_model(registry: &mut CustomModelRegistry, entry: CustomModelCatalogEntry) -> (r:
    Result<(), String>)
    ensures
        registry_has(old(registry)@, entry.model_id@) ==> (r matches Err(msg) && msg@
            == already_registered_message(entry.model_id@) && final(registry)@ == old(registry)@),
        !registry_has(old(registry)@, entry.model_id@) ==> r is Ok && final(registry)@ == old(
            registry,
        )@.push(entry@),
        unique_ids(final(registry)@),
{
    proof {
        use_type_invariant(&*registry);
    }
    match position_of(&registry.entries, entry.model_id.as_str()) {
        Some(_) => {
            let msg = quoted_message(entry.model_id.as_str(), "' is already registered");
            Err(msg)
        },
        None => {
            let ghost before = registry.entries@;
            proof {
                crate::seq_search::lemma_first_index_spec(
                    entries_view(before),
                    view_has_id(entry.model_id@),
                );
                assert forall|j: int| 0 <= j < before.len() implies #[trigger] entries_view(
                    before,
                )[j].model_id != entry.model_id@ by {
                    assert(!view_has_id(entry.model_id@)(entries_view(before)[j]));
                }
                assert(entries_view(before.push(entry)) =~= entries_view(before).push(entry@));
            }
            let mut entries: Vec<CustomModelCatalogEntry> = Vec::new();
            std::mem::swap(&mut entries, &mut registry.entries);
            entries.push(entry);
            registry.entries = entries;
            proof {
                use_type_invariant(&*registry);
            }
            Ok(())
        },
    }
}

/// Removes a custom model from the registry and returns it; fails, leaving the
/// registry unchanged, when no entry has `model_id`.
pub fn unregister_custom_model(registry: &mut CustomModelRegistry, model_id: &str) -> (r: Result<
    CustomModelCatalogEntry,
    String,
>)
    ensures
        registry_index(old(registry)@, model_id@) >= 0 ==> (r matches Ok(e) && e@ == old(
            registry,
        )@[registry_index(old(registry)@, model_id@)] && final(registry)@ == old(
            registry,
        )@.remove(registry_index(old(registry)@, model_id@))),
        registry_index(old(registry)@, model_id@) == -1 ==> (r matches Err(msg) && msg@
            == not_found_message(model_id@) && final(registry)@ == old(registry)@),
{
    proof {
        use_type_invariant(&*registry);
    }
    match position_of(&registry.entries, model_id) {
        Some(i) => {
            let ghost before = registry.entries@;
            proof {
                assert(entries_view(before.remove(i as int)) =~= entries_view(before).remove(
                    i as int,
                ));
            }
            let mut entries: Vec<CustomModelCatalogEntry> = Vec::new();
            std::mem::swap(&mut entries, &mut registry.entries);
            let e = entries.remove(i);
            proof {
                assert forall|a: int, b: int|
                    0 <= a < entries_view(entries@).len() && 0 <= b < entries_view(entries@).len()
                        && a != b implies #[trigger] entries_view(entries@)[a].model_id
                    != #[trigger] entries_view(entries@)[b].model_id by {
                    let a0 = if a < i { a } else { a + 1 };
                    let b0 = if b < i { b } else { b + 1 };
                    assert(entries_view(entries@)[a] == entries_view(before)[a0]);
                    assert(entries_view(entries@)[b] == entries_view(before)[b0]);
                }
            }
            registry.entries = entries;
            Ok(e)
        },
        None => {
            let msg = quoted_message(model_id, "' not found in registry");
            Err(msg)
        },
    }
}

/// Sets the status of the custom model `model_id`; fails, leaving the registry
/// unchanged, when no entry has that id.
pub fn update_custom_model_status(
    registry: &mut CustomModelRegistry,
    model_id: &str,
    status: CustomModelStatus,
) -> (r: Result<(), String>)
    ensures
        registry_index(old(registry)@, model_id@) >= 0 ==> r is Ok && final(registry)@ == old(
            registry,
        )@.update(
            registry_index(old(registry)@, model_id@),
            with_status(old(registry)@[registry_index(old(registry)@, model_id@)], status@),
        ),
        registry_index(old(registry)@, model_id@) == -1 ==> (r matches Err(msg) && msg@
            == not_found_message(model_id@) && final(registry)@ == old(registry)@),
{
    proof {
        use_type_invariant(&*registry);
    }
    match position_of(&registry.entries, model_id) {
        Some(i) => {
            let ghost before = registry.entries@;
            let mut entries: Vec<CustomModelCatalogEntry> = Vec::new();
            std::mem::swap(&mut entries, &mut registry.entries);
            let mut e = entries.remove(i);
            e.status = status;
            proof {
                assert(entries_view(before.remove(i as int).insert(i as int, e)) =~= entries_view(
                    before,
                ).update(i as int, with_status(entries_view(before)[i as int], e.status@)));
            }
            entries.insert(i, e);
            proof {
                assert forall|a: int, b: int|
                    0 <= a < entries_view(entries@).len() && 0 <= b < entries_view(entries@).len()
                        && a != b implies #[trigger] entries_view(entries@)[a].model_id
                    != #[trigger] entries_view(entries@)[b].model_id by {
                    assert(entries_view(entries@)[a].model_id == entries_view(before)[a].model_id);
                    assert(entries_view(entries@)[b].model_id == entries_view(before)[b].model_id);
                }
            }
            registry.entries = entries;
            Ok(())
        },
        None => {
            let msg = quoted_message(model_id, "' not found in registry");
            Err(msg)
        },
    }
}

/// Copies of all registered custom models, in registration order.
pub fn get_custom_models(registry: &CustomModelRegistry) -> (r: Vec<CustomModelCatalogEntry>)
    ensures
        entries_view(r@) == registry@,
        unique_ids(registry@),
{
    proof {
        use_type_invariant(registry);
    }
    let mut r: Vec<CustomModelCatalogEntry> = Vec::new();
    let mut i: usize = 0;
    while i < registry.entries.len()
        invariant
            i <= registry.entries.len(),
            entries_view(r@) == entries_view(registry.entries@).take(i as int),
        decreases registry.entries.len() - i,
    {
        let e = registry.entries[i].duplicate();
        proof {
            assert(entries_view(r@.push(e)) =~= entries_view(r@).push(e@));
            assert(entries_view(registry.entries@).take(i + 1) =~= entries_view(
                registry.entries@,
            ).take(i as int).push(entries_view(registry.entries@)[i as int]));
        }
        r.push(e);
        i = i + 1;
    }
    assert(entries_view(registry.entries@).take(registry.entries.len() as int) =~= entries_view(
        registry.entries@,
    ));
    r
}

/// Copies of the registered custom models that are ready for transcription.
pub fn get_ready_custom_models(registry: &CustomModelRegistry) -> (r: Vec<CustomModelCatalogEntry>)
    ensures
        entries_view(r@) == ready_entries(registry@),
{
    let all = get_custom_models(registry);
    let ghost all_view = entries_view(all@);
    let mut r: Vec<CustomModelCatalogEntry> = Vec::new();
    let mut i: usize = 0;
    while i < all.len()
        invariant
            i <= all.len(),
            all_view == entries_view(all@),
            entries_view(r@) == ready_entries(all_view.take(i as int)),
        decreases all.len() - i,
    {
        proof {
            all_view.take(i as int).lemma_filter_push(
                all_view[i as int],
                |v: CustomModelView| v.status is Ready,
            );
            assert(all_view.take(i as int).push(all_view[i as int]) =~= all_view.take(i + 1));
        }
        if all[i].is_ready() {
            let e = all[i].duplicate();
            proof {
                assert(entries_view(r@.push(e)) =~= entries_view(r@).push(e@));
            }
            r.push(e);
        }
        i = i + 1;
    }
    assert(all_view.take(all.len() as int) =~= all_view);
    r
}

// ============================================================================
// RUNTIME RESOLUTION
// ============================================================================

/// Providers whose models always run on the Whisper runtime.
pub open spec fn is_whisper_provider(provider: Seq<char>) -> bool {
    provider == "localWhisper"@ || provider == "whisper"@
}

/// The runtime of `(provider, model_id)`: Whisper providers run on Whisper;
/// otherwise the built-in catalog decides, then the custom registry.
pub open spec fn spec_resolve_runtime(
    registry: Seq<CustomModelView>,
    provider: Seq<char>,
    model_id: Seq<char>,
) -> Option<ModelRuntime> {
    if is_whisper_provider(provider) {
        Some(ModelRuntime::LocalWhisper)
    } else if let Some(entry) = spec_lookup_model(model_id) {
        Some(entry.runtime)
    } else if let Some(custom) = registry_find(registry, model_id) {
        Some(custom.runtime)
    } else {
        None
    }
}

/// Resolves the runtime for a `(provider, model)` pair; `None` when the model
/// is in no catalog.
pub fn resolve_runtime(registry: &CustomModelRegistry, provider: &str, model_id: &str) -> (r: Option<
    ModelRuntime,
>)
    ensures
        r == spec_resolve_runtime(registry@, provider@, model_id@),
{
    if str_eq(provider, "localWhisper") || str_eq(provider, "whisper") {
        return Some(ModelRuntime::LocalWhisper);
    }
    if let Some(entry) = lookup_model(model_id) {
        return Some(entry.runtime);
    }
    if let Some(custom) = lookup_custom_model(registry, model_id) {
        return Some(custom.runtime);
    }
    None
}

/// Whether `model_id` runs on the NeMo runtime.
pub fn is_nemo_model(registry: &CustomModelRegistry, model_id: &str) -> (r: bool)
    ensures
        r == (spec_resolve_runtime(registry@, "parakeet"@, model_id@) == Some(ModelRuntime::Nemo)),
{
    match resolve_runtime(registry, "parakeet", model_id) {
        Some(ModelRuntime::Nemo) => true,
        _ => false,
    }
}

/// Whether `model_id` names a user-added model.
pub fn is_custom_model(model_id: &str) -> (r: bool)
    ensures
        r == (seq_starts_with(model_id@, "custom/"@) || seq_starts_with(model_id@, "local/"@)),
{
    starts_with(model_id, "custom/") || starts_with(model_id, "local/")
}

// ============================================================================
// FORMAT DETECTION
// ============================================================================

/// Some file name of `files` satisfies `p`.
pub open spec fn any_file(files: Seq<Seq<char>>, p: spec_fn(Seq<char>) -> bool) -> bool {
    exists|i: int| 0 <= i < files.len() && #[trigger] p(files[i])
}

/// An ONNX model file.
pub open spec fn is_onnx_file(f: Seq<char>) -> bool {
    seq_ends_with(f, ".onnx"@)
}

/// A safetensors weights file.
pub open spec fn is_safetensors_file(f: Seq<char>) -> bool {
    seq_ends_with(f, ".safetensors"@)
}

/// A NeMo checkpoint file.
pub open spec fn is_nemo_file(f: Seq<char>) -> bool {
    seq_ends_with(f, ".nemo"@)
}

/// A file that marks an MLX model configuration.
pub open spec fn is_mlx_config_file(f: Seq<char>) -> bool {
    f == "mlx_config.json"@ || seq_contains(f, "mlx"@) || f == "config.json"@
}

/// A weights file of the name MLX models use.
pub open spec fn is_mlx_weights_file(f: Seq<char>) -> bool {
    f == "weights.safetensors"@ || f == "model.safetensors"@
}

/// The format of a model with file names `files`.
/// Priority: ONNX > NeMo > MLX (config and weights) > Safetensors > Unknown.
pub open spec fn spec_detect_model_format(files: Seq<Seq<char>>) -> ModelFormat {
    if any_file(files, |f: Seq<char>| is_onnx_file(f)) {
        ModelFormat::Onnx
    } else if any_file(files, |f: Seq<char>| is_nemo_file(f)) {
        ModelFormat::NemoCheckpoint
    } else if any_file(files, |f: Seq<char>| is_mlx_config_file(f)) && any_file(
        files,
        |f: Seq<char>| is_mlx_weights_file(f),
    ) {
        ModelFormat::Mlx
    } else if any_file(files, |f: Seq<char>| is_safetensors_file(f)) {
        ModelFormat::Safetensors
    } else {
        ModelFormat::Unknown
    }
}

/// MLX and Safetensors models must be converted to ONNX before use; ONNX
/// models, NeMo checkpoints and models of unknown format are not converted.
pub proof fn lemma_needs_conversion_formats(entry: CustomModelCatalogEntry)
    ensures
        entry.format is Mlx ==> entry.spec_needs_conversion(),
        entry.format is Safetensors ==> entry.spec_needs_conversion(),
        entry.format is Onnx ==> !entry.spec_needs_conversion(),
        entry.format is NemoCheckpoint ==> !entry.spec_needs_conversion(),
        entry.format is Unknown ==> !entry.spec_needs_conversion(),
{
}

/// Some file name of `files` ends with `suffix`.
pub open spec fn some_file_ends_with(files: Seq<Seq<char>>, suffix: Seq<char>) -> bool {
    exists|i: int| 0 <= i < files.len() && seq_ends_with(#[trigger] files[i], suffix)
}

/// The format's priority: any `.onnx` file makes the model ONNX, whatever
/// else is there; without one, any `.nemo` file makes it a NeMo checkpoint;
/// an MLX model has MLX weights (`weights.safetensors` or
/// `model.safetensors`) and an MLX configuration file; a Safetensors model
/// has a `.safetensors` file; and the format is unknown exactly when no file
/// ends with `.onnx`, `.nemo` or `.safetensors`.
pub proof fn lemma_format_priority(files: Seq<Seq<char>>)
    ensures
        some_file_ends_with(files, ".onnx"@) <==> spec_detect_model_format(files) is Onnx,
        spec_detect_model_format(files) is NemoCheckpoint <==> (!some_file_ends_with(
            files,
            ".onnx"@,
        ) && some_file_ends_with(files, ".nemo"@)),
        spec_detect_model_format(files) is Mlx ==> !some_file_ends_with(files, ".onnx"@)
            && !some_file_ends_with(files, ".nemo"@) && (exists|i: int|
            0 <= i < files.len() && (#[trigger] files[i] == "weights.safetensors"@ || files[i]
                == "model.safetensors"@)) && (exists|i: int|
            0 <= i < files.len() && (#[trigger] files[i] == "mlx_config.json"@ || files[i]
                == "config.json"@ || seq_contains(files[i], "mlx"@))),
        spec_detect_model_format(files) is Safetensors ==> !some_file_ends_with(files, ".onnx"@)
            && !some_file_ends_with(files, ".nemo"@) && some_file_ends_with(
            files,
            ".safetensors"@,
        ),
        spec_detect_model_format(files) is Unknown <==> (!some_file_ends_with(files, ".onnx"@)
            && !some_file_ends_with(files, ".nemo"@) && !some_file_ends_with(
            files,
            ".safetensors"@,
        )),
{
    let onnx = |f: Seq<char>| is_onnx_file(f);
    let nemo = |f: Seq<char>| is_nemo_file(f);
    let st = |f: Seq<char>| is_safetensors_file(f);
    let w = |f: Seq<char>| is_mlx_weights_file(f);
    if some_file_ends_with(files, ".onnx"@) {
        let i = choose|i: int| 0 <= i < files.len() && seq_ends_with(#[trigger] files[i], ".onnx"@);
        assert(onnx(files[i]));
    }
    if any_file(files, onnx) {
        let i = choose|i: int| 0 <= i < files.len() && #[trigger] onnx(files[i]);
        assert(seq_ends_with(files[i], ".onnx"@));
    }
    if some_file_ends_with(files, ".nemo"@) {
        let i = choose|i: int| 0 <= i < files.len() && seq_ends_with(#[trigger] files[i], ".nemo"@);
        assert(nemo(files[i]));
    }
    if any_file(files, nemo) {
        let i = choose|i: int| 0 <= i < files.len() && #[trigger] nemo(files[i]);
        assert(seq_ends_with(files[i], ".nemo"@));
    }
    if some_file_ends_with(files, ".safetensors"@) {
        let i = choose|i: int|
            0 <= i < files.len() && seq_ends_with(#[trigger] files[i], ".safetensors"@);
        assert(st(files[i]));
    }
    if any_file(files, st) {
        let i = choose|i: int| 0 <= i < files.len() && #[trigger] st(files[i]);
        assert(seq_ends_with(files[i], ".safetensors"@));
    }
    if any_file(files, w) {
        let i = choose|i: int| 0 <= i < files.len() && #[trigger] w(files[i]);
        reveal_strlit("weights.safetensors");
        reveal_strlit("model.safetensors");
        reveal_strlit(".safetensors");
        if files[i] == "weights.safetensors"@ {
            assert(files[i].subrange(7, 19) =~= ".safetensors"@);
        } else {
            assert(files[i].subrange(5, 17) =~= ".safetensors"@);
        }
        assert(seq_ends_with(files[i], ".safetensors"@));
        assert(st(files[i]));
        assert(files[i] == "weights.safetensors"@ || files[i] == "model.safetensors"@);
    }
    if spec_detect_model_format(files) is Mlx {
        let c = |f: Seq<char>| is_mlx_config_file(f);
        let i = choose|i: int| 0 <= i < files.len() && #[trigger] c(files[i]);
        assert(files[i] == "mlx_config.json"@ || files[i] == "config.json"@ || seq_contains(
            files[i],
            "mlx"@,
        ));
    }
}

/// Detects the model format from a list of file names.
pub fn detect_model_format(files: &[String]) -> (r: ModelFormat)
    ensures
        r == spec_detect_model_format(strings_view(files@)),
{
    let ghost names = strings_view(files@);
    let mut has_onnx = false;
    let mut has_safetensors = false;
    let mut has_nemo = false;
    let mut has_mlx_config = false;
    let mut has_mlx_weights = false;
    let mut i: usize = 0;
    while i < files.len()
        invariant
            i <= files.len(),
            names == strings_view(files@),
            has_onnx == any_file(names.take(i as int), |f: Seq<char>| is_onnx_file(f)),
            has_safetensors == any_file(names.take(i as int), |f: Seq<char>| is_safetensors_file(f)),
            has_nemo == any_file(names.take(i as int), |f: Seq<char>| is_nemo_file(f)),
            has_mlx_config == any_file(names.take(i as int), |f: Seq<char>| is_mlx_config_file(f)),
            has_mlx_weights == any_file(names.take(i as int), |f: Seq<char>| is_mlx_weights_file(f)),
        decreases files.len() - i,
    {
        let f = files[i].as_str();
        let onnx = ends_with(f, ".onnx");
        let safetensors = ends_with(f, ".safetensors");
        let nemo = ends_with(f, ".nemo");
        let mlx_config = str_eq(f, "mlx_config.json") || contains(f, "mlx") || str_eq(f, "config.json");
        let mlx_weights = str_eq(f, "weights.safetensors") || str_eq(f, "model.safetensors");
        proof {
            let prev = names.take(i as int);
            let next = names.take(i + 1);
            assert(next =~= prev.push(names[i as int]));
            assert(names[i as int] == f@);
            lemma_any_file_push(prev, names[i as int], |g: Seq<char>| is_onnx_file(g));
            lemma_any_file_push(prev, names[i as int], |g: Seq<char>| is_safetensors_file(g));
            lemma_any_file_push(prev, names[i as int], |g: Seq<char>| is_nemo_file(g));
            lemma_any_file_push(prev, names[i as int], |g: Seq<char>| is_mlx_config_file(g));
            lemma_any_file_push(prev, names[i as int], |g: Seq<char>| is_mlx_weights_file(g));
        }
        has_onnx = has_onnx || onnx;
        has_safetensors = has_safetensors || safetensors;
        has_nemo = has_nemo || nemo;
        has_mlx_config = has_mlx_config || mlx_config;
        has_mlx_weights = has_mlx_weights || mlx_weights;
        i = i + 1;
    }
    assert(names.take(files.len() as int) =~= names);
    if has_onnx {
        ModelFormat::Onnx
    } else if has_nemo {
        ModelFormat::NemoCheckpoint
    } else if has_mlx_config && has_mlx_weights {
        ModelFormat::Mlx
    } else if has_safetensors {
        ModelFormat::Safetensors
    } else {
        ModelFormat::Unknown
    }
}

/// Adding a file name to a list adds exactly its own match to `any_file`.
pub proof fn lemma_any_file_push(files: Seq<Seq<char>>, f: Seq<char>, p: spec_fn(Seq<char>) -> bool)
    ensures
        any_file(files.push(f), p) == (any_file(files, p) || p(f)),
{
    if any_file(files, p) {
        let i = choose|i: int| 0 <= i < files.len() && #[trigger] p(files[i]);
        assert(files.push(f)[i] == files[i]);
    }
    if p(f) {
        assert(files.push(f)[files.len() as int] == f);
    }
    if any_file(files.push(f), p) {
        let i = choose|i: int| 0 <= i < files.push(f).len() && #[trigger] p(files.push(f)[i]);
        if i < files.len() {
            assert(files.push(f)[i] == files[i]);
        }
    }
}

// ============================================================================
// LAWS
// ============================================================================

/// A model registered under a new id is found by that id.
pub proof fn lemma_register_then_lookup(s: Seq<CustomModelView>, e: CustomModelView)
    requires
        !registry_has(s, e.model_id),
    ensures
        registry_find(s.push(e), e.model_id) == Some(e),
        unique_ids(s) ==> unique_ids(s.push(e)),
{
    assert forall|j: int| 0 <= j < s.len() implies !#[trigger] view_has_id(e.model_id)(s[j]) by {
        if s[j].model_id == e.model_id {
            assert(registry_has(s, e.model_id));
        }
    }
    lemma_first_index_absent(s, view_has_id(e.model_id));
    lemma_first_index_push(s, view_has_id(e.model_id), e);
    assert(s.push(e)[s.len() as int] == e);
}

/// Registering a model leaves what the other ids find unchanged.
pub proof fn lemma_register_keeps_others(s: Seq<CustomModelView>, e: CustomModelView, id: Seq<char>)
    requires
        !registry_has(s, e.model_id),
        id != e.model_id,
    ensures
        registry_find(s.push(e), id) == registry_find(s, id),
{
    lemma_first_index_push(s, view_has_id(id), e);
    lemma_first_index_spec(s, view_has_id(id));
    let k = registry_index(s, id);
    if k >= 0 {
        assert(s.push(e)[k] == s[k]);
    }
}

/// Once a model is unregistered, its id finds nothing.
pub proof fn lemma_unregister_then_lookup(s: Seq<CustomModelView>, id: Seq<char>)
    requires
        unique_ids(s),
        registry_index(s, id) >= 0,
    ensures
        registry_find(s.remove(registry_index(s, id)), id) is None,
{
    let i = registry_index(s, id);
    lemma_first_index_spec(s, view_has_id(id));
    let t = s.remove(i);
    assert forall|j: int| 0 <= j < t.len() implies !#[trigger] view_has_id(id)(t[j]) by {
        let j0 = if j < i { j } else { j + 1 };
        assert(t[j] == s[j0]);
        assert(s[j0].model_id != s[i].model_id);
    }
    lemma_first_index_absent(t, view_has_id(id));
}

/// After a status update, the model's id finds the model with the new
/// status and everything else unchanged.
pub proof fn lemma_update_then_lookup(s: Seq<CustomModelView>, id: Seq<char>, status: CustomModelStatusView)
    requires
        registry_index(s, id) >= 0,
    ensures
        registry_find(
            s.update(registry_index(s, id), with_status(s[registry_index(s, id)], status)),
            id,
        ) == Some(with_status(s[registry_index(s, id)], status)),
{
    lemma_first_index_spec(s, view_has_id(id));
    let i = registry_index(s, id);
    let t = s.update(i, with_status(s[i], status));
    assert forall|j: int| 0 <= j < s.len() implies (view_has_id(id)(s[j]) <==> view_has_id(id)(
        t[j],
    )) by {}
    lemma_first_index_same(s, view_has_id(id), t, view_has_id(id));
}

/// The built-in catalog's model ids are distinct, so looking up the id of
/// any catalog entry finds that entry.
pub proof fn lemma_catalog_lookup_finds_each(k: int)
    requires
        0 <= k < spec_parakeet_catalog().len(),
    ensures
        spec_lookup_model(spec_parakeet_catalog()[k].model_id@) == Some(spec_parakeet_catalog()[k]),
{
    let cat = spec_parakeet_catalog();
    reveal_strlit("parakeet-tdt-0.6b-v3-int8");
    reveal_strlit("parakeet-tdt-0.6b-v2-int8");
    reveal_strlit("nvidia/parakeet-rnnt-1.1b");
    let id = cat[k].model_id@;
    assert forall|j: int| 0 <= j < k implies !#[trigger] entry_has_id(id)(cat[j]) by {
        assert(cat[j].model_id@ != cat[k].model_id@) by {
            if cat[j].model_id@.len() == cat[k].model_id@.len() {
                assert(cat[j].model_id@[0] != cat[k].model_id@[0] || cat[j].model_id@[19]
                    != cat[k].model_id@[19]);
            }
        }
    }
    lemma_first_index_found(cat, entry_has_id(id), k);
}

/// The model ids that custom entries get mark them as custom models.
pub proof fn lemma_custom_entry_ids(repo_id: Seq<char>, dir_name: Seq<char>)
    ensures
        seq_starts_with("custom/"@ + repo_id, "custom/"@),
        seq_starts_with("local/"@ + dir_name, "local/"@),
{
    assert(("custom/"@ + repo_id).subrange(0, "custom/"@.len() as int) =~= "custom/"@);
    assert(("local/"@ + dir_name).subrange(0, "local/"@.len() as int) =~= "local/"@);
}

/// A whisper provider always resolves to the Whisper runtime; otherwise a
/// built-in catalog model resolves to its catalog runtime whatever custom
/// models are registered.
pub proof fn lemma_builtin_catalog_takes_precedence(
    registry: Seq<CustomModelView>,
    provider: Seq<char>,
    model_id: Seq<char>,
)
    ensures
        is_whisper_provider(provider) ==> spec_resolve_runtime(registry, provider, model_id) == Some(
            ModelRuntime::LocalWhisper,
        ),
        !is_whisper_provider(provider) && spec_lookup_model(model_id) is Some ==> spec_resolve_runtime(
            registry,
            provider,
            model_id,
        ) == Some(spec_lookup_model(model_id)->Some_0.runtime),
{
}

} // verus!

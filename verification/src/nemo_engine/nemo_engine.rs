//! The NeMo runtime's decisions: where a catalog model lives and whether it
//! is usable, what loading and transcribing require, the bookkeeping of
//! downloads, the sidecar's address, and the WAV file handed to it. The
//! sidecar process, HTTP calls and files are the application's.
use vstd::prelude::*;

use crate::decimal::{decimal_text, parse_u16, spec_parse_unsigned, u64_to_decimal};
use crate::parakeet_engine::{ModelInfo, ModelStatus, ModelStatusView, QuantizationType};
use crate::text::{concat, owned, replace_char, seq_replace_char, str_eq};
use crate::transcription_catalog::{
    get_transcription_model, spec_get_transcription_model, TranscriptionModelCatalogEntry,
    TranscriptionRuntime,
};

verus! {

/// Port of the NeMo sidecar unless the environment names another.
pub const DEFAULT_NEMO_PORT: u16 = 5877;

/// How long the sidecar may take to become healthy, in seconds.
pub const SIDECAR_STARTUP_TIMEOUT_SECS: u64 = 90;

/// How long a download may go without data, in seconds.
pub const DOWNLOAD_STALL_TIMEOUT_SECS: u64 = 30;

/// Least time between two download progress reports, in milliseconds.
pub const DOWNLOAD_REPORT_INTERVAL_MS: u64 = 500;

/// Environment variable that overrides the sidecar port.
pub const PORT_ENV_VAR: &'static str = "MEETILY_NEMO_PORT";

/// Environment variable that names the Python interpreter.
pub const PYTHON_ENV_VAR: &'static str = "MEETILY_NEMO_PYTHON";

/// Environment variable that names the sidecar script.
pub const SIDECAR_ENV_VAR: &'static str = "MEETILY_NEMO_SIDECAR";

/// The sidecar port: the value of `MEETILY_NEMO_PORT` when it is set and
/// parses as a `u16`, else the default.
pub fn resolve_port(env_value: Option<&str>) -> (r: u16)
    ensures
        r == match env_value {
            Some(v) => match spec_parse_unsigned(v@, u16::MAX as nat) {
                Some(p) => p as u16,
                None => DEFAULT_NEMO_PORT,
            },
            None => DEFAULT_NEMO_PORT,
        },
{
    match env_value {
        Some(v) => match parse_u16(v) {
            Some(p) => p,
            None => DEFAULT_NEMO_PORT,
        },
        None => DEFAULT_NEMO_PORT,
    }
}

/// The Python interpreter that runs the sidecar: `MEETILY_NEMO_PYTHON` when
/// set, else `python`.
pub fn python_command(env_value: Option<String>) -> (r: String)
    ensures
        r@ == match env_value {
            Some(v) => v@,
            None => "python"@,
        },
{
    match env_value {
        Some(v) => v,
        None => owned("python"),
    }
}

/// The sidecar's base URL for `port`.
pub open spec fn spec_base_url(port: u16) -> Seq<char> {
    "http://127.0.0.1:"@ + decimal_text(port as nat)
}

/// The sidecar's base URL.
pub fn base_url(port: u16) -> (r: String)
    ensures
        r@ == spec_base_url(port),
{
    let p = u64_to_decimal(port as u64);
    concat("http://127.0.0.1:", p.as_str())
}

/// The URL of the sidecar endpoint `path` (such as `/load`).
pub fn endpoint_url(port: u16, path: &str) -> (r: String)
    ensures
        r@ == spec_base_url(port) + path@,
{
    let b = base_url(port);
    concat(b.as_str(), path)
}

/// The directory name of a repo: its id with `/` replaced by `--`, so that
/// it holds no path separator.
pub fn sanitize_repo_id(repo_id: &str) -> (r: String)
    ensures
        r@ == seq_replace_char(repo_id@, '/', "--"@),
        forall|i: int| 0 <= i < r@.len() ==> #[trigger] r@[i] != '/',
{
    proof {
        reveal_strlit("--");
        crate::text::lemma_replace_char_removes(repo_id@, '/', "--"@);
    }
    replace_char(repo_id, '/', "--")
}

/// The least size in bytes of a complete download of `entry`: 95% of its
/// catalog size, which allows for small differences in the upstream file.
pub open spec fn spec_expected_size(entry: TranscriptionModelCatalogEntry) -> nat {
    (entry.size_mb as nat * 1024 * 1024 * 95) / 100
}

/// The least size in bytes of a complete download of `entry`.
pub fn expected_size_bytes(entry: &TranscriptionModelCatalogEntry) -> (r: u64)
    ensures
        r == spec_expected_size(*entry),
{
    let mb = entry.size_mb as u64;
    assert(mb * 1024 * 1024 * 95 <= u64::MAX) by (nonlinear_arith)
        requires
            mb <= u32::MAX,
    ;
    (mb * 1024 * 1024 * 95) / 100
}

/// The catalog entry of the NeMo model `model_name`.
pub open spec fn spec_nemo_entry(model_name: Seq<char>) -> Option<TranscriptionModelCatalogEntry> {
    match spec_get_transcription_model(model_name) {
        Some(e) => if e.runtime == TranscriptionRuntime::Nemo {
            Some(e)
        } else {
            None
        },
        None => None,
    }
}

/// The message for a model that is not a NeMo model of the catalog.
pub open spec fn not_in_catalog_message(model_name: Seq<char>) -> Seq<char> {
    "NeMo model '"@ + model_name + "' is not in the transcription catalog"@
}

/// Looks up the NeMo model `model_name` in the transcription catalog.
pub fn nemo_catalog_entry(model_name: &str) -> (r: Result<TranscriptionModelCatalogEntry, String>)
    ensures
        match spec_nemo_entry(model_name@) {
            Some(e) => r == Ok::<TranscriptionModelCatalogEntry, String>(e),
            None => r matches Err(m) && m@ == not_in_catalog_message(model_name@),
        },
{
    match get_transcription_model(model_name) {
        Some(e) => {
            if e.runtime == TranscriptionRuntime::Nemo {
                return Ok(e);
            }
        },
        None => {},
    }
    let a = concat("NeMo model '", model_name);
    Err(concat(a.as_str(), "' is not in the transcription catalog"))
}

/// The directory (under the NeMo models directory) of `entry`'s files.
pub fn model_dir_name(entry: &TranscriptionModelCatalogEntry) -> (r: Result<String, String>)
    ensures
        match entry.repo_id {
            Some(repo) => r matches Ok(d) && d@ == seq_replace_char(repo@, '/', "--"@),
            None => r matches Err(m) && m@ == "NeMo model "@ + entry.model_id@
                + " does not define repo_id"@,
        },
{
    match entry.repo_id {
        Some(repo) => Ok(sanitize_repo_id(repo)),
        None => {
            let a = concat("NeMo model ", entry.model_id);
            Err(concat(a.as_str(), " does not define repo_id"))
        },
    }
}

/// The file name of `entry`'s checkpoint.
pub fn model_file_name(entry: &TranscriptionModelCatalogEntry) -> (r: Result<&'static str, String>)
    ensures
        match entry.filename {
            Some(f) => r == Ok::<&'static str, String>(f),
            None => r matches Err(m) && m@ == "NeMo model "@ + entry.model_id@
                + " does not define filename"@,
        },
{
    match entry.filename {
        Some(f) => Ok(f),
        None => {
            let a = concat("NeMo model ", entry.model_id);
            Err(concat(a.as_str(), " does not define filename"))
        },
    }
}

/// The status of a checkpoint file: missing when it does not exist;
/// available when its size (as its metadata gives it) reaches
/// `expected_min_size`; corrupted when smaller; an error when its metadata
/// could not be read.
pub fn model_status_from_file(exists: bool, metadata: Result<u64, String>, expected_min_size: u64) -> (r:
    ModelStatus)
    ensures
        !exists ==> r@ == ModelStatusView::Missing,
        exists ==> match metadata {
            Ok(len) => if len >= expected_min_size {
                r@ == ModelStatusView::Available
            } else {
                r@ == (ModelStatusView::Corrupted { file_size: len, expected_min_size })
            },
            Err(e) => r@ == ModelStatusView::Error(e@),
        },
{
    if !exists {
        return ModelStatus::Missing;
    }
    match metadata {
        Ok(len) => if len >= expected_min_size {
            ModelStatus::Available
        } else {
            ModelStatus::Corrupted { file_size: len, expected_min_size }
        },
        Err(e) => ModelStatus::Error(e),
    }
}

/// The status reported for a model: downloading (at 0%) while a download
/// of it runs, else what its file shows.
pub fn discovered_status(downloading: bool, on_disk: ModelStatus) -> (r: ModelStatus)
    ensures
        downloading ==> r@ == (ModelStatusView::Downloading { progress: 0 }),
        !downloading ==> r@ == on_disk@,
{
    if downloading {
        ModelStatus::Downloading { progress: 0 }
    } else {
        on_disk
    }
}

/// The model description of the catalog entry `entry`, whose checkpoint is
/// at `path`.
pub fn nemo_model_info(entry: &TranscriptionModelCatalogEntry, path: String, status: ModelStatus) -> (r:
    ModelInfo)
    ensures
        r.name@ == entry.model_id@,
        r.path == path,
        r.size_mb == entry.size_mb,
        r.quantization == QuantizationType::FP32,
        r.runtime@ == "nemo"@,
        r.speed@ == entry.speed@,
        r.status == status,
        r.description@ == entry.description@,
{
    ModelInfo {
        name: owned(entry.model_id),
        path,
        size_mb: entry.size_mb,
        quantization: QuantizationType::FP32,
        runtime: owned("nemo"),
        speed: owned(entry.speed),
        status,
        description: owned(entry.description),
    }
}

/// Why a model with status `status` cannot be loaded (`None`: it can).
pub open spec fn spec_load_refusal(model_name: Seq<char>, status: ModelStatusView) -> Option<Seq<char>> {
    match status {
        ModelStatusView::Available => None,
        ModelStatusView::Missing => Some("NeMo model "@ + model_name + " is not downloaded"@),
        ModelStatusView::Downloading { .. } => Some(
            "NeMo model "@ + model_name + " is currently downloading"@,
        ),
        ModelStatusView::Error(e) => Some("NeMo model "@ + model_name + " has error: "@ + e),
        ModelStatusView::Corrupted { file_size, expected_min_size } => Some(
            "NeMo model "@ + model_name + " is incomplete: "@ + decimal_text(file_size as nat)
                + " bytes (expected at least "@ + decimal_text(expected_min_size as nat) + ")"@,
        ),
    }
}

/// Whether the model `model_name` with status `status` can be loaded.
pub fn load_precheck(model_name: &str, status: &ModelStatus) -> (r: Result<(), String>)
    ensures
        match spec_load_refusal(model_name@, status@) {
            None => r is Ok,
            Some(m) => r matches Err(e) && e@ == m,
        },
{
    let head = concat("NeMo model ", model_name);
    match status {
        ModelStatus::Available => Ok(()),
        ModelStatus::Missing => Err(concat(head.as_str(), " is not downloaded")),
        ModelStatus::Downloading { .. } => Err(concat(head.as_str(), " is currently downloading")),
        ModelStatus::Error(e) => {
            let a = concat(head.as_str(), " has error: ");
            Err(concat(a.as_str(), e.as_str()))
        },
        ModelStatus::Corrupted { file_size, expected_min_size } => {
            let f = u64_to_decimal(*file_size);
            let x = u64_to_decimal(*expected_min_size);
            let a = concat(head.as_str(), " is incomplete: ");
            let b = concat(a.as_str(), f.as_str());
            let c = concat(b.as_str(), " bytes (expected at least ");
            let d = concat(c.as_str(), x.as_str());
            let m = concat(d.as_str(), ")");
            assert(m@ =~= "NeMo model "@ + model_name@ + " is incomplete: "@ + decimal_text(
                *file_size as nat,
            ) + " bytes (expected at least "@ + decimal_text(*expected_min_size as nat) + ")"@);
            Err(m)
        },
    }
}

/// Whether `model_name` is the model already loaded.
pub fn is_current_model(current: &Option<String>, model_name: &str) -> (r: bool)
    ensures
        r == (current matches Some(c) && c@ == model_name@),
{
    match current {
        Some(c) => str_eq(c.as_str(), model_name),
        None => false,
    }
}

/// Whether the sidecar's answer to `/load` reports the model loaded.
pub fn load_answer_check(status: &str) -> (r: Result<(), String>)
    ensures
        status@ == "loaded"@ ==> r is Ok,
        status@ != "loaded"@ ==> (r matches Err(m) && m@ == "Unexpected NeMo load status: "@ + status@),
{
    if str_eq(status, "loaded") {
        Ok(())
    } else {
        Err(concat("Unexpected NeMo load status: ", status))
    }
}

/// Whether the sidecar's answer to `/health` reports it healthy.
pub fn is_healthy_answer(status: &str) -> (r: bool)
    ensures
        r == (status@ == "ok"@),
{
    str_eq(status, "ok")
}

/// What a transcription request does.
#[derive(Debug, PartialEq, Eq)]
pub enum TranscribePlan {
    /// No audio: the transcript is empty.
    Empty,
    /// Send the audio to the sidecar, which has this model loaded.
    Run(String),
}

/// Plans the transcription of `audio_len` samples: a model must be loaded;
/// no audio gives an empty transcript.
pub fn transcribe_plan(current_model: Option<String>, audio_len: usize) -> (r: Result<TranscribePlan, String>)
    ensures
        current_model is None ==> (r matches Err(m) && m@
            == "No NeMo model loaded. Please load a model first."@),
        current_model matches Some(c) ==> (if audio_len == 0 {
            r == Ok::<TranscribePlan, String>(TranscribePlan::Empty)
        } else {
            r == Ok::<TranscribePlan, String>(TranscribePlan::Run(c))
        }),
{
    match current_model {
        None => Err(owned("No NeMo model loaded. Please load a model first.")),
        Some(c) => if audio_len == 0 {
            Ok(TranscribePlan::Empty)
        } else {
            Ok(TranscribePlan::Run(c))
        },
    }
}

/// The reply after the model `model_name` was deleted.
pub fn deleted_message(model_name: &str) -> (r: String)
    ensures
        r@ == "Successfully deleted NeMo model '"@ + model_name@ + "'"@,
{
    let a = concat("Successfully deleted NeMo model '", model_name);
    concat(a.as_str(), "'")
}

// ============================================================================
// DOWNLOADS
// ============================================================================

/// What a download of `entry` fetches: its repo and checkpoint file.
pub fn download_source(entry: &TranscriptionModelCatalogEntry, model_name: &str) -> (r: Result<
    (&'static str, &'static str),
    String,
>)
    ensures
        entry.repo_id is None ==> (r matches Err(m) && m@ == "NeMo model "@ + model_name@
            + " does not define a Hugging Face repo"@),
        entry.repo_id is Some && entry.filename is None ==> (r matches Err(m) && m@ == "NeMo model "@
            + model_name@ + " does not define a model filename"@),
        entry.repo_id is Some && entry.filename is Some ==> r == Ok::<
            (&'static str, &'static str),
            String,
        >((entry.repo_id->Some_0, entry.filename->Some_0)),
{
    let head = concat("NeMo model ", model_name);
    let repo = match entry.repo_id {
        Some(r) => r,
        None => return Err(concat(head.as_str(), " does not define a Hugging Face repo")),
    };
    let file = match entry.filename {
        Some(f) => f,
        None => return Err(concat(head.as_str(), " does not define a model filename")),
    };
    Ok((repo, file))
}

/// The URL of a NeMo checkpoint.
pub fn nemo_download_url(repo_id: &str, filename: &str) -> (r: String)
    ensures
        r@ == "https://huggingface.co/"@ + repo_id@ + "/resolve/main/"@ + filename@,
{
    let a = concat("https://huggingface.co/", repo_id);
    let b = concat(a.as_str(), "/resolve/main/");
    concat(b.as_str(), filename)
}

/// Whether the file already on disk (of size `existing_len`, when it could
/// be read) is a complete download.
pub fn already_downloaded(existing_len: Option<u64>, expected_size: u64) -> (r: bool)
    ensures
        r == (existing_len matches Some(l) && l >= expected_size),
{
    match existing_len {
        Some(l) => l >= expected_size,
        None => false,
    }
}

/// The size reported as a download's total: the answer's content length
/// (the expected size when unknown), but never below the expected size.
pub fn download_total_size(content_length: Option<u64>, expected_size: u64) -> (r: u64)
    ensures
        r == match content_length {
            Some(l) => if l >= expected_size { l } else { expected_size },
            None => expected_size,
        },
{
    let l = match content_length {
        Some(l) => l,
        None => expected_size,
    };
    if l >= expected_size {
        l
    } else {
        expected_size
    }
}

/// Whether progress is reported after a chunk: every half second, and when
/// the download reaches its total.
pub fn should_report_progress(elapsed_since_report_ms: u64, downloaded: u64, total_size: u64) -> (r: bool)
    ensures
        r == (elapsed_since_report_ms >= DOWNLOAD_REPORT_INTERVAL_MS || downloaded >= total_size),
{
    elapsed_since_report_ms >= DOWNLOAD_REPORT_INTERVAL_MS || downloaded >= total_size
}

/// The mathematical value of the download bookkeeping.
pub struct DownloadsView {
    /// Models being downloaded, in the order their downloads began.
    pub active: Seq<Seq<char>>,
    /// The model whose download was last cancelled, until a download begins.
    pub cancelled: Option<Seq<char>>,
}

/// Bookkeeping of NeMo downloads: which are running, and which was
/// cancelled.
pub struct NemoDownloads {
    active: Vec<String>,
    cancelled: Option<String>,
}

/// The characters of each string of `v`.
pub open spec fn names_view(v: Seq<String>) -> Seq<Seq<char>> {
    v.map_values(|s: String| s@)
}

impl NemoDownloads {
    /// A model's download runs at most once at a time.
    #[verifier::type_invariant]
    closed spec fn runs_once(self) -> bool {
        names_view(self.active@).no_duplicates()
    }
}

/// Adding a name that is not yet in a list without repeats keeps it
/// without repeats.
proof fn lemma_push_keeps_no_duplicates(s: Seq<Seq<char>>, x: Seq<char>)
    requires
        s.no_duplicates(),
        !s.contains(x),
    ensures
        s.push(x).no_duplicates(),
{
    let t = s.push(x);
    assert forall|i: int, j: int| 0 <= i < t.len() && 0 <= j < t.len() && i != j implies t[i]
        != t[j] by {
        if i < s.len() && j < s.len() {
            assert(t[i] == s[i] && t[j] == s[j]);
        } else if i < s.len() {
            assert(t[i] == s[i]);
        } else if j < s.len() {
            assert(t[j] == s[j]);
        }
    }
}

impl View for NemoDownloads {
    type V = DownloadsView;

    closed spec fn view(&self) -> DownloadsView {
        DownloadsView {
            active: names_view(self.active@),
            cancelled: match self.cancelled {
                Some(c) => Some(c@),
                None => None,
            },
        }
    }
}

/// Selects the names other than `name`.
pub open spec fn other_than(name: Seq<char>) -> spec_fn(Seq<char>) -> bool {
    |x: Seq<char>| x != name
}

/// `active` without `name`.
pub open spec fn without(active: Seq<Seq<char>>, name: Seq<char>) -> Seq<Seq<char>> {
    active.filter(other_than(name))
}

/// The bookkeeping after `name`'s download began (when none of it ran).
pub open spec fn spec_begin(v: DownloadsView, name: Seq<char>) -> DownloadsView {
    DownloadsView { active: v.active.push(name), cancelled: None }
}

/// The bookkeeping after `name`'s download was cancelled.
pub open spec fn spec_cancel(v: DownloadsView, name: Seq<char>) -> DownloadsView {
    DownloadsView { active: without(v.active, name), cancelled: Some(name) }
}

/// The bookkeeping after `name`'s download ended.
pub open spec fn spec_finish(v: DownloadsView, name: Seq<char>) -> DownloadsView {
    DownloadsView { active: without(v.active, name), cancelled: v.cancelled }
}

/// The message when a download of `name` is already running.
pub open spec fn already_downloading_message(name: Seq<char>) -> Seq<char> {
    "Download already in progress for "@ + name
}

impl NemoDownloads {
    /// No download running, none cancelled.
    pub fn new() -> (r: Self)
        ensures
            r@.active == Seq::<Seq<char>>::empty(),
            r@.cancelled is None,
    {
        let r = NemoDownloads { active: Vec::new(), cancelled: None };
        assert(names_view(r.active@) =~= Seq::<Seq<char>>::empty());
        r
    }

    /// Whether a download of `name` is running.
    pub fn is_active(&self, name: &str) -> (r: bool)
        ensures
            r == self@.active.contains(name@),
    {
        let mut i: usize = 0;
        while i < self.active.len()
            invariant
                i <= self.active.len(),
                forall|j: int| 0 <= j < i ==> names_view(self.active@)[j] != name@,
            decreases self.active.len() - i,
        {
            if str_eq(self.active[i].as_str(), name) {
                assert(names_view(self.active@)[i as int] == name@);
                return true;
            }
            i = i + 1;
        }
        false
    }

    /// Whether the download of `name` was cancelled.
    pub fn is_cancelled(&self, name: &str) -> (r: bool)
        ensures
            r == (self@.cancelled == Some(name@)),
    {
        match &self.cancelled {
            Some(c) => str_eq(c.as_str(), name),
            None => false,
        }
    }

    fn remove_name(&mut self, name: &str)
        ensures
            names_view(final(self).active@) == without(names_view(old(self).active@), name@),
            final(self).cancelled == old(self).cancelled,
    {
        proof {
            use_type_invariant(&*self);
        }
        let ghost before = names_view(self.active@);
        let mut kept: Vec<String> = Vec::new();
        let mut old_active: Vec<String> = Vec::new();
        std::mem::swap(&mut old_active, &mut self.active);
        let mut i: usize = 0;
        while i < old_active.len()
            invariant
                i <= old_active.len(),
                before == names_view(old_active@),
                before.no_duplicates(),
                names_view(kept@) == before.take(i as int).filter(other_than(name@)),
                names_view(kept@).no_duplicates(),
            decreases old_active.len() - i,
        {
            proof {
                before.take(i as int).lemma_filter_push(before[i as int], other_than(name@));
                assert(before.take(i as int).push(before[i as int]) =~= before.take(i + 1));
            }
            if !str_eq(old_active[i].as_str(), name) {
                let s = old_active[i].clone();
                proof {
                    assert(names_view(kept@.push(s)) =~= names_view(kept@).push(s@));
                    assert(!names_view(kept@).contains(s@)) by {
                        if names_view(kept@).contains(s@) {
                            before.take(i as int).lemma_filter_contains_rev(
                                other_than(name@),
                                s@,
                            );
                            let k = choose|k: int|
                                0 <= k < i && #[trigger] before.take(i as int)[k] == s@;
                            assert(before[k] == before[i as int]);
                        }
                    }
                    lemma_push_keeps_no_duplicates(names_view(kept@), s@);
                }
                kept.push(s);
            }
            i = i + 1;
        }
        assert(before.take(old_active.len() as int) =~= before);
        self.active = kept;
    }

    /// Begins the download of `name`; fails, changing nothing, when one is
    /// already running. A begun download clears the cancellation.
    pub fn begin(&mut self, name: &str) -> (r: Result<(), String>)
        ensures
            old(self)@.active.contains(name@) ==> (r matches Err(m) && m@
                == already_downloading_message(name@) && final(self)@ == old(self)@),
            !old(self)@.active.contains(name@) ==> r is Ok && final(self)@ == spec_begin(
                old(self)@,
                name@,
            ),
            final(self)@.active.no_duplicates(),
    {
        proof {
            use_type_invariant(&*self);
        }
        if self.is_active(name) {
            return Err(concat("Download already in progress for ", name));
        }
        let n = owned(name);
        proof {
            use_type_invariant(&*self);
            assert(names_view(self.active@.push(n)) =~= names_view(self.active@).push(name@));
            lemma_push_keeps_no_duplicates(names_view(self.active@), name@);
        }
        let mut active: Vec<String> = Vec::new();
        std::mem::swap(&mut active, &mut self.active);
        active.push(n);
        self.active = active;
        self.cancelled = None;
        proof {
            use_type_invariant(&*self);
        }
        Ok(())
    }

    /// Cancels the download of `name`: it is no longer running, and is
    /// reported cancelled.
    pub fn cancel(&mut self, name: &str)
        ensures
            final(self)@ == spec_cancel(old(self)@, name@),
            final(self)@.active.no_duplicates(),
    {
        self.remove_name(name);
        proof {
            use_type_invariant(&*self);
        }
        self.cancelled = Some(owned(name));
        proof {
            use_type_invariant(&*self);
        }
    }

    /// Ends the download of `name`.
    pub fn finish(&mut self, name: &str)
        ensures
            final(self)@ == spec_finish(old(self)@, name@),
            final(self)@.active.no_duplicates(),
    {
        self.remove_name(name);
        proof {
            use_type_invariant(&*self);
        }
    }
}

/// A cancelled download is no longer running and is seen as cancelled by
/// the download loop; a later download of the same model can begin, and it
/// is then no longer seen as cancelled.
pub proof fn lemma_cancel_then_restart(v: DownloadsView, name: Seq<char>)
    ensures
        !spec_cancel(v, name).active.contains(name),
        spec_cancel(v, name).cancelled == Some(name),
        spec_begin(spec_cancel(v, name), name).active.contains(name),
        spec_begin(spec_cancel(v, name), name).cancelled is None,
{
    broadcast use vstd::seq_lib::group_filter_ensures;

    let a = without(v.active, name);
    assert(!a.contains(name)) by {
        if a.contains(name) {
            let k = choose|k: int| 0 <= k < a.len() && a[k] == name;
            assert(a[k] != name);
        }
    }
    assert(spec_begin(spec_cancel(v, name), name).active.last() == name);
}

/// A finished download is no longer running, and other running downloads
/// are untouched.
pub proof fn lemma_finish_removes_only(v: DownloadsView, name: Seq<char>, other: Seq<char>)
    requires
        other != name,
    ensures
        !spec_finish(v, name).active.contains(name),
        spec_finish(v, name).active.contains(other) == v.active.contains(other),
{
    broadcast use vstd::seq_lib::group_filter_ensures;

    let p = other_than(name);
    let a = without(v.active, name);
    if a.contains(name) {
        let k = choose|k: int| 0 <= k < a.len() && a[k] == name;
        assert(p(a[k]));
    }
    if v.active.contains(other) {
        let k = choose|k: int| 0 <= k < v.active.len() && v.active[k] == other;
        assert(p(v.active[k]));
        assert(a.contains(v.active[k]));
    }
    if a.contains(other) {
        v.active.lemma_filter_contains_rev(p, other);
    }
}

// ============================================================================
// WAV FILE
// ============================================================================

/// The little-endian bytes of a 32-bit value.
pub open spec fn le32(x: u32) -> Seq<u8> {
    seq![(x % 256) as u8, ((x / 256) % 256) as u8, ((x / 65536) % 256) as u8, (x / 16777216) as u8]
}

/// The little-endian bytes of a 16-bit value.
pub open spec fn le16(x: u16) -> Seq<u8> {
    seq![(x % 256) as u8, (x / 256) as u8]
}

/// The header of a 16 kHz, mono, 16-bit PCM WAV file holding `samples`
/// samples: the RIFF chunk, the `fmt ` chunk and the `data` chunk header.
pub open spec fn spec_wav_header(samples: nat) -> Seq<u8> {
    let data_len = (samples * 2) as u32;
    seq![82u8, 73, 70, 70] + le32((36 + data_len) as u32) + seq![87u8, 65, 86, 69]
        + seq![102u8, 109, 116, 32] + le32(16) + le16(1) + le16(1) + le32(16000) + le32(32000)
        + le16(2) + le16(16) + seq![100u8, 97, 116, 97] + le32(data_len)
}

fn push_le32(out: &mut Vec<u8>, x: u32)
    ensures
        final(out)@ == old(out)@ + le32(x),
{
    out.push((x % 256) as u8);
    out.push(((x / 256) % 256) as u8);
    out.push(((x / 65536) % 256) as u8);
    out.push((x / 16777216) as u8);
    assert(final(out)@ =~= old(out)@ + le32(x));
}

fn push_le16(out: &mut Vec<u8>, x: u16)
    ensures
        final(out)@ == old(out)@ + le16(x),
{
    out.push((x % 256) as u8);
    out.push((x / 256) as u8);
    assert(final(out)@ =~= old(out)@ + le16(x));
}

fn push4(out: &mut Vec<u8>, a: u8, b: u8, c: u8, d: u8)
    ensures
        final(out)@ == old(out)@ + seq![a, b, c, d],
{
    out.push(a);
    out.push(b);
    out.push(c);
    out.push(d);
    assert(final(out)@ =~= old(out)@ + seq![a, b, c, d]);
}

/// The header of the WAV file handed to the sidecar for `samples` samples.
pub fn wav_header_16khz_mono(samples: usize) -> (r: Vec<u8>)
    requires
        samples * 2 + 36 <= u32::MAX,
    ensures
        r@ == spec_wav_header(samples as nat),
        r@.len() == 44,
{
    let data_len: u32 = (samples as u32) * 2;
    let mut out: Vec<u8> = Vec::new();
    push4(&mut out, 82, 73, 70, 70);
    push_le32(&mut out, 36 + data_len);
    push4(&mut out, 87, 65, 86, 69);
    push4(&mut out, 102, 109, 116, 32);
    push_le32(&mut out, 16);
    push_le16(&mut out, 1);
    push_le16(&mut out, 1);
    push_le32(&mut out, 16000);
    push_le32(&mut out, 32000);
    push_le16(&mut out, 2);
    push_le16(&mut out, 16);
    push4(&mut out, 100, 97, 116, 97);
    push_le32(&mut out, data_len);
    assert(out@ =~= spec_wav_header(samples as nat));
    out
}

} // verus!

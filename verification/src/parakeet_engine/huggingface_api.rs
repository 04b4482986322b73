//! HuggingFace Hub model inspection and download bookkeeping.
//!
//! The HTTP requests themselves are made by the application; this module
//! builds their URLs and headers and computes everything that follows from
//! what the Hub answered: a model's format, size, relevant files and whether
//! it is a speech-recognition model, the size of a resumed download, and the
//! validation of a local model directory.
use vstd::prelude::*;

use crate::decimal::{parse_u64, spec_parse_unsigned, u64_to_decimal, decimal_text};
use crate::model_catalog::{detect_model_format, spec_detect_model_format, strings_view, ModelFormat};
use crate::text::{concat, contains, ends_with, seq_contains, seq_ends_with, str_eq, chars_of, string_from_chars};

verus! {

/// A file entry from the HuggingFace Hub API.
#[derive(Debug, Clone)]
pub struct HuggingFaceFileEntry {
    /// Relative path of the file within the repo (e.g. "encoder-model.onnx").
    pub filename: String,
    /// File size in bytes.
    pub size: u64,
    /// Blob id (SHA256 hash).
    pub blob_id: Option<String>,
    /// LFS info if the file is stored in Git LFS.
    pub lfs: Option<LfsInfo>,
}

/// LFS (Large File Storage) metadata of a file.
#[derive(Debug, Clone)]
pub struct LfsInfo {
    /// SHA256 hash of the file content.
    pub sha256: Option<String>,
    /// File size in bytes.
    pub size: u64,
}

/// Model info from the HuggingFace Hub API.
#[derive(Debug, Clone)]
pub struct HuggingFaceModelInfo {
    /// Model id (e.g. "nvidia/parakeet-tdt-0.6b").
    pub model_id: String,
    pub author: Option<String>,
    pub tags: Vec<String>,
    /// Pipeline tag (e.g. "automatic-speech-recognition").
    pub pipeline_tag: Option<String>,
    pub downloads: u64,
    pub likes: u64,
}

/// Result of inspecting a HuggingFace model.
#[derive(Debug, Clone)]
pub struct ModelInspectionResult {
    pub model_id: String,
    /// The files of the repo.
    pub files: Vec<HuggingFaceFileEntry>,
    /// Detected model format.
    pub format: ModelFormat,
    /// Total size of all files in MB.
    pub total_size_mb: u32,
    /// Files relevant to the model (ONNX, safetensors, etc.).
    pub model_files: Vec<String>,
    /// Whether the model is an ASR/STT model.
    pub is_stt_model: bool,
}

/// Base URL of the Hub's model API.
pub const HF_API_BASE: &'static str = "https://huggingface.co/api/models";

/// Base URL of the Hub's file downloads.
pub const HF_CDN_BASE: &'static str = "https://huggingface.co";

/// User agent sent with every Hub request.
pub const HF_USER_AGENT: &'static str = "Meetily/0.3.1";

/// URL of the model info of `repo_id`.
pub fn model_info_url(repo_id: &str) -> (r: String)
    ensures
        r@ == HF_API_BASE@ + "/"@ + repo_id@,
{
    let base = concat(HF_API_BASE, "/");
    concat(base.as_str(), repo_id)
}

/// URL of the file tree of `repo_id`'s main branch.
pub fn file_tree_url(repo_id: &str) -> (r: String)
    ensures
        r@ == HF_API_BASE@ + "/"@ + repo_id@ + "/tree/main"@,
{
    let u = model_info_url(repo_id);
    concat(u.as_str(), "/tree/main")
}

/// URL from which `filename` of `repo_id` is downloaded.
pub fn file_download_url(repo_id: &str, filename: &str) -> (r: String)
    ensures
        r@ == HF_CDN_BASE@ + "/"@ + repo_id@ + "/resolve/main/"@ + filename@,
{
    let a = concat(HF_CDN_BASE, "/");
    let b = concat(a.as_str(), repo_id);
    let c = concat(b.as_str(), "/resolve/main/");
    concat(c.as_str(), filename)
}

/// The size of a file: its LFS size when it has one, else its plain size.
pub open spec fn entry_size(e: HuggingFaceFileEntry) -> nat {
    match e.lfs {
        Some(l) => l.size as nat,
        None => e.size as nat,
    }
}

/// The total size of `files`.
pub open spec fn total_size(files: Seq<HuggingFaceFileEntry>) -> nat
    decreases files.len(),
{
    if files.len() == 0 {
        0
    } else {
        total_size(files.drop_last()) + entry_size(files.last())
    }
}

/// Sizes of prefixes grow with the prefix.
pub proof fn lemma_total_size_prefix(files: Seq<HuggingFaceFileEntry>, k: int)
    requires
        0 <= k <= files.len(),
    ensures
        total_size(files.take(k)) <= total_size(files),
    decreases files.len(),
{
    if k < files.len() {
        assert(files.drop_last().take(k) =~= files.take(k));
        lemma_total_size_prefix(files.drop_last(), k);
    } else {
        assert(files.take(k) =~= files);
    }
}

/// The total size in bytes of `files` (LFS size where present).
pub fn total_size_bytes(files: &Vec<HuggingFaceFileEntry>) -> (r: u64)
    requires
        total_size(files@) <= u64::MAX,
    ensures
        r == total_size(files@),
{
    let mut sum: u64 = 0;
    let mut i: usize = 0;
    while i < files.len()
        invariant
            i <= files.len(),
            total_size(files@) <= u64::MAX,
            sum == total_size(files@.take(i as int)),
        decreases files.len() - i,
    {
        let size = match &files[i].lfs {
            Some(lfs) => lfs.size,
            None => files[i].size,
        };
        proof {
            assert(files@.take(i + 1).drop_last() =~= files@.take(i as int));
            lemma_total_size_prefix(files@, i + 1);
        }
        sum = sum + size;
        i = i + 1;
    }
    assert(files@.take(i as int) =~= files@);
    sum
}

/// A file that belongs to the model itself: weights, vocabulary, tokenizer
/// or configuration.
pub open spec fn is_model_relevant_file(f: Seq<char>) -> bool {
    ||| seq_ends_with(f, ".onnx"@)
    ||| seq_ends_with(f, ".safetensors"@)
    ||| seq_ends_with(f, ".nemo"@)
    ||| seq_ends_with(f, ".bin"@)
    ||| f == "vocab.txt"@
    ||| f == "tokenizer.json"@
    ||| f == "config.json"@
    ||| seq_ends_with(f, ".onnx.data"@)
}

/// Whether `f` is a file of the model itself.
pub fn model_relevant(f: &str) -> (r: bool)
    ensures
        r == is_model_relevant_file(f@),
{
    ends_with(f, ".onnx") || ends_with(f, ".safetensors") || ends_with(f, ".nemo") || ends_with(
        f,
        ".bin",
    ) || str_eq(f, "vocab.txt") || str_eq(f, "tokenizer.json") || str_eq(f, "config.json")
        || ends_with(f, ".onnx.data")
}

/// The model's own files among `names`, in order.
pub fn model_relevant_files(names: &Vec<String>) -> (r: Vec<String>)
    ensures
        strings_view(r@) == strings_view(names@).filter(|f: Seq<char>| is_model_relevant_file(f)),
{
    let ghost nv = strings_view(names@);
    let mut r: Vec<String> = Vec::new();
    let mut i: usize = 0;
    while i < names.len()
        invariant
            i <= names.len(),
            nv == strings_view(names@),
            strings_view(r@) == nv.take(i as int).filter(|f: Seq<char>| is_model_relevant_file(f)),
        decreases names.len() - i,
    {
        proof {
            nv.take(i as int).lemma_filter_push(nv[i as int], |f: Seq<char>| is_model_relevant_file(f));
            assert(nv.take(i as int).push(nv[i as int]) =~= nv.take(i + 1));
        }
        if model_relevant(names[i].as_str()) {
            let f = names[i].clone();
            proof {
                assert(strings_view(r@.push(f)) =~= strings_view(r@).push(f@));
            }
            r.push(f);
        }
        i = i + 1;
    }
    assert(nv.take(names.len() as int) =~= nv);
    r
}

/// Pipeline tags of speech-recognition models.
pub open spec fn is_stt_pipeline_tag(t: Seq<char>) -> bool {
    t == "automatic-speech-recognition"@ || t == "speech-recognition"@ || t == "audio-to-text"@
}

/// Fragments of tags that mark a speech-recognition model.
pub open spec fn stt_tag_fragments() -> Seq<Seq<char>> {
    seq!["speech"@, "asr"@, "stt"@, "transcription"@, "parakeet"@, "whisper"@, "nemo"@]
}

/// The tag marks a speech-recognition model.
pub open spec fn is_stt_tag(t: Seq<char>) -> bool {
    exists|k: int| 0 <= k < stt_tag_fragments().len() && seq_contains(t, #[trigger] stt_tag_fragments()[k])
}

/// The model is a speech-recognition model: by its pipeline tag, or by one
/// of its tags.
pub open spec fn spec_is_stt_model(pipeline_tag: Option<String>, tags: Seq<String>) -> bool {
    ||| (pipeline_tag matches Some(t) && is_stt_pipeline_tag(t@))
    ||| exists|i: int| 0 <= i < tags.len() && is_stt_tag(#[trigger] tags[i]@)
}

fn stt_tag(t: &str) -> (r: bool)
    ensures
        r == is_stt_tag(t@),
{
    let fragments: [&str; 7] = ["speech", "asr", "stt", "transcription", "parakeet", "whisper", "nemo"];
    assert(fragments@.map_values(|f: &str| f@) =~= stt_tag_fragments());
    let mut k: usize = 0;
    while k < 7
        invariant
            k <= 7,
            fragments@.map_values(|f: &str| f@) == stt_tag_fragments(),
            forall|j: int| 0 <= j < k ==> !seq_contains(t@, #[trigger] stt_tag_fragments()[j]),
        decreases 7 - k,
    {
        assert(fragments@.map_values(|f: &str| f@)[k as int] == fragments[k as int]@);
        if contains(t, fragments[k]) {
            assert(seq_contains(t@, stt_tag_fragments()[k as int]));
            return true;
        }
        k = k + 1;
    }
    false
}

/// A tag marks a speech-recognition model exactly when it contains
/// `speech`, `asr`, `stt`, `transcription`, `parakeet`, `whisper` or `nemo`.
pub proof fn lemma_stt_tags(t: Seq<char>)
    ensures
        is_stt_tag(t) <==> (seq_contains(t, "speech"@) || seq_contains(t, "asr"@) || seq_contains(
            t,
            "stt"@,
        ) || seq_contains(t, "transcription"@) || seq_contains(t, "parakeet"@) || seq_contains(
            t,
            "whisper"@,
        ) || seq_contains(t, "nemo"@)),
{
    let fr = stt_tag_fragments();
    assert(fr[0] == "speech"@);
    assert(fr[1] == "asr"@);
    assert(fr[2] == "stt"@);
    assert(fr[3] == "transcription"@);
    assert(fr[4] == "parakeet"@);
    assert(fr[5] == "whisper"@);
    assert(fr[6] == "nemo"@);
    assert(fr.len() == 7);
    if is_stt_tag(t) {
        let k = choose|k: int| 0 <= k < fr.len() && seq_contains(t, #[trigger] fr[k]);
        assert(0 <= k < 7);
    }
}

/// A model is a speech-recognition model exactly when its pipeline tag is
/// `automatic-speech-recognition`, `speech-recognition` or `audio-to-text`,
/// or one of its tags contains `speech`, `asr`, `stt`, `transcription`,
/// `parakeet`, `whisper` or `nemo`.
pub proof fn lemma_stt_model(pipeline_tag: Option<String>, tags: Seq<String>)
    ensures
        spec_is_stt_model(pipeline_tag, tags) <==> ((pipeline_tag matches Some(p) && (p@
            == "automatic-speech-recognition"@ || p@ == "speech-recognition"@ || p@
            == "audio-to-text"@)) || exists|i: int|
            0 <= i < tags.len() && (seq_contains(#[trigger] tags[i]@, "speech"@) || seq_contains(
                tags[i]@,
                "asr"@,
            ) || seq_contains(tags[i]@, "stt"@) || seq_contains(tags[i]@, "transcription"@)
                || seq_contains(tags[i]@, "parakeet"@) || seq_contains(tags[i]@, "whisper"@)
                || seq_contains(tags[i]@, "nemo"@))),
{
    assert forall|i: int| 0 <= i < tags.len() implies is_stt_tag(#[trigger] tags[i]@) == (
    seq_contains(tags[i]@, "speech"@) || seq_contains(tags[i]@, "asr"@) || seq_contains(
        tags[i]@,
        "stt"@,
    ) || seq_contains(tags[i]@, "transcription"@) || seq_contains(tags[i]@, "parakeet"@)
        || seq_contains(tags[i]@, "whisper"@) || seq_contains(tags[i]@, "nemo"@)) by {
        lemma_stt_tags(tags[i]@);
    }
}

/// Whether the model with this pipeline tag and these tags is a
/// speech-recognition model.
pub fn is_stt_model(pipeline_tag: &Option<String>, tags: &Vec<String>) -> (r: bool)
    ensures
        r == spec_is_stt_model(*pipeline_tag, tags@),
{
    if let Some(t) = pipeline_tag {
        if str_eq(t.as_str(), "automatic-speech-recognition") || str_eq(t.as_str(), "speech-recognition")
            || str_eq(t.as_str(), "audio-to-text") {
            return true;
        }
    }
    let mut i: usize = 0;
    while i < tags.len()
        invariant
            i <= tags.len(),
            !(pipeline_tag matches Some(t) && is_stt_pipeline_tag(t@)),
            forall|j: int| 0 <= j < i ==> !is_stt_tag(#[trigger] tags@[j]@),
        decreases tags.len() - i,
    {
        if stt_tag(tags[i].as_str()) {
            assert(is_stt_tag(tags@[i as int]@));
            return true;
        }
        i = i + 1;
    }
    false
}

/// The file names of `files`.
pub open spec fn entry_names(files: Seq<HuggingFaceFileEntry>) -> Seq<Seq<char>> {
    files.map_values(|e: HuggingFaceFileEntry| e.filename@)
}

/// The result of inspecting the model `repo_id`, given its Hub info and its
/// files: the format detected from the file names, the total size in whole
/// megabytes (as a `u32`, truncating), the model's own files, and whether it
/// is a speech-recognition model.
pub fn inspection_result(
    repo_id: &str,
    info: &HuggingFaceModelInfo,
    files: Vec<HuggingFaceFileEntry>,
) -> (r: ModelInspectionResult)
    requires
        total_size(files@) <= u64::MAX,
    ensures
        r.model_id@ == repo_id@,
        r.files == files,
        r.format == spec_detect_model_format(entry_names(files@)),
        r.total_size_mb == (total_size(files@) / 1048576) as u32,
        strings_view(r.model_files@) == entry_names(files@).filter(
            |f: Seq<char>| is_model_relevant_file(f),
        ),
        r.is_stt_model == spec_is_stt_model(info.pipeline_tag, info.tags@),
{
    let mut names: Vec<String> = Vec::new();
    let mut i: usize = 0;
    while i < files.len()
        invariant
            i <= files.len(),
            strings_view(names@) == entry_names(files@).take(i as int),
        decreases files.len() - i,
    {
        let n = files[i].filename.clone();
        proof {
            assert(strings_view(names@.push(n)) =~= strings_view(names@).push(n@));
            assert(entry_names(files@).take(i + 1) =~= entry_names(files@).take(i as int).push(
                files@[i as int].filename@,
            ));
        }
        names.push(n);
        i = i + 1;
    }
    assert(entry_names(files@).take(files.len() as int) =~= entry_names(files@));
    let format = detect_model_format(names.as_slice());
    let total = total_size_bytes(&files);
    let total_size_mb = (total / 1048576) as u32;
    let model_files = model_relevant_files(&names);
    let is_stt = is_stt_model(&info.pipeline_tag, &info.tags);
    ModelInspectionResult {
        model_id: crate::text::owned(repo_id),
        files,
        format,
        total_size_mb,
        model_files,
        is_stt_model: is_stt,
    }
}

/// The `Range` header value that resumes a download after `existing` bytes.
pub fn resume_range_header(existing: u64) -> (r: String)
    ensures
        r@ == "bytes="@ + decimal_text(existing as nat) + "-"@,
{
    let n = u64_to_decimal(existing);
    let a = concat("bytes=", n.as_str());
    concat(a.as_str(), "-")
}

/// The part of `s` after its last `/` (all of `s` when it has none).
pub open spec fn after_last_slash(s: Seq<char>) -> Seq<char>
    decreases s.len(),
{
    if s.len() == 0 {
        s
    } else if s.last() == '/' {
        Seq::empty()
    } else {
        after_last_slash(s.drop_last()).push(s.last())
    }
}

/// The part of `s` after its last `/`.
pub fn last_slash_segment(s: &str) -> (r: String)
    ensures
        r@ == after_last_slash(s@),
{
    let cs = chars_of(s);
    let mut start: usize = 0;
    let mut i: usize = 0;
    while i < cs.len()
        invariant
            i <= cs.len(),
            start <= i,
            cs@ == s@,
            cs@.subrange(start as int, i as int) == after_last_slash(cs@.take(i as int)),
        decreases cs.len() - i,
    {
        assert(cs@.take(i + 1).drop_last() =~= cs@.take(i as int));
        if cs[i] == '/' {
            start = i + 1;
            assert(cs@.subrange(start as int, i + 1) =~= Seq::<char>::empty());
        } else {
            assert(cs@.subrange(start as int, i + 1) =~= cs@.subrange(start as int, i as int).push(cs[i as int]));
        }
        i = i + 1;
    }
    assert(cs@.take(i as int) =~= cs@);
    let mut out: Vec<char> = Vec::new();
    let mut j: usize = start;
    while j < cs.len()
        invariant
            start <= j <= cs.len(),
            out@ == cs@.subrange(start as int, j as int),
        decreases cs.len() - j,
    {
        out.push(cs[j]);
        j = j + 1;
        assert(out@ =~= cs@.subrange(start as int, j as int));
    }
    string_from_chars(&out)
}

/// The total size of a file whose download was resumed, from the
/// `Content-Range` header (`bytes start-end/total`): the number after its
/// last `/`, when that parses.
pub fn content_range_total(header: &str) -> (r: Option<u64>)
    ensures
        match r {
            Some(v) => spec_parse_unsigned(after_last_slash(header@), u64::MAX as nat) == Some(
                v as nat,
            ),
            None => spec_parse_unsigned(after_last_slash(header@), u64::MAX as nat) is None,
        },
{
    let seg = last_slash_segment(header);
    parse_u64(seg.as_str())
}

/// The value of an optional number, or `default`.
pub open spec fn u64_or(o: Option<u64>, default: u64) -> u64 {
    match o {
        Some(v) => v,
        None => default,
    }
}

/// The expected total size of a download: for a resumed (partial-content)
/// answer, the total of its `Content-Range` header, or else the bytes
/// already on disk plus the answer's content length; for a full answer, its
/// content length (0 when unknown).
pub open spec fn spec_download_total(
    partial: bool,
    content_range: Option<Seq<char>>,
    downloaded: u64,
    content_length: Option<u64>,
) -> nat {
    if partial {
        let parsed = match content_range {
            Some(h) => spec_parse_unsigned(after_last_slash(h), u64::MAX as nat),
            None => None,
        };
        match parsed {
            Some(t) => t,
            None => (downloaded + u64_or(content_length, 0)) as nat,
        }
    } else {
        u64_or(content_length, 0) as nat
    }
}

/// The expected total size of a download (see `spec_download_total`).
pub fn download_total_bytes(
    partial: bool,
    content_range: Option<&str>,
    downloaded: u64,
    content_length: Option<u64>,
) -> (r: u64)
    requires
        partial ==> downloaded + u64_or(content_length, 0) <= u64::MAX,
    ensures
        r == spec_download_total(
            partial,
            match content_range {
                Some(h) => Some(h@),
                None => None,
            },
            downloaded,
            content_length,
        ),
{
    let length = match content_length {
        Some(l) => l,
        None => 0,
    };
    if partial {
        let fallback = downloaded + length;
        match content_range {
            Some(h) => match content_range_total(h) {
                Some(t) => t,
                None => fallback,
            },
            None => fallback,
        }
    } else {
        length
    }
}

/// The sum of the chunk sizes `chunks`.
pub open spec fn sum_chunks(chunks: Seq<u64>) -> nat
    decreases chunks.len(),
{
    if chunks.len() == 0 {
        0
    } else {
        sum_chunks(chunks.drop_last()) + chunks.last() as nat
    }
}

/// The byte counts a download reports after each of its chunks, resumed
/// after `start` bytes: the bytes already on disk plus those received.
pub open spec fn progress_reports(start: u64, chunks: Seq<u64>) -> Seq<nat> {
    Seq::new(chunks.len(), |i: int| (start + sum_chunks(chunks.take(i + 1))) as nat)
}

/// Sums of prefixes grow with the prefix.
pub proof fn lemma_sum_chunks_prefix(chunks: Seq<u64>, i: int, j: int)
    requires
        0 <= i <= j <= chunks.len(),
    ensures
        sum_chunks(chunks.take(i)) <= sum_chunks(chunks.take(j)),
    decreases j - i,
{
    if i < j {
        lemma_sum_chunks_prefix(chunks, i, j - 1);
        assert(chunks.take(j).drop_last() =~= chunks.take(j - 1));
    }
}

/// A download's reported byte counts never decrease, and the last one is
/// the resumed offset plus every byte received.
pub proof fn lemma_progress_reports(start: u64, chunks: Seq<u64>)
    ensures
        forall|i: int, j: int|
            0 <= i <= j < chunks.len() ==> #[trigger] progress_reports(start, chunks)[i]
                <= #[trigger] progress_reports(start, chunks)[j],
        chunks.len() > 0 ==> progress_reports(start, chunks)[chunks.len() - 1] == start
            + sum_chunks(chunks),
{
    assert forall|i: int, j: int| 0 <= i <= j < chunks.len() implies #[trigger] progress_reports(
        start,
        chunks,
    )[i] <= #[trigger] progress_reports(start, chunks)[j] by {
        lemma_sum_chunks_prefix(chunks, i + 1, j + 1);
    }
    if chunks.len() > 0 {
        assert(chunks.take(chunks.len() as int) =~= chunks);
    }
}

/// The byte count of a download in progress: the bytes it resumed after and
/// the chunks received since.
pub struct DownloadCounter {
    start: u64,
    received: u64,
    chunks: Ghost<Seq<u64>>,
}

impl DownloadCounter {
    /// The bytes the download resumed after.
    pub closed spec fn start_spec(&self) -> u64 {
        self.start
    }

    /// The sizes of the chunks received so far, in order.
    pub closed spec fn chunks_spec(&self) -> Seq<u64> {
        self.chunks@
    }

    #[verifier::type_invariant]
    closed spec fn counts_chunks(self) -> bool {
        &&& self.received == sum_chunks(self.chunks@)
        &&& self.start + self.received <= u64::MAX
    }

    /// A download resumed after `start` bytes (0 for a fresh one).
    pub fn new(start: u64) -> (r: Self)
        ensures
            r.start_spec() == start,
            r.chunks_spec() == Seq::<u64>::empty(),
    {
        DownloadCounter { start, received: 0, chunks: Ghost(Seq::empty()) }
    }

    /// The bytes downloaded so far: the resumed offset plus every byte
    /// received.
    pub fn downloaded(&self) -> (r: u64)
        ensures
            r == self.start_spec() + sum_chunks(self.chunks_spec()),
    {
        proof {
            use_type_invariant(self);
        }
        self.start + self.received
    }

    /// Counts a received chunk of `len` bytes and returns the bytes
    /// downloaded so far; the count only grows.
    pub fn add_chunk(&mut self, len: u64) -> (r: u64)
        requires
            old(self).start_spec() + sum_chunks(old(self).chunks_spec()) + len <= u64::MAX,
        ensures
            final(self).start_spec() == old(self).start_spec(),
            final(self).chunks_spec() == old(self).chunks_spec().push(len),
            r == final(self).start_spec() + sum_chunks(final(self).chunks_spec()),
            r >= old(self).start_spec() + sum_chunks(old(self).chunks_spec()),
    {
        proof {
            use_type_invariant(&*self);
        }
        let ghost new_chunks = self.chunks@.push(len);
        assert(new_chunks.drop_last() =~= self.chunks@);
        let received = self.received + len;
        *self = DownloadCounter { start: self.start, received, chunks: Ghost(new_chunks) };
        self.start + received
    }
}

/// The error for a download answered with a status that cannot be used.
pub fn download_failure_message(filename: &str, status: &str) -> (r: String)
    ensures
        r@ == "Failed to download "@ + filename@ + ": HTTP "@ + status@,
{
    let a = concat("Failed to download ", filename);
    let b = concat(a.as_str(), ": HTTP ");
    concat(b.as_str(), status)
}

/// HTTP status 206, an answer to a range request.
pub const HTTP_PARTIAL_CONTENT: u16 = 206;

/// Whether a download answer with status `code` can be used: a success
/// (2xx) or a partial content answer.
pub fn download_status_ok(code: u16) -> (r: bool)
    ensures
        r == ((200 <= code && code <= 299) || code == HTTP_PARTIAL_CONTENT),
{
    (200 <= code && code <= 299) || code == HTTP_PARTIAL_CONTENT
}

/// Least time between two progress reports, in milliseconds.
pub const PROGRESS_INTERVAL_MS: u128 = 200;

/// Whether progress is reported, `elapsed_nanos` after the last report.
pub fn should_report_download_progress(elapsed_nanos: u128) -> (r: bool)
    ensures
        r == (elapsed_nanos > PROGRESS_INTERVAL_MS * 1000000),
{
    elapsed_nanos > 200000000
}

/// The message for a local directory with no files.
pub open spec fn empty_directory_message(path: Seq<char>) -> Seq<char> {
    "Directory is empty: "@ + path
}

/// The message for a local directory with no recognised model files.
pub open spec fn no_model_files_message(path: Seq<char>) -> Seq<char> {
    "No recognized model files found in "@ + path
        + ". Expected ONNX, Safetensors, MLX, or NeMo files."@
}

/// Validates the files found in the local directory `path` (which exists
/// and is a directory): there must be some, and some must be model files of
/// a known format. Gives the files back.
pub fn validate_local_model_files(path: &str, files: Vec<String>) -> (r: Result<Vec<String>, String>)
    ensures
        files@.len() == 0 ==> (r matches Err(m) && m@ == empty_directory_message(path@)),
        files@.len() > 0 && spec_detect_model_format(strings_view(files@)) == ModelFormat::Unknown
            ==> (r matches Err(m) && m@ == no_model_files_message(path@)),
        files@.len() > 0 && spec_detect_model_format(strings_view(files@)) != ModelFormat::Unknown
            ==> r == Ok::<Vec<String>, String>(files),
{
    if files.len() == 0 {
        return Err(concat("Directory is empty: ", path));
    }
    let format = detect_model_format(files.as_slice());
    if format == ModelFormat::Unknown {
        let a = concat("No recognized model files found in ", path);
        let m = concat(a.as_str(), ". Expected ONNX, Safetensors, MLX, or NeMo files.");
        assert(m@ =~= no_model_files_message(path@));
        return Err(m);
    }
    Ok(files)
}

} // verus!

//! Model download: progress, integrity checks and load phases.

use crate::models::{
    all_files, file_has_expected_size, missing_roles, present, roles, FileSizes, ModelArtifact,
    ModelPaths, ModelRole,
};
use crate::paths::PathError;
use crate::state::PipelineStatus;
use crate::text::{decimal, joined, owned, push_decimal};
use crate::types::ModelTier;
use vstd::prelude::*;

verus! {

/// Why OCR or its models failed.
#[derive(Debug)]
pub enum OcrError {
    NotLoaded,
    Engine(String),
    Image(String),
    Path(PathError),
    Download(String),
    Other(String),
}

impl OcrError {
    /// The message shown for the error.
    pub open spec fn text(self) -> Seq<char> {
        match self {
            OcrError::NotLoaded => "OCR engine not loaded"@,
            OcrError::Engine(m) => "OCR engine error: "@ + m@,
            OcrError::Image(m) => "image error: "@ + m@,
            OcrError::Path(e) => e.text(),
            OcrError::Download(m) => m@,
            OcrError::Other(m) => m@,
        }
    }

    /// The message shown for the error.
    pub fn message(&self) -> (r: String)
        ensures
            r@ == self.text(),
    {
        match self {
            OcrError::NotLoaded => owned("OCR engine not loaded"),
            OcrError::Engine(m) => joined("OCR engine error: ", m.as_str()),
            OcrError::Image(m) => joined("image error: ", m.as_str()),
            OcrError::Path(e) => e.message(),
            OcrError::Download(m) => m.clone(),
            OcrError::Other(m) => m.clone(),
        }
    }
}

/// Progress for one file of a download run.
#[derive(Debug, PartialEq)]
pub struct DownloadProgress {
    pub file_name: String,
    /// 0-based index among files that need download this run.
    pub file_index: u32,
    pub file_count: u32,
    pub bytes_downloaded: u64,
    pub bytes_total: u64,
}

impl Clone for DownloadProgress {
    fn clone(&self) -> (r: Self)
        ensures
            r == *self,
    {
        DownloadProgress {
            file_name: self.file_name.clone(),
            file_index: self.file_index,
            file_count: self.file_count,
            bytes_downloaded: self.bytes_downloaded,
            bytes_total: self.bytes_total,
        }
    }
}

impl DownloadProgress {
    /// Whole percent of the file that has arrived, at most 100.
    pub open spec fn percent_done(self) -> int {
        let hundredfold = if self.bytes_downloaded * 100 > u64::MAX {
            u64::MAX as int
        } else {
            self.bytes_downloaded * 100
        };
        if self.bytes_total == 0 {
            0
        } else if hundredfold / (self.bytes_total as int) > 100 {
            100
        } else {
            hundredfold / (self.bytes_total as int)
        }
    }

    /// Whole percent of the file that has arrived, at most 100.
    pub fn percent(&self) -> (r: u8)
        ensures
            r == self.percent_done(),
            r <= 100,
    {
        if self.bytes_total == 0 {
            return 0;
        }
        let hundredfold: u64 = if self.bytes_downloaded > u64::MAX / 100 {
            u64::MAX
        } else {
            self.bytes_downloaded * 100
        };
        let pct: u64 = hundredfold / self.bytes_total;
        if pct > 100 {
            100
        } else {
            pct as u8
        }
    }
}

/// A file of up to a hundredth of the largest length shows a percentage that follows the bytes:
/// nothing is zero percent, all is a hundred percent, and more bytes never show less.
pub proof fn law_percent_follows_bytes(a: DownloadProgress, b: DownloadProgress)
    requires
        a.bytes_total == b.bytes_total,
        a.bytes_total > 0,
        a.bytes_total * 100 <= u64::MAX,
        a.bytes_downloaded <= b.bytes_downloaded <= b.bytes_total,
    ensures
        0 <= a.percent_done() <= b.percent_done() <= 100,
        b.bytes_downloaded == b.bytes_total ==> b.percent_done() == 100,
        a.bytes_downloaded == 0 ==> a.percent_done() == 0,
{
    let t = a.bytes_total as int;
    let x = a.bytes_downloaded * 100;
    let y = b.bytes_downloaded * 100;
    vstd::arithmetic::div_mod::lemma_div_is_ordered(x, y, t);
    vstd::arithmetic::div_mod::lemma_div_is_ordered(y, t * 100, t);
    assert((t * 100) / t == 100) by (nonlinear_arith)
        requires
            t > 0,
    ;
    vstd::arithmetic::div_mod::lemma_div_pos_is_pos(x, t);
    if a.bytes_downloaded == 0 {
        vstd::arithmetic::div_mod::lemma_div_basics(t);
    }
}

/// Latest phase of a download or load.
#[derive(Debug, PartialEq)]
pub enum ModelLoadUpdate {
    Downloading {
        file: String,
        /// 1-based index among files being fetched this run.
        file_index: u32,
        file_count: u32,
        percent: u8,
    },
    Loading,
    Ready,
    Failed(String),
}

impl Clone for ModelLoadUpdate {
    fn clone(&self) -> (r: Self)
        ensures
            r == *self,
    {
        match self {
            ModelLoadUpdate::Downloading { file, file_index, file_count, percent } =>
            ModelLoadUpdate::Downloading {
                file: file.clone(),
                file_index: *file_index,
                file_count: *file_count,
                percent: *percent,
            },
            ModelLoadUpdate::Loading => ModelLoadUpdate::Loading,
            ModelLoadUpdate::Ready => ModelLoadUpdate::Ready,
            ModelLoadUpdate::Failed(m) => ModelLoadUpdate::Failed(m.clone()),
        }
    }
}

impl ModelLoadUpdate {
    /// The status that a phase is shown as, `None` once the load finished.
    pub open spec fn shown_as(self) -> Option<PipelineStatus> {
        match self {
            ModelLoadUpdate::Downloading { file, file_index, file_count, percent } => Some(
                PipelineStatus::DownloadingModels { file, file_index, file_count, percent },
            ),
            ModelLoadUpdate::Loading => Some(PipelineStatus::LoadingModels),
            ModelLoadUpdate::Ready => None,
            ModelLoadUpdate::Failed(_) => None,
        }
    }

    /// UI status for in-progress phases (`None` once the load finished).
    pub fn to_status(&self) -> (r: Option<PipelineStatus>)
        ensures
            r == self.shown_as(),
    {
        match self {
            ModelLoadUpdate::Downloading { file, file_index, file_count, percent } => Some(
                PipelineStatus::DownloadingModels {
                    file: file.clone(),
                    file_index: *file_index,
                    file_count: *file_count,
                    percent: *percent,
                },
            ),
            ModelLoadUpdate::Loading => Some(PipelineStatus::LoadingModels),
            ModelLoadUpdate::Ready => None,
            ModelLoadUpdate::Failed(_) => None,
        }
    }
}

/// First phase of a load: loading when nothing is missing, else the first missing file; a failed
/// path fails the load.
pub fn initial_update(missing: Result<Vec<ModelArtifact>, PathError>) -> (r: ModelLoadUpdate)
    requires
        missing matches Ok(m) ==> m@.len() <= u32::MAX,
    ensures
        match missing {
            Ok(m) => if m@.len() == 0 {
                r == ModelLoadUpdate::Loading
            } else {
                r matches ModelLoadUpdate::Downloading { file, file_index, file_count, percent }
                    && file@ == m@[0].file_name@ && file_index == 1 && file_count == m@.len()
                    && percent == 0
            },
            Err(e) => r matches ModelLoadUpdate::Failed(text) && text@ == e.text(),
        },
{
    match missing {
        Ok(m) => {
            if m.len() == 0 {
                ModelLoadUpdate::Loading
            } else {
                ModelLoadUpdate::Downloading {
                    file: owned(m[0].file_name),
                    file_index: 1,
                    file_count: m.len() as u32,
                    percent: 0,
                }
            }
        },
        Err(e) => ModelLoadUpdate::Failed(e.message()),
    }
}

/// Publishes progress only when the whole percent or the file changes, not for every chunk.
#[derive(Debug)]
pub struct ProgressPublisher {
    pub last: Option<(u32, u8)>,
}

impl ProgressPublisher {
    /// Publisher that has published nothing.
    pub fn new() -> (r: ProgressPublisher)
        ensures
            r.last is None,
    {
        ProgressPublisher { last: None }
    }

    /// The phase to publish for `p`, `None` when it was published already.
    pub fn on_progress(&mut self, p: DownloadProgress) -> (r: Option<ModelLoadUpdate>)
        ensures
            final(self).last == Some((p.file_index, p.percent_done() as u8)),
            old(self).last == Some((p.file_index, p.percent_done() as u8)) ==> r is None,
            old(self).last != Some((p.file_index, p.percent_done() as u8)) ==> r == Some(
                ModelLoadUpdate::Downloading {
                    file: p.file_name,
                    file_index: if p.file_index == u32::MAX {
                        u32::MAX
                    } else {
                        (p.file_index + 1) as u32
                    },
                    file_count: if p.file_count == 0 {
                        1
                    } else {
                        p.file_count
                    },
                    percent: p.percent_done() as u8,
                },
            ),
    {
        let percent: u8 = p.percent();
        let seen: bool = match self.last {
            Some((index, pct)) => index == p.file_index && pct == percent,
            None => false,
        };
        if seen {
            return None;
        }
        self.last = Some((p.file_index, percent));
        Some(
            ModelLoadUpdate::Downloading {
                file: p.file_name,
                file_index: if p.file_index == u32::MAX {
                    u32::MAX
                } else {
                    p.file_index + 1
                },
                file_count: if p.file_count == 0 {
                    1
                } else {
                    p.file_count
                },
                percent,
            },
        )
    }
}

/// `<file>: <what> <n> <relation> <expected>`.
pub open spec fn size_complaint(
    file: Seq<char>,
    what: Seq<char>,
    n: u64,
    relation: Seq<char>,
    expected: u64,
) -> Seq<char> {
    file + ": "@ + what + " "@ + decimal(n as nat) + " "@ + relation + " "@ + decimal(
        expected as nat,
    )
}

fn complain(file: &str, what: &str, n: u64, relation: &str, expected: u64) -> (r: OcrError)
    ensures
        r matches OcrError::Download(text) && text@ == size_complaint(
            file@,
            what@,
            n,
            relation@,
            expected,
        ),
{
    let mut out: String = owned(file);
    out.append(": ");
    out.append(what);
    out.append(" ");
    push_decimal(&mut out, n);
    out.append(" ");
    out.append(relation);
    out.append(" ");
    push_decimal(&mut out, expected);
    OcrError::Download(out)
}

/// Refuse a response whose announced length is not that of the file.
pub fn check_content_length(
    art: &ModelArtifact,
    announced: Option<u64>,
) -> (r: Result<(), OcrError>)
    ensures
        match r {
            Ok(_) => announced matches Some(n) ==> n == art.expected_bytes,
            Err(e) => announced matches Some(n) && n != art.expected_bytes && (
            e matches OcrError::Download(text) && text@ == size_complaint(
                art.file_name@,
                "Content-Length"@,
                n,
                "!= expected"@,
                art.expected_bytes,
            )),
        },
{
    match announced {
        Some(n) => if n != art.expected_bytes {
            Err(complain(art.file_name, "Content-Length", n, "!= expected", art.expected_bytes))
        } else {
            Ok(())
        },
        None => Ok(()),
    }
}

/// Counts the bytes of one file as they arrive.
#[derive(Debug)]
pub struct DownloadMeter {
    pub art: ModelArtifact,
    pub file_index: u32,
    pub file_count: u32,
    pub downloaded: u64,
}

impl DownloadMeter {
    /// Meter of a file of which nothing has arrived.
    pub fn new(art: ModelArtifact, file_index: u32, file_count: u32) -> (r: DownloadMeter)
        ensures
            r.art == art,
            r.file_index == file_index,
            r.file_count == file_count,
            r.downloaded == 0,
    {
        DownloadMeter { art, file_index, file_count, downloaded: 0 }
    }

    /// `p` is the progress of this meter.
    pub open spec fn shows(self, p: DownloadProgress) -> bool {
        &&& p.file_name@ == self.art.file_name@
        &&& p.file_index == self.file_index
        &&& p.file_count == self.file_count
        &&& p.bytes_downloaded == self.downloaded
        &&& p.bytes_total == self.art.expected_bytes
    }

    /// The progress so far.
    pub fn progress(&self) -> (r: DownloadProgress)
        ensures
            self.shows(r),
    {
        DownloadProgress {
            file_name: owned(self.art.file_name),
            file_index: self.file_index,
            file_count: self.file_count,
            bytes_downloaded: self.downloaded,
            bytes_total: self.art.expected_bytes,
        }
    }

    /// Take in a chunk; more bytes than the file has are an error.
    pub fn on_chunk(&mut self, len: u64) -> (r: Result<DownloadProgress, OcrError>)
        ensures
            final(self).art == old(self).art,
            final(self).file_index == old(self).file_index,
            final(self).file_count == old(self).file_count,
            final(self).downloaded == if old(self).downloaded + len > u64::MAX {
                u64::MAX as int
            } else {
                old(self).downloaded + len
            },
            match r {
                Ok(p) => final(self).downloaded <= old(self).art.expected_bytes
                    && final(self).shows(p),
                Err(e) => final(self).downloaded > old(self).art.expected_bytes && (
                e matches OcrError::Download(text) && text@ == size_complaint(
                    old(self).art.file_name@,
                    "downloaded"@,
                    final(self).downloaded,
                    "bytes > expected"@,
                    old(self).art.expected_bytes,
                )),
            },
    {
        self.downloaded = self.downloaded.saturating_add(len);
        if self.downloaded > self.art.expected_bytes {
            return Err(
                complain(
                    self.art.file_name,
                    "downloaded",
                    self.downloaded,
                    "bytes > expected",
                    self.art.expected_bytes,
                ),
            );
        }
        Ok(self.progress())
    }

    /// The stream ended; fewer bytes than the file has are an error.
    pub fn finish(&self) -> (r: Result<(), OcrError>)
        ensures
            match r {
                Ok(_) => self.downloaded == self.art.expected_bytes,
                Err(e) => self.downloaded != self.art.expected_bytes && (
                e matches OcrError::Download(text) && text@ == size_complaint(
                    self.art.file_name@,
                    "downloaded"@,
                    self.downloaded,
                    "bytes != expected"@,
                    self.art.expected_bytes,
                )),
            },
    {
        if self.downloaded != self.art.expected_bytes {
            return Err(
                complain(
                    self.art.file_name,
                    "downloaded",
                    self.downloaded,
                    "bytes != expected",
                    self.art.expected_bytes,
                ),
            );
        }
        Ok(())
    }
}

/// What is to be done about one model file before it is requested.
#[derive(Clone, Copy, Debug, PartialEq, Eq, Structural)]
pub enum FilePlan {
    /// The file is there with its expected length.
    Keep,
    /// There is no such file.
    Fetch,
    /// A file of another length is in the way.
    Replace,
}

/// What to do about a file: `exists` says that something has its name, `size` is the length of a
/// regular file.
pub fn plan_file(art: &ModelArtifact, exists: bool, size: Option<u64>) -> (r: FilePlan)
    ensures
        (r is Keep) == (size == Some(art.expected_bytes)),
        (r is Replace) == (size != Some(art.expected_bytes) && exists),
{
    if file_has_expected_size(size, art.expected_bytes) {
        FilePlan::Keep
    } else if exists {
        FilePlan::Replace
    } else {
        FilePlan::Fetch
    }
}

/// Hold a file that was put in place to its expected length.
pub fn check_written(art: &ModelArtifact, size: Option<u64>) -> (r: Result<(), OcrError>)
    ensures
        match r {
            Ok(_) => size == Some(art.expected_bytes),
            Err(e) => size != Some(art.expected_bytes) && (e matches OcrError::Download(text)
                && text@ == art.file_name@ + ": size check failed after rename"@),
        },
{
    if file_has_expected_size(size, art.expected_bytes) {
        return Ok(());
    }
    let mut text: String = owned(art.file_name);
    text.append(": size check failed after rename");
    Err(OcrError::Download(text))
}

/// Hold a finished download to all files of its tier.
pub fn check_complete(paths: &ModelPaths, sizes: &FileSizes) -> (r: Result<(), OcrError>)
    ensures
        match r {
            Ok(_) => all_files(paths.tier, *sizes),
            Err(e) => !all_files(paths.tier, *sizes) && (e matches OcrError::Download(text)
                && text@ == "models still incomplete after download"@),
        },
{
    if paths.all_present(sizes) {
        Ok(())
    } else {
        Err(OcrError::Download(owned("models still incomplete after download")))
    }
}

/// Refuse to load models of which a file is missing or has another length.
pub fn check_loadable(paths: &ModelPaths, sizes: &FileSizes, models_dir: &str) -> (r: Result<
    (),
    OcrError,
>)
    ensures
        match r {
            Ok(_) => all_files(paths.tier, *sizes),
            Err(e) => !all_files(paths.tier, *sizes) && (e matches OcrError::Other(text) && text@
                == "OCR models missing or wrong size under "@ + models_dir@
                + " (run ensure_models first)"@),
        },
{
    if paths.all_present(sizes) {
        return Ok(());
    }
    let mut text: String = owned("OCR models missing or wrong size under ");
    text.append(models_dir);
    text.append(" (run ensure_models first)");
    Err(OcrError::Other(text))
}

/// Models that are downloaded file by file can be loaded: once every file that was missing has its
/// expected length, none is missing.
pub proof fn law_fetched_models_can_be_loaded(tier: ModelTier, before: FileSizes, after: FileSizes)
    requires
        forall|i: int|
            0 <= i < missing_roles(tier, before, 3).len() ==> present(
                tier,
                after,
                #[trigger] missing_roles(tier, before, 3)[i],
            ),
        forall|role: ModelRole| #[trigger]
            present(tier, before, role) ==> present(tier, after, role),
    ensures
        all_files(tier, after),
        missing_roles(tier, after, 3).len() == 0,
{
    reveal_with_fuel(missing_roles, 4);
    let m1 = missing_roles(tier, before, 1);
    let m2 = missing_roles(tier, before, 2);
    let m3 = missing_roles(tier, before, 3);
    assert forall|k: int| 0 <= k < 3 implies present(tier, after, #[trigger] roles()[k]) by {
        if !present(tier, before, roles()[k]) {
            if k == 0 {
                assert(m3[0] == roles()[0]);
            } else if k == 1 {
                assert(m3[m1.len() as int] == roles()[1]);
            } else {
                assert(m3[m2.len() as int] == roles()[2]);
            }
        }
    }
    assert(present(tier, after, roles()[0]));
    assert(present(tier, after, roles()[1]));
    assert(present(tier, after, roles()[2]));
}

/// Name of the hidden sibling that a file is downloaded into.
pub fn part_name_for(file_name: Option<&str>, pid: u32) -> (r: String)
    ensures
        r@ == "."@ + (match file_name {
            Some(n) => n@,
            None => "model"@,
        }) + "."@ + decimal(pid as nat) + ".part"@,
{
    let name: &str = match file_name {
        Some(n) => n,
        None => "model",
    };
    let mut out: String = owned(".");
    out.append(name);
    out.append(".");
    push_decimal(&mut out, pid as u64);
    out.append(".part");
    out
}

/// The percentage is the whole part of what has arrived of a file, and never more than all of it.
pub proof fn law_percent_is_the_whole_part(p: DownloadProgress)
    requires
        p.bytes_total > 0,
        p.bytes_downloaded * 100 <= u64::MAX,
    ensures
        p.bytes_downloaded <= p.bytes_total ==> {
            &&& p.percent_done() * p.bytes_total <= p.bytes_downloaded * 100
            &&& p.bytes_downloaded * 100 < (p.percent_done() + 1) * p.bytes_total
        },
        p.bytes_downloaded > p.bytes_total ==> p.percent_done() == 100,
{
    let t = p.bytes_total as int;
    let x = p.bytes_downloaded * 100;
    let q = x / t;
    assert(q * t <= x && x < (q + 1) * t) by (nonlinear_arith)
        requires
            t > 0,
            x >= 0,
            q == x / t,
    ;
    if p.bytes_downloaded <= p.bytes_total {
        assert(q <= 100) by (nonlinear_arith)
            requires
                q * t <= x,
                x <= 100 * t,
                t > 0,
        ;
    } else {
        assert(q >= 100) by (nonlinear_arith)
            requires
                x < (q + 1) * t,
                x >= 100 * t,
                t > 0,
        ;
    }
}

/// Phases of a load are shown as what they are; a finished load, good or bad, is no phase.
pub proof fn law_phases_are_shown_as_they_are(
    file: String,
    file_index: u32,
    file_count: u32,
    percent: u8,
    message: String,
)
    ensures
        (ModelLoadUpdate::Downloading { file, file_index, file_count, percent }).shown_as() == Some(
            PipelineStatus::DownloadingModels { file, file_index, file_count, percent },
        ),
        ModelLoadUpdate::Loading.shown_as() == Some(PipelineStatus::LoadingModels),
        ModelLoadUpdate::Ready.shown_as() is None,
        ModelLoadUpdate::Failed(message).shown_as() is None,
{
}

} // verus!

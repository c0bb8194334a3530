//! PP-OCRv6 ONNX artifacts (file names + GitHub release sizes/URLs).

use crate::paths::{join_path, under};
use crate::text::joined;
use crate::types::ModelTier;
use vstd::prelude::*;

verus! {

/// Release that the model files come from.
pub const RELEASE_BASE: &'static str = "https://github.com/GreatV/oar-ocr/releases/download/v0.7.0";

/// What a model file is for.
#[derive(Clone, Copy, Debug, PartialEq, Eq, Hash, Structural)]
pub enum ModelRole {
    Detection,
    Recognition,
    Dictionary,
}

/// One file required for a given model tier.
#[derive(Clone, Copy, Debug, PartialEq, Eq)]
pub struct ModelArtifact {
    pub role: ModelRole,
    pub file_name: &'static str,
    /// Exact byte length from the GreatV/oar-ocr v0.7.0 GitHub release.
    pub expected_bytes: u64,
}

impl ModelArtifact {
    /// Where the file is downloaded from.
    pub fn download_url(&self) -> (r: String)
        ensures
            r@ == RELEASE_BASE@ + "/"@ + self.file_name@,
    {
        let base: String = joined(RELEASE_BASE, "/");
        joined(base.as_str(), self.file_name)
    }
}

/// File name of an artifact.
pub open spec fn artifact_name(tier: ModelTier, role: ModelRole) -> Seq<char> {
    match (tier, role) {
        (ModelTier::Tiny, ModelRole::Detection) => "pp-ocrv6_tiny_det.onnx"@,
        (ModelTier::Tiny, ModelRole::Recognition) => "pp-ocrv6_tiny_rec.onnx"@,
        (ModelTier::Tiny, ModelRole::Dictionary) => "ppocrv6_tiny_dict.txt"@,
        (ModelTier::Small, ModelRole::Detection) => "pp-ocrv6_small_det.onnx"@,
        (ModelTier::Small, ModelRole::Recognition) => "pp-ocrv6_small_rec.onnx"@,
        (ModelTier::Small, ModelRole::Dictionary) => "ppocrv6_dict.txt"@,
        (ModelTier::Medium, ModelRole::Detection) => "pp-ocrv6_medium_det.onnx"@,
        (ModelTier::Medium, ModelRole::Recognition) => "pp-ocrv6_medium_rec.onnx"@,
        (ModelTier::Medium, ModelRole::Dictionary) => "ppocrv6_dict.txt"@,
    }
}

/// Byte length of an artifact.
pub open spec fn artifact_bytes(tier: ModelTier, role: ModelRole) -> u64 {
    match (tier, role) {
        (ModelTier::Tiny, ModelRole::Detection) => 1_780_590,
        (ModelTier::Tiny, ModelRole::Recognition) => 4_462_639,
        (ModelTier::Tiny, ModelRole::Dictionary) => 27_156,
        (ModelTier::Small, ModelRole::Detection) => 9_880_512,
        (ModelTier::Small, ModelRole::Recognition) => 21_159_378,
        (ModelTier::Small, ModelRole::Dictionary) => 74_947,
        (ModelTier::Medium, ModelRole::Detection) => 62_032_837,
        (ModelTier::Medium, ModelRole::Recognition) => 76_554_979,
        (ModelTier::Medium, ModelRole::Dictionary) => 74_947,
    }
}

/// `artifact` is the file of a tier for a role.
pub open spec fn is_artifact(artifact: ModelArtifact, tier: ModelTier, role: ModelRole) -> bool {
    &&& artifact.role == role
    &&& artifact.file_name@ == artifact_name(tier, role)
    &&& artifact.expected_bytes == artifact_bytes(tier, role)
}

/// The roles in the order in which their files are listed.
pub open spec fn roles() -> Seq<ModelRole> {
    seq![ModelRole::Detection, ModelRole::Recognition, ModelRole::Dictionary]
}

/// Artifacts required for the given PP-OCRv6 tier: detection, recognition, dictionary.
pub fn artifacts_for_tier(tier: ModelTier) -> (r: Vec<ModelArtifact>)
    ensures
        r@.len() == 3,
        forall|i: int| 0 <= i < 3 ==> is_artifact(#[trigger] r@[i], tier, roles()[i]),
{
    let (det, rec, dict): (ModelArtifact, ModelArtifact, ModelArtifact) = match tier {
        ModelTier::Tiny => (
            artifact(ModelRole::Detection, "pp-ocrv6_tiny_det.onnx", 1_780_590),
            artifact(ModelRole::Recognition, "pp-ocrv6_tiny_rec.onnx", 4_462_639),
            artifact(ModelRole::Dictionary, "ppocrv6_tiny_dict.txt", 27_156),
        ),
        ModelTier::Small => (
            artifact(ModelRole::Detection, "pp-ocrv6_small_det.onnx", 9_880_512),
            artifact(ModelRole::Recognition, "pp-ocrv6_small_rec.onnx", 21_159_378),
            artifact(ModelRole::Dictionary, "ppocrv6_dict.txt", 74_947),
        ),
        ModelTier::Medium => (
            artifact(ModelRole::Detection, "pp-ocrv6_medium_det.onnx", 62_032_837),
            artifact(ModelRole::Recognition, "pp-ocrv6_medium_rec.onnx", 76_554_979),
            // Small and medium recognition share the same character dictionary.
            artifact(ModelRole::Dictionary, "ppocrv6_dict.txt", 74_947),
        ),
    };
    let mut out: Vec<ModelArtifact> = Vec::new();
    out.push(det);
    out.push(rec);
    out.push(dict);
    out
}

fn artifact(role: ModelRole, file_name: &'static str, expected_bytes: u64) -> (r: ModelArtifact)
    ensures
        r.role == role,
        r.file_name@ == file_name@,
        r.expected_bytes == expected_bytes,
{
    ModelArtifact { role, file_name, expected_bytes }
}

/// Bare registry file names for a tier (det, rec, dict).
pub fn registry_names(tier: ModelTier) -> (r: (&'static str, &'static str, &'static str))
    ensures
        r.0@ == artifact_name(tier, ModelRole::Detection),
        r.1@ == artifact_name(tier, ModelRole::Recognition),
        r.2@ == artifact_name(tier, ModelRole::Dictionary),
{
    let arts: Vec<ModelArtifact> = artifacts_for_tier(tier);
    assert(is_artifact(arts@[0], tier, roles()[0]));
    assert(is_artifact(arts@[1], tier, roles()[1]));
    assert(is_artifact(arts@[2], tier, roles()[2]));
    (arts[0].file_name, arts[1].file_name, arts[2].file_name)
}

/// Small and medium models read the same dictionary file.
pub proof fn law_small_and_medium_share_the_dictionary()
    ensures
        artifact_name(ModelTier::Small, ModelRole::Dictionary) == artifact_name(
            ModelTier::Medium,
            ModelRole::Dictionary,
        ),
        artifact_bytes(ModelTier::Small, ModelRole::Dictionary) == artifact_bytes(
            ModelTier::Medium,
            ModelRole::Dictionary,
        ),
{
}

/// Resolved local paths for a tier under `models_dir`.
#[derive(Debug)]
pub struct ModelPaths {
    pub tier: ModelTier,
    pub det: String,
    pub rec: String,
    pub dict: String,
}

/// Lengths of the files at [`ModelPaths`]; `None` where there is no regular file.
#[derive(Clone, Copy, Debug, PartialEq, Eq, Structural)]
pub struct FileSizes {
    pub det: Option<u64>,
    pub rec: Option<u64>,
    pub dict: Option<u64>,
}

impl FileSizes {
    /// Length of the file for a role.
    pub open spec fn of(self, role: ModelRole) -> Option<u64> {
        match role {
            ModelRole::Detection => self.det,
            ModelRole::Recognition => self.rec,
            ModelRole::Dictionary => self.dict,
        }
    }

    fn size_for(&self, role: ModelRole) -> (r: Option<u64>)
        ensures
            r == self.of(role),
    {
        match role {
            ModelRole::Detection => self.det,
            ModelRole::Recognition => self.rec,
            ModelRole::Dictionary => self.dict,
        }
    }
}

/// Whether a file is there and its length equals `expected_bytes`.
pub fn file_has_expected_size(size: Option<u64>, expected_bytes: u64) -> (r: bool)
    ensures
        r == (size == Some(expected_bytes)),
{
    match size {
        Some(n) => n == expected_bytes,
        None => false,
    }
}

/// The file of a tier for a role is there in full.
pub open spec fn present(tier: ModelTier, sizes: FileSizes, role: ModelRole) -> bool {
    sizes.of(role) == Some(artifact_bytes(tier, role))
}

impl ModelPaths {
    /// Paths of the files of a tier in `models_dir`.
    pub fn from_dir(models_dir: &str, tier: ModelTier) -> (r: ModelPaths)
        ensures
            r.tier == tier,
            under(models_dir@, artifact_name(tier, ModelRole::Detection), r.det@),
            under(models_dir@, artifact_name(tier, ModelRole::Recognition), r.rec@),
            under(models_dir@, artifact_name(tier, ModelRole::Dictionary), r.dict@),
    {
        let (det, rec, dict): (&'static str, &'static str, &'static str) = registry_names(tier);
        ModelPaths {
            tier,
            det: join_path(models_dir, det),
            rec: join_path(models_dir, rec),
            dict: join_path(models_dir, dict),
        }
    }

    /// True when every artifact exists and matches its expected byte length.
    pub fn all_present(&self, sizes: &FileSizes) -> (r: bool)
        ensures
            r == all_files(self.tier, *sizes),
    {
        missing_artifacts(self.tier, sizes).len() == 0
    }
}

/// Every file of the tier is there with its expected length.
pub open spec fn all_files(tier: ModelTier, sizes: FileSizes) -> bool {
    present(tier, sizes, ModelRole::Detection) && present(tier, sizes, ModelRole::Recognition)
        && present(tier, sizes, ModelRole::Dictionary)
}

/// The artifacts among the first `n` whose file is missing or has another length.
pub open spec fn missing_roles(tier: ModelTier, sizes: FileSizes, n: int) -> Seq<ModelRole>
    decreases n,
{
    if n <= 0 {
        Seq::empty()
    } else if present(tier, sizes, roles()[n - 1]) {
        missing_roles(tier, sizes, n - 1)
    } else {
        missing_roles(tier, sizes, n - 1).push(roles()[n - 1])
    }
}

/// Artifacts of a tier whose file is missing or has another length, in listing order.
pub fn missing_artifacts(tier: ModelTier, sizes: &FileSizes) -> (r: Vec<ModelArtifact>)
    ensures
        r@.len() == missing_roles(tier, *sizes, 3).len(),
        forall|i: int|
            0 <= i < r@.len() ==> is_artifact(
                #[trigger] r@[i],
                tier,
                missing_roles(tier, *sizes, 3)[i],
            ),
        (r@.len() == 0) == (present(tier, *sizes, ModelRole::Detection) && present(
            tier,
            *sizes,
            ModelRole::Recognition,
        ) && present(tier, *sizes, ModelRole::Dictionary)),
{
    let arts: Vec<ModelArtifact> = artifacts_for_tier(tier);
    let mut out: Vec<ModelArtifact> = Vec::new();
    let mut i: usize = 0;
    while i < arts.len()
        invariant
            i <= 3,
            arts@.len() == 3,
            forall|k: int| 0 <= k < 3 ==> is_artifact(#[trigger] arts@[k], tier, roles()[k]),
            out@.len() == missing_roles(tier, *sizes, i as int).len(),
            forall|k: int|
                0 <= k < out@.len() ==> is_artifact(
                    #[trigger] out@[k],
                    tier,
                    missing_roles(tier, *sizes, i as int)[k],
                ),
            (out@.len() == 0) == ((i > 0 ==> present(tier, *sizes, ModelRole::Detection)) && (i > 1
                ==> present(tier, *sizes, ModelRole::Recognition)) && (i > 2 ==> present(
                tier,
                *sizes,
                ModelRole::Dictionary,
            ))),
        decreases 3 - i,
    {
        assert(is_artifact(arts@[i as int], tier, roles()[i as int]));
        let art: ModelArtifact = arts[i];
        if !file_has_expected_size(sizes.size_for(art.role), art.expected_bytes) {
            out.push(art);
        }
        i = i + 1;
    }
    out
}

/// A file is missing exactly when it is not there with its very length; the missing files are
/// fetched in the order detection, recognition, dictionary.
pub proof fn law_file_of_another_length_is_missing(tier: ModelTier, sizes: FileSizes)
    ensures
        ({
            let det = sizes.det == Some(artifact_bytes(tier, ModelRole::Detection));
            let rec = sizes.rec == Some(artifact_bytes(tier, ModelRole::Recognition));
            let dict = sizes.dict == Some(artifact_bytes(tier, ModelRole::Dictionary));
            let a = if det {
                Seq::empty()
            } else {
                seq![ModelRole::Detection]
            };
            let b = if rec {
                Seq::empty()
            } else {
                seq![ModelRole::Recognition]
            };
            let c = if dict {
                Seq::empty()
            } else {
                seq![ModelRole::Dictionary]
            };
            &&& missing_roles(tier, sizes, 3) == a + b + c
            &&& all_files(tier, sizes) == (det && rec && dict)
        }),
{
    reveal_with_fuel(missing_roles, 4);
}

/// Every file of a tier has a name and a length of its own.
pub proof fn law_files_of_a_tier_differ(tier: ModelTier)
    ensures
        artifact_bytes(tier, ModelRole::Detection) != artifact_bytes(tier, ModelRole::Recognition),
        artifact_bytes(tier, ModelRole::Recognition) != artifact_bytes(
            tier,
            ModelRole::Dictionary,
        ),
        artifact_name(tier, ModelRole::Detection) != artifact_name(tier, ModelRole::Recognition),
        artifact_name(tier, ModelRole::Recognition) != artifact_name(tier, ModelRole::Dictionary),
        artifact_name(tier, ModelRole::Detection) != artifact_name(tier, ModelRole::Dictionary),
{
    reveal_strlit("pp-ocrv6_tiny_det.onnx");
    reveal_strlit("pp-ocrv6_tiny_rec.onnx");
    reveal_strlit("ppocrv6_tiny_dict.txt");
    reveal_strlit("pp-ocrv6_small_det.onnx");
    reveal_strlit("pp-ocrv6_small_rec.onnx");
    reveal_strlit("ppocrv6_dict.txt");
    reveal_strlit("pp-ocrv6_medium_det.onnx");
    reveal_strlit("pp-ocrv6_medium_rec.onnx");
    let det = artifact_name(tier, ModelRole::Detection);
    let rec = artifact_name(tier, ModelRole::Recognition);
    let dict = artifact_name(tier, ModelRole::Dictionary);
    assert(det[det.len() - 8] == 'd');
    assert(rec[rec.len() - 8] == 'r');
    assert(dict.last() == 't');
    assert(det.last() == 'x');
    assert(rec.last() == 'x');
}

} // verus!

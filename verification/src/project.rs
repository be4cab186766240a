//! Building a draft: the visuals from what probing gave, the errors of a
//! build, and where the draft's files go.
use vstd::prelude::*;

use crate::media::{
    file_name, probe_file_or_assume, spec_file_name, spec_probe_file_or_assume, MediaError,
    MediaErrorView, MediaFile, MediaFileView, StreamInfo,
};
use crate::text::{chars_of, push_str};
use crate::timeline::PlanError;

verus! {

#[verifier::external_type_specification]
#[verifier::external_body]
pub struct ExIoError(std::io::Error);

#[verifier::external_type_specification]
#[verifier::external_body]
pub struct ExJsonError(serde_json::Error);

/// Writing the draft's files failed.
#[derive(Debug)]
pub enum DraftError {
    Io(std::io::Error),
    Json(serde_json::Error),
}

/// A build failed: finding or probing media, planning, writing or
/// installing the draft.
#[derive(Debug)]
pub enum BuildError {
    Media(MediaError),
    Plan(PlanError),
    Draft(DraftError),
    Io(std::io::Error),
}

/// The files of a written draft.
#[derive(Debug, Clone)]
pub struct WrittenDraft {
    pub folder: String,
    pub content_path: String,
    pub meta_path: String,
    pub plan_path: String,
}

// ---------------------------------------------------------------------------
// Paths
// ---------------------------------------------------------------------------
/// `Path::join` of a relative name onto a directory ('/'-separated).
pub open spec fn join_path(dir: Seq<char>, name: Seq<char>) -> Seq<char> {
    if dir.len() == 0 {
        name
    } else if dir.last() == '/' {
        dir + name
    } else {
        dir + seq!['/'] + name
    }
}

/// Joins a relative name onto a directory.
pub fn join(dir: &str, name: &str) -> (r: String)
    ensures
        r@ == join_path(dir@, name@),
{
    let mut out = String::new();
    push_str(&mut out, dir);
    let cs = chars_of(dir);
    if cs.len() > 0 && cs[cs.len() - 1] != '/' {
        push_str(&mut out, "/");
        proof {
            reveal_strlit("/");
        }
    }
    push_str(&mut out, name);
    out
}

/// Where `write_draft` puts the draft's files inside `output_dir`.
pub open spec fn spec_draft_files(output_dir: Seq<char>) -> (Seq<char>, Seq<char>, Seq<char>, Seq<char>) {
    (
        output_dir,
        join_path(output_dir, "draft_content.json"@),
        join_path(output_dir, "draft_meta_info.json"@),
        join_path(output_dir, "timeline.md"@),
    )
}

/// The files of the draft written into `output_dir`.
pub fn draft_files(output_dir: &str) -> (r: WrittenDraft)
    ensures
        (r.folder@, r.content_path@, r.meta_path@, r.plan_path@) == spec_draft_files(output_dir@),
{
    WrittenDraft {
        folder: String::from_str(output_dir),
        content_path: join(output_dir, "draft_content.json"),
        meta_path: join(output_dir, "draft_meta_info.json"),
        plan_path: join(output_dir, "timeline.md"),
    }
}

/// Where a draft folder is copied under the drafts root: the folder's own
/// name, or `jianying-auto-draft` when it has none.
pub open spec fn spec_install_target(folder: Seq<char>, install_root: Seq<char>) -> Seq<char> {
    join_path(
        install_root,
        match spec_file_name(folder) {
            Some(f) => f,
            None => "jianying-auto-draft"@,
        },
    )
}

/// The folder that `install_draft` copies the draft to.
pub fn install_target(folder: &str, install_root: &str) -> (r: String)
    ensures
        r@ == spec_install_target(folder@, install_root@),
{
    match file_name(folder) {
        Some(f) => join(install_root, f.as_str()),
        None => join(install_root, "jianying-auto-draft"),
    }
}

// ---------------------------------------------------------------------------
// Loading the visuals
// ---------------------------------------------------------------------------
/// The first `n` visuals, each from its path and what probing it gave; the
/// first failure stops the load.
pub open spec fn spec_load_visuals(
    paths: Seq<Seq<char>>,
    probes: Seq<Option<StreamInfo>>,
    assume_us: Option<u64>,
    image_hold_us: u64,
    n: nat,
) -> Result<Seq<MediaFileView>, MediaErrorView>
    decreases n,
{
    if n == 0 {
        Ok(Seq::empty())
    } else {
        match spec_load_visuals(paths, probes, assume_us, image_hold_us, (n - 1) as nat) {
            Err(e) => Err(e),
            Ok(files) => match spec_probe_file_or_assume(
                paths[n - 1],
                image_hold_us,
                probes[n - 1],
                assume_us,
            ) {
                Ok(f) => Ok(files.push(f)),
                Err(e) => Err(e),
            },
        }
    }
}

pub open spec fn paths_view(paths: Seq<String>) -> Seq<Seq<char>> {
    paths.map_values(|p: String| p@)
}

pub open spec fn files_view(files: Seq<MediaFile>) -> Seq<MediaFileView> {
    files.map_values(|f: MediaFile| f.view())
}

/// The visuals at `paths`, in order, from what probing each gave
/// (`probes[i]` for `paths[i]`): images hold `image_hold_us`, and files that
/// could not be probed take the assumed length when there is one.
pub fn load_visuals(
    paths: &[String],
    probes: &[Option<StreamInfo>],
    assume_us: Option<u64>,
    image_hold_us: u64,
) -> (r: Result<Vec<MediaFile>, BuildError>)
    requires
        paths.len() == probes.len(),
    ensures
        match r {
            Ok(files) => spec_load_visuals(
                paths_view(paths@),
                probes@,
                assume_us,
                image_hold_us,
                paths.len() as nat,
            ) == Ok::<Seq<MediaFileView>, MediaErrorView>(files_view(files@)),
            Err(BuildError::Media(e)) => spec_load_visuals(
                paths_view(paths@),
                probes@,
                assume_us,
                image_hold_us,
                paths.len() as nat,
            ) == Err::<Seq<MediaFileView>, MediaErrorView>(e.view()),
            Err(_) => false,
        },
{
    let ghost ps = paths_view(paths@);
    let mut visuals: Vec<MediaFile> = Vec::new();
    let mut i: usize = 0;
    assert(files_view(visuals@) =~= Seq::empty());
    while i < paths.len()
        invariant
            i <= paths.len() == probes.len(),
            ps == paths_view(paths@),
            spec_load_visuals(ps, probes@, assume_us, image_hold_us, i as nat) == Ok::<
                Seq<MediaFileView>,
                MediaErrorView,
            >(files_view(visuals@)),
        decreases paths.len() - i,
    {
        let ghost before = visuals@;
        match probe_file_or_assume(paths[i].as_str(), image_hold_us, probes[i], assume_us) {
            Ok(f) => {
                visuals.push(f);
                proof {
                    assert(files_view(visuals@) == files_view(before).push(f.view()));
                }
            },
            Err(e) => {
                proof {
                    lemma_load_stops(ps, probes@, assume_us, image_hold_us, (i + 1) as nat, paths.len() as nat);
                }
                return Err(BuildError::Media(e));
            },
        }
        i = i + 1;
    }
    Ok(visuals)
}

/// Once the load has failed, loading more paths gives the same error.
proof fn lemma_load_stops(
    paths: Seq<Seq<char>>,
    probes: Seq<Option<StreamInfo>>,
    assume_us: Option<u64>,
    image_hold_us: u64,
    m: nat,
    n: nat,
)
    requires
        m <= n,
        spec_load_visuals(paths, probes, assume_us, image_hold_us, m) is Err,
    ensures
        spec_load_visuals(paths, probes, assume_us, image_hold_us, n) == spec_load_visuals(
            paths,
            probes,
            assume_us,
            image_hold_us,
            m,
        ),
    decreases n - m,
{
    if m < n {
        lemma_load_stops(paths, probes, assume_us, image_hold_us, m, (n - 1) as nat);
    }
}

} // verus!

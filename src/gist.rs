//! Decides how a package is mirrored against a remote snippet: which state
//! the pair is in, what to send, which remote file to take, what to write.

use crate::transcode::{default_manifest, replace_cargo_lang_code_with_default, transcoded};
use crate::text::{opt_str, str_eq};
use crate::Failure;
use std::path::Path;
use vstd::prelude::*;

verus! {

broadcast use vstd::seq::group_seq_axioms;

/// A remote record as fetched: its id, the source it holds, its description.
#[derive(Clone, Debug)]
pub struct RemoteRecord {
    pub id: String,
    pub code: String,
    pub description: String,
}

/// Where a local package stands against its remote copy.
#[derive(Clone, Debug)]
pub enum PushState {
    /// The remote copy holds the local source and description.
    UpToDate,
    /// The remote copy differs: its id, source and description.
    Forward { gist_id: String, remote_code: String, remote_description: String },
    /// No remote copy is registered for the package.
    NotExist,
}

/// What to send to the remote store.
#[derive(Clone, Debug)]
pub enum PushAction {
    Nothing,
    /// Update the record `gist_id`.
    Patch { gist_id: String, filename: String, description: String, content: String },
    /// Create a new record.
    Post { filename: String, description: String, content: String, public: bool },
}

/// The remote copy matches: same source, and the same description where one
/// is given.
pub open spec fn up_to_date(
    local: Seq<char>,
    description: Option<Seq<char>>,
    remote_code: Seq<char>,
    remote_description: Seq<char>,
) -> bool {
    local == remote_code && match description {
        Some(d) => d == remote_description,
        None => true,
    }
}

/// Picks the state: `NotExist` without a remote record, `UpToDate` where the
/// record holds the local source and description, `Forward` otherwise.
pub fn push_state(remote: Option<RemoteRecord>, local: &str, description: Option<&str>) -> (r: PushState)
    ensures
        match remote {
            None => r is NotExist,
            Some(rec) => if up_to_date(local@, opt_str(description), rec.code@, rec.description@) {
                r is UpToDate
            } else {
                r matches PushState::Forward { gist_id, remote_code, remote_description } && gist_id@
                    == rec.id@ && remote_code@ == rec.code@ && remote_description@
                    == rec.description@
            },
        },
{
    match remote {
        None => PushState::NotExist,
        Some(rec) => {
            let same_desc = match description {
                Some(d) => str_eq(d, rec.description.as_str()),
                None => true,
            };
            if str_eq(local, rec.code.as_str()) && same_desc {
                PushState::UpToDate
            } else {
                PushState::Forward {
                    gist_id: rec.id,
                    remote_code: rec.code,
                    remote_description: rec.description,
                }
            }
        },
    }
}

/// The name of the remote file that holds a package's source.
pub open spec fn filename_of(package: Seq<char>) -> Seq<char> {
    package + seq!['.', 'r', 's']
}

fn filename(package: &str) -> (r: String)
    ensures
        r@ == filename_of(package@),
{
    let mut r = package.to_owned();
    let ext = ".rs";
    proof {
        reveal_strlit(".rs");
    }
    r.append(ext);
    r
}

/// Decides what to send: nothing when up to date, an update of the record
/// when it differs, and a new record only when `set_upstream` allows one.
pub fn push_action(
    state: PushState,
    local: &str,
    package: &str,
    set_upstream: bool,
    private: bool,
    description: Option<&str>,
) -> (r: Result<PushAction, Failure>)
    ensures
        match state {
            PushState::UpToDate => r matches Ok(PushAction::Nothing),
            PushState::Forward { gist_id, remote_code, remote_description } => r matches Ok(
                PushAction::Patch { gist_id: g, filename: f, description: d, content: c },
            ) && g@ == gist_id@ && f@ == filename_of(package@) && c@ == local@ && d@ == match description {
                Some(d) => d@,
                None => remote_description@,
            },
            PushState::NotExist => if !set_upstream {
                r == Err::<PushAction, Failure>(Failure::SetUpstreamRequired)
            } else {
                r matches Ok(PushAction::Post { filename: f, description: d, content: c, public: p })
                    && f@ == filename_of(package@) && c@ == local@ && p == !private && d@ == match description {
                    Some(d) => d@,
                    None => Seq::<char>::empty(),
                }
            },
        },
{
    match state {
        PushState::UpToDate => Ok(PushAction::Nothing),
        PushState::Forward { gist_id, remote_code, remote_description } => {
            let description = match description {
                Some(d) => d.to_owned(),
                None => remote_description,
            };
            Ok(
                PushAction::Patch {
                    gist_id,
                    filename: filename(package),
                    description,
                    content: local.to_owned(),
                },
            )
        },
        PushState::NotExist => {
            if !set_upstream {
                return Err(Failure::SetUpstreamRequired);
            }
            let description = match description {
                Some(d) => d.to_owned(),
                None => String::new(),
            };
            Ok(
                PushAction::Post {
                    filename: filename(package),
                    description,
                    content: local.to_owned(),
                    public: !private,
                },
            )
        },
    }
}

/// The decision of the push path: from the fetched remote record (if one is
/// registered) and the local source, what to send. An up-to-date record gets
/// no request at all, a differing one exactly one update of that record, and
/// a missing one a creation only when `set_upstream` is on (else an error
/// that asks for it, with nothing sent).
pub fn plan_push(
    remote: Option<RemoteRecord>,
    local: &str,
    package: &str,
    set_upstream: bool,
    private: bool,
    description: Option<&str>,
) -> (r: Result<PushAction, Failure>)
    ensures
        match remote {
            Some(rec) => if up_to_date(local@, opt_str(description), rec.code@, rec.description@) {
                r matches Ok(PushAction::Nothing)
            } else {
                r matches Ok(PushAction::Patch { gist_id: g, filename: f, description: d, content: c })
                    && g@ == rec.id@ && f@ == filename_of(package@) && c@ == local@ && d@ == match description {
                    Some(d) => d@,
                    None => rec.description@,
                }
            },
            None => if !set_upstream {
                r == Err::<PushAction, Failure>(Failure::SetUpstreamRequired)
            } else {
                r matches Ok(PushAction::Post { filename: f, description: d, content: c, public: p })
                    && f@ == filename_of(package@) && c@ == local@ && p == !private && d@ == match description {
                    Some(d) => d@,
                    None => Seq::<char>::empty(),
                }
            },
        },
{
    let state = push_state(remote, local, description);
    push_action(state, local, package, set_upstream, private, description)
}

/// Fails unless the store answered with the status that the request expects.
pub fn check_status(expected: u16, actual: u16) -> (r: Result<(), Failure>)
    ensures
        r is Ok <==> expected == actual,
        r is Err ==> r == Err::<(), Failure>(Failure::UnexpectedStatus { expected, actual }),
{
    if expected == actual {
        Ok(())
    } else {
        Err(Failure::UnexpectedStatus { expected, actual })
    }
}

/// One file of a remote record.
#[derive(Clone, Debug)]
pub struct RemoteFile {
    pub filename: String,
    pub truncated: bool,
    pub content: String,
}

/// The extension of a file name as `Path::extension` reads it.
pub uninterp spec fn extension_of(name: Seq<char>) -> Option<Seq<char>>;

/// Relies on `Path::extension`: the part of the file name after its last dot.
#[verifier::external_body]
fn extension(name: &str) -> (r: Option<String>)
    ensures
        match r {
            Some(e) => extension_of(name@) == Some(e@),
            None => extension_of(name@) is None,
        },
{
    Path::new(name).extension().map(|e| e.to_string_lossy().into_owned())
}

/// The file holds Rust source: its extension is `rs` or `crs`.
pub open spec fn is_rust_file(name: Seq<char>) -> bool {
    extension_of(name) == Some(seq!['r', 's']) || extension_of(name) == Some(seq!['c', 'r', 's'])
}

fn is_rust_file_exec(name: &str) -> (r: bool)
    ensures
        r == is_rust_file(name@),
{
    match extension(name) {
        Some(e) => {
            let rs = "rs";
            let crs = "crs";
            proof {
                reveal_strlit("rs");
                reveal_strlit("crs");
            }
            let r = str_eq(e.as_str(), rs) || str_eq(e.as_str(), crs);
            assert(rs@ =~= seq!['r', 's']);
            assert(crs@ =~= seq!['c', 'r', 's']);
            r
        },
        None => false,
    }
}

pub open spec fn file_names(files: Seq<RemoteFile>) -> Seq<Seq<char>> {
    files.map_values(|f: RemoteFile| f.filename@)
}

/// The indices of the Rust files among `files`, in order.
pub open spec fn rust_indices(files: Seq<RemoteFile>) -> Seq<int>
    decreases files.len(),
{
    if files.len() == 0 {
        seq![]
    } else if is_rust_file(files.last().filename@) {
        rust_indices(files.drop_last()).push(files.len() - 1)
    } else {
        rust_indices(files.drop_last())
    }
}

/// Takes the one Rust file of a remote record: fails where there are several
/// (naming them) or none, and where the store cut the file short.
pub fn select_rust_file(files: &Vec<RemoteFile>) -> (r: Result<String, Failure>)
    ensures
        ({
            let ix = rust_indices(files@);
            if ix.len() == 0 {
                r == Err::<String, Failure>(Failure::NoRustFiles)
            } else if ix.len() > 1 {
                r matches Err(Failure::MultipleRustFiles(names)) && names@.map_values(|s: String| s@)
                    == ix.map_values(|i: int| files@[i].filename@)
            } else if files@[ix[0]].truncated {
                r matches Err(Failure::Truncated(n)) && n@ == files@[ix[0]].filename@
            } else {
                r matches Ok(c) && c@ == files@[ix[0]].content@
            }
        }),
{
    let mut names: Vec<String> = Vec::new();
    let mut picked: usize = 0;
    let mut i: usize = 0;
    while i < files.len()
        invariant
            i <= files@.len(),
            rust_indices(files@.take(i as int)).len() == names@.len(),
            names@.map_values(|s: String| s@) == rust_indices(files@.take(i as int)).map_values(
                |k: int| files@[k].filename@,
            ),
            names@.len() > 0 ==> picked == rust_indices(files@.take(i as int))[0],
            names@.len() > 0 ==> picked < i,
        decreases files@.len() - i,
    {
        proof {
            assert(files@.take(i + 1).drop_last() =~= files@.take(i as int));
            assert(files@.take(i + 1).last() == files@[i as int]);
        }
        if is_rust_file_exec(files[i].filename.as_str()) {
            if names.len() == 0 {
                picked = i;
            }
            let name = files[i].filename.clone();
            let ghost prev = names@;
            names.push(name);
            proof {
                let ix = rust_indices(files@.take(i + 1));
                let ix0 = rust_indices(files@.take(i as int));
                assert(ix == ix0.push(i as int));
                assert(names@ == prev.push(name));
                assert(names@.map_values(|s: String| s@) =~= prev.map_values(|s: String| s@).push(name@));
                assert(ix.map_values(|k: int| files@[k].filename@) =~= ix0.map_values(|k: int| files@[k].filename@).push(files@[i as int].filename@));
                assert(names@.map_values(|s: String| s@) =~= ix.map_values(|k: int| files@[k].filename@));
            }
        }
        i = i + 1;
    }
    assert(files@.take(files@.len() as int) =~= files@);
    if names.len() == 0 {
        Err(Failure::NoRustFiles)
    } else if names.len() > 1 {
        Err(Failure::MultipleRustFiles(names))
    } else if files[picked].truncated {
        Err(Failure::Truncated(files[picked].filename.clone()))
    } else {
        Ok(files[picked].content.clone())
    }
}

/// What a pull writes: each file whose pulled text differs from the local one.
#[derive(Clone, Debug)]
pub struct PullPlan {
    pub source: Option<String>,
    pub manifest: Option<String>,
}

/// Rebuilds the package form of a pulled script and compares it with the
/// local source and manifest; only files that differ are to be written.
pub fn pull_plan(local_source: &str, local_manifest: &str, pulled: &str) -> (r: Result<
    PullPlan,
    Failure,
>)
    ensures
        match transcoded(pulled@, default_manifest()) {
            None => r matches Err(Failure::Parse(_)),
            Some(None) => r matches Err(Failure::ManifestBlockNotFound(_)),
            Some(Some((code, manifest))) => r matches Ok(p) && (match p.source {
                Some(s) => s@ == code && code != local_source@,
                None => code == local_source@,
            }) && (match p.manifest {
                Some(m) => m@ == manifest && manifest != local_manifest@,
                None => manifest == local_manifest@,
            }),
        },
{
    let (code, manifest) = replace_cargo_lang_code_with_default(pulled)?;
    let source = if str_eq(code.as_str(), local_source) {
        None
    } else {
        Some(code)
    };
    let manifest = if str_eq(manifest.as_str(), local_manifest) {
        None
    } else {
        Some(manifest)
    };
    Ok(PullPlan { source, manifest })
}

} // verus!

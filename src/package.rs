//! Picks the binary target that a package is exported from.

use crate::members::{
    manifest_view, manifest_view_of, parse_manifest, render_manifest, rendered_manifest,
    toml_error_message,
};
use crate::text::{opt_str, opt_view, str_eq};
use crate::Failure;
use toml_edit::Document;
use vstd::prelude::*;

verus! {

broadcast use vstd::seq::group_seq_axioms;

/// A build target of a package: its kinds, its name and its source file.
#[derive(Clone, Debug)]
pub struct BuildTarget {
    pub kinds: Vec<String>,
    pub name: String,
    pub src_path: String,
}

pub open spec fn bin_kind() -> Seq<char> {
    seq!['b', 'i', 'n']
}

/// The target is a binary, and the one that `default-run` names where it is set.
pub open spec fn is_candidate(t: BuildTarget, default_run: Option<Seq<char>>) -> bool {
    (exists|i: int| 0 <= i < t.kinds@.len() && t.kinds@[i]@ == bin_kind()) && match default_run {
        Some(d) => t.name@ == d,
        None => true,
    }
}

/// The indices of the candidates among `targets`, in order.
pub open spec fn candidates(targets: Seq<BuildTarget>, default_run: Option<Seq<char>>) -> Seq<int>
    decreases targets.len(),
{
    if targets.len() == 0 {
        seq![]
    } else if is_candidate(targets.last(), default_run) {
        candidates(targets.drop_last(), default_run).push(targets.len() - 1)
    } else {
        candidates(targets.drop_last(), default_run)
    }
}

proof fn lemma_candidates_len(targets: Seq<BuildTarget>, default_run: Option<Seq<char>>)
    ensures
        candidates(targets, default_run).len() <= targets.len(),
    decreases targets.len(),
{
    if targets.len() > 0 {
        lemma_candidates_len(targets.drop_last(), default_run);
    }
}

fn is_candidate_exec(t: &BuildTarget, default_run: Option<&str>) -> (r: bool)
    ensures
        r == is_candidate(*t, opt_str(default_run)),
{
    let bin = "bin";
    proof {
        reveal_strlit("bin");
    }
    assert(bin@ =~= bin_kind());
    let mut found = false;
    let mut i: usize = 0;
    while i < t.kinds.len()
        invariant
            i <= t.kinds@.len(),
            bin@ == bin_kind(),
            found == exists|j: int| 0 <= j < i && t.kinds@[j]@ == bin_kind(),
        decreases t.kinds@.len() - i,
    {
        if str_eq(t.kinds[i].as_str(), bin) {
            found = true;
        }
        i = i + 1;
    }
    found && match default_run {
        Some(d) => str_eq(t.name.as_str(), d),
        None => true,
    }
}

/// The source file of the one binary target (the one `default-run` names,
/// where set); fails where there is none or more than one.
pub fn select_default_bin(targets: &Vec<BuildTarget>, default_run: Option<&str>) -> (r: Result<
    String,
    Failure,
>)
    ensures
        ({
            let ix = candidates(targets@, opt_str(default_run));
            if ix.len() == 0 {
                r == Err::<String, Failure>(Failure::NoBinTargets)
            } else if ix.len() > 1 {
                r == Err::<String, Failure>(Failure::AmbiguousBinTarget)
            } else {
                r matches Ok(p) && p@ == targets@[ix[0]].src_path@
            }
        }),
{
    let ghost dr = opt_str(default_run);
    let mut count: usize = 0;
    let mut picked: usize = 0;
    let mut i: usize = 0;
    while i < targets.len()
        invariant
            i <= targets@.len(),
            count == candidates(targets@.take(i as int), dr).len(),
            count > 0 ==> picked == candidates(targets@.take(i as int), dr)[0] && picked < i,
            dr == opt_str(default_run),
        decreases targets@.len() - i,
    {
        proof {
            lemma_candidates_len(targets@.take(i as int), dr);
            assert(targets@.take(i + 1).drop_last() =~= targets@.take(i as int));
            assert(targets@.take(i + 1).last() == targets@[i as int]);
        }
        if is_candidate_exec(&targets[i], default_run) {
            proof {
                assert(candidates(targets@.take(i + 1), dr) == candidates(targets@.take(i as int), dr).push(
                    i as int,
                ));
            }
            if count == 0 {
                picked = i;
            }
            count = count + 1;
        } else {
            assert(candidates(targets@.take(i + 1), dr) == candidates(targets@.take(i as int), dr));
        }
        i = i + 1;
    }
    assert(targets@.take(targets@.len() as int) =~= targets@);
    if count == 0 {
        Err(Failure::NoBinTargets)
    } else if count > 1 {
        Err(Failure::AmbiguousBinTarget)
    } else {
        Ok(targets[picked].src_path.clone())
    }
}

/// Relies on `Table::get`, `Item::get` and `Item::as_str`: the value at
/// `package.<key>`, if there is one, as a string.
#[verifier::external_body]
fn package_str(d: &Document, key: &str) -> (r: Option<Option<String>>)
    ensures
        match r {
            None => !manifest_view(*d).package.contains_key(key@),
            Some(v) => manifest_view(*d).package.get(key@) == Some(opt_view(v)),
        },
{
    d.get("package").and_then(|p| p.get(key)).map(|i| i.as_str().map(str::to_owned))
}

/// Relies on indexing a `Document` mutably and on `toml_edit::value`: sets
/// the existing `package.<key>` to a string.
#[verifier::external_body]
fn set_package_str(d: &mut Document, key: &str, value: &str)
    requires
        manifest_view(*old(d)).package.contains_key(key@),
    ensures
        manifest_view(*final(d)).package == manifest_view(*old(d)).package.insert(key@, Some(value@)),
{
    d["package"][key] = toml_edit::value(value);
}

pub open spec fn name_key() -> Seq<char> {
    seq!['n', 'a', 'm', 'e']
}

/// Sets `package.name` of the manifest `text` to `name`; gives the new text
/// and the old name. Fails where the text is not TOML or `package.name` is
/// not a string.
pub fn modify_package_name(text: &str, name: &str) -> (r: Result<(String, String), Failure>)
    ensures
        match manifest_view_of(text@) {
            None => r matches Err(Failure::InvalidManifest(_)),
            Some(v) => match v.package.get(name_key()) {
                Some(Some(old)) => r matches Ok((s, o)) && o@ == old && exists|d: Document|
                    manifest_view(d).package == v.package.insert(name_key(), Some(name@)) && s@
                        == rendered_manifest(d),
                _ => r == Err::<(String, String), Failure>(Failure::PackageNameNotString),
            },
        },
{
    let mut d = match parse_manifest(text) {
        Ok(d) => d,
        Err(e) => return Err(Failure::InvalidManifest(toml_error_message(&e))),
    };
    let key = "name";
    proof {
        reveal_strlit("name");
    }
    assert(key@ =~= name_key());
    let old = match package_str(&d, key) {
        Some(Some(old)) => old,
        _ => return Err(Failure::PackageNameNotString),
    };
    set_package_str(&mut d, key, name);
    Ok((render_manifest(&d), old))
}

} // verus!

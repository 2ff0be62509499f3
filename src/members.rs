//! Keeps the `workspace.members` and `workspace.exclude` lists of a workspace
//! manifest: paths are added once and removed by path equality.

use crate::text::{opt_str, opt_views};
use crate::Failure;
use std::path::Path;
use toml_edit::{Array, Document, TomlError};
use vstd::prelude::*;

verus! {

broadcast use vstd::seq::group_seq_axioms;

#[verifier::external_type_specification]
#[verifier::external_body]
pub struct ExDocument(Document);

#[verifier::external_type_specification]
#[verifier::external_body]
pub struct ExTomlError(TomlError);

/// A list of a manifest: each entry's text, `None` for an entry that is not a string.
pub type Entries = Seq<Option<Seq<char>>>;

/// What the logic reads of a manifest document: the lists under `workspace`
/// by key (`None` for a key whose value is not an array), `None` as a whole
/// where `workspace` is there but is not a table; and the values under
/// `package` by key, as strings (`None` for one that is not a string).
pub struct ManifestView {
    pub workspace: Option<Map<Seq<char>, Option<Entries>>>,
    pub package: Map<Seq<char>, Option<Seq<char>>>,
}

/// What a document holds.
pub uninterp spec fn manifest_view(d: Document) -> ManifestView;

/// The text that a document is written as.
pub uninterp spec fn rendered_manifest(d: Document) -> Seq<char>;

/// What the document that toml_edit reads from `text` holds; `None` where it
/// does not parse.
pub uninterp spec fn manifest_view_of(text: Seq<char>) -> Option<ManifestView>;

pub open spec fn workspace_lists(d: Document) -> Option<Map<Seq<char>, Option<Entries>>> {
    manifest_view(d).workspace
}

pub open spec fn manifest_lists_of(text: Seq<char>) -> Option<Option<Map<Seq<char>, Option<Entries>>>> {
    match manifest_view_of(text) {
        Some(v) => Some(v.workspace),
        None => None,
    }
}

/// Whether two paths name the same place once each is joined to `root`.
pub uninterp spec fn same_path_under(root: Seq<char>, a: Seq<char>, b: Seq<char>) -> bool;

/// `path` relative to `root`, where `root` is a prefix of it by components.
pub uninterp spec fn stripped_path(root: Seq<char>, path: Seq<char>) -> Option<Seq<char>>;

pub open spec fn list_view(r: Option<Option<Vec<Option<String>>>>) -> Option<Option<Entries>> {
    match r {
        Some(Some(v)) => Some(Some(opt_views(v@))),
        Some(None) => Some(None),
        None => None,
    }
}

/// Relies on `str::parse` into `toml_edit::Document`.
#[verifier::external_body]
pub(crate) fn parse_manifest(text: &str) -> (r: Result<Document, TomlError>)
    ensures
        r is Ok <==> manifest_view_of(text@) is Some,
        r matches Ok(d) ==> manifest_view_of(text@) == Some(manifest_view(d)),
{
    text.parse::<Document>()
}

/// Relies on the `Display` of `toml_edit::TomlError`, for the message shown to the user.
#[verifier::external_body]
pub(crate) fn toml_error_message(e: &TomlError) -> String {
    e.to_string()
}

/// Relies on the `Display` of `toml_edit::Document`, which writes the document out.
#[verifier::external_body]
pub(crate) fn render_manifest(d: &Document) -> (r: String)
    ensures
        r@ == rendered_manifest(*d),
{
    d.to_string()
}

/// Relies on `Item::is_table_like`: whether `workspace` is absent or a table.
#[verifier::external_body]
fn workspace_is_table_like(d: &Document) -> (r: bool)
    ensures
        r == (manifest_view(*d).workspace is Some),
{
    d.get("workspace").map_or(true, |w| w.is_table_like())
}

/// Relies on `Item::get` and `Item::as_array`: the list at `workspace.<key>`,
/// each entry as `Value::as_str` reads it.
#[verifier::external_body]
fn lookup_list(d: &Document, key: &str) -> (r: Option<Option<Vec<Option<String>>>>)
    requires
        workspace_lists(*d) is Some,
    ensures
        list_view(r) == workspace_lists(*d)->0.get(key@),
{
    d.get("workspace").and_then(|w| w.get(key)).map(|i| i.as_array().map(|a| a.iter().map(|v| v.as_str().map(str::to_owned)).collect()))
}

/// Relies on `Item::or_insert` and `Array::push`: appends `value` to the list
/// at `workspace.<key>`, which is made empty first where it is missing.
#[verifier::external_body]
fn push_to_list(d: &mut Document, key: &str, value: &str)
    requires
        workspace_lists(*old(d)) matches Some(m) && !(m.get(key@) == Some(None::<Entries>)),
    ensures
        workspace_lists(*final(d)) == Some(
            workspace_lists(*old(d))->0.insert(
                key@,
                Some(
                    match workspace_lists(*old(d))->0.get(key@) {
                        Some(Some(l)) => l,
                        _ => Seq::<Option<Seq<char>>>::empty(),
                    }.push(Some(value@)),
                ),
            ),
        ),
{
    d["workspace"][key].or_insert(toml_edit::value(Array::default())).as_array_mut().map(|a| a.push(value));
}

/// Relies on `Array::remove`: drops entry `i` of the list at `workspace.<key>`.
#[verifier::external_body]
fn remove_from_list(d: &mut Document, key: &str, i: usize)
    requires
        workspace_lists(*old(d)) matches Some(m) && (m.get(key@) matches Some(Some(l)) && i < l.len()),
    ensures
        workspace_lists(*final(d)) == Some(
            workspace_lists(*old(d))->0.insert(
                key@,
                Some(workspace_lists(*old(d))->0.get(key@)->0->0.remove(i as int)),
            ),
        ),
{
    d["workspace"][key].as_array_mut().map(|a| a.remove(i));
}

/// Relies on `Path::join` and the equality of `Path`, which compares by
/// components (so `./x` and `x` are one path); a path equals itself.
#[verifier::external_body]
fn same_path(root: &str, a: &str, b: &str) -> (r: bool)
    ensures
        r == same_path_under(root@, a@, b@),
        a@ == b@ ==> r,
{
    Path::new(root).join(a) == Path::new(root).join(b)
}

/// Relies on `Path::strip_prefix`: what is left of `path` after the
/// components of `root`.
#[verifier::external_body]
fn strip_root(root: &str, path: &str) -> (r: Option<String>)
    ensures
        match r {
            Some(s) => stripped_path(root@, path@) == Some(s@),
            None => stripped_path(root@, path@) is None,
        },
{
    Path::new(path).strip_prefix(root).ok().map(|p| p.to_string_lossy().into_owned())
}

/// `path` relative to the workspace root, where it lies under it.
pub open spec fn relative(root: Seq<char>, path: Seq<char>) -> Seq<char> {
    match stripped_path(root, path) {
        Some(s) => s,
        None => path,
    }
}

/// Entry `i` names the same path as `target`.
pub open spec fn entry_matches(entries: Entries, root: Seq<char>, target: Seq<char>, i: int) -> bool {
    0 <= i < entries.len() && (entries[i] matches Some(s) && same_path_under(root, s, target))
}

pub open spec fn has_same(entries: Entries, root: Seq<char>, target: Seq<char>) -> bool {
    exists|i: int| entry_matches(entries, root, target, i)
}

pub open spec fn is_first_same(entries: Entries, root: Seq<char>, target: Seq<char>, i: int) -> bool {
    entry_matches(entries, root, target, i) && forall|j: int|
        0 <= j < i ==> !entry_matches(entries, root, target, j)
}

/// The first entry that names the same path as `target`.
pub open spec fn first_same(entries: Entries, root: Seq<char>, target: Seq<char>) -> Option<int> {
    if exists|i: int| is_first_same(entries, root, target, i) {
        Some(choose|i: int| is_first_same(entries, root, target, i))
    } else {
        None
    }
}

/// The list with `target` appended, unless it already names that path.
pub open spec fn with_added(entries: Entries, root: Seq<char>, target: Seq<char>) -> Entries {
    if has_same(entries, root, target) {
        entries
    } else {
        entries.push(Some(target))
    }
}

/// The list without the first entry that names the same path as `target`.
pub open spec fn with_removed(entries: Entries, root: Seq<char>, target: Seq<char>) -> Entries {
    match first_same(entries, root, target) {
        Some(i) => entries.remove(i),
        None => entries,
    }
}

/// The list after an optional addition, then an optional removal.
pub open spec fn edited(
    entries: Entries,
    root: Seq<char>,
    add: Option<Seq<char>>,
    rm: Option<Seq<char>>,
) -> Entries {
    let a = match add {
        Some(p) => with_added(entries, root, relative(root, p)),
        None => entries,
    };
    match rm {
        Some(p) => with_removed(a, root, relative(root, p)),
        None => a,
    }
}

/// Finds the first entry that names the same path as `target`.
pub fn position_of_same(entries: &Vec<Option<String>>, root: &str, target: &str) -> (r: Option<
    usize,
>)
    ensures
        match r {
            Some(i) => first_same(opt_views(entries@), root@, target@) == Some(i as int),
            None => first_same(opt_views(entries@), root@, target@) is None && !has_same(
                opt_views(entries@),
                root@,
                target@,
            ),
        },
{
    let ghost ev = opt_views(entries@);
    let mut i: usize = 0;
    while i < entries.len()
        invariant
            i <= entries@.len(),
            ev == opt_views(entries@),
            forall|j: int| 0 <= j < i ==> !entry_matches(ev, root@, target@, j),
        decreases entries@.len() - i,
    {
        let hit = match &entries[i] {
            Some(s) => same_path(root, s.as_str(), target),
            None => false,
        };
        if hit {
            proof {
                assert(is_first_same(ev, root@, target@, i as int));
                let k = choose|k: int| is_first_same(ev, root@, target@, k);
                assert(k == i) by {
                    if k < i {
                    } else if k > i {
                        assert(!entry_matches(ev, root@, target@, i as int));
                    }
                }
            }
            return Some(i);
        }
        i = i + 1;
    }
    None
}

fn relative_exec(root: &str, path: &str) -> (r: String)
    ensures
        r@ == relative(root@, path@),
{
    match strip_root(root, path) {
        Some(s) => s,
        None => path.to_owned(),
    }
}

/// The current list at `key`, where there is one to edit.
pub open spec fn current(m: Map<Seq<char>, Option<Entries>>, key: Seq<char>) -> Option<Entries> {
    match m.get(key) {
        Some(Some(l)) => Some(l),
        Some(None) => None,
        None => Some(Seq::empty()),
    }
}

/// The lists once the list at `key` reads `new` (untouched where unchanged).
pub open spec fn with_list(
    m: Map<Seq<char>, Option<Entries>>,
    key: Seq<char>,
    new: Entries,
) -> Map<Seq<char>, Option<Entries>> {
    if current(m, key) == Some(new) {
        m
    } else {
        m.insert(key, Some(new))
    }
}

/// Whether the edit writes to the list: an addition of a path that is not
/// there yet, or a removal of one that is.
pub open spec fn touched(
    entries: Entries,
    root: Seq<char>,
    add: Option<Seq<char>>,
    rm: Option<Seq<char>>,
) -> bool {
    let adds = match add {
        Some(p) => !has_same(entries, root, relative(root, p)),
        None => false,
    };
    let a = match add {
        Some(p) => with_added(entries, root, relative(root, p)),
        None => entries,
    };
    let removes = match rm {
        Some(p) => has_same(a, root, relative(root, p)),
        None => false,
    };
    adds || removes
}

/// The lists once the list at `key` has been edited.
pub open spec fn after_edit(
    m: Map<Seq<char>, Option<Entries>>,
    key: Seq<char>,
    root: Seq<char>,
    add: Option<Seq<char>>,
    rm: Option<Seq<char>>,
) -> Map<Seq<char>, Option<Entries>> {
    let l = current(m, key)->0;
    if touched(l, root, add, rm) {
        m.insert(key, Some(edited(l, root, add, rm)))
    } else {
        m
    }
}

/// Edits the list at `workspace.<key>`; fails where its value is not an
/// array. Tells whether the document was written to.
fn edit_list(
    d: &mut Document,
    key: &str,
    root: &str,
    add: Option<&str>,
    rm: Option<&str>,
) -> (r: Result<bool, Failure>)
    requires
        workspace_lists(*old(d)) is Some,
    ensures
        match current(workspace_lists(*old(d))->0, key@) {
            None => r matches Err(Failure::NotAnArray(k)) && k@ == key@,
            Some(l) => {
                &&& r == Ok::<bool, Failure>(touched(l, root@, opt_str(add), opt_str(rm)))
                &&& !touched(l, root@, opt_str(add), opt_str(rm)) ==> edited(
                    l,
                    root@,
                    opt_str(add),
                    opt_str(rm),
                ) == l
                &&& workspace_lists(*final(d)) == Some(
                    after_edit(workspace_lists(*old(d))->0, key@, root@, opt_str(add), opt_str(rm)),
                )
            },
        },
{
    let mut entries = match lookup_list(d, key) {
        None => Vec::new(),
        Some(None) => return Err(Failure::NotAnArray(key.to_owned())),
        Some(Some(l)) => l,
    };
    let ghost m0 = workspace_lists(*d)->0;
    let ghost l0 = opt_views(entries@);
    assert(l0 =~= current(m0, key@)->0);
    let mut adds = false;
    match add {
        Some(p) => {
            let rel = relative_exec(root, p);
            match position_of_same(&entries, root, rel.as_str()) {
                Some(_) => {},
                None => {
                    push_to_list(d, key, rel.as_str());
                    entries.push(Some(rel));
                    adds = true;
                    assert(opt_views(entries@) =~= l0.push(Some(rel@)));
                },
            }
        },
        None => {},
    }
    let ghost l1 = opt_views(entries@);
    assert(l1 == match opt_str(add) {
        Some(p) => with_added(l0, root@, relative(root@, p)),
        None => l0,
    });
    assert(adds ==> workspace_lists(*d) == Some(m0.insert(key@, Some(l1))));
    assert(!adds ==> workspace_lists(*d) == Some(m0) && l1 == l0);
    let mut removes = false;
    match rm {
        Some(p) => {
            let rel = relative_exec(root, p);
            match position_of_same(&entries, root, rel.as_str()) {
                Some(i) => {
                    proof {
                        let k = choose|k: int| is_first_same(l1, root@, rel@, k);
                        assert(entry_matches(l1, root@, rel@, k));
                    }
                    remove_from_list(d, key, i);
                    entries.remove(i);
                    removes = true;
                    assert(opt_views(entries@) =~= l1.remove(i as int));
                },
                None => {},
            }
        },
        None => {},
    }
    proof {
        assert(opt_views(entries@) == edited(l0, root@, opt_str(add), opt_str(rm)));
        assert((adds || removes) == touched(l0, root@, opt_str(add), opt_str(rm)));
        if adds && removes {
            assert(m0.insert(key@, Some(l1)).insert(key@, Some(opt_views(entries@))) =~= m0.insert(
                key@,
                Some(opt_views(entries@)),
            ));
        }
    }
    Ok(adds || removes)
}

/// The key of the member list.
pub open spec fn members_key() -> Seq<char> {
    seq!['m', 'e', 'm', 'b', 'e', 'r', 's']
}

/// The key of the exclude list.
pub open spec fn exclude_key() -> Seq<char> {
    seq!['e', 'x', 'c', 'l', 'u', 'd', 'e']
}

/// Adds paths to and removes paths from the `members` and `exclude` lists of
/// the workspace manifest `text` whose directory is `root`, and gives the
/// text to write back: the same text where no list changes.
pub fn modify_members(
    root: &str,
    text: &str,
    add_member: Option<&str>,
    add_exclude: Option<&str>,
    rm_member: Option<&str>,
    rm_exclude: Option<&str>,
) -> (r: Result<String, Failure>)
    ensures
        match manifest_lists_of(text@) {
            None => r matches Err(Failure::InvalidManifest(_)),
            Some(None) => r matches Err(Failure::NotAnArray(k)) && k@ == members_key(),
            Some(Some(m)) => match (current(m, members_key()), current(m, exclude_key())) {
                (None, _) => r matches Err(Failure::NotAnArray(k)) && k@ == members_key(),
                (Some(_), None) => r matches Err(Failure::NotAnArray(k)) && k@ == exclude_key(),
                (Some(lm), Some(le)) => {
                    let tm = touched(lm, root@, opt_str(add_member), opt_str(rm_member));
                    let te = touched(le, root@, opt_str(add_exclude), opt_str(rm_exclude));
                    let m2 = after_edit(
                        after_edit(m, members_key(), root@, opt_str(add_member), opt_str(rm_member)),
                        exclude_key(),
                        root@,
                        opt_str(add_exclude),
                        opt_str(rm_exclude),
                    );
                    r matches Ok(s) && if tm || te {
                        exists|d: Document|
                            workspace_lists(d) == Some(m2) && s@ == rendered_manifest(d)
                    } else {
                        s@ == text@
                    }
                },
            },
        },
{
    let mut d = match parse_manifest(text) {
        Ok(d) => d,
        Err(e) => return Err(Failure::InvalidManifest(toml_error_message(&e))),
    };
    let members = "members";
    let exclude = "exclude";
    proof {
        reveal_strlit("members");
        reveal_strlit("exclude");
        assert(members@ =~= members_key());
        assert(exclude@ =~= exclude_key());
    }
    if !workspace_is_table_like(&d) {
        return Err(Failure::NotAnArray(members.to_owned()));
    }
    let ghost m = workspace_lists(d)->0;
    let tm = edit_list(&mut d, members, root, add_member, rm_member)?;
    proof {
        let m1 = after_edit(m, members_key(), root@, opt_str(add_member), opt_str(rm_member));
        assert(current(m1, exclude_key()) == current(m, exclude_key()));
    }
    let te = edit_list(&mut d, exclude, root, add_exclude, rm_exclude)?;
    if tm || te {
        Ok(render_manifest(&d))
    } else {
        Ok(text.to_owned())
    }
}

/// Adding a path that a list already names leaves the list as it is, and so
/// does removing a path that it does not name.
pub proof fn lemma_membership_edits_idempotent(entries: Entries, root: Seq<char>, target: Seq<char>)
    ensures
        has_same(entries, root, target) ==> with_added(entries, root, target) == entries,
        !has_same(entries, root, target) ==> with_removed(entries, root, target) == entries,
{
    if !has_same(entries, root, target) {
        assert(!exists|i: int| is_first_same(entries, root, target, i));
    }
}

} // verus!

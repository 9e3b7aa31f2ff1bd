//! Skills live as markdown files under `<workspace_root>/.skills/<skill_id>/`:
//! where a skill's directory is, which of its files are read, and in what order.
use vstd::prelude::*;

use crate::paths::{path_join, path_join_spec};
use crate::text::{chars_le, ends_with, has_suffix, lemma_chars_le_total, lemma_chars_le_trans, nonblank, nonblank_str, str_le, views};
use crate::wire::LoadSkills;

verus! {

/// Errors from loading skills.
#[derive(Clone, Debug, PartialEq)]
pub enum SkillsError {
    MissingWorkspaceRoot,
    MissingSkillId,
    SkillDirNotFound(String),
    SkillPathNotDir(String),
    Io { path: String, message: String },
}

/// The skills module's error, by its short name.
pub type Error = SkillsError;

pub open spec fn skills_error_text(e: SkillsError) -> Seq<char> {
    match e {
        SkillsError::MissingWorkspaceRoot => "workspace_root is required"@,
        SkillsError::MissingSkillId => "skill_id is required"@,
        SkillsError::SkillDirNotFound(p) => "skill directory not found: "@ + p@,
        SkillsError::SkillPathNotDir(p) => "skill path is not a directory: "@ + p@,
        SkillsError::Io { path, message } => "io error at "@ + path@ + ": "@ + message@,
    }
}

impl SkillsError {
    pub fn to_string(&self) -> (r: String)
        ensures
            r@ == skills_error_text(*self),
    {
        match self {
            SkillsError::MissingWorkspaceRoot => String::from_str("workspace_root is required"),
            SkillsError::MissingSkillId => String::from_str("skill_id is required"),
            SkillsError::SkillDirNotFound(p) => {
                let mut out = String::from_str("skill directory not found: ");
                out.append(p.as_str());
                out
            },
            SkillsError::SkillPathNotDir(p) => {
                let mut out = String::from_str("skill path is not a directory: ");
                out.append(p.as_str());
                out
            },
            SkillsError::Io { path, message } => {
                let mut out = String::from_str("io error at ");
                out.append(path.as_str());
                out.append(": ");
                out.append(message.as_str());
                out
            },
        }
    }
}

/// Where a skill is read from.
#[derive(Clone, Debug, PartialEq)]
pub struct SkillLocation {
    /// The trimmed skill id.
    pub skill_id: String,
    /// `<workspace_root>/.skills/<skill_id>`.
    pub skill_dir: String,
}

/// The directory of the skill that `params` asks for. The workspace root and
/// the skill id must both be non-blank (the root is checked first).
pub fn skill_location(params: &LoadSkills) -> (r: Result<SkillLocation, SkillsError>)
    ensures
        nonblank(params.workspace_root) is None ==> r == Err::<SkillLocation, SkillsError>(
            SkillsError::MissingWorkspaceRoot,
        ),
        nonblank(params.workspace_root) is Some && nonblank(params.skill_id) is None ==> r == Err::<
            SkillLocation,
            SkillsError,
        >(SkillsError::MissingSkillId),
        nonblank(params.workspace_root) is Some && nonblank(params.skill_id) is Some ==> (r matches Ok(loc)
            && loc.skill_id@ == nonblank(params.skill_id)->0 && loc.skill_dir@ == path_join_spec(
            path_join_spec(nonblank(params.workspace_root)->0, ".skills"@),
            nonblank(params.skill_id)->0,
        )),
{
    let root = match nonblank_str(&params.workspace_root) {
        Some(w) => w,
        None => {
            return Err(SkillsError::MissingWorkspaceRoot);
        },
    };
    let skill_id = match nonblank_str(&params.skill_id) {
        Some(s) => s,
        None => {
            return Err(SkillsError::MissingSkillId);
        },
    };
    let skills_root = path_join(root, ".skills");
    let skill_dir = path_join(skills_root.as_str(), skill_id);
    Ok(SkillLocation { skill_id: String::from_str(skill_id), skill_dir })
}

/// What the directory found at a skill's location must be: present, and a
/// directory (checked in that order).
pub fn check_skill_dir(location: &SkillLocation, exists: bool, is_dir: bool) -> (r: Result<(), SkillsError>)
    ensures
        !exists ==> (r matches Err(SkillsError::SkillDirNotFound(p)) && p@ == location.skill_dir@),
        exists && !is_dir ==> (r matches Err(SkillsError::SkillPathNotDir(p)) && p@ == location.skill_dir@),
        exists && is_dir ==> r is Ok,
{
    if !exists {
        return Err(SkillsError::SkillDirNotFound(location.skill_dir.clone()));
    }
    if !is_dir {
        return Err(SkillsError::SkillPathNotDir(location.skill_dir.clone()));
    }
    Ok(())
}

pub open spec fn is_markdown(name: Seq<char>) -> bool {
    has_suffix(name, ".md"@)
}

pub open spec fn sorted_names(s: Seq<Seq<char>>) -> bool {
    forall|i: int, j: int| 0 <= i < j < s.len() ==> chars_le(s[i], s[j])
}

/// `names` in lexicographic (byte) order.
pub fn sort_names(names: Vec<String>) -> (r: Vec<String>)
    ensures
        views(r@).to_multiset() == views(names@).to_multiset(),
        sorted_names(views(r@)),
{
    broadcast use vstd::seq_lib::group_to_multiset_ensures, vstd::multiset::group_multiset_axioms;

    let mut out: Vec<String> = Vec::new();
    let mut rest = names;
    let ghost all = views(rest@);
    assert(views(out@).to_multiset() =~= vstd::multiset::Multiset::empty());
    while rest.len() > 0
        invariant
            views(out@).to_multiset().add(views(rest@).to_multiset()) == all.to_multiset(),
            sorted_names(views(out@)),
        decreases rest@.len(),
    {
        let ghost before_rest = rest@;
        let x = rest.pop().unwrap();
        assert(views(before_rest) =~= views(rest@).push(x@));
        let len = out.len();
        let mut pos: usize = 0;
        while pos < len && str_le(out[pos].as_str(), x.as_str())
            invariant
                len == out@.len(),
                pos <= len,
                sorted_names(views(out@)),
                forall|j: int| 0 <= j < pos ==> chars_le(out@[j]@, x@),
            decreases len - pos,
        {
            pos += 1;
        }
        let ghost old_out = views(out@);
        proof {
            assert forall|j: int| pos <= j < len implies chars_le(x@, #[trigger] old_out[j]) by {
                lemma_chars_le_total(old_out[pos as int], x@);
                if j > pos {
                    lemma_chars_le_trans(x@, old_out[pos as int], old_out[j]);
                }
            }
        }
        out.insert(pos, x);
        proof {
            assert(views(out@) =~= old_out.insert(pos as int, x@));
            let nv = views(out@);
            assert forall|a: int, b: int| 0 <= a < b < nv.len() implies chars_le(nv[a], nv[b]) by {
                if b < pos {
                } else if b == pos {
                    assert(chars_le(out@[a]@, x@));
                } else if a < pos {
                    assert(chars_le(old_out[a], x@));
                    lemma_chars_le_trans(old_out[a], x@, old_out[b - 1]);
                } else if a == pos {
                } else {
                }
            }
            vstd::seq_lib::to_multiset_insert(old_out, pos as int, x@);
            vstd::seq_lib::to_multiset_build(views(rest@), x@);
            assert(views(out@).to_multiset().add(views(rest@).to_multiset()) =~= all.to_multiset());
        }
    }
    out
}

/// The markdown files of a skill directory, in byte order of their names.
pub fn markdown_files(names: Vec<String>) -> (r: Vec<String>)
    ensures
        views(r@).to_multiset() == views(names@).filter(|n: Seq<char>| is_markdown(n)).to_multiset(),
        sorted_names(views(r@)),
{
    let mut picked: Vec<String> = Vec::new();
    let ghost all = views(names@);
    let mut rest = names;
    let mut source: Vec<String> = Vec::new();
    while rest.len() > 0
        invariant
            views(source@) + views(rest@) == all,
            views(picked@) == views(source@).filter(|n: Seq<char>| is_markdown(n)),
        decreases rest@.len(),
    {
        let ghost prev = views(source@);
        let ghost prev_rest = rest@;
        let x = rest.remove(0);
        assert(views(prev_rest) =~= seq![x@] + views(rest@));
        if ends_with(x.as_str(), ".md") {
            picked.push(x.clone());
        }
        source.push(x);
        proof {
            assert(views(source@) =~= prev.push(x@));
            assert(views(source@) + views(rest@) =~= all);
            reveal_with_fuel(Seq::filter, 1);
            assert(views(source@).drop_last() =~= prev);
            if is_markdown(x@) {
                assert(views(picked@) =~= prev.filter(|n: Seq<char>| is_markdown(n)).push(x@));
            }
        }
    }
    assert(views(source@) =~= all);
    sort_names(picked)
}

} // verus!

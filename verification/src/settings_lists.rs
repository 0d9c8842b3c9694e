use vstd::prelude::*;
use crate::settings::{ascii_lower, ascii_lower_char, ascii_lowercased};
use crate::text::chars_of;
use crate::theme::same_text;

verus! {

/// The folders searched for agent skills: those of the project and those
/// for every project.
pub struct SkillPaths {
    pub project_paths: Vec<String>,
    pub global_paths: Vec<String>,
}

/// The list that a skill-path kind names.
pub enum SkillKind {
    Project,
    Global,
}

/// The skill-path kind named `kind` (`"project"` or `"global"`).
pub open spec fn skill_kind_of(kind: Seq<char>) -> Option<SkillKind> {
    if kind == "project"@ {
        Some(SkillKind::Project)
    } else if kind == "global"@ {
        Some(SkillKind::Global)
    } else {
        None
    }
}

/// `paths` with `path` added at the end unless it is there already.
pub open spec fn with_path(paths: Seq<String>, path: Seq<char>) -> Seq<Seq<char>> {
    let texts = paths.map_values(|p: String| p@);
    if texts.contains(path) {
        texts
    } else {
        texts.push(path)
    }
}

fn add_unique(paths: &mut Vec<String>, path: &str)
    ensures
        final(paths)@.map_values(|p: String| p@) == with_path(old(paths)@, path@),
{
    let ghost texts = paths@.map_values(|p: String| p@);
    let mut i: usize = 0;
    while i < paths.len()
        invariant
            i <= paths@.len(),
            paths@ == old(paths)@,
            texts == paths@.map_values(|p: String| p@),
            forall|j: int| 0 <= j < i ==> texts[j] != path@,
        decreases paths@.len() - i,
    {
        if same_text(paths[i].as_str(), path) {
            proof {
                assert(texts[i as int] == path@);
            }
            return;
        }
        i = i + 1;
    }
    paths.push(path.to_owned());
    proof {
        assert(!texts.contains(path@));
        assert(paths@.map_values(|p: String| p@) =~= texts.push(path@));
    }
}

impl SkillPaths {
    /// Adds `path` to the list named `kind` unless it is there; an unknown
    /// kind changes nothing.
    pub fn add_skill_path(&mut self, kind: &str, path: &str)
        ensures
            match skill_kind_of(kind@) {
                Some(SkillKind::Project) => {
                    &&& final(self).project_paths@.map_values(|p: String| p@) == with_path(old(self).project_paths@, path@)
                    &&& final(self).global_paths@ == old(self).global_paths@
                },
                Some(SkillKind::Global) => {
                    &&& final(self).global_paths@.map_values(|p: String| p@) == with_path(old(self).global_paths@, path@)
                    &&& final(self).project_paths@ == old(self).project_paths@
                },
                None => final(self).project_paths@ == old(self).project_paths@ && final(self).global_paths@ == old(
                    self,
                ).global_paths@,
            },
    {
        proof {
            reveal_strlit("project");
            reveal_strlit("global");
        }
        if same_text(kind, "project") {
            add_unique(&mut self.project_paths, path);
        } else if same_text(kind, "global") {
            add_unique(&mut self.global_paths, path);
        }
    }

    /// Removes entry `idx` of the list named `kind`, when there is one.
    pub fn remove_skill_path(&mut self, kind: &str, idx: usize)
        ensures
            match skill_kind_of(kind@) {
                Some(SkillKind::Project) => {
                    &&& final(self).project_paths@ == (if idx < old(self).project_paths@.len() {
                        old(self).project_paths@.remove(idx as int)
                    } else {
                        old(self).project_paths@
                    })
                    &&& final(self).global_paths@ == old(self).global_paths@
                },
                Some(SkillKind::Global) => {
                    &&& final(self).global_paths@ == (if idx < old(self).global_paths@.len() {
                        old(self).global_paths@.remove(idx as int)
                    } else {
                        old(self).global_paths@
                    })
                    &&& final(self).project_paths@ == old(self).project_paths@
                },
                None => final(self).project_paths@ == old(self).project_paths@ && final(self).global_paths@ == old(
                    self,
                ).global_paths@,
            },
    {
        proof {
            reveal_strlit("project");
            reveal_strlit("global");
        }
        if same_text(kind, "project") {
            if idx < self.project_paths.len() {
                self.project_paths.remove(idx);
            }
        } else if same_text(kind, "global") {
            if idx < self.global_paths.len() {
                self.global_paths.remove(idx);
            }
        }
    }
}

/// The fallback fonts once entry `index` moves by `offset` places: the two
/// entries swap when both places exist, else nothing moves.
pub open spec fn moved_fallbacks(fallbacks: Seq<String>, index: int, offset: int) -> Seq<String> {
    let target = index + offset;
    if index < fallbacks.len() && 0 <= target < fallbacks.len() {
        fallbacks.update(index, fallbacks[target]).update(target, fallbacks[index])
    } else {
        fallbacks
    }
}

/// Moves fallback font `index` up (`offset` -1) or down (+1) the list.
pub fn move_terminal_fallback(fallbacks: &mut Vec<String>, index: usize, offset: isize)
    requires
        index <= isize::MAX,
        isize::MIN <= index + offset <= isize::MAX,
    ensures
        final(fallbacks)@ == moved_fallbacks(old(fallbacks)@, index as int, offset as int),
{
    let target = index as isize + offset;
    if index < fallbacks.len() && target >= 0 && (target as usize) < fallbacks.len() {
        let t = target as usize;
        let a = fallbacks[index].clone();
        let b = fallbacks[t].clone();
        fallbacks.set(index, b);
        fallbacks.set(t, a);
    }
}

/// Removes fallback font `index`, when there is one.
pub fn remove_terminal_fallback(fallbacks: &mut Vec<String>, index: usize) -> (r: bool)
    ensures
        r == (index < old(fallbacks)@.len()),
        final(fallbacks)@ == (if r { old(fallbacks)@.remove(index as int) } else { old(fallbacks)@ }),
{
    if index < fallbacks.len() {
        fallbacks.remove(index);
        true
    } else {
        false
    }
}

/// `str::eq_ignore_ascii_case`: equal once ASCII letters are lowered.
pub open spec fn same_ignoring_ascii_case(a: Seq<char>, b: Seq<char>) -> bool {
    ascii_lowercased(a) == ascii_lowercased(b)
}

/// Whether `a` and `b` are equal up to the case of ASCII letters.
pub fn eq_ignore_ascii_case(a: &str, b: &str) -> (r: bool)
    ensures
        r == same_ignoring_ascii_case(a@, b@),
{
    let x = chars_of(a);
    let y = chars_of(b);
    if x.len() != y.len() {
        proof {
            assert(ascii_lowercased(a@).len() != ascii_lowercased(b@).len());
        }
        return false;
    }
    let mut i: usize = 0;
    while i < x.len()
        invariant
            x@ == a@,
            y@ == b@,
            x@.len() == y@.len(),
            i <= x@.len(),
            forall|j: int| 0 <= j < i ==> ascii_lower(x@[j]) == ascii_lower(y@[j]),
        decreases x@.len() - i,
    {
        if ascii_lower_char(x[i]) != ascii_lower_char(y[i]) {
            proof {
                assert(ascii_lowercased(a@)[i as int] != ascii_lowercased(b@)[i as int]);
            }
            return false;
        }
        i = i + 1;
    }
    proof {
        assert(ascii_lowercased(a@) =~= ascii_lowercased(b@));
    }
    true
}

/// Whether `family` may be offered as a fallback: not the terminal font,
/// not bundled, and not a fallback already (case of ASCII letters ignored).
pub open spec fn is_fallback_candidate(family: Seq<char>, font_family: Seq<char>, fallbacks: Seq<String>, bundled: bool) -> bool {
    &&& !same_ignoring_ascii_case(family, font_family)
    &&& !bundled
    &&& forall|j: int| 0 <= j < fallbacks.len() ==> !same_ignoring_ascii_case(#[trigger] fallbacks[j]@, family)
}

/// The candidates of `families[..k]`, in order.
pub open spec fn candidates_upto(
    families: Seq<String>,
    bundled: Seq<bool>,
    font_family: Seq<char>,
    fallbacks: Seq<String>,
    k: int,
) -> Seq<Seq<char>>
    decreases k,
{
    if k <= 0 {
        Seq::empty()
    } else {
        let before = candidates_upto(families, bundled, font_family, fallbacks, k - 1);
        if is_fallback_candidate(families[k - 1]@, font_family, fallbacks, bundled[k - 1]) {
            before.push(families[k - 1]@)
        } else {
            before
        }
    }
}

fn is_fallback(fallbacks: &Vec<String>, family: &str) -> (r: bool)
    ensures
        r == exists|j: int| 0 <= j < fallbacks@.len() && same_ignoring_ascii_case(#[trigger] fallbacks@[j]@, family@),
{
    let mut i: usize = 0;
    while i < fallbacks.len()
        invariant
            i <= fallbacks@.len(),
            forall|j: int| 0 <= j < i ==> !same_ignoring_ascii_case(#[trigger] fallbacks@[j]@, family@),
        decreases fallbacks@.len() - i,
    {
        if eq_ignore_ascii_case(fallbacks[i].as_str(), family) {
            return true;
        }
        i = i + 1;
    }
    false
}

/// The fonts offered to add as a fallback: of `families`, in order, those
/// that are not the terminal font, not bundled (`bundled[i]` for
/// `families[i]`) and not already a fallback, case of ASCII letters ignored.
pub fn fallback_candidates(
    families: &Vec<String>,
    bundled: &Vec<bool>,
    font_family: &str,
    fallbacks: &Vec<String>,
) -> (r: Vec<String>)
    requires
        bundled@.len() == families@.len(),
    ensures
        r@.map_values(|s: String| s@) == candidates_upto(families@, bundled@, font_family@, fallbacks@, families@.len() as int),
{
    let mut r: Vec<String> = Vec::new();
    let mut i: usize = 0;
    while i < families.len()
        invariant
            i <= families@.len(),
            bundled@.len() == families@.len(),
            r@.map_values(|s: String| s@) == candidates_upto(families@, bundled@, font_family@, fallbacks@, i as int),
        decreases families@.len() - i,
    {
        let family = families[i].as_str();
        let ghost before = r@.map_values(|s: String| s@);
        if !eq_ignore_ascii_case(family, font_family) && !bundled[i] && !is_fallback(fallbacks, family) {
            r.push(families[i].clone());
            proof {
                assert(r@.map_values(|s: String| s@) =~= before.push(families@[i as int]@));
            }
        }
        i = i + 1;
    }
    r
}

} // verus!

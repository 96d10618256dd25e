//! Tree-mode extraction planning.
//!
//! For every entry of a zip snapshot the stored path is split into
//! components; entries with at most one component are skipped (they are the
//! archive's synthetic top-level wrapper directory), entries whose path is
//! absolute or contains an unsafe component — a parent-directory segment, or
//! a backslash or drive-prefix colon that a Windows path join would
//! re-interpret — are skipped, and every other entry is remapped under the
//! destination root with the first component dropped. Unlike binary-locate
//! mode, every entry is processed.
//!
//! The plan computed here is pure; the surrounding application creates the
//! directories and writes the files it lists.

use vstd::prelude::*;

use crate::archive::{entries_model, read_zip_entries, zip_entries_of, ArchiveEntry, EntryModel};
use crate::byteseq::{bytes_eq, copy_bytes};

verus! {

/// The path separator byte `/`.
pub open spec fn slash_byte() -> u8 {
    47u8
}

/// The current-directory segment `.`.
pub open spec fn dot_segment() -> Seq<u8> {
    seq![46u8]
}

/// The parent-directory segment `..`.
pub open spec fn dotdot_segment() -> Seq<u8> {
    seq![46u8, 46u8]
}

/// One step of the extraction plan, with the destination path given as
/// components relative to the destination root.
pub enum TreeAction {
    MakeDir { path: Vec<Vec<u8>> },
    WriteFile { path: Vec<Vec<u8>>, data: Vec<u8>, unix_mode: Option<u32> },
}

/// Model of one step: paths and contents as sequences.
pub enum TreeActionModel {
    MakeDir { path: Seq<Seq<u8>> },
    WriteFile { path: Seq<Seq<u8>>, data: Seq<u8>, unix_mode: Option<u32> },
}

/// The model of a step.
pub open spec fn action_model(a: TreeAction) -> TreeActionModel {
    match a {
        TreeAction::MakeDir { path } => TreeActionModel::MakeDir {
            path: path@.map_values(|c: Vec<u8>| c@),
        },
        TreeAction::WriteFile { path, data, unix_mode } => TreeActionModel::WriteFile {
            path: path@.map_values(|c: Vec<u8>| c@),
            data: data@,
            unix_mode,
        },
    }
}

/// The model of a plan.
pub open spec fn actions_model(acts: Seq<TreeAction>) -> Seq<TreeActionModel> {
    acts.map_values(|a: TreeAction| action_model(a))
}

/// The destination path of a step.
pub open spec fn action_path(a: TreeActionModel) -> Seq<Seq<u8>> {
    match a {
        TreeActionModel::MakeDir { path } => path,
        TreeActionModel::WriteFile { path, .. } => path,
    }
}

/// `segs` with the first segment of `first` prefixed onto its first element.
pub open spec fn prefix_first(c: Seq<u8>, segs: Seq<Seq<u8>>) -> Seq<Seq<u8>> {
    if segs.len() == 0 {
        seq![c]
    } else {
        seq![c + segs[0]] + segs.drop_first()
    }
}

/// The segments of `s` split on the path separator, empty segments included.
pub open spec fn split_path(s: Seq<u8>) -> Seq<Seq<u8>>
    decreases s.len(),
{
    if s.len() == 0 {
        seq![Seq::<u8>::empty()]
    } else if s[0] == slash_byte() {
        seq![Seq::<u8>::empty()] + split_path(s.drop_first())
    } else {
        prefix_first(seq![s[0]], split_path(s.drop_first()))
    }
}

/// Whether a split segment is kept as a path component: empty segments and
/// current-directory segments are dropped, as path normalization drops them.
pub open spec fn keep_segment(c: Seq<u8>) -> bool {
    c.len() > 0 && c != dot_segment()
}

/// The kept components of a segment list.
pub open spec fn clean_components(cs: Seq<Seq<u8>>) -> Seq<Seq<u8>>
    decreases cs.len(),
{
    if cs.len() == 0 {
        Seq::empty()
    } else if keep_segment(cs[0]) {
        seq![cs[0]] + clean_components(cs.drop_first())
    } else {
        clean_components(cs.drop_first())
    }
}

/// The backslash byte, the path separator of the other convention. A
/// component holding one would be re-split by a Windows path join, so it is
/// never allowed through.
pub open spec fn backslash_byte() -> u8 {
    92u8
}

/// The colon byte, which introduces a drive prefix on Windows.
pub open spec fn colon_byte() -> u8 {
    58u8
}

/// Whether a component could escape the destination when joined onto it on
/// any host: a parent-directory segment, or one holding a backslash (a
/// separator under the other convention) or a colon (a drive prefix).
pub open spec fn unsafe_component(c: Seq<u8>) -> bool {
    c == dotdot_segment() || c.contains(backslash_byte()) || c.contains(colon_byte())
}

/// Whether a component list contains an unsafe component.
pub open spec fn has_unsafe_component(cs: Seq<Seq<u8>>) -> bool {
    exists|k: int| 0 <= k < cs.len() && unsafe_component(cs[k])
}

/// Whether the stored path marks a directory entry (it ends with the path
/// separator).
pub open spec fn is_dir_path(p: Seq<u8>) -> bool {
    p.len() > 0 && p[p.len() - 1] == slash_byte()
}

/// Whether the stored path is absolute (it starts with the path separator).
pub open spec fn is_absolute_path(p: Seq<u8>) -> bool {
    p.len() > 0 && p[0] == slash_byte()
}

/// The plan step an entry contributes, if any: skipped when its path is
/// absolute, contains an unsafe component (a parent-directory segment, a
/// backslash or a drive-prefix colon), or has at most one component after
/// cleaning; otherwise remapped with the first component dropped, as a
/// directory or a file according to the stored path.
pub open spec fn spec_entry_action(m: EntryModel) -> Option<TreeActionModel> {
    let cs = clean_components(split_path(m.0));
    if is_absolute_path(m.0) || has_unsafe_component(cs) || cs.len() <= 1 {
        None
    } else if is_dir_path(m.0) {
        Some(TreeActionModel::MakeDir { path: cs.drop_first() })
    } else {
        Some(TreeActionModel::WriteFile { path: cs.drop_first(), data: m.1, unix_mode: m.2 })
    }
}

/// The full plan for an entry list, in entry order.
pub open spec fn spec_tree_plan(ms: Seq<EntryModel>) -> Seq<TreeActionModel>
    decreases ms.len(),
{
    if ms.len() == 0 {
        Seq::empty()
    } else {
        match spec_entry_action(ms[0]) {
            Some(a) => seq![a] + spec_tree_plan(ms.drop_first()),
            None => spec_tree_plan(ms.drop_first()),
        }
    }
}

/// A step's destination stays under the destination root on every host:
/// its path is non-empty and every component is a real name — neither empty
/// nor a current- or parent-directory segment, and free of backslashes and
/// colons, so a path join cannot re-interpret it as a separator or a drive.
pub open spec fn action_safe(a: TreeActionModel) -> bool {
    let p = action_path(a);
    p.len() > 0 && forall|k: int|
        0 <= k < p.len() ==> (#[trigger] p[k]).len() > 0 && p[k] != dot_segment()
            && !unsafe_component(p[k])
}

proof fn lemma_clean_components_kept(cs: Seq<Seq<u8>>)
    ensures
        forall|k: int|
            0 <= k < clean_components(cs).len() ==> keep_segment(
                #[trigger] clean_components(cs)[k],
            ),
    decreases cs.len(),
{
    if cs.len() > 0 {
        lemma_clean_components_kept(cs.drop_first());
        let rest = clean_components(cs.drop_first());
        if keep_segment(cs[0]) {
            assert(clean_components(cs) == seq![cs[0]] + rest);
            assert forall|k: int| 0 <= k < clean_components(cs).len() implies keep_segment(
                #[trigger] clean_components(cs)[k],
            ) by {
                if k > 0 {
                    assert(clean_components(cs)[k] == rest[k - 1]);
                }
            }
        }
    }
}

/// Every step of a plan is safe: tree extraction never creates anything
/// outside the destination root.
pub proof fn lemma_entry_action_safe(m: EntryModel)
    ensures
        spec_entry_action(m) matches Some(a) ==> action_safe(a),
{
    let cs = clean_components(split_path(m.0));
    lemma_clean_components_kept(split_path(m.0));
    if spec_entry_action(m) is Some {
        let a = spec_entry_action(m)->Some_0;
        assert(action_path(a) == cs.drop_first());
        assert forall|k: int| 0 <= k < cs.drop_first().len() implies (#[trigger] cs.drop_first()[k]).len()
            > 0 && cs.drop_first()[k] != dot_segment() && !unsafe_component(cs.drop_first()[k]) by {
            assert(cs.drop_first()[k] == cs[k + 1]);
            assert(keep_segment(cs[k + 1]));
            assert(!unsafe_component(cs[k + 1])) by {
                assert(!has_unsafe_component(cs));
            }
        }
    }
}

/// Every step of a full plan is safe.
pub proof fn lemma_tree_plan_safe(ms: Seq<EntryModel>)
    ensures
        forall|k: int|
            0 <= k < spec_tree_plan(ms).len() ==> action_safe(#[trigger] spec_tree_plan(ms)[k]),
    decreases ms.len(),
{
    if ms.len() > 0 {
        lemma_entry_action_safe(ms[0]);
        lemma_tree_plan_safe(ms.drop_first());
        let rest = spec_tree_plan(ms.drop_first());
        match spec_entry_action(ms[0]) {
            Some(a) => {
                assert(spec_tree_plan(ms) == seq![a] + rest);
                assert forall|k: int| 0 <= k < spec_tree_plan(ms).len() implies action_safe(
                    #[trigger] spec_tree_plan(ms)[k],
                ) by {
                    if k > 0 {
                        assert(spec_tree_plan(ms)[k] == rest[k - 1]);
                    }
                }
            },
            None => {
                assert(spec_tree_plan(ms) == rest);
            },
        }
    }
}

proof fn lemma_prefix_first_empty(segs: Seq<Seq<u8>>)
    requires
        segs.len() > 0,
    ensures
        prefix_first(Seq::empty(), segs) == segs,
{
    assert(Seq::<u8>::empty() + segs[0] =~= segs[0]);
    assert(prefix_first(Seq::empty(), segs) =~= segs);
}

proof fn lemma_split_path_len(s: Seq<u8>)
    ensures
        split_path(s).len() >= 1,
    decreases s.len(),
{
    if s.len() > 0 {
        lemma_split_path_len(s.drop_first());
    }
}

proof fn lemma_prefix_first_push(c: Seq<u8>, b: u8, segs: Seq<Seq<u8>>)
    ensures
        prefix_first(c, prefix_first(seq![b], segs)) == prefix_first(c.push(b), segs),
{
    if segs.len() == 0 {
        assert(c + seq![b] =~= c.push(b));
        assert(prefix_first(c, prefix_first(seq![b], segs)) =~= prefix_first(c.push(b), segs));
    } else {
        assert(c + (seq![b] + segs[0]) =~= c.push(b) + segs[0]);
        assert((seq![seq![b] + segs[0]] + segs.drop_first()).drop_first() =~= segs.drop_first());
        assert(prefix_first(c, prefix_first(seq![b], segs)) =~= prefix_first(c.push(b), segs));
    }
}

/// The segments of `p`, empty segments included, in order.
fn split_path_exec(p: &[u8]) -> (r: Vec<Vec<u8>>)
    ensures
        r@.map_values(|c: Vec<u8>| c@) == split_path(p@),
{
    let mut done: Vec<Vec<u8>> = Vec::new();
    let mut cur: Vec<u8> = Vec::new();
    let mut i: usize = 0;
    proof {
        assert(p@.skip(0) =~= p@);
        lemma_split_path_len(p@);
        lemma_prefix_first_empty(split_path(p@));
        assert(done@.map_values(|c: Vec<u8>| c@) =~= Seq::<Seq<u8>>::empty());
        assert(split_path(p@) =~= done@.map_values(|c: Vec<u8>| c@) + prefix_first(
            cur@,
            split_path(p@.skip(0)),
        ));
    }
    while i < p.len()
        invariant
            i <= p.len(),
            split_path(p@) == done@.map_values(|c: Vec<u8>| c@) + prefix_first(
                cur@,
                split_path(p@.skip(i as int)),
            ),
        decreases p.len() - i,
    {
        proof {
            let rest = p@.skip(i as int);
            assert(rest[0] == p@[i as int]);
            assert(rest.drop_first() =~= p@.skip(i + 1));
            lemma_split_path_len(p@.skip(i + 1));
        }
        if p[i] == 47u8 {
            proof {
                lemma_prefix_first_empty(split_path(p@.skip(i + 1)));
                assert((seq![Seq::<u8>::empty()] + split_path(p@.skip(i + 1))).drop_first()
                    =~= split_path(p@.skip(i + 1)));
                assert(prefix_first(cur@, seq![Seq::<u8>::empty()] + split_path(p@.skip(i + 1)))
                    =~= seq![cur@ + Seq::<u8>::empty()] + split_path(p@.skip(i + 1)));
                assert(cur@ + Seq::<u8>::empty() =~= cur@);
            }
            let ghost done_before = done@;
            let finished = cur;
            done.push(finished);
            cur = Vec::new();
            proof {
                assert(done@.map_values(|c: Vec<u8>| c@) =~= done_before.map_values(
                    |c: Vec<u8>| c@,
                ).push(finished@));
                lemma_prefix_first_empty(split_path(p@.skip(i + 1)));
                assert(split_path(p@) =~= done@.map_values(|c: Vec<u8>| c@) + prefix_first(
                    cur@,
                    split_path(p@.skip(i + 1)),
                ));
            }
        } else {
            proof {
                lemma_prefix_first_push(cur@, p@[i as int], split_path(p@.skip(i + 1)));
            }
            let b = p[i];
            cur.push(b);
        }
        i += 1;
    }
    proof {
        assert(p@.skip(p@.len() as int).len() == 0);
        assert(prefix_first(cur@, split_path(p@.skip(i as int))) =~= seq![cur@]);
    }
    let ghost done_before = done@;
    let ghost cur_final = cur@;
    done.push(cur);
    proof {
        assert(done@.map_values(|c: Vec<u8>| c@) =~= done_before.map_values(
            |c: Vec<u8>| c@,
        ).push(cur_final));
        assert(done@.map_values(|c: Vec<u8>| c@) =~= split_path(p@));
    }
    done
}

fn is_kept_segment(c: &[u8]) -> (r: bool)
    ensures
        r == keep_segment(c@),
{
    if c.len() == 0 {
        return false;
    }
    if c.len() == 1 && c[0] == 46u8 {
        proof {
            assert(c@ =~= dot_segment());
        }
        return false;
    }
    proof {
        assert(c@ != dot_segment());
    }
    true
}

fn clean_components_exec(raw: &Vec<Vec<u8>>) -> (r: Vec<Vec<u8>>)
    ensures
        r@.map_values(|c: Vec<u8>| c@) == clean_components(raw@.map_values(|c: Vec<u8>| c@)),
{
    let ghost rm = raw@.map_values(|c: Vec<u8>| c@);
    let mut out: Vec<Vec<u8>> = Vec::new();
    let mut i: usize = 0;
    proof {
        assert(rm.skip(0) =~= rm);
        assert(out@.map_values(|c: Vec<u8>| c@) =~= Seq::<Seq<u8>>::empty());
        assert(clean_components(rm) =~= out@.map_values(|c: Vec<u8>| c@) + clean_components(
            rm.skip(0),
        ));
    }
    while i < raw.len()
        invariant
            i <= raw.len(),
            rm == raw@.map_values(|c: Vec<u8>| c@),
            clean_components(rm) == out@.map_values(|c: Vec<u8>| c@) + clean_components(
                rm.skip(i as int),
            ),
        decreases raw.len() - i,
    {
        proof {
            assert(rm.skip(i as int)[0] == rm[i as int]);
            assert(rm.skip(i as int).drop_first() =~= rm.skip(i + 1));
            assert(rm[i as int] == raw@[i as int]@);
        }
        if is_kept_segment(raw[i].as_slice()) {
            let ghost out_before = out@;
            let kept = copy_bytes(raw[i].as_slice());
            out.push(kept);
            proof {
                assert(out@.map_values(|c: Vec<u8>| c@) =~= out_before.map_values(
                    |c: Vec<u8>| c@,
                ).push(kept@));
                assert(clean_components(rm) =~= out@.map_values(|c: Vec<u8>| c@)
                    + clean_components(rm.skip(i + 1)));
            }
        }
        i += 1;
    }
    proof {
        assert(rm.skip(i as int).len() == 0);
        assert(clean_components(rm) =~= out@.map_values(|c: Vec<u8>| c@));
    }
    out
}

fn component_unsafe(c: &[u8]) -> (r: bool)
    ensures
        r == unsafe_component(c@),
{
    let dotdot: Vec<u8> = vec![46u8, 46u8];
    proof {
        assert(dotdot@ =~= dotdot_segment());
    }
    if bytes_eq(c, dotdot.as_slice()) {
        return true;
    }
    let mut t: usize = 0;
    while t < c.len()
        invariant
            t <= c.len(),
            c@ != dotdot_segment(),
            forall|u: int| 0 <= u < t ==> c@[u] != backslash_byte() && c@[u] != colon_byte(),
        decreases c.len() - t,
    {
        if c[t] == 92 || c[t] == 58 {
            return true;
        }
        t += 1;
    }
    proof {
        assert(!c@.contains(backslash_byte()));
        assert(!c@.contains(colon_byte()));
    }
    false
}

fn has_unsafe_component_exec(cs: &Vec<Vec<u8>>) -> (r: bool)
    ensures
        r == has_unsafe_component(cs@.map_values(|c: Vec<u8>| c@)),
{
    let ghost cm = cs@.map_values(|c: Vec<u8>| c@);
    let mut i: usize = 0;
    while i < cs.len()
        invariant
            i <= cs.len(),
            cm == cs@.map_values(|c: Vec<u8>| c@),
            forall|k: int| 0 <= k < i ==> !unsafe_component(cm[k]),
        decreases cs.len() - i,
    {
        if component_unsafe(cs[i].as_slice()) {
            proof {
                assert(unsafe_component(cm[i as int]));
            }
            return true;
        }
        i += 1;
    }
    false
}

/// The plan step this entry contributes, if any.
pub fn entry_action(e: &ArchiveEntry) -> (r: Option<TreeAction>)
    ensures
        spec_entry_action(crate::archive::entry_model(*e)) matches Some(m) ==> (r matches Some(a)
            && action_model(a) == m),
        spec_entry_action(crate::archive::entry_model(*e)) is None ==> r is None,
{
    let ghost m = crate::archive::entry_model(*e);
    let absolute = e.path.len() > 0 && e.path[0] == 47u8;
    if absolute {
        return None;
    }
    let raw = split_path_exec(e.path.as_slice());
    let cs = clean_components_exec(&raw);
    let ghost csm = clean_components(split_path(m.0));
    proof {
        assert(cs@.map_values(|c: Vec<u8>| c@) == csm);
    }
    if has_unsafe_component_exec(&cs) || cs.len() <= 1 {
        return None;
    }
    let mut dest: Vec<Vec<u8>> = Vec::new();
    let mut i: usize = 1;
    while i < cs.len()
        invariant
            1 <= i <= cs.len(),
            cs@.map_values(|c: Vec<u8>| c@) == csm,
            dest@.map_values(|c: Vec<u8>| c@) == csm.subrange(1, i as int),
        decreases cs.len() - i,
    {
        let ghost dest_before = dest@;
        let comp = copy_bytes(cs[i].as_slice());
        dest.push(comp);
        proof {
            assert(comp@ == csm[i as int]);
            assert(dest@.map_values(|c: Vec<u8>| c@) =~= dest_before.map_values(
                |c: Vec<u8>| c@,
            ).push(comp@));
            assert(dest@.map_values(|c: Vec<u8>| c@) =~= csm.subrange(1, i + 1));
        }
        i += 1;
    }
    proof {
        assert(dest@.map_values(|c: Vec<u8>| c@) =~= csm.drop_first());
    }
    let is_dir = e.path.len() > 0 && e.path[e.path.len() - 1] == 47u8;
    if is_dir {
        Some(TreeAction::MakeDir { path: dest })
    } else {
        let data = copy_bytes(e.data.as_slice());
        Some(TreeAction::WriteFile { path: dest, data, unix_mode: e.unix_mode })
    }
}

/// The full extraction plan for an entry list: every entry is processed, in
/// order, and contributes its step or is skipped exactly as
/// `spec_entry_action` says.
pub fn plan_tree_extract(entries: &Vec<ArchiveEntry>) -> (r: Vec<TreeAction>)
    ensures
        actions_model(r@) == spec_tree_plan(entries_model(entries@)),
{
    let ghost ms = entries_model(entries@);
    let mut out: Vec<TreeAction> = Vec::new();
    let mut i: usize = 0;
    proof {
        assert(ms.skip(0) =~= ms);
        assert(actions_model(out@) =~= Seq::<TreeActionModel>::empty());
        assert(spec_tree_plan(ms) =~= actions_model(out@) + spec_tree_plan(ms.skip(0)));
    }
    while i < entries.len()
        invariant
            i <= entries.len(),
            ms == entries_model(entries@),
            spec_tree_plan(ms) == actions_model(out@) + spec_tree_plan(ms.skip(i as int)),
        decreases entries.len() - i,
    {
        proof {
            assert(ms.skip(i as int)[0] == ms[i as int]);
            assert(ms.skip(i as int).drop_first() =~= ms.skip(i + 1));
            assert(ms[i as int] == crate::archive::entry_model(entries@[i as int]));
        }
        match entry_action(&entries[i]) {
            Some(a) => {
                let ghost out_before = out@;
                let ghost am = action_model(a);
                out.push(a);
                proof {
                    assert(actions_model(out@) =~= actions_model(out_before).push(am));
                    assert(spec_tree_plan(ms) =~= actions_model(out@) + spec_tree_plan(
                        ms.skip(i + 1),
                    ));
                }
            },
            None => {},
        }
        i += 1;
    }
    proof {
        assert(ms.skip(i as int).len() == 0);
        assert(spec_tree_plan(ms) =~= actions_model(out@));
    }
    out
}

/// Tree-mode extraction planning from zip snapshot bytes: decode the archive,
/// then plan every entry's step. A malformed archive is an error.
pub fn plan_repo_extract(bytes: &[u8]) -> (r: Result<Vec<TreeAction>, String>)
    ensures
        r matches Ok(acts) ==> (zip_entries_of(bytes@) matches Some(es) && actions_model(acts@)
            == spec_tree_plan(es)),
        r matches Err(m) ==> zip_entries_of(bytes@) is None && crate::byteseq::chars_start_with(
            m@,
            "Failed to read zip "@,
        ),
{
    match read_zip_entries(bytes) {
        Ok(entries) => Ok(plan_tree_extract(&entries)),
        Err(m) => Err(m),
    }
}

} // verus!

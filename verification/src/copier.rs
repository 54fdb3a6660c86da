use vstd::prelude::*;

use crate::errors::{UtilError, UtilErrorV};
use crate::paths::{clone_strings, render_spec, strip_spec, LexPath, LexPathV};
use crate::pattern::{interested_file_spec, is_interested_file};

verus! {

/// One entry met while walking a source tree: its path and whether it is an
/// existing regular file.
#[derive(Debug)]
pub struct WalkEntry {
    pub path: LexPath,
    pub is_file: bool,
}

/// The mathematical shape of a `WalkEntry`.
pub struct WalkEntryV {
    pub path: LexPathV,
    pub is_file: bool,
}

impl View for WalkEntry {
    type V = WalkEntryV;

    open spec fn view(&self) -> WalkEntryV {
        WalkEntryV { path: self.path@, is_file: self.is_file }
    }
}

impl DeepView for WalkEntry {
    type V = WalkEntryV;

    open spec fn deep_view(&self) -> WalkEntryV {
        self.view()
    }
}

/// One copy to perform: the bytes of the file at `from` go to the path `to`,
/// overwriting whatever is there.
#[derive(Debug)]
pub struct CopyAction {
    pub from: LexPath,
    pub to: LexPath,
}

/// The mathematical shape of a `CopyAction`.
pub struct CopyActionV {
    pub from: LexPathV,
    pub to: LexPathV,
}

impl View for CopyAction {
    type V = CopyActionV;

    open spec fn view(&self) -> CopyActionV {
        CopyActionV { from: self.from@, to: self.to@ }
    }
}

impl DeepView for CopyAction {
    type V = CopyActionV;

    open spec fn deep_view(&self) -> CopyActionV {
        self.view()
    }
}

/// The immutable configuration of one filtered tree copy: the sources to
/// walk, the destination to fill, and the include and exclude pattern sets.
#[derive(Debug)]
pub struct Copier {
    pub src: Vec<LexPath>,
    pub dst: LexPath,
    pub includes: Vec<String>,
    pub excludes: Vec<String>,
}

/// The mathematical shape of a `Copier`.
pub struct CopierV {
    pub src: Seq<LexPathV>,
    pub dst: LexPathV,
    pub includes: Seq<Seq<char>>,
    pub excludes: Seq<Seq<char>>,
}

impl DeepView for LexPath {
    type V = LexPathV;

    open spec fn deep_view(&self) -> LexPathV {
        self.view()
    }
}

impl View for Copier {
    type V = CopierV;

    open spec fn view(&self) -> CopierV {
        CopierV {
            src: self.src.deep_view(),
            dst: self.dst@,
            includes: self.includes.deep_view(),
            excludes: self.excludes.deep_view(),
        }
    }
}

fn clone_paths(v: &Vec<LexPath>) -> (r: Vec<LexPath>)
    ensures
        r.deep_view() == v.deep_view(),
{
    let mut r: Vec<LexPath> = Vec::new();
    let mut i: usize = 0;
    while i < v.len()
        invariant
            i <= v.len(),
            r.deep_view() =~= v.deep_view().take(i as int),
        decreases v.len() - i,
    {
        let ghost rv = r.deep_view();
        r.push(v[i].clone());
        assert(r.deep_view() =~= rv.push(v.deep_view()[i as int]));
        assert(v.deep_view().take(i + 1 as int) =~= v.deep_view().take(i as int).push(
            v.deep_view()[i as int],
        ));
        i += 1;
    }
    assert(v.deep_view().take(v.len() as int) =~= v.deep_view());
    r
}

impl Clone for Copier {
    fn clone(&self) -> (r: Self)
        ensures
            r@ == self@,
    {
        Copier {
            src: clone_paths(&self.src),
            dst: self.dst.clone(),
            includes: clone_strings(&self.includes),
            excludes: clone_strings(&self.excludes),
        }
    }
}

/// Whether the pattern rules of `c` select the walked entry `e` under the
/// source root `root`.
pub open spec fn selected(c: CopierV, root: LexPathV, e: WalkEntryV) -> bool {
    interested_file_spec(root, e.path, e.is_file, c.includes, c.excludes)
}

/// The copy a selected entry calls for: its path stripped of the source root
/// and joined onto the destination; nothing when the stripping fails.
pub open spec fn entry_action(c: CopierV, root: LexPathV, e: WalkEntryV) -> Option<CopyActionV> {
    match strip_spec(root, e.path) {
        Some(rel) => Some(
            CopyActionV {
                from: e.path,
                to: LexPathV { absolute: c.dst.absolute, comps: c.dst.comps + rel.comps },
            },
        ),
        None => None,
    }
}

/// Whether planning the entry cannot fail: a selected entry must lie under
/// its source root.
pub open spec fn entry_ok(c: CopierV, root: LexPathV, e: WalkEntryV) -> bool {
    selected(c, root, e) ==> strip_spec(root, e.path) is Some
}

/// Whether every entry of the walk can be planned without failure.
pub open spec fn all_ok(c: CopierV, root: LexPathV, es: Seq<WalkEntryV>) -> bool {
    forall|i: int| 0 <= i < es.len() ==> entry_ok(c, root, es[i])
}

/// The copies that the walked entries call for, in walk order: one action per
/// selected entry that lies under the root.
pub open spec fn actions_of(c: CopierV, root: LexPathV, es: Seq<WalkEntryV>) -> Seq<CopyActionV>
    decreases es.len(),
{
    if es.len() == 0 {
        Seq::empty()
    } else {
        let rest = actions_of(c, root, es.drop_last());
        if selected(c, root, es.last()) && strip_spec(root, es.last().path) is Some {
            rest.push(entry_action(c, root, es.last())->Some_0)
        } else {
            rest
        }
    }
}

/// How many of the walked entries are selected and plannable.
pub open spec fn count_selected(c: CopierV, root: LexPathV, es: Seq<WalkEntryV>) -> nat
    decreases es.len(),
{
    if es.len() == 0 {
        0
    } else {
        count_selected(c, root, es.drop_last()) + if selected(c, root, es.last()) && strip_spec(
            root,
            es.last().path,
        ) is Some {
            1nat
        } else {
            0nat
        }
    }
}

impl Copier {
    /// Whether the destination directory is created before any copying: never
    /// for no sources at all, only for a directory when there is exactly one
    /// source, and always for several sources. `first_src_is_file` says
    /// whether the first configured source is an existing regular file.
    pub fn should_create_dst(&self, first_src_is_file: bool) -> (r: bool)
        ensures
            r == (if self@.src.len() == 0 {
                false
            } else if self@.src.len() == 1 {
                !first_src_is_file
            } else {
                true
            }),
    {
        if self.src.len() == 0 {
            false
        } else if self.src.len() == 1 {
            !first_src_is_file
        } else {
            true
        }
    }

    /// The decision for one walked entry of the source rooted at `root`:
    /// nothing when the pattern rules skip it, the copy to perform when they
    /// select it, and a failure when a selected entry does not lie under its
    /// root.
    pub fn plan_entry(&self, root: &LexPath, entry: &WalkEntry) -> (r: Result<
        Option<CopyAction>,
        UtilError,
    >)
        ensures
            !selected(self@, root@, entry@) ==> (r matches Ok(o) && o is None),
            selected(self@, root@, entry@) && strip_spec(root@, entry@.path) is Some ==> (r
                matches Ok(o) && o matches Some(a) && a@ == entry_action(
                self@,
                root@,
                entry@,
            )->Some_0),
            selected(self@, root@, entry@) && strip_spec(root@, entry@.path) is None ==> (r
                matches Err(e) && e@ == UtilErrorV::PrefixMismatch(render_spec(entry@.path))),
    {
        let wanted = is_interested_file(
            root,
            &entry.path,
            entry.is_file,
            &self.includes,
            &self.excludes,
        );
        if !wanted {
            return Ok(None);
        }
        match entry.path.strip_prefix(root) {
            Some(rel) => {
                let to = self.dst.join(&rel);
                Ok(Some(CopyAction { from: entry.path.clone(), to }))
            },
            None => Err(UtilError::PrefixMismatch(entry.path.render())),
        }
    }

    /// The whole plan for one source: the copies its walked entries call for,
    /// in walk order, or the first failure met.
    pub fn plan_source(&self, root: &LexPath, entries: &Vec<WalkEntry>) -> (r: Result<
        Vec<CopyAction>,
        UtilError,
    >)
        ensures
            (r is Ok) == all_ok(self@, root@, entries.deep_view()),
            r matches Ok(acts) ==> acts.deep_view() == actions_of(
                self@,
                root@,
                entries.deep_view(),
            ),
            r matches Err(e) ==> exists|i: int|
                0 <= i < entries.deep_view().len() && !entry_ok(
                    self@,
                    root@,
                    entries.deep_view()[i],
                ) && (forall|j: int|
                    0 <= j < i ==> entry_ok(self@, root@, entries.deep_view()[j])) && e@
                    == UtilErrorV::PrefixMismatch(render_spec(entries.deep_view()[i].path)),
    {
        let ghost es = entries.deep_view();
        let mut acts: Vec<CopyAction> = Vec::new();
        let mut i: usize = 0;
        while i < entries.len()
            invariant
                i <= entries.len(),
                es == entries.deep_view(),
                forall|j: int| 0 <= j < i ==> entry_ok(self@, root@, es[j]),
                acts.deep_view() == actions_of(self@, root@, es.take(i as int)),
            decreases entries.len() - i,
        {
            let ghost pre = es.take(i as int);
            let ghost pre1 = es.take(i + 1 as int);
            assert(pre1.drop_last() =~= pre);
            assert(pre1.last() == es[i as int]);
            match self.plan_entry(root, &entries[i]) {
                Ok(Some(a)) => {
                    let ghost av = acts.deep_view();
                    acts.push(a);
                    assert(acts.deep_view() =~= av.push(a@));
                },
                Ok(None) => {},
                Err(e) => {
                    return Err(e);
                },
            }
            i += 1;
        }
        assert(es.take(entries.len() as int) =~= es);
        Ok(acts)
    }
}

/// Law: every selected entry that lies under its root contributes its copy to
/// the plan.
pub proof fn lemma_plan_complete(c: CopierV, root: LexPathV, es: Seq<WalkEntryV>, i: int)
    requires
        0 <= i < es.len(),
        selected(c, root, es[i]),
        strip_spec(root, es[i].path) is Some,
    ensures
        actions_of(c, root, es).contains(entry_action(c, root, es[i])->Some_0),
    decreases es.len(),
{
    if i == es.len() - 1 {
        assert(es.last() == es[i]);
        let acts = actions_of(c, root, es);
        assert(acts.last() == entry_action(c, root, es[i])->Some_0);
    } else {
        assert(es.drop_last()[i] == es[i]);
        lemma_plan_complete(c, root, es.drop_last(), i);
        let rest = actions_of(c, root, es.drop_last());
        let j = choose|j: int|
            0 <= j < rest.len() && rest[j] == entry_action(c, root, es[i])->Some_0;
        assert(actions_of(c, root, es)[j] == rest[j]);
    }
}

/// Law: every copy of the plan comes from some selected entry of the walk; an
/// entry the pattern rules exclude contributes nothing.
pub proof fn lemma_plan_sound(c: CopierV, root: LexPathV, es: Seq<WalkEntryV>, a: CopyActionV)
    requires
        actions_of(c, root, es).contains(a),
    ensures
        exists|i: int|
            0 <= i < es.len() && selected(c, root, es[i]) && entry_action(c, root, es[i]) == Some(
                a,
            ),
    decreases es.len(),
{
    let acts = actions_of(c, root, es);
    let rest = actions_of(c, root, es.drop_last());
    let k = choose|k: int| 0 <= k < acts.len() && acts[k] == a;
    if selected(c, root, es.last()) && strip_spec(root, es.last().path) is Some {
        if k == acts.len() - 1 {
            let i = es.len() - 1;
            assert(es[i] == es.last());
            assert(selected(c, root, es[i]) && entry_action(c, root, es[i]) == Some(a));
        } else {
            assert(rest[k] == acts[k]);
            assert(rest.contains(a));
            lemma_plan_sound(c, root, es.drop_last(), a);
            let i = choose|i: int|
                0 <= i < es.drop_last().len() && selected(c, root, es.drop_last()[i])
                    && entry_action(c, root, es.drop_last()[i]) == Some(a);
            assert(es[i] == es.drop_last()[i]);
            assert(selected(c, root, es[i]) && entry_action(c, root, es[i]) == Some(a));
        }
    } else {
        assert(rest.contains(a));
        lemma_plan_sound(c, root, es.drop_last(), a);
        let i = choose|i: int|
            0 <= i < es.drop_last().len() && selected(c, root, es.drop_last()[i]) && entry_action(
                c,
                root,
                es.drop_last()[i],
            ) == Some(a);
        assert(es[i] == es.drop_last()[i]);
        assert(selected(c, root, es[i]) && entry_action(c, root, es[i]) == Some(a));
    }
}

/// Law: the plan holds exactly one copy per selected, plannable entry.
pub proof fn lemma_plan_count(c: CopierV, root: LexPathV, es: Seq<WalkEntryV>)
    ensures
        actions_of(c, root, es).len() == count_selected(c, root, es),
    decreases es.len(),
{
    if es.len() > 0 {
        lemma_plan_count(c, root, es.drop_last());
    }
}

/// What a destination tree holds, modelled as a map from each destination
/// path to the source path whose bytes were last copied there; performing the
/// plan's copies in order writes each action's source over its target.
pub open spec fn apply_actions(
    m: Map<LexPathV, LexPathV>,
    acts: Seq<CopyActionV>,
) -> Map<LexPathV, LexPathV>
    decreases acts.len(),
{
    if acts.len() == 0 {
        m
    } else {
        apply_actions(m, acts.drop_last()).insert(acts.last().to, acts.last().from)
    }
}

/// The source that the plan last writes to the destination path `k`, if any.
pub open spec fn last_write(acts: Seq<CopyActionV>, k: LexPathV) -> Option<LexPathV>
    decreases acts.len(),
{
    if acts.len() == 0 {
        None
    } else if acts.last().to == k {
        Some(acts.last().from)
    } else {
        last_write(acts.drop_last(), k)
    }
}

proof fn lemma_apply_lookup(m: Map<LexPathV, LexPathV>, acts: Seq<CopyActionV>, k: LexPathV)
    ensures
        apply_actions(m, acts).contains_key(k) == (m.contains_key(k) || last_write(
            acts,
            k,
        ) is Some),
        last_write(acts, k) matches Some(v) ==> apply_actions(m, acts)[k] == v,
        last_write(acts, k) is None && m.contains_key(k) ==> apply_actions(m, acts)[k] == m[k],
    decreases acts.len(),
{
    if acts.len() > 0 {
        lemma_apply_lookup(m, acts.drop_last(), k);
    }
}

/// Law: after the plan's copies are performed, every planned destination
/// path is present in the destination.
pub proof fn lemma_apply_covers(m: Map<LexPathV, LexPathV>, acts: Seq<CopyActionV>, j: int)
    requires
        0 <= j < acts.len(),
    ensures
        apply_actions(m, acts).contains_key(acts[j].to),
    decreases acts.len(),
{
    if j < acts.len() - 1 {
        lemma_apply_covers(m, acts.drop_last(), j);
        assert(acts.drop_last()[j] == acts[j]);
    }
}

proof fn lemma_last_write_source(acts: Seq<CopyActionV>, k: LexPathV)
    requires
        last_write(acts, k) is Some,
    ensures
        exists|j: int| 0 <= j < acts.len() && acts[j].to == k,
    decreases acts.len(),
{
    if acts.last().to == k {
        assert(acts[acts.len() - 1].to == k);
    } else {
        lemma_last_write_source(acts.drop_last(), k);
        let j = choose|j: int| 0 <= j < acts.drop_last().len() && acts.drop_last()[j].to == k;
        assert(acts[j].to == k);
    }
}

/// Law: performing the plan's copies writes nothing anywhere else: a path
/// that appears in the destination afterwards was either there before or is
/// the target of some planned copy.
pub proof fn lemma_apply_writes_only_targets(
    m: Map<LexPathV, LexPathV>,
    acts: Seq<CopyActionV>,
    k: LexPathV,
)
    requires
        apply_actions(m, acts).contains_key(k),
        !m.contains_key(k),
    ensures
        exists|j: int| 0 <= j < acts.len() && acts[j].to == k,
{
    lemma_apply_lookup(m, acts, k);
    lemma_last_write_source(acts, k);
}

/// Law: running the same plan a second time leaves the destination exactly as
/// the first run left it; each copy merely overwrites a file with the same
/// source again.
pub proof fn lemma_rerun_idempotent(m: Map<LexPathV, LexPathV>, acts: Seq<CopyActionV>)
    ensures
        apply_actions(apply_actions(m, acts), acts) == apply_actions(m, acts),
{
    let m1 = apply_actions(m, acts);
    let m2 = apply_actions(m1, acts);
    assert forall|k: LexPathV| m1.contains_key(k) == m2.contains_key(k) by {
        lemma_apply_lookup(m, acts, k);
        lemma_apply_lookup(m1, acts, k);
    }
    assert forall|k: LexPathV| m1.contains_key(k) implies m2[k] == m1[k] by {
        lemma_apply_lookup(m, acts, k);
        lemma_apply_lookup(m1, acts, k);
    }
    assert(m2 =~= m1);
}

/// Accumulates the configuration of a `Copier` and builds the immutable
/// copier.
#[derive(Debug)]
pub struct CopierBuilder {
    pub copier: Copier,
}

impl CopierBuilder {
    /// A builder for a copy into `dst`, with no sources and no patterns yet.
    pub fn new(dst: LexPath) -> (r: CopierBuilder)
        ensures
            r.copier@.dst == dst@,
            r.copier@.src == Seq::<LexPathV>::empty(),
            r.copier@.includes == Seq::<Seq<char>>::empty(),
            r.copier@.excludes == Seq::<Seq<char>>::empty(),
    {
        let r = CopierBuilder {
            copier: Copier { src: Vec::new(), dst, includes: Vec::new(), excludes: Vec::new() },
        };
        assert(r.copier@.src =~= Seq::<LexPathV>::empty());
        assert(r.copier@.includes =~= Seq::<Seq<char>>::empty());
        assert(r.copier@.excludes =~= Seq::<Seq<char>>::empty());
        r
    }

    /// Appends one more source; files and directories may be mixed.
    pub fn add(self, src: LexPath) -> (r: CopierBuilder)
        ensures
            r.copier@.src == self.copier@.src.push(src@),
            r.copier@.dst == self.copier@.dst,
            r.copier@.includes == self.copier@.includes,
            r.copier@.excludes == self.copier@.excludes,
    {
        let mut b = self;
        let ghost before = b.copier@.src;
        b.copier.src.push(src);
        assert(b.copier@.src =~= before.push(b.copier.src@.last()@));
        b
    }

    /// Appends one include pattern.
    pub fn ipat(self, pat: String) -> (r: CopierBuilder)
        ensures
            r.copier@.includes == self.copier@.includes.push(pat@),
            r.copier@.dst == self.copier@.dst,
            r.copier@.src == self.copier@.src,
            r.copier@.excludes == self.copier@.excludes,
    {
        let mut b = self;
        let ghost before = b.copier@.includes;
        let ghost pv = pat@;
        b.copier.includes.push(pat);
        assert(b.copier@.includes =~= before.push(pv));
        b
    }

    /// Appends one exclude pattern.
    pub fn epat(self, pat: String) -> (r: CopierBuilder)
        ensures
            r.copier@.excludes == self.copier@.excludes.push(pat@),
            r.copier@.dst == self.copier@.dst,
            r.copier@.src == self.copier@.src,
            r.copier@.includes == self.copier@.includes,
    {
        let mut b = self;
        let ghost before = b.copier@.excludes;
        let ghost pv = pat@;
        b.copier.excludes.push(pat);
        assert(b.copier@.excludes =~= before.push(pv));
        b
    }

    /// The immutable copier holding everything accumulated so far.
    pub fn build(&self) -> (r: Copier)
        ensures
            r@ == self.copier@,
    {
        self.copier.clone()
    }
}

} // verus!

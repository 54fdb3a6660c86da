use vstd::prelude::*;

use crate::errors::{UtilError, UtilErrorV};

verus! {

/// What a listing target turned out to be: nothing at all, a regular file,
/// or a directory together with the paths of its immediate children.
#[derive(Debug)]
pub enum LsKind {
    Missing,
    File,
    Dir(Vec<String>),
}

/// One listing target: its path and what was found there.
#[derive(Debug)]
pub struct LsEntry {
    pub path: String,
    pub kind: LsKind,
}

/// The mathematical shape of an `LsKind`.
pub enum LsKindV {
    Missing,
    File,
    Dir(Seq<Seq<char>>),
}

/// The mathematical shape of an `LsEntry`.
pub struct LsEntryV {
    pub path: Seq<char>,
    pub kind: LsKindV,
}

impl View for LsEntry {
    type V = LsEntryV;

    open spec fn view(&self) -> LsEntryV {
        LsEntryV {
            path: self.path@,
            kind: match self.kind {
                LsKind::Missing => LsKindV::Missing,
                LsKind::File => LsKindV::File,
                LsKind::Dir(ch) => LsKindV::Dir(ch.deep_view()),
            },
        }
    }
}

impl DeepView for LsEntry {
    type V = LsEntryV;

    open spec fn deep_view(&self) -> LsEntryV {
        self.view()
    }
}

/// Whether every listing target exists.
pub open spec fn ls_ok(items: Seq<LsEntryV>) -> bool {
    forall|i: int| 0 <= i < items.len() ==> !(items[i].kind is Missing)
}

/// What one target contributes to the listing: a file its own path, a
/// directory the paths of its children.
pub open spec fn ls_contrib(e: LsEntryV) -> Seq<Seq<char>> {
    match e.kind {
        LsKindV::Missing => Seq::empty(),
        LsKindV::File => seq![e.path],
        LsKindV::Dir(ch) => ch,
    }
}

/// The listing of the targets in order: each one's contribution, concatenated.
pub open spec fn ls_out(items: Seq<LsEntryV>) -> Seq<Seq<char>>
    decreases items.len(),
{
    if items.len() == 0 {
        Seq::empty()
    } else {
        ls_out(items.drop_last()) + ls_contrib(items.last())
    }
}

fn append_strings(out: &mut Vec<String>, v: &Vec<String>)
    ensures
        final(out).deep_view() == old(out).deep_view() + v.deep_view(),
{
    let mut i: usize = 0;
    while i < v.len()
        invariant
            i <= v.len(),
            out.deep_view() =~= old(out).deep_view() + v.deep_view().take(i as int),
        decreases v.len() - i,
    {
        let ghost ov = out.deep_view();
        out.push(v[i].clone());
        assert(out.deep_view() =~= ov.push(v.deep_view()[i as int]));
        assert(old(out).deep_view() + v.deep_view().take(i + 1 as int) =~= (old(
            out,
        ).deep_view() + v.deep_view().take(i as int)).push(v.deep_view()[i as int]));
        i += 1;
    }
    assert(v.deep_view().take(v.len() as int) =~= v.deep_view());
}

/// The listing of the given targets: for each existing target in order, a
/// file contributes its own path and a directory the paths of its children.
/// The first missing target is reported instead, by name.
pub fn ls(items: &Vec<LsEntry>) -> (r: Result<Vec<String>, UtilError>)
    ensures
        (r is Ok) == ls_ok(items.deep_view()),
        r matches Ok(v) ==> v.deep_view() == ls_out(items.deep_view()),
        r matches Err(e) ==> exists|i: int|
            0 <= i < items.deep_view().len() && items.deep_view()[i].kind is Missing && (forall|
                j: int,
            |
                0 <= j < i ==> !(items.deep_view()[j].kind is Missing)) && e@
                == UtilErrorV::MissingEntry(items.deep_view()[i].path),
    {
    let ghost es = items.deep_view();
    let mut out: Vec<String> = Vec::new();
    let mut i: usize = 0;
    while i < items.len()
        invariant
            i <= items.len(),
            es == items.deep_view(),
            forall|j: int| 0 <= j < i ==> !(es[j].kind is Missing),
            out.deep_view() == ls_out(es.take(i as int)),
        decreases items.len() - i,
    {
        let ghost pre = es.take(i as int);
        let ghost pre1 = es.take(i + 1 as int);
        assert(pre1.drop_last() =~= pre);
        assert(pre1.last() == es[i as int]);
        match &items[i].kind {
            LsKind::Missing => {
                return Err(UtilError::MissingEntry(items[i].path.clone()));
            },
            LsKind::File => {
                let ghost ov = out.deep_view();
                out.push(items[i].path.clone());
                assert(out.deep_view() =~= ov.push(es[i as int].path));
                assert(ls_out(pre1) =~= ls_out(pre).push(es[i as int].path));
            },
            LsKind::Dir(children) => {
                append_strings(&mut out, children);
            },
        }
        i += 1;
    }
    assert(es.take(items.len() as int) =~= es);
    Ok(out)
}

} // verus!

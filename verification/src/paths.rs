use vstd::prelude::*;

verus! {

/// The component spelled `.`: the current directory.
pub open spec fn dot() -> Seq<char> {
    "."@
}

/// The component spelled `..`: the parent directory.
pub open spec fn dotdot() -> Seq<char> {
    ".."@
}

/// The separator between components in a rendered path.
pub open spec fn slash() -> Seq<char> {
    "/"@
}

/// A path held as plain values: whether it is absolute, and its components in
/// order. Components are the text between separators; `.` and `..` may occur
/// and are given meaning by `norm_comps`.
#[derive(Debug)]
pub struct LexPath {
    pub absolute: bool,
    pub comps: Vec<String>,
}

/// The mathematical shape of a `LexPath`.
pub struct LexPathV {
    pub absolute: bool,
    pub comps: Seq<Seq<char>>,
}

impl View for LexPath {
    type V = LexPathV;

    open spec fn view(&self) -> LexPathV {
        LexPathV { absolute: self.absolute, comps: self.comps.deep_view() }
    }
}

/// Lexical resolution of `.` and `..`, left to right: `.` is dropped, `..`
/// removes the component resolved before it (and is dropped itself when none
/// is left), and every other component is kept in order.
pub open spec fn norm_comps(cs: Seq<Seq<char>>) -> Seq<Seq<char>>
    decreases cs.len(),
{
    if cs.len() == 0 {
        Seq::empty()
    } else {
        let prev = norm_comps(cs.drop_last());
        if cs.last() == dot() {
            prev
        } else if cs.last() == dotdot() {
            if prev.len() > 0 {
                prev.drop_last()
            } else {
                prev
            }
        } else {
            prev.push(cs.last())
        }
    }
}

/// The components joined with `/` between them.
pub open spec fn join_comps(cs: Seq<Seq<char>>) -> Seq<char>
    decreases cs.len(),
{
    if cs.len() == 0 {
        Seq::empty()
    } else if cs.len() == 1 {
        cs[0]
    } else {
        join_comps(cs.drop_last()) + slash() + cs.last()
    }
}

/// The text of a path: a leading `/` when absolute, then the components
/// joined with `/`.
pub open spec fn render_spec(p: LexPathV) -> Seq<char> {
    if p.absolute {
        slash() + join_comps(p.comps)
    } else {
        join_comps(p.comps)
    }
}

/// Whether `pre` is a leading run of `s`, component by component.
pub open spec fn is_comp_prefix(pre: Seq<Seq<char>>, s: Seq<Seq<char>>) -> bool {
    pre.len() <= s.len() && pre == s.take(pre.len() as int)
}

/// What stripping `root` off the front of `p` yields: the remaining
/// components as a relative path, or nothing when `p` does not start with
/// `root` or the two disagree on absoluteness.
pub open spec fn strip_spec(root: LexPathV, p: LexPathV) -> Option<LexPathV> {
    if root.absolute == p.absolute && is_comp_prefix(root.comps, p.comps) {
        Some(LexPathV { absolute: false, comps: p.comps.skip(root.comps.len() as int) })
    } else {
        None
    }
}

pub(crate) fn clone_strings(v: &Vec<String>) -> (r: Vec<String>)
    ensures
        r.deep_view() == v.deep_view(),
{
    let mut r: Vec<String> = Vec::new();
    let mut i: usize = 0;
    while i < v.len()
        invariant
            i <= v.len(),
            r.deep_view() =~= v.deep_view().take(i as int),
        decreases v.len() - i,
    {
        let ghost rv = r.deep_view();
        r.push(v[i].clone());
        assert(r.deep_view() =~= rv.push(v.deep_view()[i as int]));
        assert(v.deep_view().take(i + 1 as int) =~= v.deep_view().take(i as int).push(
            v.deep_view()[i as int],
        ));
        i += 1;
    }
    assert(v.deep_view().take(v.len() as int) =~= v.deep_view());
    r
}

impl Clone for LexPath {
    fn clone(&self) -> (r: Self)
        ensures
            r@ == self@,
    {
        LexPath { absolute: self.absolute, comps: clone_strings(&self.comps) }
    }
}

impl LexPath {
    /// A path built from its parts.
    pub fn from_parts(absolute: bool, comps: Vec<String>) -> (r: LexPath)
        ensures
            r@.absolute == absolute,
            r@.comps == comps.deep_view(),
    {
        LexPath { absolute, comps }
    }

    /// An empty relative path.
    pub fn empty() -> (r: LexPath)
        ensures
            r@.absolute == false,
            r@.comps == Seq::<Seq<char>>::empty(),
    {
        let r = LexPath { absolute: false, comps: Vec::new() };
        assert(r@.comps =~= Seq::<Seq<char>>::empty());
        r
    }

    /// Appends one component.
    pub fn push(&mut self, comp: String)
        ensures
            final(self)@.absolute == old(self)@.absolute,
            final(self)@.comps == old(self)@.comps.push(comp@),
    {
        let ghost before = self@.comps;
        self.comps.push(comp);
        assert(self@.comps =~= before.push(comp@));
    }

    /// Resolves `.` and `..` without consulting any filesystem, keeping the
    /// absoluteness as it was.
    pub fn normalize(&self) -> (r: LexPath)
        ensures
            r@.absolute == self@.absolute,
            r@.comps == norm_comps(self@.comps),
    {
        let dot_s = String::from_str(".");
        let dotdot_s = String::from_str("..");
        let mut out: Vec<String> = Vec::new();
        let mut i: usize = 0;
        while i < self.comps.len()
            invariant
                i <= self.comps.len(),
                dot_s@ == dot(),
                dotdot_s@ == dotdot(),
                out.deep_view() == norm_comps(self@.comps.take(i as int)),
            decreases self.comps.len() - i,
        {
            let ghost pre = self@.comps.take(i as int);
            let ghost pre1 = self@.comps.take(i + 1 as int);
            assert(pre1.drop_last() =~= pre);
            assert(pre1.last() == self@.comps[i as int]);
            if self.comps[i] == dot_s {
                // dropped
            } else if self.comps[i] == dotdot_s {
                if out.len() > 0 {
                    let ghost ov = out.deep_view();
                    out.pop();
                    assert(out.deep_view() =~= ov.drop_last());
                }
            } else {
                let ghost ov = out.deep_view();
                out.push(self.comps[i].clone());
                assert(out.deep_view() =~= ov.push(self@.comps[i as int]));
            }
            i += 1;
        }
        assert(self@.comps.take(self.comps.len() as int) =~= self@.comps);
        LexPath { absolute: self.absolute, comps: out }
    }

    /// The path extended by the components of `rel`; `rel` is taken as
    /// relative and its own absoluteness flag is not consulted.
    pub fn join(&self, rel: &LexPath) -> (r: LexPath)
        ensures
            r@.absolute == self@.absolute,
            r@.comps == self@.comps + rel@.comps,
    {
        let mut comps = clone_strings(&self.comps);
        let mut i: usize = 0;
        while i < rel.comps.len()
            invariant
                i <= rel.comps.len(),
                comps.deep_view() =~= self@.comps + rel@.comps.take(i as int),
            decreases rel.comps.len() - i,
        {
            let ghost cv = comps.deep_view();
            comps.push(rel.comps[i].clone());
            assert(comps.deep_view() =~= cv.push(rel@.comps[i as int]));
            assert(self@.comps + rel@.comps.take(i + 1 as int) =~= (self@.comps
                + rel@.comps.take(i as int)).push(rel@.comps[i as int]));
            i += 1;
        }
        assert(rel@.comps.take(rel.comps.len() as int) =~= rel@.comps);
        LexPath { absolute: self.absolute, comps }
    }

    /// The path with the leading `root` removed, or nothing when the path
    /// does not lie under `root`.
    pub fn strip_prefix(&self, root: &LexPath) -> (r: Option<LexPath>)
        ensures
            (r is Some) == (strip_spec(root@, self@) is Some),
            r matches Some(q) ==> Some(q@) == strip_spec(root@, self@),
    {
        if self.absolute != root.absolute || root.comps.len() > self.comps.len() {
            return None;
        }
        let n = root.comps.len();
        let mut i: usize = 0;
        while i < n
            invariant
                i <= n,
                n == root.comps.len() <= self.comps.len(),
                root@.comps.take(i as int) =~= self@.comps.take(n as int).take(i as int),
            decreases n - i,
        {
            if self.comps[i] != root.comps[i] {
                assert(root@.comps[i as int] != self@.comps.take(n as int)[i as int]);
                assert(root@.comps != self@.comps.take(n as int));
                return None;
            }
            assert(root@.comps.take(i + 1 as int) =~= self@.comps.take(n as int).take(
                i + 1 as int,
            ));
            i += 1;
        }
        assert(root@.comps =~= root@.comps.take(n as int));
        assert(self@.comps.take(n as int).take(n as int) =~= self@.comps.take(n as int));
        let mut rest: Vec<String> = Vec::new();
        let mut j: usize = n;
        while j < self.comps.len()
            invariant
                n <= j <= self.comps.len(),
                rest.deep_view() =~= self@.comps.subrange(n as int, j as int),
            decreases self.comps.len() - j,
        {
            let ghost rv = rest.deep_view();
            rest.push(self.comps[j].clone());
            assert(rest.deep_view() =~= rv.push(self@.comps[j as int]));
            assert(self@.comps.subrange(n as int, j + 1 as int) =~= self@.comps.subrange(
                n as int,
                j as int,
            ).push(self@.comps[j as int]));
            j += 1;
        }
        assert(rest.deep_view() =~= self@.comps.skip(n as int));
        Some(LexPath { absolute: false, comps: rest })
    }

    /// The text of the path: components joined with `/`, with a leading `/`
    /// when the path is absolute.
    pub fn render(&self) -> (r: String)
        ensures
            r@ == render_spec(self@),
    {
        let mut s = String::new();
        if self.absolute {
            s.append("/");
        }
        let ghost lead: Seq<char> = if self.absolute {
            slash()
        } else {
            Seq::empty()
        };
        assert(s@ =~= lead);
        let mut i: usize = 0;
        while i < self.comps.len()
            invariant
                i <= self.comps.len(),
                lead == if self@.absolute {
                    slash()
                } else {
                    Seq::<char>::empty()
                },
                s@ == lead + join_comps(self@.comps.take(i as int)),
            decreases self.comps.len() - i,
        {
            let ghost pre = self@.comps.take(i as int);
            let ghost pre1 = self@.comps.take(i + 1 as int);
            assert(pre1.drop_last() =~= pre);
            assert(pre1.last() == self@.comps[i as int]);
            if i > 0 {
                s.append("/");
            }
            s.append(self.comps[i].as_str());
            if i == 0 {
                assert(join_comps(pre1) == self@.comps[0]);
                assert(s@ =~= lead + join_comps(pre1));
            } else {
                assert(join_comps(pre1) == join_comps(pre) + slash() + self@.comps[i as int]);
                assert(s@ =~= lead + join_comps(pre1));
            }
            i += 1;
        }
        assert(self@.comps.take(self.comps.len() as int) =~= self@.comps);
        assert(s@ =~= render_spec(self@));
        s
    }

    /// An absolute form of the path, resolved lexically: a relative path is
    /// first taken against `cwd`, then `.` and `..` are resolved by
    /// `norm_comps`. The filesystem is never consulted.
    pub fn abs_with(&self, cwd: &LexPath) -> (r: LexPath)
        ensures
            r@.absolute == (if self@.absolute {
                true
            } else {
                cwd@.absolute
            }),
            r@.comps == norm_comps(
                if self@.absolute {
                    self@.comps
                } else {
                    cwd@.comps + self@.comps
                },
            ),
    {
        if self.absolute {
            self.normalize()
        } else {
            cwd.join(self).normalize()
        }
    }
}

/// The spellings of `.` and `..` are distinct from each other.
pub proof fn lemma_dot_spellings()
    ensures
        dot() != dotdot(),
        dot().len() == 1,
        dotdot().len() == 2,
{
    broadcast use vstd::string::group_string_axioms;

    reveal_strlit(".");
    reveal_strlit("..");
    assert(dot().len() == 1);
    assert(dotdot().len() == 2);
}

/// Law: a `.` component never changes what a path resolves to.
pub proof fn lemma_dot_inert(cs: Seq<Seq<char>>)
    ensures
        norm_comps(cs.push(dot())) == norm_comps(cs),
{
    assert(cs.push(dot()).drop_last() =~= cs);
    assert(cs.push(dot()).last() == dot());
}

/// Law: a component that is neither `.` nor `..` is kept at the end.
pub proof fn lemma_normal_appends(cs: Seq<Seq<char>>, c: Seq<char>)
    requires
        c != dot(),
        c != dotdot(),
    ensures
        norm_comps(cs.push(c)) == norm_comps(cs).push(c),
{
    assert(cs.push(c).drop_last() =~= cs);
    assert(cs.push(c).last() == c);
}

/// Law: a `..` component cancels exactly the ordinary component before it.
pub proof fn lemma_parent_cancels(cs: Seq<Seq<char>>, c: Seq<char>)
    requires
        c != dot(),
        c != dotdot(),
    ensures
        norm_comps(cs.push(c).push(dotdot())) == norm_comps(cs),
{
    lemma_dot_spellings();
    lemma_normal_appends(cs, c);
    assert(cs.push(c).push(dotdot()).drop_last() =~= cs.push(c));
    assert(cs.push(c).push(dotdot()).last() == dotdot());
    assert(norm_comps(cs).push(c).drop_last() =~= norm_comps(cs));
}

/// Law: resolving a path of the form `a/../b` against a working directory
/// gives the resolved working directory extended by `b` alone.
pub proof fn lemma_parent_resolution(cwd: LexPathV, a: Seq<char>, b: Seq<char>)
    requires
        a != dot(),
        a != dotdot(),
        b != dot(),
        b != dotdot(),
    ensures
        norm_comps(cwd.comps + seq![a, dotdot(), b]) == norm_comps(cwd.comps).push(b),
{
    let s = cwd.comps;
    assert(s + seq![a, dotdot(), b] =~= s.push(a).push(dotdot()).push(b));
    lemma_parent_cancels(s, a);
    lemma_normal_appends(s.push(a).push(dotdot()), b);
}

} // verus!

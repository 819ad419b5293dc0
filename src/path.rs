use vstd::prelude::*;

verus! {

/// The mathematical view of a path: a root prefix followed by components.
pub struct PathView {
    pub root: Seq<char>,
    pub comps: Seq<Seq<char>>,
}

impl PathView {
    pub open spec fn child(self, name: Seq<char>) -> PathView {
        PathView { root: self.root, comps: self.comps.push(name) }
    }

    pub open spec fn extend(self, rel: Seq<Seq<char>>) -> PathView {
        PathView { root: self.root, comps: self.comps + rel }
    }

    pub open spec fn parent(self) -> Option<PathView> {
        if self.comps.len() == 0 {
            None
        } else {
            Some(PathView { root: self.root, comps: self.comps.drop_last() })
        }
    }

    /// The path `k` levels up, when there are that many components.
    pub open spec fn ancestor(self, k: nat) -> Option<PathView> {
        if k <= self.comps.len() {
            Some(PathView { root: self.root, comps: self.comps.subrange(0, self.comps.len() - k) })
        } else {
            None
        }
    }

    /// `self` is `base` or lies below it, compared component by component.
    pub open spec fn is_under(self, base: PathView) -> bool {
        &&& self.root == base.root
        &&& base.comps.len() <= self.comps.len()
        &&& self.comps.subrange(0, base.comps.len() as int) == base.comps
    }
}

/// The text of the components `comps`, each preceded by `sep`.
pub open spec fn comps_text(comps: Seq<Seq<char>>, sep: Seq<char>) -> Seq<char>
    decreases comps.len(),
{
    if comps.len() == 0 {
        Seq::empty()
    } else {
        comps_text(comps.drop_last(), sep) + sep + comps.last()
    }
}

/// The text of a path: its root, then each component after a separator; a bare
/// root is followed by one separator.
pub open spec fn path_text(p: PathView, sep: Seq<char>) -> Seq<char> {
    if p.comps.len() == 0 {
        p.root + sep
    } else {
        p.root + comps_text(p.comps, sep)
    }
}

pub open spec fn strings_view(v: Seq<String>) -> Seq<Seq<char>> {
    v.map_values(|s: String| s@)
}

/// An absolute path: a root prefix (empty on Unix, a drive such as `C:` on
/// Windows) followed by its components.
#[derive(Clone, Debug, PartialEq, Eq)]
pub struct FsPath {
    pub root: String,
    pub comps: Vec<String>,
}

impl View for FsPath {
    type V = PathView;

    open spec fn view(&self) -> PathView {
        PathView { root: self.root@, comps: strings_view(self.comps@) }
    }
}

/// A copy of `v`, element by element.
pub fn copy_strings(v: &Vec<String>) -> (r: Vec<String>)
    ensures
        r@ == v@,
{
    let mut r: Vec<String> = Vec::new();
    let mut i: usize = 0;
    while i < v.len()
        invariant
            i <= v.len(),
            r@ == v@.subrange(0, i as int),
        decreases v.len() - i,
    {
        r.push(v[i].clone());
        i = i + 1;
    }
    assert(r@ =~= v@);
    r
}

/// Whether the components `a` begin with the components `b`.
pub fn comps_start_with(a: &Vec<String>, b: &Vec<String>) -> (r: bool)
    ensures
        r == (b@.len() <= a@.len() && strings_view(a@).subrange(0, b@.len() as int) == strings_view(b@)),
{
    if b.len() > a.len() {
        return false;
    }
    let n = b.len();
    let mut i: usize = 0;
    while i < n
        invariant
            n == b.len(),
            n <= a.len(),
            i <= n,
            forall|j: int| 0 <= j < i ==> a@[j]@ == b@[j]@,
        decreases n - i,
    {
        if a[i] != b[i] {
            assert(strings_view(a@).subrange(0, n as int)[i as int] != strings_view(b@)[i as int]);
            return false;
        }
        i = i + 1;
    }
    assert(strings_view(a@).subrange(0, n as int) =~= strings_view(b@));
    true
}

/// Whether the components `a` and `b` are the same.
pub fn comps_equal(a: &Vec<String>, b: &Vec<String>) -> (r: bool)
    ensures
        r == (strings_view(a@) == strings_view(b@)),
{
    if a.len() != b.len() {
        assert(strings_view(a@).len() != strings_view(b@).len());
        return false;
    }
    let r = comps_start_with(a, b);
    assert(strings_view(a@).subrange(0, b@.len() as int) =~= strings_view(a@));
    r
}

impl FsPath {
    pub fn new(root: String, comps: Vec<String>) -> (r: FsPath)
        ensures
            r.root == root,
            r.comps == comps,
    {
        FsPath { root, comps }
    }

    pub fn duplicate(&self) -> (r: FsPath)
        ensures
            r@ == self@,
    {
        FsPath { root: self.root.clone(), comps: copy_strings(&self.comps) }
    }

    /// The path of the entry `name` inside this directory.
    pub fn join(&self, name: &str) -> (r: FsPath)
        ensures
            r@ == self@.child(name@),
    {
        let mut comps = copy_strings(&self.comps);
        comps.push(String::from_str(name));
        let r = FsPath { root: self.root.clone(), comps };
        assert(r@.comps =~= self@.comps.push(name@));
        r
    }

    /// The path reached from this one by the relative components `rel`.
    pub fn join_all(&self, rel: &Vec<String>) -> (r: FsPath)
        ensures
            r@ == self@.extend(strings_view(rel@)),
    {
        let mut comps = copy_strings(&self.comps);
        let mut i: usize = 0;
        while i < rel.len()
            invariant
                i <= rel.len(),
                comps@ == self.comps@ + rel@.subrange(0, i as int),
            decreases rel.len() - i,
        {
            comps.push(rel[i].clone());
            i = i + 1;
        }
        assert(rel@.subrange(0, rel@.len() as int) =~= rel@);
        let r = FsPath { root: self.root.clone(), comps };
        assert(r@.comps =~= self@.comps + strings_view(rel@));
        r
    }

    pub fn parent(&self) -> (r: Option<FsPath>)
        ensures
            r is None <==> self@.parent() is None,
            r matches Some(p) ==> self@.parent() == Some(p@),
    {
        if self.comps.len() == 0 {
            None
        } else {
            let mut comps = copy_strings(&self.comps);
            comps.pop();
            let r = FsPath { root: self.root.clone(), comps };
            assert(r@.comps =~= self@.comps.drop_last());
            Some(r)
        }
    }

    /// The path `k` levels up, when there are that many components.
    pub fn ancestor(&self, k: usize) -> (r: Option<FsPath>)
        ensures
            r is None <==> self@.ancestor(k as nat) is None,
            r matches Some(p) ==> self@.ancestor(k as nat) == Some(p@),
    {
        if k > self.comps.len() {
            None
        } else {
            let keep = self.comps.len() - k;
            let mut comps: Vec<String> = Vec::new();
            let mut i: usize = 0;
            while i < keep
                invariant
                    keep <= self.comps.len(),
                    i <= keep,
                    comps@ == self.comps@.subrange(0, i as int),
                decreases keep - i,
            {
                comps.push(self.comps[i].clone());
                i = i + 1;
            }
            let r = FsPath { root: self.root.clone(), comps };
            assert(r@.comps =~= self@.comps.subrange(0, keep as int));
            Some(r)
        }
    }

    /// The last component, if there is one.
    pub fn file_name(&self) -> (r: Option<String>)
        ensures
            r is None <==> self@.comps.len() == 0,
            r matches Some(n) ==> n@ == self@.comps.last(),
    {
        if self.comps.len() == 0 {
            None
        } else {
            Some(self.comps[self.comps.len() - 1].clone())
        }
    }

    /// Whether this path is `base` or lies below it, compared by components.
    pub fn starts_with(&self, base: &FsPath) -> (r: bool)
        ensures
            r == self@.is_under(base@),
    {
        self.root == base.root && comps_start_with(&self.comps, &base.comps)
    }

    /// The text of this path with `sep` between components.
    pub fn render(&self, sep: &str) -> (r: String)
        ensures
            r@ == path_text(self@, sep@),
    {
        let mut text = self.root.clone();
        if self.comps.len() == 0 {
            text.append(sep);
            return text;
        }
        let mut i: usize = 0;
        while i < self.comps.len()
            invariant
                i <= self.comps.len(),
                text@ == self.root@ + comps_text(strings_view(self.comps@).subrange(0, i as int), sep@),
            decreases self.comps.len() - i,
        {
            proof {
                let s = strings_view(self.comps@);
                assert(s.subrange(0, i + 1).drop_last() =~= s.subrange(0, i as int));
            }
            text.append(sep);
            text.append(self.comps[i].as_str());
            i = i + 1;
        }
        assert(strings_view(self.comps@).subrange(0, self.comps.len() as int) =~= strings_view(self.comps@));
        text
    }
}

} // verus!

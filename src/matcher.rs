use vstd::prelude::*;

use crate::entry::File;
use crate::pattern::{glob_matches, Pattern};
use crate::walk::{walk, walk_seq, Child};

verus! {

/// What a matcher holds: the stored entries in walk order and the predicates.
pub ghost struct MatcherView {
    pub files: Seq<File>,
    pub npattern: Option<Seq<char>>,
    pub ppattern: Option<Seq<char>>,
    pub gid: Option<u32>,
    pub uid: Option<u32>,
    pub perms: Option<u32>,
    pub ftype: Option<char>,
}

/// The text of an optional pattern.
pub open spec fn pattern_view(p: Option<Pattern>) -> Option<Seq<char>> {
    match p {
        None => None,
        Some(q) => Some(q@),
    }
}

/// An unset pattern accepts every name; a set one accepts the names it matches.
pub open spec fn pattern_ok(p: Option<Seq<char>>, name: Seq<char>) -> bool {
    match p {
        None => true,
        Some(q) => glob_matches(q, name),
    }
}

/// An unset id accepts every value; a set one accepts that value only.
pub open spec fn id_ok(want: Option<u32>, have: u32) -> bool {
    match want {
        None => true,
        Some(w) => w == have,
    }
}

/// The type filter: `'f'` rejects directories, `'d'` rejects everything but
/// directories, and an unset filter (or any other letter) accepts both.
pub open spec fn type_ok(t: Option<char>, is_dir: bool) -> bool {
    match t {
        None => true,
        Some(c) => !(c == 'f' && is_dir) && !(c == 'd' && !is_dir),
    }
}

/// Whether `f` satisfies every predicate that is set in `v`. The path pattern
/// is matched against the entry's name, as the name pattern is.
pub open spec fn accepts(v: MatcherView, f: File) -> bool {
    &&& pattern_ok(v.npattern, f@.name)
    &&& pattern_ok(v.ppattern, f@.name)
    &&& id_ok(v.gid, f@.gid)
    &&& id_ok(v.uid, f@.uid)
    &&& id_ok(v.perms, f@.perms)
    &&& type_ok(v.ftype, f@.is_dir)
}

/// The stored entries that satisfy every predicate set in `v`, in stored order.
pub open spec fn selected(v: MatcherView) -> Seq<File> {
    v.files.filter(|f: File| accepts(v, f))
}

/// Whether no predicate is set.
pub open spec fn unfiltered(v: MatcherView) -> bool {
    &&& v.npattern is None
    &&& v.ppattern is None
    &&& v.gid is None
    &&& v.uid is None
    &&& v.perms is None
    &&& v.ftype is None
}

/// The entries of a walk, and predicates over them that are all optional and
/// apply together.
pub struct FileMatcher {
    files: Vec<File>,
    npattern: Option<Pattern>,
    ppattern: Option<Pattern>,
    gid: Option<u32>,
    uid: Option<u32>,
    perms: Option<u32>,
    ftype: Option<char>,
}

impl View for FileMatcher {
    type V = MatcherView;

    closed spec fn view(&self) -> MatcherView {
        MatcherView {
            files: self.files@,
            npattern: pattern_view(self.npattern),
            ppattern: pattern_view(self.ppattern),
            gid: self.gid,
            uid: self.uid,
            perms: self.perms,
            ftype: self.ftype,
        }
    }
}

proof fn lemma_filter_step(s: Seq<File>, i: int, pred: spec_fn(File) -> bool)
    requires
        0 <= i < s.len(),
    ensures
        s.subrange(0, i + 1).filter(pred) == if pred(s[i]) {
            s.subrange(0, i).filter(pred).push(s[i])
        } else {
            s.subrange(0, i).filter(pred)
        },
{
    reveal(Seq::filter);
    let t = s.subrange(0, i + 1);
    assert(t.drop_last() =~= s.subrange(0, i));
    assert(t.last() == s[i]);
}

proof fn lemma_filter_all(s: Seq<File>, pred: spec_fn(File) -> bool)
    requires
        forall|k: int| 0 <= k < s.len() ==> pred(#[trigger] s[k]),
    ensures
        s.filter(pred) == s,
    decreases s.len(),
{
    reveal(Seq::filter);
    if s.len() > 0 {
        lemma_filter_all(s.drop_last(), pred);
        assert(s.drop_last().push(s.last()) =~= s);
    }
}

impl FileMatcher {
    /// A matcher over the walk of a listed directory (see `walk::walk`), with
    /// no predicate set.
    pub fn from_dir(children: &Vec<Child>, depth: bool, maxdepth: Option<u32>) -> (r: Self)
        ensures
            r@.files == walk_seq(children@, depth, maxdepth),
            unfiltered(r@),
    {
        FileMatcher {
            files: walk(children, depth, maxdepth),
            npattern: None,
            ppattern: None,
            gid: None,
            uid: None,
            perms: None,
            ftype: None,
        }
    }

    /// Sets or clears the type filter.
    pub fn set_ftype(&mut self, ftype: Option<char>)
        ensures
            final(self)@ == (MatcherView { ftype, ..old(self)@ }),
    {
        self.ftype = ftype;
    }

    /// Sets or clears the name pattern.
    pub fn set_npattern(&mut self, pattern: Option<Pattern>)
        ensures
            final(self)@ == (MatcherView { npattern: pattern_view(pattern), ..old(self)@ }),
    {
        self.npattern = pattern;
    }

    /// Sets or clears the path pattern.
    pub fn set_ppattern(&mut self, pattern: Option<Pattern>)
        ensures
            final(self)@ == (MatcherView { ppattern: pattern_view(pattern), ..old(self)@ }),
    {
        self.ppattern = pattern;
    }

    /// Sets or clears the owning group predicate.
    pub fn set_gid(&mut self, id: Option<u32>)
        ensures
            final(self)@ == (MatcherView { gid: id, ..old(self)@ }),
    {
        self.gid = id;
    }

    /// Sets or clears the owning user predicate.
    pub fn set_uid(&mut self, id: Option<u32>)
        ensures
            final(self)@ == (MatcherView { uid: id, ..old(self)@ }),
    {
        self.uid = id;
    }

    /// Sets or clears the permission bits predicate.
    pub fn set_perms(&mut self, perms: Option<u32>)
        ensures
            final(self)@ == (MatcherView { perms, ..old(self)@ }),
    {
        self.perms = perms;
    }

    fn accepts_entry(&self, f: &File) -> (r: bool)
        ensures
            r == accepts(self@, *f),
    {
        let name_ok = match &self.npattern {
            Some(p) => p.matches(f.name().as_str()),
            None => true,
        };
        let path_ok = match &self.ppattern {
            Some(p) => p.matches(f.name().as_str()),
            None => true,
        };
        let gid_ok = match self.gid {
            Some(g) => g == f.gid(),
            None => true,
        };
        let uid_ok = match self.uid {
            Some(u) => u == f.uid(),
            None => true,
        };
        let perms_ok = match self.perms {
            Some(m) => m == f.perms(),
            None => true,
        };
        let type_ok = match self.ftype {
            Some(c) => !(c == 'f' && f.is_dir()) && !(c == 'd' && !f.is_dir()),
            None => true,
        };
        name_ok && path_ok && gid_ok && uid_ok && perms_ok && type_ok
    }

    /// The stored entries that satisfy every predicate that is set, in the
    /// order the walk emitted them.
    pub fn matches(&self) -> (r: Vec<File>)
        ensures
            r@ == selected(self@),
    {
        let ghost pred = |f: File| accepts(self@, f);
        let mut out: Vec<File> = Vec::new();
        let mut i: usize = 0;
        while i < self.files.len()
            invariant
                i <= self@.files.len(),
                self.files@ == self@.files,
                pred == (|f: File| accepts(self@, f)),
                out@ == self@.files.subrange(0, i as int).filter(pred),
            decreases self@.files.len() - i,
        {
            let f = &self.files[i];
            proof {
                lemma_filter_step(self@.files, i as int, pred);
            }
            if self.accepts_entry(f) {
                out.push(f.clone());
            }
            i = i + 1;
        }
        assert(self@.files.subrange(0, i as int) =~= self@.files);
        out
    }
}

/// With no predicate set, the selection is every stored entry, in stored order.
pub proof fn lemma_unfiltered_selects_all(v: MatcherView)
    requires
        unfiltered(v),
    ensures
        selected(v) == v.files,
{
    lemma_filter_all(v.files, |f: File| accepts(v, f));
}

/// With the type filter set to directories, every selected entry is a
/// directory; with no other predicate set, the selection is exactly the stored
/// directories, in stored order.
pub proof fn lemma_directories_only(v: MatcherView)
    requires
        v.ftype == Some('d'),
    ensures
        forall|k: int| 0 <= k < selected(v).len() ==> (#[trigger] selected(v)[k])@.is_dir,
        ({
            let w = MatcherView { ftype: None, ..v };
            unfiltered(w) ==> selected(v) == v.files.filter(|f: File| f@.is_dir)
        }),
{
    let pred = |f: File| accepts(v, f);
    v.files.filter_lemma(pred);
    assert forall|k: int| 0 <= k < selected(v).len() implies (#[trigger] selected(v)[k])@.is_dir by {
        assert(pred(selected(v)[k]));
    }
    let w = MatcherView { ftype: None, ..v };
    if unfiltered(w) {
        assert(pred =~= (|f: File| f@.is_dir));
    }
}

/// Setting a predicate and then clearing it again gives back the selection of
/// the matcher before it was set.
pub proof fn lemma_set_then_clear(
    v: MatcherView,
    np: Seq<char>,
    pp: Seq<char>,
    gid: u32,
    uid: u32,
    perms: u32,
    ftype: char,
)
    ensures
        v.npattern is None ==> selected(
            (MatcherView { npattern: None, ..(MatcherView { npattern: Some(np), ..v }) }),
        ) == selected(v),
        v.ppattern is None ==> selected(
            (MatcherView { ppattern: None, ..(MatcherView { ppattern: Some(pp), ..v }) }),
        ) == selected(v),
        v.gid is None ==> selected(
            (MatcherView { gid: None, ..(MatcherView { gid: Some(gid), ..v }) }),
        ) == selected(v),
        v.uid is None ==> selected(
            (MatcherView { uid: None, ..(MatcherView { uid: Some(uid), ..v }) }),
        ) == selected(v),
        v.perms is None ==> selected(
            (MatcherView { perms: None, ..(MatcherView { perms: Some(perms), ..v }) }),
        ) == selected(v),
        v.ftype is None ==> selected(
            (MatcherView { ftype: None, ..(MatcherView { ftype: Some(ftype), ..v }) }),
        ) == selected(v),
{
    assert(v.npattern is None ==> (MatcherView {
        npattern: None,
        ..(MatcherView { npattern: Some(np), ..v })
    }) == v);
    assert(v.ppattern is None ==> (MatcherView {
        ppattern: None,
        ..(MatcherView { ppattern: Some(pp), ..v })
    }) == v);
    assert(v.gid is None ==> (MatcherView { gid: None, ..(MatcherView { gid: Some(gid), ..v }) })
        == v);
    assert(v.uid is None ==> (MatcherView { uid: None, ..(MatcherView { uid: Some(uid), ..v }) })
        == v);
    assert(v.perms is None ==> (MatcherView {
        perms: None,
        ..(MatcherView { perms: Some(perms), ..v })
    }) == v);
    assert(v.ftype is None ==> (MatcherView {
        ftype: None,
        ..(MatcherView { ftype: Some(ftype), ..v })
    }) == v);
}

} // verus!

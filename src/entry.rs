use vstd::prelude::*;

verus! {

/// The mode bits that an entry keeps: permissions plus setuid, setgid and sticky.
pub const MODE_MASK: u32 = 4095;

/// The final `/`-delimited component of a path: everything after the last `/`
/// (the whole path when it holds no `/`).
pub open spec fn last_component(p: Seq<char>) -> Seq<char>
    decreases p.len(),
{
    if p.len() == 0 {
        p
    } else if p.last() == '/' {
        Seq::empty()
    } else {
        last_component(p.drop_last()).push(p.last())
    }
}

/// What an entry records, as plain values.
pub ghost struct FileView {
    pub name: Seq<char>,
    pub path: Seq<char>,
    pub is_dir: bool,
    pub uid: u32,
    pub gid: u32,
    pub perms: u32,
}

impl FileView {
    /// The entry invariant: the name is the non-empty last component of the
    /// path, and only the low twelve mode bits are kept.
    pub open spec fn wf(self) -> bool {
        &&& self.name == last_component(self.path)
        &&& self.name.len() > 0
        &&& self.perms <= MODE_MASK
    }
}

/// An immutable snapshot of one filesystem entry.
pub struct File {
    name: String,
    ftype: bool,
    uid: u32,
    gid: u32,
    perms: u32,
    pub path: String,
}

impl View for File {
    type V = FileView;

    closed spec fn view(&self) -> FileView {
        FileView {
            name: self.name@,
            path: self.path@,
            is_dir: self.ftype,
            uid: self.uid,
            gid: self.gid,
            perms: self.perms,
        }
    }
}

impl Clone for File {
    fn clone(&self) -> (r: Self)
        ensures
            r == *self,
    {
        File {
            name: self.name.clone(),
            ftype: self.ftype,
            uid: self.uid,
            gid: self.gid,
            perms: self.perms,
            path: self.path.clone(),
        }
    }
}

/// Position just past the last `/` of `s` (0 when there is none).
fn last_component_start(s: &str) -> (r: usize)
    ensures
        r <= s@.len(),
        s@.subrange(r as int, s@.len() as int) == last_component(s@),
{
    let len = s.unicode_len();
    let mut j: usize = len;
    assert(s@.subrange(0, len as int) =~= s@);
    assert(s@.subrange(len as int, len as int) =~= Seq::<char>::empty());
    assert(last_component(s@) + Seq::<char>::empty() =~= last_component(s@));
    while j > 0 && s.get_char(j - 1) != '/'
        invariant
            len == s@.len(),
            j <= len,
            last_component(s@) == last_component(s@.subrange(0, j as int)) + s@.subrange(
                j as int,
                len as int,
            ),
        decreases j,
    {
        let ghost pre = s@.subrange(0, j as int);
        assert(pre.drop_last() =~= s@.subrange(0, j - 1));
        assert(s@.subrange(j - 1, len as int) =~= seq![pre.last()] + s@.subrange(
            j as int,
            len as int,
        ));
        assert(last_component(pre) == last_component(pre.drop_last()).push(pre.last()));
        assert(last_component(pre.drop_last()).push(pre.last()) + s@.subrange(j as int, len as int)
            =~= last_component(pre.drop_last()) + s@.subrange(j - 1, len as int));
        j = j - 1;
    }
    proof {
        let pre = s@.subrange(0, j as int);
        if j > 0 {
            assert(pre.last() == '/');
        }
        assert(last_component(pre) =~= Seq::<char>::empty());
        assert(last_component(s@) =~= s@.subrange(j as int, len as int));
    }
    j
}

impl File {
    /// Builds the entry for `path`. Its name is the last `/`-delimited
    /// component of the path; when that is empty there is no entry. Only the
    /// low twelve bits of `perms` are kept.
    pub fn new(path: String, ftype: bool, uid: u32, gid: u32, perms: u32) -> (r: Option<Self>)
        ensures
            last_component(path@).len() == 0 <==> r is None,
            r matches Some(f) ==> {
                &&& f@.wf()
                &&& f@.path == path@
                &&& f@.name == last_component(path@)
                &&& f@.is_dir == ftype
                &&& f@.uid == uid
                &&& f@.gid == gid
                &&& f@.perms == perms % 4096
            },
    {
        let start = last_component_start(path.as_str());
        let len = path.as_str().unicode_len();
        if start == len {
            return None;
        }
        let name = String::from_str(path.as_str().substring_char(start, len));
        let masked = perms & MODE_MASK;
        assert(perms & 4095u32 == perms % 4096) by (bit_vector);
        assert(perms & 4095u32 <= 4095) by (bit_vector);
        Some(File { name, ftype, uid, gid, perms: masked, path })
    }

    /// The final component of the entry's path.
    pub fn name(&self) -> (r: &String)
        ensures
            r@ == self@.name,
    {
        &self.name
    }

    /// The full path as it was built during the walk.
    pub fn path(&self) -> (r: &String)
        ensures
            r@ == self@.path,
    {
        &self.path
    }

    /// True for a directory.
    pub fn is_dir(&self) -> (r: bool)
        ensures
            r == self@.is_dir,
    {
        self.ftype
    }

    /// The owning user id.
    pub fn uid(&self) -> (r: u32)
        ensures
            r == self@.uid,
    {
        self.uid
    }

    /// The owning group id.
    pub fn gid(&self) -> (r: u32)
        ensures
            r == self@.gid,
    {
        self.gid
    }

    /// The mode bits, masked to the low twelve bits.
    pub fn perms(&self) -> (r: u32)
        ensures
            r == self@.perms,
    {
        self.perms
    }
}

} // verus!

use vstd::prelude::*;

use crate::entry::File;

verus! {

/// One child of a listed directory, as the filesystem reported it.
pub enum Child {
    /// The child was listed but its metadata could not be read.
    Unreadable,
    /// The child's entry, and for a directory that was descended into, its own
    /// children in listing order (empty otherwise).
    Found(File, Vec<Child>),
}

/// The depth limit for the children of a directory reached with limit `d`:
/// `None` when the walk does not descend into it.
pub open spec fn next_depth(d: Option<u32>) -> Option<Option<u32>> {
    match d {
        None => Some(None),
        Some(k) => if k == 0 {
            None
        } else {
            Some(Some((k - 1) as u32))
        },
    }
}

/// The entries that the walk emits for one child.
pub open spec fn walk_child(c: Child, post: bool, depth: Option<u32>) -> Seq<File>
    decreases c, 0nat,
{
    match c {
        Child::Unreadable => Seq::empty(),
        Child::Found(f, kids) => if !f@.is_dir {
            seq![f]
        } else {
            let inner = match next_depth(depth) {
                None => Seq::empty(),
                Some(d) => walk_prefix(kids@, kids@.len() as nat, post, d),
            };
            if post {
                inner.push(f)
            } else {
                seq![f] + inner
            }
        },
    }
}

/// The entries that the walk emits for the first `n` children of `cs`, in
/// listing order.
pub open spec fn walk_prefix(cs: Seq<Child>, n: nat, post: bool, depth: Option<u32>) -> Seq<
    File,
>
    decreases cs, n,
{
    if n == 0 || n > cs.len() {
        Seq::empty()
    } else {
        walk_prefix(cs, (n - 1) as nat, post, depth) + walk_child(cs[n - 1], post, depth)
    }
}

/// The entries that the walk emits for a directory whose children are `cs`.
pub open spec fn walk_seq(cs: Seq<Child>, post: bool, depth: Option<u32>) -> Seq<File> {
    walk_prefix(cs, cs.len(), post, depth)
}

/// The entries of the listed children themselves, in listing order.
pub open spec fn own_entries(cs: Seq<Child>, n: nat) -> Seq<File>
    decreases n,
{
    if n == 0 || n > cs.len() {
        Seq::empty()
    } else {
        own_entries(cs, (n - 1) as nat) + match cs[n - 1] {
            Child::Unreadable => Seq::empty(),
            Child::Found(f, _) => seq![f],
        }
    }
}

/// Whether the walk descends into a directory reached with depth limit
/// `max_depth`, and with which limit for its children.
pub fn descend(max_depth: Option<u32>) -> (r: Option<Option<u32>>)
    ensures
        r == next_depth(max_depth),
{
    match max_depth {
        None => Some(None),
        Some(k) => if k == 0 {
            None
        } else {
            Some(Some(k - 1))
        },
    }
}

/// Flattens a listed directory into the walk's entries: children in listing
/// order, a directory's own entry before its contents, or after them when
/// `post_order` is set, no contents below a depth limit of zero, and nothing
/// for an unreadable child.
pub fn walk(children: &Vec<Child>, post_order: bool, max_depth: Option<u32>) -> (r: Vec<File>)
    ensures
        r@ == walk_seq(children@, post_order, max_depth),
    decreases children,
{
    let mut out: Vec<File> = Vec::new();
    let mut i: usize = 0;
    while i < children.len()
        invariant
            i <= children@.len(),
            out@ == walk_prefix(children@, i as nat, post_order, max_depth),
        decreases children@.len() - i,
    {
        let c = &children[i];
        match c {
            Child::Unreadable => {},
            Child::Found(f, kids) => {
                if !f.is_dir() {
                    out.push(f.clone());
                } else {
                    let mut inner: Vec<File> = match descend(max_depth) {
                        None => Vec::new(),
                        Some(d) => walk(kids, post_order, d),
                    };
                    if post_order {
                        out.append(&mut inner);
                        out.push(f.clone());
                    } else {
                        out.push(f.clone());
                        out.append(&mut inner);
                    }
                }
            },
        }
        proof {
            let w = walk_child(children@[i as int], post_order, max_depth);
            assert(walk_prefix(children@, (i + 1) as nat, post_order, max_depth)
                == walk_prefix(children@, i as nat, post_order, max_depth) + w);
            assert(out@ =~= walk_prefix(children@, i as nat, post_order, max_depth) + w);
        }
        i = i + 1;
    }
    out
}

/// The walk of a prefix depends only on the children in that prefix.
proof fn lemma_prefix_of_concat(a: Seq<Child>, b: Seq<Child>, k: nat, post: bool, depth: Option<u32>)
    requires
        k <= a.len(),
    ensures
        walk_prefix(a + b, k, post, depth) == walk_prefix(a, k, post, depth),
    decreases k,
{
    if k > 0 {
        lemma_prefix_of_concat(a, b, (k - 1) as nat, post, depth);
        assert((a + b)[k - 1] == a[k - 1]);
    }
}

/// Walking two runs of children one after the other emits the entries of the
/// first run, then those of the second.
pub proof fn lemma_walk_concat(a: Seq<Child>, b: Seq<Child>, post: bool, depth: Option<u32>)
    ensures
        walk_seq(a + b, post, depth) == walk_seq(a, post, depth) + walk_seq(b, post, depth),
{
    lemma_walk_concat_prefix(a, b, b.len(), post, depth);
    assert((a + b).len() == a.len() + b.len());
}

proof fn lemma_walk_concat_prefix(a: Seq<Child>, b: Seq<Child>, m: nat, post: bool, depth: Option<u32>)
    requires
        m <= b.len(),
    ensures
        walk_prefix(a + b, a.len() + m, post, depth) == walk_seq(a, post, depth) + walk_prefix(
            b,
            m,
            post,
            depth,
        ),
    decreases m,
{
    if m == 0 {
        lemma_prefix_of_concat(a, b, a.len(), post, depth);
        assert(walk_seq(a, post, depth) + Seq::<File>::empty() =~= walk_seq(a, post, depth));
    } else {
        lemma_walk_concat_prefix(a, b, (m - 1) as nat, post, depth);
        assert((a + b)[a.len() + m - 1] == b[m - 1]);
        assert((a.len() + m - 1) as nat == (a.len() + (m - 1) as nat) as nat);
        let w = walk_child(b[m - 1], post, depth);
        assert(walk_seq(a, post, depth) + walk_prefix(b, (m - 1) as nat, post, depth) + w
            =~= walk_seq(a, post, depth) + (walk_prefix(b, (m - 1) as nat, post, depth) + w));
    }
}

/// A child whose metadata could not be read adds no entry and takes none away:
/// wherever it stands among its siblings, the walk emits exactly what it emits
/// without it.
pub proof fn lemma_unreadable_child_skipped(
    cs: Seq<Child>,
    i: int,
    post: bool,
    depth: Option<u32>,
)
    requires
        0 <= i <= cs.len(),
    ensures
        walk_seq(cs.insert(i, Child::Unreadable), post, depth) == walk_seq(cs, post, depth),
{
    let a = cs.subrange(0, i);
    let b = cs.subrange(i, cs.len() as int);
    let u = seq![Child::Unreadable];
    assert(cs.insert(i, Child::Unreadable) =~= a + (u + b));
    assert(cs =~= a + b);
    lemma_walk_concat(a, u + b, post, depth);
    lemma_walk_concat(u, b, post, depth);
    lemma_walk_concat(a, b, post, depth);
    assert(walk_prefix(u, 1, post, depth) == walk_prefix(u, 0, post, depth) + walk_child(
        u[0],
        post,
        depth,
    ));
    assert(walk_seq(u, post, depth) =~= Seq::<File>::empty());
    assert(walk_seq(u + b, post, depth) =~= walk_seq(b, post, depth));
}

/// With a depth limit of zero the walk emits the listed children's own entries,
/// subdirectories included, and nothing from inside any subdirectory.
pub proof fn lemma_depth_zero_lists_children_only(cs: Seq<Child>, post: bool)
    ensures
        walk_seq(cs, post, Some(0u32)) == own_entries(cs, cs.len()),
{
    lemma_depth_zero_prefix(cs, cs.len(), post);
}

proof fn lemma_depth_zero_prefix(cs: Seq<Child>, n: nat, post: bool)
    requires
        n <= cs.len(),
    ensures
        walk_prefix(cs, n, post, Some(0u32)) == own_entries(cs, n),
    decreases n,
{
    if n > 0 {
        lemma_depth_zero_prefix(cs, (n - 1) as nat, post);
        let own: Seq<File> = match cs[n - 1] {
            Child::Unreadable => Seq::empty(),
            Child::Found(f, _) => seq![f],
        };
        match cs[n - 1] {
            Child::Unreadable => {},
            Child::Found(f, _) => {
                if f@.is_dir {
                    assert(next_depth(Some(0u32)) is None);
                    assert(Seq::<File>::empty().push(f) =~= seq![f]);
                    assert(seq![f] + Seq::<File>::empty() =~= seq![f]);
                }
            },
        }
        assert(walk_child(cs[n - 1], post, Some(0u32)) == own);
        assert(own_entries(cs, n) == own_entries(cs, (n - 1) as nat) + own);
    }
}

/// A directory's own entry comes before everything the walk emits from inside
/// it, or after all of it when `post` is set.
pub proof fn lemma_dir_entry_placement(
    f: File,
    kids: Seq<Child>,
    v: Vec<Child>,
    post: bool,
    depth: Option<u32>,
)
    requires
        f@.is_dir,
        v@ == kids,
    ensures
        ({
            let out = walk_child(Child::Found(f, v), post, depth);
            let inner = match next_depth(depth) {
                None => Seq::<File>::empty(),
                Some(d) => walk_seq(kids, post, d),
            };
            &&& out.len() == inner.len() + 1
            &&& !post ==> out[0] == f && out.subrange(1, out.len() as int) == inner
            &&& post ==> out.last() == f && out.subrange(0, out.len() - 1) == inner
        }),
{
    let out = walk_child(Child::Found(f, v), post, depth);
    let inner = match next_depth(depth) {
        None => Seq::<File>::empty(),
        Some(d) => walk_seq(kids, post, d),
    };
    if post {
        assert(out =~= inner.push(f));
        assert(out.subrange(0, out.len() - 1) =~= inner);
    } else {
        assert(out =~= seq![f] + inner);
        assert(out.subrange(1, out.len() as int) =~= inner);
    }
}

} // verus!

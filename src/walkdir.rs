use vstd::prelude::*;
use vstd::string::StringSliceAdditionalSpecFns;
use crate::dirent::{DirEntry, EntryModel};
use crate::error::Error;
use crate::filesystem::{dir_listing, read_inode_spec, walk_path, EroFS};
use crate::path::components;
use crate::image::Image;
use crate::inode::{kind_of_mode, Inode, NodeKind};
use crate::superblock::SuperBlock;

verus! {

/// Deepest directory nesting that a walk descends into.
pub const MAX_WALK_DEPTH: usize = 128;

/// One node met by a tree walk: its full path, its entry and its inode.
pub struct WalkDirEntry {
    pub path: Vec<u8>,
    pub dir_entry: DirEntry,
    pub inode: Inode,
}

/// What a walk item holds, as plain values: path, entry and inode.
pub type WalkModel = (Seq<u8>, EntryModel, Inode);

impl View for WalkDirEntry {
    type V = WalkModel;

    open spec fn view(&self) -> WalkModel {
        (self.path@, self.dir_entry@, self.inode)
    }
}

pub open spec fn walk_views(v: Seq<Result<WalkDirEntry, Error>>) -> Seq<Result<WalkModel, Error>> {
    v.map_values(
        |r: Result<WalkDirEntry, Error>|
            match r {
                Ok(w) => Ok(w@),
                Err(e) => Err(e),
            },
    )
}

pub open spec fn is_dot(name: Seq<u8>) -> bool {
    name == seq![46u8] || name == seq![46u8, 46u8]
}

/// The items of a pre-order walk below directory `dir`, whose path is
/// `prefix` and whose ancestors (itself included) are `anc`.
pub open spec fn walk_node(
    sb: SuperBlock,
    img: Seq<u8>,
    dir: Inode,
    prefix: Seq<u8>,
    anc: Seq<u64>,
    depth: int,
) -> Seq<Result<WalkModel, Error>>
    decreases MAX_WALK_DEPTH - depth, 1int, 0int,
{
    if depth < 0 || depth > MAX_WALK_DEPTH {
        seq![]
    } else {
        match dir_listing(sb, dir, img) {
            Err(e) => seq![Err(e)],
            Ok(l) => walk_entries(sb, img, l, 0, prefix, anc, depth),
        }
    }
}

/// The items that entries `i..` of a listing contribute to a walk: `.` and
/// `..` are skipped, an entry naming an ancestor gives `CorruptEntry`, and a
/// subdirectory is entered right after its own item, up to `MAX_WALK_DEPTH`.
pub open spec fn walk_entries(
    sb: SuperBlock,
    img: Seq<u8>,
    l: Seq<Result<EntryModel, Error>>,
    i: int,
    prefix: Seq<u8>,
    anc: Seq<u64>,
    depth: int,
) -> Seq<Result<WalkModel, Error>>
    decreases MAX_WALK_DEPTH - depth, 0int, l.len() - i,
{
    if i < 0 || i >= l.len() || depth < 0 || depth > MAX_WALK_DEPTH {
        seq![]
    } else {
        let here: Seq<Result<WalkModel, Error>> = match l[i] {
            Err(e) => seq![Err(e)],
            Ok(e) => if is_dot(e.1) {
                seq![]
            } else if anc.contains(e.0) {
                seq![Err(Error::CorruptEntry)]
            } else {
                match read_inode_spec(sb, img, e.0) {
                    Err(x) => seq![Err(x)],
                    Ok(ino) => {
                        let path = prefix + seq![47u8] + e.1;
                        seq![Ok((path, e, ino))] + if kind_of_mode(ino.mode as int)
                            == NodeKind::Directory {
                            if depth + 1 > MAX_WALK_DEPTH {
                                seq![Err(Error::CorruptEntry)]
                            } else {
                                walk_node(sb, img, ino, path, anc.push(e.0), depth + 1)
                            }
                        } else {
                            seq![]
                        }
                    },
                }
            },
        };
        here + walk_entries(sb, img, l, i + 1, prefix, anc, depth)
    }
}

/// The outcome of walking the tree below the directory that `comps` names.
pub open spec fn walk_spec(sb: SuperBlock, img: Seq<u8>, comps: Seq<Seq<u8>>) -> Result<
    Seq<Result<WalkModel, Error>>,
    Error,
> {
    match walk_path(sb, img, sb.root_nid, comps) {
        Err(e) => Err(e),
        Ok(n) => match read_inode_spec(sb, img, n) {
            Err(e) => Err(e),
            Ok(d) => if kind_of_mode(d.mode as int) != NodeKind::Directory {
                Err(Error::NotADirectory)
            } else {
                Ok(walk_node(sb, img, d, seq![], seq![n], 0))
            },
        },
    }
}

/// A walk item does not name a node of `anc`.
pub open spec fn item_outside(anc: Seq<u64>, r: Result<WalkModel, Error>) -> bool {
    r matches Ok(w) ==> !anc.contains(w.1.0)
}

/// A walk never yields, and so never enters, a node that is on the path from
/// the start of the walk to the directory being listed.
pub proof fn lemma_walk_node_avoids_ancestors(
    sb: SuperBlock,
    img: Seq<u8>,
    dir: Inode,
    prefix: Seq<u8>,
    anc: Seq<u64>,
    depth: int,
)
    ensures
        forall|k: int|
            0 <= k < walk_node(sb, img, dir, prefix, anc, depth).len() ==> item_outside(
                anc,
                #[trigger] walk_node(sb, img, dir, prefix, anc, depth)[k],
            ),
    decreases MAX_WALK_DEPTH - depth, 1int, 0int,
{
    if 0 <= depth <= MAX_WALK_DEPTH {
        match dir_listing(sb, dir, img) {
            Ok(l) => {
                assert(walk_node(sb, img, dir, prefix, anc, depth) == walk_entries(
                    sb,
                    img,
                    l,
                    0,
                    prefix,
                    anc,
                    depth,
                ));
                lemma_walk_entries_avoid_ancestors(sb, img, l, 0, prefix, anc, depth);
            },
            Err(e) => {
                assert(walk_node(sb, img, dir, prefix, anc, depth) == seq![Err::<WalkModel, Error>(e)]);
            },
        }
    }
}

proof fn lemma_walk_entries_avoid_ancestors(
    sb: SuperBlock,
    img: Seq<u8>,
    l: Seq<Result<EntryModel, Error>>,
    i: int,
    prefix: Seq<u8>,
    anc: Seq<u64>,
    depth: int,
)
    ensures
        forall|k: int|
            0 <= k < walk_entries(sb, img, l, i, prefix, anc, depth).len() ==> item_outside(
                anc,
                #[trigger] walk_entries(sb, img, l, i, prefix, anc, depth)[k],
            ),
    decreases MAX_WALK_DEPTH - depth, 0int, l.len() - i,
{
    if 0 <= i < l.len() && 0 <= depth <= MAX_WALK_DEPTH {
        lemma_walk_entries_avoid_ancestors(sb, img, l, i + 1, prefix, anc, depth);
        let rest = walk_entries(sb, img, l, i + 1, prefix, anc, depth);
        let all = walk_entries(sb, img, l, i, prefix, anc, depth);
        if let Ok(e) = l[i] {
            if !is_dot(e.1) && !anc.contains(e.0) {
                if let Ok(ino) = read_inode_spec(sb, img, e.0) {
                    let path = prefix + seq![47u8] + e.1;
                    if kind_of_mode(ino.mode as int) == NodeKind::Directory && depth + 1
                        <= MAX_WALK_DEPTH {
                        let a2 = anc.push(e.0);
                        lemma_walk_node_avoids_ancestors(sb, img, ino, path, a2, depth + 1);
                        let sub = walk_node(sb, img, ino, path, a2, depth + 1);
                        assert forall|k: int| 0 <= k < sub.len() implies item_outside(
                            anc,
                            #[trigger] sub[k],
                        ) by {
                            assert(item_outside(a2, sub[k]));
                            if let Ok(w) = sub[k] {
                                if anc.contains(w.1.0) {
                                    let j = choose|j: int| 0 <= j < anc.len() && anc[j] == w.1.0;
                                    assert(a2[j] == anc[j]);
                                }
                            }
                        }
                    }
                }
            }
        }
    }
}

/// Whether a name is `.` or `..`.
fn is_dot_name(name: &[u8]) -> (r: bool)
    ensures
        r <==> (name@ == seq![46u8] || name@ == seq![46u8, 46u8]),
{
    if name.len() == 1 {
        let r = name[0] == 46u8;
        if r {
            assert(name@ =~= seq![46u8]);
        }
        r
    } else if name.len() == 2 {
        let r = name[0] == 46u8 && name[1] == 46u8;
        if r {
            assert(name@ =~= seq![46u8, 46u8]);
        }
        r
    } else {
        false
    }
}

fn contains_nid(v: &Vec<u64>, nid: u64) -> (r: bool)
    ensures
        r <==> v@.contains(nid),
{
    let mut i: usize = 0;
    while i < v.len()
        invariant
            i <= v@.len(),
            forall|k: int| 0 <= k < i ==> v@[k] != nid,
        decreases v@.len() - i,
    {
        if v[i] == nid {
            return true;
        }
        i = i + 1;
    }
    false
}

fn join_path(prefix: &Vec<u8>, name: &Vec<u8>) -> (r: Vec<u8>)
    ensures
        r@ == prefix@ + seq![47u8] + name@,
{
    let mut r: Vec<u8> = Vec::new();
    let mut i: usize = 0;
    while i < prefix.len()
        invariant
            i <= prefix@.len(),
            r@ == prefix@.subrange(0, i as int),
        decreases prefix@.len() - i,
    {
        r.push(prefix[i]);
        i = i + 1;
        assert(r@ =~= prefix@.subrange(0, i as int));
    }
    r.push(47u8);
    let ghost mid = r@;
    let mut j: usize = 0;
    while j < name.len()
        invariant
            j <= name@.len(),
            r@ == mid + name@.subrange(0, j as int),
        decreases name@.len() - j,
    {
        r.push(name[j]);
        j = j + 1;
        assert(r@ =~= mid + name@.subrange(0, j as int));
    }
    assert(prefix@.subrange(0, prefix@.len() as int) =~= prefix@);
    assert(name@.subrange(0, name@.len() as int) =~= name@);
    r
}

impl<I: Image> EroFS<I> {
    fn walk_rec(
        &self,
        dir: &Inode,
        prefix: &Vec<u8>,
        ancestors: &mut Vec<u64>,
        depth: usize,
        out: &mut Vec<Result<WalkDirEntry, Error>>,
    )
        requires
            self.wf(),
            depth <= MAX_WALK_DEPTH,
        ensures
            final(ancestors)@ == old(ancestors)@,
            walk_views(final(out)@) == walk_views(old(out)@) + walk_node(
                self.spec_superblock(),
                self.spec_image(),
                *dir,
                prefix@,
                old(ancestors)@,
                depth as int,
            ),
        decreases MAX_WALK_DEPTH - depth,
    {
        let ghost sb = self.spec_superblock();
        let ghost img = self.spec_image();
        let ghost anc = ancestors@;
        let ghost out0 = walk_views(out@);
        let entries = match self.read_dir(dir) {
            Ok(v) => v,
            Err(e) => {
                let ghost before = out@;
                out.push(Err(e));
                assert(walk_views(out@) =~= walk_views(before) + seq![Err::<WalkModel, Error>(e)]);
                return;
            },
        };
        let ghost l = crate::filesystem::entry_views(entries@);
        let ghost whole = walk_node(sb, img, *dir, prefix@, anc, depth as int);
        assert(whole == walk_entries(sb, img, l, 0, prefix@, anc, depth as int));
        assert(out0 + whole =~= walk_views(out@) + walk_entries(sb, img, l, 0, prefix@, anc, depth as int));
        let mut i: usize = 0;
        while i < entries.len()
            invariant
                self.wf(),
                sb == self.spec_superblock(),
                img == self.spec_image(),
                depth <= MAX_WALK_DEPTH,
                ancestors@ == anc,
                anc == old(ancestors)@,
                l == crate::filesystem::entry_views(entries@),
                i <= entries@.len(),
                out0 == walk_views(old(out)@),
                whole == walk_node(sb, img, *dir, prefix@, anc, depth as int),
                walk_views(out@) + walk_entries(sb, img, l, i as int, prefix@, anc, depth as int)
                    == out0 + whole,
            decreases entries@.len() - i,
        {
            let ghost before = walk_views(out@);
            let ghost rest = walk_entries(sb, img, l, i + 1, prefix@, anc, depth as int);
            let ghost this = walk_entries(sb, img, l, i as int, prefix@, anc, depth as int);
            assert(l[i as int] == crate::dirent::entry_result_view(entries@[i as int]));
            let ghost mut here: Seq<Result<WalkModel, Error>> = seq![];
            match &entries[i] {
                Err(e) => {
                    let ghost o = out@;
                    out.push(Err(*e));
                    proof {
                        here = seq![Err(*e)];
                        assert(walk_views(out@) =~= walk_views(o) + here);
                    }
                },
                Ok(e) => {
                    if is_dot_name(e.name.as_slice()) {
                    } else if contains_nid(ancestors, e.nid) {
                        let ghost o = out@;
                        out.push(Err(Error::CorruptEntry));
                        proof {
                            here = seq![Err(Error::CorruptEntry)];
                            assert(walk_views(out@) =~= walk_views(o) + here);
                        }
                    } else {
                        match self.read_inode(e.nid) {
                            Err(err) => {
                                let ghost o = out@;
                                out.push(Err(err));
                                proof {
                                    here = seq![Err(err)];
                                    assert(walk_views(out@) =~= walk_views(o) + here);
                                }
                            },
                            Ok(ino) => {
                                let path = join_path(prefix, &e.name);
                                let is_dir = ino.is_dir();
                                let name = vstd::slice::slice_to_vec(e.name.as_slice());
                                let item = WalkDirEntry {
                                    path: vstd::slice::slice_to_vec(path.as_slice()),
                                    dir_entry: DirEntry { nid: e.nid, name, file_type: e.file_type },
                                    inode: ino,
                                };
                                let ghost o = out@;
                                let ghost iv = item@;
                                assert(iv == (prefix@ + seq![47u8] + e.name@, e@, ino));
                                out.push(Ok(item));
                                assert(walk_views(out@) =~= walk_views(o) + seq![Ok::<WalkModel, Error>(iv)]);
                                if is_dir {
                                    if depth + 1 > MAX_WALK_DEPTH {
                                        let ghost o2 = out@;
                                        out.push(Err(Error::CorruptEntry));
                                        proof {
                                            here = seq![Ok(iv)] + seq![Err(Error::CorruptEntry)];
                                            assert(walk_views(out@) =~= walk_views(o2) + seq![Err::<WalkModel, Error>(Error::CorruptEntry)]);
                                            assert(walk_views(out@) =~= walk_views(o) + here);
                                        }
                                    } else {
                                        ancestors.push(e.nid);
                                        let ghost o2 = walk_views(out@);
                                        self.walk_rec(&ino, &path, ancestors, depth + 1, out);
                                        ancestors.pop();
                                        assert(ancestors@ =~= anc);
                                        proof {
                                            here = seq![Ok(iv)] + walk_node(sb, img, ino, path@, anc.push(e.nid), depth + 1);
                                            assert(walk_views(out@) =~= walk_views(o) + here);
                                        }
                                    }
                                } else {
                                    proof {
                                        here = seq![Ok(iv)] + seq![];
                                        assert(walk_views(out@) =~= walk_views(o) + here);
                                    }
                                }
                            },
                        }
                    }
                },
            }
            assert(this == here + rest);
            assert(walk_views(out@) == before + here);
            assert(walk_views(out@) + rest =~= before + this);
            i = i + 1;
        }
        assert(walk_entries(sb, img, l, i as int, prefix@, anc, depth as int) =~= seq![]);
        assert(walk_views(out@) + seq![] =~= walk_views(out@));
    }

    /// Walks the tree below the directory at `root`, depth first and in
    /// pre-order, as `walk_node` describes.
    pub fn walk_dir(&self, root: &str) -> (r: Result<Vec<Result<WalkDirEntry, Error>>, Error>)
        requires
            self.wf(),
        ensures
            r matches Ok(v) ==> walk_spec(
                self.spec_superblock(),
                self.spec_image(),
                components(root.spec_bytes()),
            ) == Ok::<Seq<Result<WalkModel, Error>>, Error>(walk_views(v@)),
            r matches Err(e) ==> walk_spec(
                self.spec_superblock(),
                self.spec_image(),
                components(root.spec_bytes()),
            ) == Err::<Seq<Result<WalkModel, Error>>, Error>(e),
    {
        let nid = match self.resolve(root) {
            Ok(n) => n,
            Err(e) => return Err(e),
        };
        let ino = match self.read_inode(nid) {
            Ok(i) => i,
            Err(e) => return Err(e),
        };
        if !ino.is_dir() {
            return Err(Error::NotADirectory);
        }
        let mut out: Vec<Result<WalkDirEntry, Error>> = Vec::new();
        let mut ancestors: Vec<u64> = Vec::new();
        ancestors.push(nid);
        assert(ancestors@ =~= seq![nid]);
        let prefix: Vec<u8> = Vec::new();
        assert(prefix@ =~= seq![]);
        assert(walk_views(out@) =~= seq![]);
        self.walk_rec(&ino, &prefix, &mut ancestors, 0, &mut out);
        assert(walk_views(out@) =~= seq![] + walk_node(
            self.spec_superblock(),
            self.spec_image(),
            ino,
            seq![],
            seq![nid],
            0,
        ));
        Ok(out)
    }
}

} // verus!

//! Copying without ever showing a half-written file.
//!
//! A file reaches its place by being copied next to it and renamed onto it;
//! a tree by being copied whole into a staging directory beside the
//! destination, and renamed into place file by file. This module decides
//! the operations and their order. It touches nothing itself.

use vstd::prelude::*;
use vstd::string::*;
use crate::error::{BootError, BootErrorView};
use crate::text::{chars_of, concat2, concat3, owned, string_of};

verus! {

/// One operation on the file system.
#[derive(Debug, PartialEq)]
#[allow(inconsistent_fields)]
pub enum CopyOp {
    /// Make a directory and every directory above it.
    CreateDirs { path: String },
    /// Delete a file.
    RemoveFile { path: String },
    /// Copy the contents of a file.
    CopyFile { from: String, to: String },
    /// Rename a file onto another within one file system.
    Rename { from: String, to: String },
    /// Give a directory the permissions of another.
    CopyPermissions { from: String, to: String },
    /// Delete a tree.
    RemoveTree { path: String },
}

/// The mathematical value of a [`CopyOp`].
#[allow(inconsistent_fields)]
pub enum CopyOpView {
    CreateDirs { path: Seq<char> },
    RemoveFile { path: Seq<char> },
    CopyFile { from: Seq<char>, to: Seq<char> },
    Rename { from: Seq<char>, to: Seq<char> },
    CopyPermissions { from: Seq<char>, to: Seq<char> },
    RemoveTree { path: Seq<char> },
}

impl View for CopyOp {
    type V = CopyOpView;

    open spec fn view(&self) -> CopyOpView {
        match self {
            CopyOp::CreateDirs { path } => CopyOpView::CreateDirs { path: path@ },
            CopyOp::RemoveFile { path } => CopyOpView::RemoveFile { path: path@ },
            CopyOp::CopyFile { from, to } => CopyOpView::CopyFile { from: from@, to: to@ },
            CopyOp::Rename { from, to } => CopyOpView::Rename { from: from@, to: to@ },
            CopyOp::CopyPermissions { from, to } => CopyOpView::CopyPermissions {
                from: from@,
                to: to@,
            },
            CopyOp::RemoveTree { path } => CopyOpView::RemoveTree { path: path@ },
        }
    }
}

impl DeepView for CopyOp {
    type V = CopyOpView;

    open spec fn deep_view(&self) -> CopyOpView {
        self@
    }
}

/// The path beside `dest` at which a copy is made before it is renamed.
pub open spec fn tmp_path_spec(dest: Seq<char>) -> Seq<char> {
    dest + ".tmp"@
}

/// The path beside `dest` at which a copy is made before it is renamed.
pub fn tmp_path(dest: &str) -> (r: String)
    ensures
        r@ == tmp_path_spec(dest@),
{
    concat2(dest, ".tmp")
}

/// The path `rel` below the directory `dir`.
pub open spec fn child_spec(dir: Seq<char>, rel: Seq<char>) -> Seq<char> {
    dir + "/"@ + rel
}

/// The path `rel` below the directory `dir`.
pub fn child(dir: &str, rel: &str) -> (r: String)
    ensures
        r@ == child_spec(dir@, rel@),
{
    concat3(dir, "/", rel)
}

/// The position of the last separator in `path`, if it holds one.
pub open spec fn last_separator(path: Seq<char>) -> Option<int>
    decreases path.len(),
{
    if path.len() == 0 {
        None
    } else if path.last() == '/' {
        Some(path.len() - 1)
    } else {
        last_separator(path.drop_last())
    }
}

/// The directory that holds `path`: what stands before its last separator,
/// the root for a path directly below it, and the empty path, which is the
/// current directory, for a bare name. The empty path and the root have no
/// parent.
pub open spec fn parent_spec(path: Seq<char>) -> Option<Seq<char>> {
    if path.len() == 0 || path == "/"@ {
        None
    } else {
        match last_separator(path) {
            None => Some(Seq::<char>::empty()),
            Some(i) => if i == 0 {
                Some("/"@)
            } else {
                Some(path.take(i))
            },
        }
    }
}

/// The directory that holds `path`.
pub fn parent(path: &str) -> (r: Option<String>)
    ensures
        r.deep_view() == parent_spec(path@),
{
    let x = chars_of(path);
    proof {
        reveal_strlit("/");
    }
    if x.len() == 0 || (x.len() == 1 && x[0] == '/') {
        assert(x.len() == 1 && x@[0] == '/' ==> x@ =~= "/"@);
        return None;
    }
    assert(path@ != "/"@) by {
        if path@ == "/"@ {
            assert(path@.len() == 1);
            assert(path@[0] == '/');
        }
    }
    let mut i: usize = x.len();
    assert(x@.take(i as int) =~= x@);
    while i > 0
        invariant
            i <= x.len(),
            x@ == path@,
            path@.len() > 0,
            path@ != "/"@,
            last_separator(x@) == last_separator(x@.take(i as int)),
        decreases i,
    {
        let ghost upto = x@.take(i as int);
        assert(upto.last() == x@[i as int - 1]);
        assert(upto.drop_last() =~= x@.take(i as int - 1));
        if x[i - 1] == '/' {
            if i - 1 == 0 {
                return Some(owned("/"));
            }
            let r = string_of(&x, 0, i - 1);
            assert(x@.subrange(0, i as int - 1) =~= x@.take(i as int - 1));
            return Some(r);
        }
        i -= 1;
    }
    Some(String::new())
}

/// The directories to make so that `path` can be written: none where it is
/// there already, else the one that holds it.
pub open spec fn create_dirs_spec(path: Seq<char>, exists: bool) -> Result<
    Seq<CopyOpView>,
    BootErrorView,
> {
    if exists {
        Ok(Seq::<CopyOpView>::empty())
    } else {
        match parent_spec(path) {
            Some(dir) => Ok(seq![CopyOpView::CreateDirs { path: dir }]),
            None => Err(
                BootErrorView::Io { message: "Path '"@ + path + "' had no parent"@ },
            ),
        }
    }
}

/// Decides which directories are made so that the file at `path` can be
/// created. `exists` says whether the path is there already.
pub fn create_dirs_to_file(path: &str, exists: bool) -> (r: Result<Vec<CopyOp>, BootError>)
    ensures
        match r {
            Ok(ops) => create_dirs_spec(path@, exists) == Ok::<Seq<CopyOpView>, BootErrorView>(
                ops.deep_view(),
            ),
            Err(e) => create_dirs_spec(path@, exists) == Err::<Seq<CopyOpView>, BootErrorView>(
                e@,
            ),
        },
{
    let mut ops: Vec<CopyOp> = Vec::new();
    if exists {
        assert(ops.deep_view() =~= Seq::<CopyOpView>::empty());
        return Ok(ops);
    }
    match parent(path) {
        Some(dir) => {
            ops.push(CopyOp::CreateDirs { path: dir });
            assert(ops.deep_view() =~= seq![CopyOpView::CreateDirs { path: dir@ }]);
            Ok(ops)
        },
        None => Err(BootError::Io { message: concat3("Path '", path, "' had no parent") }),
    }
}

/// The operations that put a copy of `source` at `dest`: a stale temporary
/// copy is deleted, the directory is made, the file is copied beside its
/// place and renamed onto it.
pub open spec fn atomic_copy_file_spec(
    source: Seq<char>,
    dest: Seq<char>,
    tmp_exists: bool,
    dest_exists: bool,
) -> Result<Seq<CopyOpView>, BootErrorView> {
    match create_dirs_spec(dest, dest_exists) {
        Err(e) => Err(e),
        Ok(dirs) => Ok(
            (if tmp_exists {
                seq![CopyOpView::RemoveFile { path: tmp_path_spec(dest) }]
            } else {
                Seq::<CopyOpView>::empty()
            }) + dirs + seq![
                CopyOpView::CopyFile { from: source, to: tmp_path_spec(dest) },
                CopyOpView::Rename { from: tmp_path_spec(dest), to: dest },
            ],
        ),
    }
}

/// Decides how `source` is copied to `dest` so that `dest` is at every
/// moment wholly old or wholly new. The two flags say whether the temporary
/// path and the destination are there already.
pub fn atomic_tmp_copy_file(source: &str, dest: &str, tmp_exists: bool, dest_exists: bool) -> (r:
    Result<Vec<CopyOp>, BootError>)
    ensures
        match r {
            Ok(ops) => atomic_copy_file_spec(source@, dest@, tmp_exists, dest_exists) == Ok::<
                Seq<CopyOpView>,
                BootErrorView,
            >(ops.deep_view()),
            Err(e) => atomic_copy_file_spec(source@, dest@, tmp_exists, dest_exists) == Err::<
                Seq<CopyOpView>,
                BootErrorView,
            >(e@),
        },
{
    let mut dirs = match create_dirs_to_file(dest, dest_exists) {
        Ok(dirs) => dirs,
        Err(e) => {
            return Err(e);
        },
    };
    let ghost dv = dirs.deep_view();
    let mut ops: Vec<CopyOp> = Vec::new();
    if tmp_exists {
        ops.push(CopyOp::RemoveFile { path: tmp_path(dest) });
    }
    let ghost head = ops.deep_view();
    ops.append(&mut dirs);
    assert(ops.deep_view() =~= head + dv);
    ops.push(CopyOp::CopyFile { from: owned(source), to: tmp_path(dest) });
    ops.push(CopyOp::Rename { from: tmp_path(dest), to: owned(dest) });
    assert(ops.deep_view() =~= atomic_copy_file_spec(
        source@,
        dest@,
        tmp_exists,
        dest_exists,
    )->Ok_0);
    Ok(ops)
}

/// One entry of a tree, as found when the tree was walked.
#[derive(Debug, PartialEq)]
pub struct TreeEntry {
    /// The path of the entry below the root of the tree.
    pub rel: String,
    /// Whether the entry is a directory.
    pub is_dir: bool,
    /// Whether the entry is the destination itself: the same device and the
    /// same inode as the root of the destination.
    pub is_dest: bool,
}

/// The mathematical value of a [`TreeEntry`].
pub struct TreeEntryView {
    pub rel: Seq<char>,
    pub is_dir: bool,
    pub is_dest: bool,
}

impl View for TreeEntry {
    type V = TreeEntryView;

    open spec fn view(&self) -> TreeEntryView {
        TreeEntryView { rel: self.rel@, is_dir: self.is_dir, is_dest: self.is_dest }
    }
}

impl DeepView for TreeEntry {
    type V = TreeEntryView;

    open spec fn deep_view(&self) -> TreeEntryView {
        self@
    }
}

/// The first directory among `entries` that is the destination itself.
pub open spec fn first_alias(entries: Seq<TreeEntryView>) -> Option<Seq<char>>
    decreases entries.len(),
{
    if entries.len() == 0 {
        None
    } else if entries[0].is_dir && entries[0].is_dest {
        Some(entries[0].rel)
    } else {
        first_alias(entries.drop_first())
    }
}

/// The first phase: everything is copied into the staging directory.
pub open spec fn stage_script(source: Seq<char>, dest: Seq<char>, entries: Seq<TreeEntryView>) -> Seq<
    CopyOpView,
> {
    seq![CopyOpView::CreateDirs { path: tmp_path_spec(dest) }] + Seq::new(
        entries.len(),
        |i: int|
            if entries[i].is_dir {
                CopyOpView::CreateDirs { path: child_spec(tmp_path_spec(dest), entries[i].rel) }
            } else {
                CopyOpView::CopyFile {
                    from: child_spec(source, entries[i].rel),
                    to: child_spec(tmp_path_spec(dest), entries[i].rel),
                }
            },
    )
}

/// The second phase: every staged file is renamed into its place.
pub open spec fn commit_script(dest: Seq<char>, entries: Seq<TreeEntryView>) -> Seq<CopyOpView> {
    Seq::new(
        entries.len(),
        |i: int|
            if entries[i].is_dir {
                CopyOpView::CreateDirs { path: child_spec(dest, entries[i].rel) }
            } else {
                CopyOpView::Rename {
                    from: child_spec(tmp_path_spec(dest), entries[i].rel),
                    to: child_spec(dest, entries[i].rel),
                }
            },
    )
}

/// The permissions to hand on, the entries taken last to first, so that a
/// directory gets its permissions after everything below it is in place.
pub open spec fn permission_script(
    source: Seq<char>,
    dest: Seq<char>,
    entries: Seq<TreeEntryView>,
) -> Seq<CopyOpView>
    decreases entries.len(),
{
    if entries.len() == 0 {
        Seq::<CopyOpView>::empty()
    } else if entries[0].is_dir {
        permission_script(source, dest, entries.drop_first()).push(
            CopyOpView::CopyPermissions {
                from: child_spec(source, entries[0].rel),
                to: child_spec(dest, entries[0].rel),
            },
        )
    } else {
        permission_script(source, dest, entries.drop_first())
    }
}

/// The operations that merge the tree at `source` into `dest`.
pub open spec fn copy_tree_spec(
    source: Seq<char>,
    dest: Seq<char>,
    source_is_dest: bool,
    entries: Seq<TreeEntryView>,
) -> Result<Seq<CopyOpView>, BootErrorView> {
    if source_is_dest {
        Err(BootErrorView::CopyIntoItself { path: source })
    } else {
        match first_alias(entries) {
            Some(rel) => Err(BootErrorView::CopyIntoItself { path: child_spec(source, rel) }),
            None => Ok(
                stage_script(source, dest, entries) + commit_script(dest, entries)
                    + permission_script(source, dest, entries) + seq![
                    CopyOpView::RemoveTree { path: tmp_path_spec(dest) },
                ],
            ),
        }
    }
}

fn find_alias(entries: &Vec<TreeEntry>) -> (r: Option<usize>)
    ensures
        match r {
            Some(i) => i < entries.len() && first_alias(entries.deep_view()) == Some(
                entries@[i as int].rel@,
            ),
            None => first_alias(entries.deep_view()) is None,
        },
{
    let mut i: usize = 0;
    assert(entries.deep_view().skip(0) =~= entries.deep_view());
    while i < entries.len()
        invariant
            i <= entries.len(),
            first_alias(entries.deep_view()) == first_alias(entries.deep_view().skip(i as int)),
        decreases entries.len() - i,
    {
        let ghost rest = entries.deep_view().skip(i as int);
        assert(rest[0] == entries@[i as int]@);
        if entries[i].is_dir && entries[i].is_dest {
            return Some(i);
        }
        assert(rest.drop_first() =~= entries.deep_view().skip(i as int + 1));
        i += 1;
    }
    None
}

fn push_permissions(source: &str, dest: &str, entries: &Vec<TreeEntry>, ops: &mut Vec<CopyOp>)
    ensures
        final(ops).deep_view() == old(ops).deep_view() + permission_script(
            source@,
            dest@,
            entries.deep_view(),
        ),
{
    let ghost before = ops.deep_view();
    let ghost all = entries.deep_view();
    let mut i: usize = entries.len();
    assert(all.skip(i as int) =~= Seq::<TreeEntryView>::empty());
    assert(ops.deep_view() =~= before + permission_script(source@, dest@, all.skip(i as int)));
    while i > 0
        invariant
            i <= entries.len(),
            all == entries.deep_view(),
            ops.deep_view() == before + permission_script(source@, dest@, all.skip(i as int)),
        decreases i,
    {
        let ghost sofar = ops.deep_view();
        let ghost tail = all.skip(i as int - 1);
        assert(tail[0] == entries@[i as int - 1]@);
        assert(tail.drop_first() =~= all.skip(i as int));
        i -= 1;
        if entries[i].is_dir {
            ops.push(
                CopyOp::CopyPermissions {
                    from: child(source, entries[i].rel.as_str()),
                    to: child(dest, entries[i].rel.as_str()),
                },
            );
            assert(ops.deep_view() =~= sofar.push(
                CopyOpView::CopyPermissions {
                    from: child_spec(source@, tail[0].rel),
                    to: child_spec(dest@, tail[0].rel),
                },
            ));
        }
        assert(ops.deep_view() =~= before + permission_script(source@, dest@, tail));
    }
    assert(all.skip(0) =~= all);
}

/// Decides how the tree at `source`, whose entries were found to be
/// `entries`, parents before children, is merged into `dest`. A tree is
/// never copied into itself: a directory that is the destination under
/// another name is refused before anything is done.
pub fn atomic_tmp_copy(source: &str, dest: &str, source_is_dest: bool, entries: &Vec<TreeEntry>) -> (r:
    Result<Vec<CopyOp>, BootError>)
    ensures
        match r {
            Ok(ops) => copy_tree_spec(source@, dest@, source_is_dest, entries.deep_view()) == Ok::<
                Seq<CopyOpView>,
                BootErrorView,
            >(ops.deep_view()),
            Err(e) => copy_tree_spec(source@, dest@, source_is_dest, entries.deep_view()) == Err::<
                Seq<CopyOpView>,
                BootErrorView,
            >(e@),
        },
{
    if source_is_dest {
        return Err(BootError::CopyIntoItself { path: owned(source) });
    }
    if let Some(i) = find_alias(entries) {
        return Err(BootError::CopyIntoItself { path: child(source, entries[i].rel.as_str()) });
    }
    let staging = tmp_path(dest);
    let ghost all = entries.deep_view();
    let ghost stage = stage_script(source@, dest@, all);
    let ghost commit = commit_script(dest@, all);
    let mut ops: Vec<CopyOp> = Vec::new();
    ops.push(CopyOp::CreateDirs { path: staging.clone() });
    let mut i: usize = 0;
    assert(ops.deep_view() =~= stage.take(1));
    while i < entries.len()
        invariant
            i <= entries.len(),
            staging@ == tmp_path_spec(dest@),
            all == entries.deep_view(),
            stage == stage_script(source@, dest@, all),
            ops.deep_view() == stage.take(i as int + 1),
        decreases entries.len() - i,
    {
        let ghost sofar = ops.deep_view();
        let rel = entries[i].rel.as_str();
        if entries[i].is_dir {
            ops.push(CopyOp::CreateDirs { path: child(staging.as_str(), rel) });
        } else {
            ops.push(CopyOp::CopyFile { from: child(source, rel), to: child(staging.as_str(), rel) });
        }
        i += 1;
        proof {
            assert(ops.deep_view() =~= sofar.push(stage[i as int]));
            assert(stage.take(i as int + 1) =~= stage.take(i as int).push(stage[i as int]));
        }
    }
    assert(stage.take(entries.len() as int + 1) =~= stage);
    let mut j: usize = 0;
    assert(ops.deep_view() =~= stage + commit.take(0));
    while j < entries.len()
        invariant
            j <= entries.len(),
            staging@ == tmp_path_spec(dest@),
            all == entries.deep_view(),
            commit == commit_script(dest@, all),
            ops.deep_view() == stage + commit.take(j as int),
        decreases entries.len() - j,
    {
        let ghost sofar = ops.deep_view();
        let rel = entries[j].rel.as_str();
        if entries[j].is_dir {
            ops.push(CopyOp::CreateDirs { path: child(dest, rel) });
        } else {
            ops.push(CopyOp::Rename { from: child(staging.as_str(), rel), to: child(dest, rel) });
        }
        j += 1;
        proof {
            assert(ops.deep_view() =~= sofar.push(commit[j as int - 1]));
            assert(commit.take(j as int) =~= commit.take(j as int - 1).push(commit[j as int - 1]));
        }
    }
    assert(commit.take(entries.len() as int) =~= commit);
    push_permissions(source, dest, entries, &mut ops);
    let ghost upto = ops.deep_view();
    ops.push(CopyOp::RemoveTree { path: staging });
    assert(ops.deep_view() =~= upto.push(CopyOpView::RemoveTree { path: tmp_path_spec(dest@) }));
    assert(ops.deep_view() =~= copy_tree_spec(
        source@,
        dest@,
        source_is_dest,
        entries.deep_view(),
    )->Ok_0);
    Ok(ops)
}

/// The files of a file system: what each path holds.
pub type Files = Map<Seq<char>, Seq<u8>>;

/// What an operation does to the files. Directories hold no bytes and are
/// not modelled, so making one and setting its permissions change nothing.
pub open spec fn apply_op(files: Files, op: CopyOpView) -> Files {
    match op {
        CopyOpView::CreateDirs { .. } => files,
        CopyOpView::CopyPermissions { .. } => files,
        CopyOpView::RemoveFile { path } => files.remove(path),
        CopyOpView::CopyFile { from, to } => if files.dom().contains(from) {
            files.insert(to, files[from])
        } else {
            files
        },
        CopyOpView::Rename { from, to } => if files.dom().contains(from) {
            files.insert(to, files[from]).remove(from)
        } else {
            files
        },
        CopyOpView::RemoveTree { path } => files.restrict(
            Set::new(|p: Seq<char>| !(path + "/"@).is_prefix_of(p)),
        ),
    }
}

/// The files after `ops` have run, one after the other.
pub open spec fn run_ops(files: Files, ops: Seq<CopyOpView>) -> Files
    decreases ops.len(),
{
    if ops.len() == 0 {
        files
    } else {
        apply_op(run_ops(files, ops.drop_last()), ops.last())
    }
}

/// Whether `path` lies in the staging directory of `dest`.
pub open spec fn is_staged(dest: Seq<char>, path: Seq<char>) -> bool {
    (tmp_path_spec(dest) + "/"@).is_prefix_of(path)
}

/// Whether two file systems hold the same at every path outside the staging
/// directory of `dest`.
pub open spec fn same_outside_staging(dest: Seq<char>, now: Files, before: Files) -> bool {
    forall|path: Seq<char>|
        !#[trigger] is_staged(dest, path) ==> {
            &&& now.dom().contains(path) == before.dom().contains(path)
            &&& before.dom().contains(path) ==> now[path] == before[path]
        }
}

/// A copy that is cut short before the first rename leaves the destination
/// as it was: however far the first phase has come, every path outside the
/// staging directory holds what it held before, and no path below the
/// destination lies in the staging directory.
pub proof fn lemma_staging_leaves_destination_untouched(
    files: Files,
    source: Seq<char>,
    dest: Seq<char>,
    entries: Seq<TreeEntryView>,
    done: int,
)
    requires
        0 <= done <= stage_script(source, dest, entries).len(),
    ensures
        same_outside_staging(
            dest,
            run_ops(files, stage_script(source, dest, entries).take(done)),
            files,
        ),
        forall|rel: Seq<char>| !is_staged(dest, #[trigger] child_spec(dest, rel)),
    decreases done,
{
    let stage = stage_script(source, dest, entries);
    assert forall|rel: Seq<char>| !is_staged(dest, #[trigger] child_spec(dest, rel)) by {
        lemma_destination_is_not_staged(dest, rel);
    }
    if done > 0 {
        lemma_staging_leaves_destination_untouched(files, source, dest, entries, done - 1);
        let before = run_ops(files, stage.take(done - 1));
        let op = stage[done - 1];
        assert(stage.take(done).drop_last() =~= stage.take(done - 1));
        assert(stage.take(done).last() == op);
        let now = run_ops(files, stage.take(done));
        assert(now == apply_op(before, op));
        assert forall|path: Seq<char>| !#[trigger] is_staged(dest, path) implies {
            &&& now.dom().contains(path) == files.dom().contains(path)
            &&& files.dom().contains(path) ==> now[path] == files[path]
        } by {
            if done - 1 > 0 && !entries[done - 2].is_dir {
                let to = child_spec(tmp_path_spec(dest), entries[done - 2].rel);
                assert(is_staged(dest, to)) by {
                    assert(to.subrange(0, (tmp_path_spec(dest) + "/"@).len() as int)
                        =~= tmp_path_spec(dest) + "/"@);
                }
                assert(path != to);
            }
        }
    }
}

proof fn lemma_destination_is_not_staged(dest: Seq<char>, rel: Seq<char>)
    ensures
        !is_staged(dest, child_spec(dest, rel)),
{
    reveal_strlit(".tmp");
    reveal_strlit("/");
    let path = child_spec(dest, rel);
    let prefix = tmp_path_spec(dest) + "/"@;
    if prefix.is_prefix_of(path) {
        let i = dest.len() as int;
        assert(path.subrange(0, prefix.len() as int)[i] == path[i]);
        assert(prefix[i] == '.');
        assert(path[i] == '/');
    }
}

/// Copy and commit never mix: in the script of a tree every operation that
/// writes into the staging directory comes before the first rename.
pub proof fn lemma_copies_precede_renames(
    source: Seq<char>,
    dest: Seq<char>,
    entries: Seq<TreeEntryView>,
)
    requires
        copy_tree_spec(source, dest, false, entries) is Ok,
    ensures
        ({
            let ops = copy_tree_spec(source, dest, false, entries)->Ok_0;
            forall|i: int, j: int|
                0 <= i < ops.len() && 0 <= j < ops.len() && #[trigger] ops[i] is CopyFile
                    && #[trigger] ops[j] is Rename ==> i < j
        }),
{
    let ops = copy_tree_spec(source, dest, false, entries)->Ok_0;
    let stage = stage_script(source, dest, entries);
    let commit = commit_script(dest, entries);
    let perms = permission_script(source, dest, entries);
    lemma_permissions_only(source, dest, entries);
    assert forall|i: int, j: int|
        0 <= i < ops.len() && 0 <= j < ops.len() && #[trigger] ops[i] is CopyFile
            && #[trigger] ops[j] is Rename implies i < j by {
        if i >= stage.len() {
            if i < stage.len() + commit.len() {
                assert(ops[i] == commit[i - stage.len()]);
            } else if i < stage.len() + commit.len() + perms.len() {
                assert(ops[i] == perms[i - stage.len() - commit.len()]);
            }
        }
        if j < stage.len() {
            assert(ops[j] == stage[j]);
        }
    }
}

proof fn lemma_permissions_only(source: Seq<char>, dest: Seq<char>, entries: Seq<TreeEntryView>)
    ensures
        forall|i: int|
            0 <= i < permission_script(source, dest, entries).len() ==> #[trigger] permission_script(
                source,
                dest,
                entries,
            )[i] is CopyPermissions,
    decreases entries.len(),
{
    if entries.len() > 0 {
        lemma_permissions_only(source, dest, entries.drop_first());
    }
}

/// Whether `now` holds at `path` what `before` held at `at`: the same bytes,
/// or nothing where there was nothing.
pub open spec fn holds_what_was(now: Files, path: Seq<char>, before: Files, at: Seq<char>) -> bool {
    &&& now.dom().contains(path) == before.dom().contains(at)
    &&& before.dom().contains(at) ==> now[path] == before[at]
}

proof fn lemma_run_one_more(files: Files, ops: Seq<CopyOpView>, k: int)
    requires
        0 <= k < ops.len(),
    ensures
        run_ops(files, ops.take(k + 1)) == apply_op(run_ops(files, ops.take(k)), ops[k]),
{
    assert(ops.take(k + 1).drop_last() =~= ops.take(k));
    assert(ops.take(k + 1).last() == ops[k]);
}

/// The copy of one file is atomic: however far it has come, the destination
/// holds wholly what it held before or wholly what the source holds, and
/// once it is through, the destination holds what the source holds.
pub proof fn lemma_file_copy_is_atomic(
    files: Files,
    source: Seq<char>,
    dest: Seq<char>,
    tmp_exists: bool,
    dest_exists: bool,
    done: int,
)
    requires
        atomic_copy_file_spec(source, dest, tmp_exists, dest_exists) is Ok,
        files.dom().contains(source),
        source != dest,
        source != tmp_path_spec(dest),
        0 <= done <= atomic_copy_file_spec(source, dest, tmp_exists, dest_exists)->Ok_0.len(),
    ensures
        ({
            let ops = atomic_copy_file_spec(source, dest, tmp_exists, dest_exists)->Ok_0;
            let now = run_ops(files, ops.take(done));
            &&& holds_what_was(now, dest, files, dest) || holds_what_was(now, dest, files, source)
            &&& done == ops.len() ==> holds_what_was(now, dest, files, source)
        }),
{
    reveal_strlit(".tmp");
    let ops = atomic_copy_file_spec(source, dest, tmp_exists, dest_exists)->Ok_0;
    let tmp = tmp_path_spec(dest);
    assert(tmp.len() == dest.len() + 4);
    assert(tmp != dest);
    let n = ops.len() as int;
    assert(2 <= n <= 4);
    assert(ops[n - 2] == (CopyOpView::CopyFile { from: source, to: tmp }));
    assert(ops[n - 1] == (CopyOpView::Rename { from: tmp, to: dest }));
    assert forall|k: int| 0 <= k < n - 2 implies (#[trigger] ops[k] is CreateDirs || ops[k]
        == (CopyOpView::RemoveFile { path: tmp })) by {
        if tmp_exists {
            if k == 0 {
                assert(ops[0] == (CopyOpView::RemoveFile { path: tmp }));
            } else {
                assert(ops[k] is CreateDirs);
            }
        } else {
            assert(ops[k] is CreateDirs);
        }
    }
    lemma_preparation_keeps_files(files, ops, tmp, source, dest, n - 2);
    if done <= n - 2 {
        lemma_preparation_keeps_files(files, ops, tmp, source, dest, done);
    } else {
        let prepared = run_ops(files, ops.take(n - 2));
        lemma_run_one_more(files, ops, n - 2);
        let copied = run_ops(files, ops.take(n - 1));
        assert(copied == prepared.insert(tmp, prepared[source]));
        if done == n {
            lemma_run_one_more(files, ops, n - 1);
            let renamed = run_ops(files, ops.take(n));
            assert(renamed == copied.insert(dest, copied[tmp]).remove(tmp));
        }
    }
}

/// Getting ready for a copy, which makes directories and deletes a stale
/// temporary file, changes neither the source nor the destination.
proof fn lemma_preparation_keeps_files(
    files: Files,
    ops: Seq<CopyOpView>,
    tmp: Seq<char>,
    source: Seq<char>,
    dest: Seq<char>,
    k: int,
)
    requires
        0 <= k <= ops.len(),
        tmp != source,
        tmp != dest,
        forall|i: int|
            0 <= i < k ==> (#[trigger] ops[i] is CreateDirs || ops[i] == (CopyOpView::RemoveFile {
                path: tmp,
            })),
    ensures
        holds_what_was(run_ops(files, ops.take(k)), dest, files, dest),
        holds_what_was(run_ops(files, ops.take(k)), source, files, source),
    decreases k,
{
    if k > 0 {
        lemma_preparation_keeps_files(files, ops, tmp, source, dest, k - 1);
        lemma_run_one_more(files, ops, k - 1);
        assert(ops[k - 1] is CreateDirs || ops[k - 1] == (CopyOpView::RemoveFile { path: tmp }));
    }
}

/// Running two scripts one after the other is running the one made of
/// both.
pub proof fn lemma_run_ops_concat(files: Files, first: Seq<CopyOpView>, second: Seq<CopyOpView>)
    ensures
        run_ops(files, first + second) == run_ops(run_ops(files, first), second),
    decreases second.len(),
{
    if second.len() == 0 {
        assert(first + second =~= first);
    } else {
        lemma_run_ops_concat(files, first, second.drop_last());
        assert((first + second).drop_last() =~= first + second.drop_last());
        assert((first + second).last() == second.last());
    }
}

/// Two paths below one directory are the same only where they are the same
/// below it.
proof fn lemma_child_is_injective(dir: Seq<char>, a: Seq<char>, b: Seq<char>)
    requires
        child_spec(dir, a) == child_spec(dir, b),
    ensures
        a == b,
{
    let prefix = (dir + "/"@).len() as int;
    assert(child_spec(dir, a).skip(prefix) =~= a);
    assert(child_spec(dir, b).skip(prefix) =~= b);
}

proof fn lemma_child_is_staged(dest: Seq<char>, rel: Seq<char>)
    ensures
        is_staged(dest, child_spec(tmp_path_spec(dest), rel)),
{
    let to = child_spec(tmp_path_spec(dest), rel);
    assert(to.subrange(0, (tmp_path_spec(dest) + "/"@).len() as int) =~= tmp_path_spec(dest)
        + "/"@);
}

/// Whether the walk of a tree is fit to be merged: no path occurs twice,
/// every file that was found is there, and the tree does not reach into the
/// staging directory of the destination.
pub open spec fn walk_is_sound(
    files: Files,
    source: Seq<char>,
    dest: Seq<char>,
    entries: Seq<TreeEntryView>,
) -> bool {
    &&& forall|i: int, j: int|
        0 <= i < j < entries.len() ==> (#[trigger] entries[i]).rel != (#[trigger] entries[j]).rel
    &&& forall|i: int|
        0 <= i < entries.len() && !(#[trigger] entries[i]).is_dir ==> files.dom().contains(
            child_spec(source, entries[i].rel),
        )
    &&& forall|i: int|
        0 <= i < entries.len() ==> !is_staged(dest, child_spec(source, (#[trigger] entries[i]).rel))
}

/// Whether the file `entries[i]` is at `root` with the bytes that `before`
/// holds for it in the source.
pub open spec fn delivered(
    now: Files,
    root: Seq<char>,
    before: Files,
    source: Seq<char>,
    entries: Seq<TreeEntryView>,
    i: int,
) -> bool {
    &&& now.dom().contains(child_spec(root, entries[i].rel))
    &&& now[child_spec(root, entries[i].rel)] == before[child_spec(source, entries[i].rel)]
}

proof fn lemma_stage_copies_every_file(
    files: Files,
    source: Seq<char>,
    dest: Seq<char>,
    entries: Seq<TreeEntryView>,
    k: int,
)
    requires
        walk_is_sound(files, source, dest, entries),
        0 <= k <= entries.len(),
    ensures
        same_outside_staging(
            dest,
            run_ops(files, stage_script(source, dest, entries).take(k + 1)),
            files,
        ),
        forall|i: int|
            0 <= i < k && !(#[trigger] entries[i]).is_dir ==> delivered(
                run_ops(files, stage_script(source, dest, entries).take(k + 1)),
                tmp_path_spec(dest),
                files,
                source,
                entries,
                i,
            ),
    decreases k,
{
    let stage = stage_script(source, dest, entries);
    let staging = tmp_path_spec(dest);
    lemma_staging_leaves_destination_untouched(files, source, dest, entries, k + 1);
    if k > 0 {
        lemma_stage_copies_every_file(files, source, dest, entries, k - 1);
        lemma_run_one_more(files, stage, k);
        let before = run_ops(files, stage.take(k));
        let now = run_ops(files, stage.take(k + 1));
        assert forall|i: int| 0 <= i < k && !(#[trigger] entries[i]).is_dir implies delivered(
            now,
            staging,
            files,
            source,
            entries,
            i,
        ) by {
            let from = child_spec(source, entries[k - 1].rel);
            let to = child_spec(staging, entries[k - 1].rel);
            if !entries[k - 1].is_dir {
                assert(!is_staged(dest, from));
                assert(before.dom().contains(from) && before[from] == files[from]);
                assert(now == before.insert(to, before[from]));
                if i < k - 1 {
                    if child_spec(staging, entries[i].rel) == to {
                        lemma_child_is_injective(staging, entries[i].rel, entries[k - 1].rel);
                    }
                }
            } else {
                assert(now == before);
            }
        }
    }
}

proof fn lemma_commit_moves_every_file(
    files: Files,
    staged: Files,
    source: Seq<char>,
    dest: Seq<char>,
    entries: Seq<TreeEntryView>,
    k: int,
)
    requires
        walk_is_sound(files, source, dest, entries),
        forall|i: int|
            0 <= i < entries.len() && !(#[trigger] entries[i]).is_dir ==> delivered(
                staged,
                tmp_path_spec(dest),
                files,
                source,
                entries,
                i,
            ),
        0 <= k <= entries.len(),
    ensures
        forall|i: int|
            0 <= i < k && !(#[trigger] entries[i]).is_dir ==> delivered(
                run_ops(staged, commit_script(dest, entries).take(k)),
                dest,
                files,
                source,
                entries,
                i,
            ),
        forall|i: int|
            k <= i < entries.len() && !(#[trigger] entries[i]).is_dir ==> delivered(
                run_ops(staged, commit_script(dest, entries).take(k)),
                tmp_path_spec(dest),
                files,
                source,
                entries,
                i,
            ),
    decreases k,
{
    let commit = commit_script(dest, entries);
    let staging = tmp_path_spec(dest);
    if k == 0 {
        assert(commit.take(0) =~= Seq::<CopyOpView>::empty());
    } else {
        lemma_commit_moves_every_file(files, staged, source, dest, entries, k - 1);
        lemma_run_one_more(staged, commit, k - 1);
        let before = run_ops(staged, commit.take(k - 1));
        let now = run_ops(staged, commit.take(k));
        let from = child_spec(staging, entries[k - 1].rel);
        let to = child_spec(dest, entries[k - 1].rel);
        lemma_child_is_staged(dest, entries[k - 1].rel);
        lemma_destination_is_not_staged(dest, entries[k - 1].rel);
        if !entries[k - 1].is_dir {
            assert(delivered(before, staging, files, source, entries, k - 1));
            assert(now == before.insert(to, before[from]).remove(from));
        } else {
            assert(now == before);
        }
        assert forall|i: int| 0 <= i < k && !(#[trigger] entries[i]).is_dir implies delivered(
            now,
            dest,
            files,
            source,
            entries,
            i,
        ) by {
            let mine = child_spec(dest, entries[i].rel);
            lemma_destination_is_not_staged(dest, entries[i].rel);
            if i < k - 1 {
                if mine == to {
                    lemma_child_is_injective(dest, entries[i].rel, entries[k - 1].rel);
                }
            }
        }
        assert forall|i: int|
            k <= i < entries.len() && !(#[trigger] entries[i]).is_dir implies delivered(
            now,
            staging,
            files,
            source,
            entries,
            i,
        ) by {
            let mine = child_spec(staging, entries[i].rel);
            lemma_child_is_staged(dest, entries[i].rel);
            if mine == from {
                lemma_child_is_injective(staging, entries[i].rel, entries[k - 1].rel);
            }
        }
    }
}

proof fn lemma_permissions_keep_files(
    files: Files,
    source: Seq<char>,
    dest: Seq<char>,
    entries: Seq<TreeEntryView>,
)
    ensures
        run_ops(files, permission_script(source, dest, entries)) == files,
    decreases entries.len(),
{
    let perms = permission_script(source, dest, entries);
    if entries.len() > 0 {
        lemma_permissions_keep_files(files, source, dest, entries.drop_first());
        if entries[0].is_dir {
            let rest = permission_script(source, dest, entries.drop_first());
            assert(perms.drop_last() =~= rest);
        }
    }
}

/// A merge that runs to its end delivers every file: each file found in the
/// source is then at its place below the destination, with the bytes that
/// the source held. Run again on the same two trees, a comparison of the
/// two sides therefore finds them equal.
pub proof fn lemma_merge_delivers_every_file(
    files: Files,
    source: Seq<char>,
    dest: Seq<char>,
    entries: Seq<TreeEntryView>,
)
    requires
        copy_tree_spec(source, dest, false, entries) is Ok,
        walk_is_sound(files, source, dest, entries),
    ensures
        forall|i: int|
            0 <= i < entries.len() && !(#[trigger] entries[i]).is_dir ==> delivered(
                run_ops(files, copy_tree_spec(source, dest, false, entries)->Ok_0),
                dest,
                files,
                source,
                entries,
                i,
            ),
{
    let stage = stage_script(source, dest, entries);
    let commit = commit_script(dest, entries);
    let perms = permission_script(source, dest, entries);
    let staging = tmp_path_spec(dest);
    let cleanup = seq![CopyOpView::RemoveTree { path: staging }];
    let ops = copy_tree_spec(source, dest, false, entries)->Ok_0;
    let n = entries.len() as int;

    lemma_stage_copies_every_file(files, source, dest, entries, n);
    assert(stage.take(n + 1) =~= stage);
    let staged = run_ops(files, stage);
    lemma_commit_moves_every_file(files, staged, source, dest, entries, n);
    assert(commit.take(n) =~= commit);
    let committed = run_ops(staged, commit);
    lemma_permissions_keep_files(committed, source, dest, entries);

    lemma_run_ops_concat(files, stage, commit);
    lemma_run_ops_concat(files, stage + commit, perms);
    lemma_run_ops_concat(files, stage + commit + perms, cleanup);
    assert(ops == stage + commit + perms + cleanup);
    assert(run_ops(files, stage + commit + perms) == committed);
    assert(cleanup.drop_last() =~= Seq::<CopyOpView>::empty());
    assert(cleanup.last() == (CopyOpView::RemoveTree { path: staging }));
    assert(run_ops(committed, cleanup.drop_last()) == committed);
    assert(run_ops(committed, cleanup) == apply_op(
        committed,
        CopyOpView::RemoveTree { path: staging },
    ));
    let done = run_ops(files, ops);
    assert(done == apply_op(committed, CopyOpView::RemoveTree { path: staging }));
    assert forall|i: int| 0 <= i < entries.len() && !(#[trigger] entries[i]).is_dir implies delivered(
        done,
        dest,
        files,
        source,
        entries,
        i,
    ) by {
        lemma_destination_is_not_staged(dest, entries[i].rel);
        assert(delivered(committed, dest, files, source, entries, i));
    }
}

} // verus!

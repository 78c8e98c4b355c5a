use vstd::prelude::*;
use crate::error::TransferError;
use crate::paths::{
    joined, slashed, effective_path, effective_remote_path, relative_path, relative_to, remote_path, remote_path_of,
};

verus! {

/// What a local source path turned out to be.
#[derive(Debug, Clone, Copy, PartialEq, Eq)]
pub enum SourceKind {
    Missing,
    File,
    Directory,
    /// Neither a regular file nor a directory.
    Other,
}

/// One entry met while walking a local directory tree: its full local path
/// and whether it is a directory.
#[derive(Debug, Clone)]
pub struct LocalEntry {
    pub path: String,
    pub is_dir: bool,
}

/// One step on the remote side.
#[derive(Debug, Clone)]
pub enum RemoteAction {
    /// Create the directory at this remote path (an existing one is kept).
    MakeDir(String),
    /// Send the local file `local` to the remote path `remote`.
    Send { local: String, remote: String },
}

/// The local paths of the files of a walk, in walk order.
pub open spec fn file_paths(es: Seq<LocalEntry>) -> Seq<Seq<char>>
    decreases es.len(),
{
    if es.len() == 0 {
        Seq::empty()
    } else if es.last().is_dir {
        file_paths(es.drop_last())
    } else {
        file_paths(es.drop_last()).push(es.last().path@)
    }
}

/// The files to transfer from `path`: the file itself, or every file of the
/// walk `tree` of the directory, in walk order.
pub fn get_files(path: &str, kind: SourceKind, tree: &Vec<LocalEntry>) -> (r: Result<
    Vec<String>,
    TransferError,
>)
    ensures
        match kind {
            SourceKind::Missing | SourceKind::Other => r matches Err(
                TransferError::Configuration(_),
            ),
            SourceKind::File => r is Ok && r->Ok_0@.len() == 1 && r->Ok_0@[0]@ == path@,
            SourceKind::Directory => r is Ok && r->Ok_0@.map_values(|f: String| f@) == file_paths(
                tree@,
            ),
        },
{
    match kind {
        SourceKind::Missing => Err(
            TransferError::Configuration(String::from_str("path does not exist")),
        ),
        SourceKind::Other => Err(
            TransferError::Configuration(String::from_str("path is neither a file nor a directory")),
        ),
        SourceKind::File => {
            let mut files: Vec<String> = Vec::new();
            files.push(String::from_str(path));
            Ok(files)
        },
        SourceKind::Directory => {
            let mut files: Vec<String> = Vec::new();
            let mut i: usize = 0;
            while i < tree.len()
                invariant
                    i <= tree@.len(),
                    files@.map_values(|f: String| f@) == file_paths(tree@.take(i as int)),
                decreases tree@.len() - i,
            {
                proof {
                    assert(tree@.take(i + 1).drop_last() =~= tree@.take(i as int));
                }
                if !tree[i].is_dir {
                    files.push(tree[i].path.clone());
                    proof {
                        assert(files@.map_values(|f: String| f@) =~= file_paths(
                            tree@.take(i as int),
                        ).push(tree@[i as int].path@));
                    }
                }
                i = i + 1;
            }
            proof {
                assert(tree@.take(tree@.len() as int) =~= tree@);
            }
            Ok(files)
        },
    }
}

/// Every entry of the walk lies under `source`.
pub open spec fn all_under(source: Seq<char>, tree: Seq<LocalEntry>) -> bool {
    forall|i: int| 0 <= i < tree.len() ==> (#[trigger] relative_to(source, tree[i].path@)) is Some
}

/// `a` is the remote step for the walk entry `e` of `source` sent to `root`.
pub open spec fn step_for(root: Seq<char>, source: Seq<char>, e: LocalEntry, a: RemoteAction) -> bool {
    match relative_to(source, e.path@) {
        Some(rel) => if e.is_dir {
            a matches RemoteAction::MakeDir(d) && d@ == remote_path(root, rel)
        } else {
            a matches RemoteAction::Send { local, remote } && local@ == e.path@ && remote@
                == remote_path(root, rel)
        },
        None => false,
    }
}

/// `acts` creates `root`, then takes the entries of the walk in order.
pub open spec fn directory_plan(
    root: Seq<char>,
    source: Seq<char>,
    tree: Seq<LocalEntry>,
    acts: Seq<RemoteAction>,
) -> bool {
    &&& acts.len() == tree.len() + 1
    &&& acts[0] matches RemoteAction::MakeDir(d) && d@ == root
    &&& forall|i: int| 0 <= i < tree.len() ==> step_for(root, source, tree[i], #[trigger] acts[i + 1])
}

fn step_of(root: &str, source: &str, e: &LocalEntry) -> (r: Result<RemoteAction, TransferError>)
    ensures
        match r {
            Ok(a) => step_for(root@, source@, *e, a),
            Err(err) => relative_to(source@, e.path@) is None && err matches TransferError::Configuration(_),
        },
{
    match relative_path(source, e.path.as_str()) {
        Some(rel) => {
            let remote = remote_path_of(root, rel.as_str());
            if e.is_dir {
                Ok(RemoteAction::MakeDir(remote))
            } else {
                Ok(RemoteAction::Send { local: e.path.clone(), remote })
            }
        },
        None => Err(
            TransferError::Configuration(String::from_str("walk entry lies outside the source")),
        ),
    }
}

/// The remote steps that copy the directory `source`, walked as `tree`, to
/// `remote_root`: the root first, then one step per entry in walk order.
pub fn plan_directory(remote_root: &str, source: &str, tree: &Vec<LocalEntry>) -> (r: Result<
    Vec<RemoteAction>,
    TransferError,
>)
    ensures
        r is Ok <==> all_under(source@, tree@),
        r is Ok ==> directory_plan(remote_root@, source@, tree@, r->Ok_0@),
        r is Err ==> r matches Err(TransferError::Configuration(_)),
{
    let mut acts: Vec<RemoteAction> = Vec::new();
    acts.push(RemoteAction::MakeDir(String::from_str(remote_root)));
    let mut i: usize = 0;
    while i < tree.len()
        invariant
            i <= tree@.len(),
            acts@.len() == i + 1,
            acts@[0] matches RemoteAction::MakeDir(d) && d@ == remote_root@,
            forall|j: int| 0 <= j < i ==> step_for(remote_root@, source@, tree@[j], #[trigger] acts@[j + 1]),
            forall|j: int| 0 <= j < i ==> (#[trigger] relative_to(source@, tree@[j].path@)) is Some,
        decreases tree@.len() - i,
    {
        match step_of(remote_root, source, &tree[i]) {
            Ok(a) => {
                acts.push(a);
            },
            Err(e) => {
                return Err(e);
            },
        }
        i = i + 1;
    }
    Ok(acts)
}

/// The remote steps that copy `source` to `remote_root`: one send for a
/// file, the directory plan for a directory.
pub fn plan_stream_transfer(
    remote_root: &str,
    source: &str,
    kind: SourceKind,
    tree: &Vec<LocalEntry>,
) -> (r: Result<Vec<RemoteAction>, TransferError>)
    ensures
        match kind {
            SourceKind::Missing | SourceKind::Other => r matches Err(
                TransferError::Configuration(_),
            ),
            SourceKind::File => r is Ok && r->Ok_0@.len() == 1 && (r->Ok_0@[0] matches RemoteAction::Send { local, remote }
                && local@ == source@ && remote@ == effective_path(remote_root@, source@)),
            SourceKind::Directory => (r is Ok <==> all_under(source@, tree@)) && (r is Ok
                ==> directory_plan(remote_root@, source@, tree@, r->Ok_0@)) && (r is Err ==> r matches Err(
                TransferError::Configuration(_),
            )),
        },
{
    match kind {
        SourceKind::Missing => Err(
            TransferError::Configuration(String::from_str("path does not exist")),
        ),
        SourceKind::Other => Err(
            TransferError::Configuration(String::from_str("path is neither a file nor a directory")),
        ),
        SourceKind::File => {
            let mut acts: Vec<RemoteAction> = Vec::new();
            let remote = effective_remote_path(remote_root, source);
            acts.push(RemoteAction::Send { local: String::from_str(source), remote });
            Ok(acts)
        },
        SourceKind::Directory => plan_directory(remote_root, source, tree),
    }
}

/// One upload to object storage: the local file and its object key.
#[derive(Debug, Clone)]
pub struct Upload {
    pub key: String,
    pub local: String,
}

/// `ups` uploads each of `files`, in order, keyed by `key_prefix` joined
/// with the file's path relative to `source`, with forward slashes.
pub open spec fn uploads_under(
    source: Seq<char>,
    key_prefix: Seq<char>,
    files: Seq<Seq<char>>,
    ups: Seq<Upload>,
) -> bool {
    &&& ups.len() == files.len()
    &&& forall|i: int| 0 <= i < files.len() ==> {
        let u = #[trigger] ups[i];
        &&& u.local@ == files[i]
        &&& u.key@ == remote_path(key_prefix, relative_to(source, files[i])->0)
    }
}

/// Every one of `files` lies under `source`.
pub open spec fn files_under(source: Seq<char>, files: Seq<Seq<char>>) -> bool {
    forall|i: int| 0 <= i < files.len() ==> (#[trigger] relative_to(source, files[i])) is Some
}

/// The uploads that copy `files`, found inside the directory `source`,
/// below `key_prefix`.
pub fn plan_uploads(source: &str, key_prefix: &str, files: &Vec<String>) -> (r: Result<
    Vec<Upload>,
    TransferError,
>)
    ensures
        r is Ok <==> files_under(source@, files@.map_values(|f: String| f@)),
        r is Err ==> r matches Err(TransferError::Configuration(_)),
        r is Ok ==> uploads_under(
            source@,
            key_prefix@,
            files@.map_values(|f: String| f@),
            r->Ok_0@,
        ),
{
    let ghost views = files@.map_values(|f: String| f@);
    let mut ups: Vec<Upload> = Vec::new();
    let mut i: usize = 0;
    while i < files.len()
        invariant
            i <= files@.len(),
            views == files@.map_values(|f: String| f@),
            ups@.len() == i,
            forall|j: int| 0 <= j < i ==> (#[trigger] relative_to(source@, views[j])) is Some,
            forall|j: int| 0 <= j < i ==> {
                let u = #[trigger] ups@[j];
                &&& u.local@ == views[j]
                &&& u.key@ == remote_path(key_prefix@, relative_to(source@, views[j])->0)
            },
        decreases files@.len() - i,
    {
        match relative_path(source, files[i].as_str()) {
            Some(rel) => {
                let key = remote_path_of(key_prefix, rel.as_str());
                ups.push(Upload { key, local: files[i].clone() });
            },
            None => {
                assert(!(relative_to(source@, views[i as int]) is Some));
                return Err(
                    TransferError::Configuration(String::from_str("file lies outside the source")),
                );
            },
        }
        i = i + 1;
    }
    Ok(ups)
}

/// The uploads that copy `source` below `key_prefix`: for a file, one
/// upload keyed as a single file is named on the remote side (the prefix
/// plus the file's name where the prefix ends in `/`, else the prefix
/// itself); for a directory, one upload per file of the walk `tree`.
pub fn plan_oss_transfer(
    key_prefix: &str,
    source: &str,
    kind: SourceKind,
    tree: &Vec<LocalEntry>,
) -> (r: Result<Vec<Upload>, TransferError>)
    ensures
        match kind {
            SourceKind::Missing | SourceKind::Other => r matches Err(
                TransferError::Configuration(_),
            ),
            SourceKind::File => r is Ok && r->Ok_0@.len() == 1 && r->Ok_0@[0].local@ == source@
                && r->Ok_0@[0].key@ == effective_path(key_prefix@, source@),
            SourceKind::Directory => (r is Ok <==> files_under(source@, file_paths(tree@))) && (
            r is Ok ==> uploads_under(source@, key_prefix@, file_paths(tree@), r->Ok_0@)) && (r is Err
                ==> r matches Err(TransferError::Configuration(_))),
        },
{
    match kind {
        SourceKind::File => {
            let mut ups: Vec<Upload> = Vec::new();
            let key = effective_remote_path(key_prefix, source);
            ups.push(Upload { key, local: String::from_str(source) });
            Ok(ups)
        },
        _ => {
            let files = get_files(source, kind, tree)?;
            plan_uploads(source, key_prefix, &files)
        },
    }
}

/// The walk lists every directory before what lies in it: an entry at
/// `d/name` comes after a directory entry at `d`.
pub open spec fn parents_first(source: Seq<char>, tree: Seq<LocalEntry>) -> bool {
    forall|i: int, d: Seq<char>, name: Seq<char>|
        0 <= i < tree.len() && relative_to(source, tree[i].path@) == Some(d + seq!['/'] + name)
            ==> exists|j: int|
            0 <= j < i && tree[j].is_dir && #[trigger] relative_to(source, tree[j].path@) == Some(d)
}

/// In a directory plan of a walk that lists parents first, the remote
/// directory that holds a sent file is created before the file is sent:
/// the root for a top-level file, the directory's own step otherwise.
pub proof fn lemma_parent_made_before_send(
    root: Seq<char>,
    source: Seq<char>,
    tree: Seq<LocalEntry>,
    acts: Seq<RemoteAction>,
    i: int,
    d: Seq<char>,
    name: Seq<char>,
)
    requires
        directory_plan(root, source, tree, acts),
        parents_first(source, tree),
        0 <= i < tree.len(),
        !tree[i].is_dir,
        relative_to(source, tree[i].path@) == Some(d + seq!['/'] + name),
    ensures
        acts[i + 1] matches RemoteAction::Send { remote, .. } && remote@ == remote_path(
            root,
            d + seq!['/'] + name,
        ),
        exists|k: int|
            0 < k < i + 1 && ((#[trigger] acts[k]) matches RemoteAction::MakeDir(p) && p@
                == remote_path(root, d)),
{
    assert(step_for(root, source, tree[i], acts[i + 1]));
    let j = choose|j: int|
        0 <= j < i && tree[j].is_dir && #[trigger] relative_to(source, tree[j].path@) == Some(d);
    assert(step_for(root, source, tree[j], acts[j + 1]));
}

/// In a directory plan, a top-level file (one whose relative path holds no
/// `/`) is sent after the root, which the plan creates first.
pub proof fn lemma_root_made_first(
    root: Seq<char>,
    source: Seq<char>,
    tree: Seq<LocalEntry>,
    acts: Seq<RemoteAction>,
    i: int,
)
    requires
        directory_plan(root, source, tree, acts),
        0 <= i < tree.len(),
        !tree[i].is_dir,
    ensures
        acts[0] matches RemoteAction::MakeDir(p) && p@ == root,
        acts[i + 1] matches RemoteAction::Send { local, remote } && local@ == tree[i].path@ && remote@
            == remote_path(root, relative_to(source, tree[i].path@)->0),
{
    assert(step_for(root, source, tree[i], acts[i + 1]));
}

/// The remote path of an entry `d/name` lies inside the remote path of its
/// directory `d`, for a relative `d`.
pub proof fn lemma_child_inside_parent(root: Seq<char>, d: Seq<char>, name: Seq<char>)
    requires
        d.len() > 0,
        d[0] != '/',
    ensures
        remote_path(root, d + seq!['/'] + name) == remote_path(root, d) + seq!['/'] + slashed(
            name,
        ),
{
    let rel = d + seq!['/'] + name;
    assert(rel[0] == d[0]);
    let base = if root.len() == 0 {
        Seq::<char>::empty()
    } else if root.last() == '/' {
        root
    } else {
        root + seq!['/']
    };
    assert(joined(root, rel) =~= base + rel);
    assert(joined(root, d) =~= base + d);
    assert(slashed(base + rel) =~= slashed(base + d) + seq!['/'] + slashed(name));
}

} // verus!

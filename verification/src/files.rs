//! Building lists of files from a directory tree, filtered by extension. The
//! tree is handed in as data; walking the real file system is the surrounding
//! runtime's job.

use vstd::prelude::*;
use vstd::string::StrSliceExecFns;
use crate::error::ExecError;

verus! {

/// One node of a directory tree: a file or a directory, each carrying its
/// full path.
#[derive(Debug)]
pub enum FileNode {
    /// A plain file with its full path.
    File(String),
    /// A directory with its full path and its entries.
    Dir(String, Vec<FileNode>),
}

/// Whether `s` ends with `suffix`.
pub open spec fn spec_ends_with(s: Seq<char>, suffix: Seq<char>) -> bool {
    s.len() >= suffix.len() && s.skip(s.len() - suffix.len()) == suffix
}

/// The files of the tree whose paths end with `ext`, in depth-first order.
pub open spec fn spec_file_list(node: FileNode, ext: Seq<char>) -> Seq<Seq<char>>
    decreases node,
{
    match node {
        FileNode::File(p) => if spec_ends_with(p@, ext) {
            seq![p@]
        } else {
            Seq::empty()
        },
        FileNode::Dir(_, children) => spec_file_list_from(children, 0, ext),
    }
}

/// The matching files of the children from index `i` on, in depth-first
/// order.
pub open spec fn spec_file_list_from(children: Vec<FileNode>, i: int, ext: Seq<char>) -> Seq<
    Seq<char>,
>
    decreases children, children@.len() - i,
{
    if i < 0 || i >= children@.len() {
        Seq::empty()
    } else {
        spec_file_list(children@[i], ext) + spec_file_list_from(children, i + 1, ext)
    }
}

/// The matching files of the children before index `i`, in depth-first order.
pub open spec fn spec_file_list_upto(children: Vec<FileNode>, i: int, ext: Seq<char>) -> Seq<
    Seq<char>,
>
    decreases children, if i >= 0 {
        i
    } else {
        0
    },
{
    if i <= 0 || i > children@.len() {
        Seq::empty()
    } else {
        spec_file_list_upto(children, i - 1, ext) + spec_file_list(children@[i - 1], ext)
    }
}

/// The matching files before and from index `i` together are all of them.
proof fn lemma_file_list_split(children: Vec<FileNode>, i: int, ext: Seq<char>)
    requires
        0 <= i <= children@.len(),
    ensures
        spec_file_list_upto(children, i, ext) + spec_file_list_from(children, i, ext)
            == spec_file_list_from(children, 0, ext),
    decreases i,
{
    if i == 0 {
        assert(spec_file_list_upto(children, 0, ext) + spec_file_list_from(children, 0, ext)
            =~= spec_file_list_from(children, 0, ext));
    } else {
        lemma_file_list_split(children, i - 1, ext);
        assert(spec_file_list_upto(children, i, ext) + spec_file_list_from(children, i, ext)
            =~= spec_file_list_upto(children, i - 1, ext) + spec_file_list_from(
            children,
            i - 1,
            ext,
        ));
    }
}

/// The paths as mathematical sequences of characters.
pub open spec fn paths_view(paths: Seq<String>) -> Seq<Seq<char>> {
    paths.map_values(|p: String| p@)
}

/// Whether `s` ends with `suffix`, comparing characters.
pub fn str_ends_with(s: &str, suffix: &str) -> (r: bool)
    ensures
        r == spec_ends_with(s@, suffix@),
{
    let sl = s.unicode_len();
    let el = suffix.unicode_len();
    if el > sl {
        return false;
    }
    let off = sl - el;
    let mut i: usize = 0;
    while i < el
        invariant
            i <= el <= sl,
            sl == s@.len(),
            el == suffix@.len(),
            off == sl - el,
            forall|k: int| 0 <= k < i ==> s@[off + k] == suffix@[k],
        decreases el - i,
    {
        let cs = s.get_char(off + i);
        let ce = suffix.get_char(i);
        if cs != ce {
            proof {
                if spec_ends_with(s@, suffix@) {
                    assert(s@.skip(off as int)[i as int] == suffix@[i as int]);
                    assert(s@.skip(off as int)[i as int] == s@[off + i]);
                }
            }
            return false;
        }
        i += 1;
    }
    proof {
        assert(s@.skip(off as int) =~= suffix@);
    }
    true
}

/// Collects into `filenames` the files under `node` whose paths end with
/// `ext`, in depth-first order.
pub fn build_file_list_recurse(node: &FileNode, filenames: &mut Vec<String>, ext: &str)
    ensures
        paths_view(final(filenames)@) == paths_view(old(filenames)@) + spec_file_list(*node, ext@),
    decreases *node,
{
    match node {
        FileNode::File(p) => {
            if str_ends_with(p.as_str(), ext) {
                filenames.push(p.clone());
                proof {
                    assert(paths_view(filenames@) =~= paths_view(old(filenames)@) + spec_file_list(
                        *node,
                        ext@,
                    ));
                }
            } else {
                proof {
                    assert(paths_view(filenames@) =~= paths_view(old(filenames)@) + spec_file_list(
                        *node,
                        ext@,
                    ));
                }
            }
        },
        FileNode::Dir(dir_name, children) => {
            let mut i: usize = 0;
            while i < children.len()
                invariant
                    i <= children@.len(),
                    *node == FileNode::Dir(*dir_name, *children),
                    paths_view(filenames@) == paths_view(old(filenames)@) + spec_file_list_upto(
                        *children,
                        i as int,
                        ext@,
                    ),
                decreases children@.len() - i,
            {
                proof {
                    assert(*node == FileNode::Dir(*dir_name, *children));
                    assert(decreases_to!(*node => node->Dir_1));
                    assert(decreases_to!(node->Dir_1 => node->Dir_1@));
                    assert(decreases_to!(node->Dir_1@ => node->Dir_1@[i as int]));
                    assert(decreases_to!(*node => children@[i as int]));
                }
                build_file_list_recurse(&children[i], filenames, ext);
                proof {
                    assert(paths_view(filenames@) =~= paths_view(old(filenames)@)
                        + spec_file_list_upto(*children, i + 1, ext@));
                }
                i += 1;
            }
            proof {
                lemma_file_list_split(*children, children@.len() as int, ext@);
                assert(spec_file_list_from(*children, children@.len() as int, ext@).len() == 0);
                assert(spec_file_list_upto(*children, children@.len() as int, ext@)
                    =~= spec_file_list_from(*children, 0, ext@));
            }
        },
    }
}

/// Builds the list of files under `dir` with the given extension, in
/// depth-first order.
pub fn build_file_list(dir: &FileNode, ext: &str) -> (r: Vec<String>)
    ensures
        paths_view(r@) == spec_file_list(*dir, ext@),
{
    let mut filenames: Vec<String> = Vec::new();
    build_file_list_recurse(dir, &mut filenames, ext);
    proof {
        assert(paths_view(filenames@) =~= spec_file_list(*dir, ext@));
    }
    filenames
}

/// Builds the list of files under `dir` with the given extension and rejects
/// an empty result with a plan error naming the directory.
pub fn build_checked_file_list(dir: &FileNode, ext: &str) -> (r: Result<Vec<String>, ExecError>)
    ensures
        r is Ok <==> spec_file_list(*dir, ext@).len() > 0,
        r matches Ok(v) ==> paths_view(v@) == spec_file_list(*dir, ext@),
        r matches Err(e) ==> e is Plan,
{
    let filenames = build_file_list(dir, ext);
    if filenames.len() == 0 {
        let dir_path = match dir {
            FileNode::File(p) => p,
            FileNode::Dir(p, _) => p,
        };
        return Err(
            ExecError::Plan(
                "No files found at ".to_owned().concat(dir_path.as_str()).concat(
                    " with the requested file extension",
                ),
            ),
        );
    }
    Ok(filenames)
}

} // verus!

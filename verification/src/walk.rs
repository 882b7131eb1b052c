//! The directory walk: which files of a tree belong to its signature, under
//! which root-relative path, and in which order.

use vstd::prelude::*;
use crate::signature::texts;

verus! {

/// One entry of a directory, as the walk sees it.
#[derive(Debug, PartialEq, Eq)]
pub enum FsNode {
    /// A regular file.
    File { name: String },
    /// A directory, with its entries in the order in which it lists them.
    Directory { name: String, children: Vec<FsNode> },
}

/// A name is hidden when it begins with a dot.
pub open spec fn hidden_name(name: Seq<char>) -> bool {
    name.len() > 0 && name[0] == '.'
}

/// The path of the entry `name` of the directory at `prefix`; the root's own
/// path is empty.
pub open spec fn join_path(prefix: Seq<char>, name: Seq<char>) -> Seq<char> {
    if prefix.len() == 0 {
        name
    } else {
        prefix + seq!['/'] + name
    }
}

/// The files that the walk reports for one entry of the directory at
/// `prefix`: none for a hidden entry, the file itself, or the files of a
/// directory's entries, depth first.
pub open spec fn files_under(node: FsNode, prefix: Seq<char>) -> Seq<Seq<char>>
    decreases node,
{
    match node {
        FsNode::File { name } => if hidden_name(name@) {
            Seq::empty()
        } else {
            seq![join_path(prefix, name@)]
        },
        FsNode::Directory { name, children } => if hidden_name(name@) {
            Seq::empty()
        } else {
            files_among(children@, join_path(prefix, name@))
        },
    }
}

/// The files that the walk reports for the entries `nodes` of the directory
/// at `prefix`, entry after entry.
pub open spec fn files_among(nodes: Seq<FsNode>, prefix: Seq<char>) -> Seq<Seq<char>>
    decreases nodes,
{
    if nodes.len() == 0 {
        Seq::empty()
    } else {
        files_among(nodes.drop_last(), prefix) + files_under(nodes.last(), prefix)
    }
}

/// Whether the walk passes over an entry of this name.
pub fn is_hidden(name: &str) -> (hidden: bool)
    ensures
        hidden == hidden_name(name@),
{
    !name.is_empty() && name.get_char(0) == '.'
}

/// The path of the entry `name` of the directory at `prefix`.
fn child_path(prefix: &String, name: &String) -> (path: String)
    ensures
        path@ == join_path(prefix@, name@),
{
    if prefix.as_str().is_empty() {
        name.clone()
    } else {
        proof {
            reveal_strlit("/");
        }
        let mut path = prefix.clone();
        path.append("/");
        path.append(name.as_str());
        assert(path@ =~= prefix@ + seq!['/'] + name@);
        path
    }
}

/// Appends to `found` the files that the walk reports for `node`.
fn collect_under(node: &FsNode, prefix: &String, found: &mut Vec<String>)
    ensures
        texts(final(found)@) == texts(old(found)@) + files_under(*node, prefix@),
    decreases node,
{
    match node {
        FsNode::File { name } => {
            if !is_hidden(name.as_str()) {
                let path = child_path(prefix, name);
                found.push(path);
                assert(texts(found@) =~= texts(old(found)@) + seq![join_path(prefix@, name@)]);
            } else {
                assert(texts(found@) =~= texts(old(found)@) + Seq::empty());
            }
        },
        FsNode::Directory { name, children } => {
            if !is_hidden(name.as_str()) {
                let path = child_path(prefix, name);
                collect_among(children, &path, found);
            } else {
                assert(texts(found@) =~= texts(old(found)@) + Seq::empty());
            }
        },
    }
}

/// Appends to `found` the files that the walk reports for the entries
/// `nodes` of the directory at `prefix`.
fn collect_among(nodes: &Vec<FsNode>, prefix: &String, found: &mut Vec<String>)
    ensures
        texts(final(found)@) == texts(old(found)@) + files_among(nodes@, prefix@),
    decreases nodes,
{
    let mut i: usize = 0;
    assert(nodes@.take(0) =~= Seq::empty());
    assert(texts(found@) =~= texts(old(found)@) + Seq::empty());
    while i < nodes.len()
        invariant
            i <= nodes.len(),
            texts(found@) == texts(old(found)@) + files_among(nodes@.take(i as int), prefix@),
        decreases nodes.len() - i,
    {
        let ghost before = texts(found@);
        collect_under(&nodes[i], prefix, found);
        proof {
            let upto = nodes@.take(i + 1);
            assert(upto.drop_last() =~= nodes@.take(i as int));
            assert(upto.last() == nodes@[i as int]);
            assert(texts(found@) =~= texts(old(found)@) + files_among(upto, prefix@));
        }
        i += 1;
    }
    assert(nodes@.take(nodes.len() as int) =~= nodes@);
}

/// Walks the tree whose root directory lists `nodes`, depth first, and gives
/// the root-relative paths of its files in the order of the walk. Hidden
/// entries are passed over, and with a hidden directory all that is in it.
/// Of a tree as a file system holds it, no path comes twice.
pub fn visit_dirs(nodes: &Vec<FsNode>) -> (paths: Vec<String>)
    ensures
        texts(paths@) == files_among(nodes@, Seq::empty()),
        proper_nodes(nodes@) ==> texts(paths@).no_duplicates(),
{
    let mut found: Vec<String> = Vec::new();
    let root = String::new();
    collect_among(nodes, &root, &mut found);
    proof {
        assert(texts(Seq::<String>::empty()) =~= Seq::empty());
        if proper_nodes(nodes@) {
            lemma_walk_reports_no_path_twice(nodes@, Seq::empty());
        }
    }
    found
}

/// The name of an entry.
pub open spec fn node_name(node: FsNode) -> Seq<char> {
    match node {
        FsNode::File { name } => name@,
        FsNode::Directory { name, .. } => name@,
    }
}

/// A name as a directory holds it: not empty, and without a separator.
pub open spec fn plain_name(name: Seq<char>) -> bool {
    name.len() > 0 && !name.contains('/')
}

/// An entry as a file system holds it: its name is plain, and so it is for
/// all that is in it.
pub open spec fn proper_node(node: FsNode) -> bool
    decreases node,
{
    &&& plain_name(node_name(node))
    &&& match node {
        FsNode::File { .. } => true,
        FsNode::Directory { children, .. } => proper_nodes(children@),
    }
}

/// The entries of one directory as a file system holds them: each is
/// proper, and no two have the same name.
pub open spec fn proper_nodes(nodes: Seq<FsNode>) -> bool
    decreases nodes,
{
    &&& forall|i: int| 0 <= i < nodes.len() ==> proper_node(#[trigger] nodes[i])
    &&& forall|i: int, j: int|
        0 <= i < j < nodes.len() ==> node_name(#[trigger] nodes[i]) != node_name(
            #[trigger] nodes[j],
        )
}

/// `path` is `base` or lies below it.
pub open spec fn lies_under(path: Seq<char>, base: Seq<char>) -> bool {
    ||| path == base
    ||| path.len() > base.len() && path.subrange(0, base.len() as int) == base
        && path[base.len() as int] == '/'
}

/// What lies under an entry of a directory lies under the directory.
proof fn lemma_under_child(path: Seq<char>, base: Seq<char>, child: Seq<char>)
    requires
        base.len() > 0,
        lies_under(path, join_path(base, child)),
    ensures
        lies_under(path, base),
{
    let joined = join_path(base, child);
    assert(joined =~= base + seq!['/'] + child);
    assert(joined[base.len() as int] == '/');
    if path != joined {
        assert(path.subrange(0, joined.len() as int)[base.len() as int] == path[base.len() as int]);
        assert(path.subrange(0, base.len() as int) =~= path.subrange(0, joined.len() as int).subrange(
            0,
            base.len() as int,
        ));
    }
    assert(joined.subrange(0, base.len() as int) =~= base);
}

/// Every file that the walk reports for an entry lies under that entry.
proof fn lemma_files_under_lie_under(node: FsNode, prefix: Seq<char>, path: Seq<char>)
    requires
        proper_node(node),
        files_under(node, prefix).contains(path),
    ensures
        lies_under(path, join_path(prefix, node_name(node))),
    decreases node,
{
    match node {
        FsNode::File { name } => {},
        FsNode::Directory { name, children } => {
            let base = join_path(prefix, name@);
            let i = lemma_files_among_come_from_one(children@, base, path);
            lemma_files_under_lie_under(children@[i], base, path);
            lemma_under_child(path, base, node_name(children@[i]));
        },
    }
}

/// Every file that the walk reports for the entries of a directory is
/// reported for one of them.
proof fn lemma_files_among_come_from_one(nodes: Seq<FsNode>, prefix: Seq<char>, path: Seq<char>) -> (i:
    int)
    requires
        files_among(nodes, prefix).contains(path),
    ensures
        0 <= i < nodes.len(),
        files_under(nodes[i], prefix).contains(path),
    decreases nodes.len(),
{
    let earlier = files_among(nodes.drop_last(), prefix);
    let last = files_under(nodes.last(), prefix);
    let k = choose|k: int| 0 <= k < (earlier + last).len() && (earlier + last)[k] == path;
    if k < earlier.len() {
        assert(earlier[k] == path);
        lemma_files_among_come_from_one(nodes.drop_last(), prefix, path)
    } else {
        assert(last[k - earlier.len()] == path);
        nodes.len() - 1
    }
}

/// Nothing lies under two entries of one directory that have different
/// names.
proof fn lemma_entries_part(path: Seq<char>, prefix: Seq<char>, first: Seq<char>, second: Seq<char>)
    requires
        plain_name(first),
        plain_name(second),
        first != second,
        lies_under(path, join_path(prefix, first)),
    ensures
        !lies_under(path, join_path(prefix, second)),
{
    let lead = if prefix.len() == 0 {
        Seq::<char>::empty()
    } else {
        prefix + seq!['/']
    };
    let one = join_path(prefix, first);
    let two = join_path(prefix, second);
    assert(one =~= lead + first);
    assert(two =~= lead + second);
    if lies_under(path, two) {
        assert forall|k: int| 0 <= k < first.len() implies path[lead.len() + k] == first[k] by {
            if path != one {
                assert(path.subrange(0, one.len() as int)[lead.len() + k] == one[lead.len() + k]);
            }
        }
        assert forall|k: int| 0 <= k < second.len() implies path[lead.len() + k] == second[k] by {
            if path != two {
                assert(path.subrange(0, two.len() as int)[lead.len() + k] == two[lead.len() + k]);
            }
        }
        if first.len() == second.len() {
            assert(first =~= second);
        } else if first.len() < second.len() {
            assert(path[one.len() as int] == '/');
            assert(path[lead.len() + first.len() as int] == second[first.len() as int]);
            assert(second.contains('/'));
        } else {
            assert(path[two.len() as int] == '/');
            assert(path[lead.len() + second.len() as int] == first[second.len() as int]);
            assert(first.contains('/'));
        }
    }
}

/// The walk reports no file of a proper entry twice.
proof fn lemma_files_under_are_unique(node: FsNode, prefix: Seq<char>)
    requires
        proper_node(node),
    ensures
        files_under(node, prefix).no_duplicates(),
    decreases node,
{
    match node {
        FsNode::File { name } => {},
        FsNode::Directory { name, children } => {
            lemma_walk_reports_no_path_twice(children@, join_path(prefix, name@));
        },
    }
}

/// In a tree as a file system holds it, the walk reports no path twice:
/// every file of the signature has a path of its own.
pub proof fn lemma_walk_reports_no_path_twice(nodes: Seq<FsNode>, prefix: Seq<char>)
    requires
        proper_nodes(nodes),
    ensures
        files_among(nodes, prefix).no_duplicates(),
    decreases nodes,
{
    if nodes.len() > 0 {
        let before = nodes.drop_last();
        let earlier = files_among(before, prefix);
        let last = files_under(nodes.last(), prefix);
        assert(proper_nodes(before)) by {
            assert forall|i: int| 0 <= i < before.len() implies proper_node(
                #[trigger] before[i],
            ) by {
                assert(before[i] == nodes[i]);
            }
            assert forall|i: int, j: int| 0 <= i < j < before.len() implies node_name(
                #[trigger] before[i],
            ) != node_name(#[trigger] before[j]) by {
                assert(before[i] == nodes[i] && before[j] == nodes[j]);
            }
        }
        lemma_walk_reports_no_path_twice(before, prefix);
        lemma_files_under_are_unique(nodes.last(), prefix);
        assert forall|i: int, j: int| 0 <= i < earlier.len() && 0 <= j < last.len() implies earlier[i]
            != last[j] by {
            if earlier[i] == last[j] {
                let path = earlier[i];
                assert(earlier.contains(path));
                assert(last.contains(path));
                let k = lemma_files_among_come_from_one(before, prefix, path);
                assert(before[k] == nodes[k]);
                lemma_files_under_lie_under(nodes[k], prefix, path);
                lemma_files_under_lie_under(nodes.last(), prefix, path);
                lemma_entries_part(
                    path,
                    prefix,
                    node_name(nodes[k]),
                    node_name(nodes[nodes.len() - 1]),
                );
            }
        }
        vstd::seq_lib::lemma_no_dup_in_concat(earlier, last);
    }
}

} // verus!

//! The tree of notes: directories and Markdown files, hidden entries left
//! out, directories before files and each kind by name.

use vstd::prelude::*;
use crate::order::{
    arranged, is_ranking, lemma_arranged_ordered, lemma_arranged_permutes, lemma_slot_is, ordered,
};
use crate::text::{
    chars_of, ends_with, lemma_text_lt_total, lemma_text_lt_transitive, text_ends_with, text_less,
    text_lt,
};

verus! {

/// An entry of the tree: a file, or a directory with the entries below it.
#[derive(Debug)]
pub struct FileNode {
    pub name: String,
    pub path: String,
    pub is_file: bool,
    pub children: Option<Vec<FileNode>>,
}

/// The name is that of a hidden entry: it begins with a dot.
pub open spec fn hidden(name: Seq<char>) -> bool {
    name.len() > 0 && name[0] == '.'
}

/// An entry with this name is listed: it is not hidden, and it is a
/// directory or a file whose name ends in `.md`.
pub open spec fn listed(name: Seq<char>, is_file: bool) -> bool {
    !hidden(name) && (!is_file || ends_with(name, ".md"@))
}

/// `a` stands before `b` in the tree: it is a directory and `b` a file, or
/// both are of one kind and the name of `a` comes first.
pub open spec fn comes_before(a: FileNode, b: FileNode) -> bool {
    (!a.is_file && b.is_file) || (a.is_file == b.is_file && text_lt(a.name@, b.name@))
}

/// The ranking of entries by [`comes_before`].
pub open spec fn by_kind_and_name() -> spec_fn(FileNode, FileNode) -> bool {
    |a: FileNode, b: FileNode| comes_before(a, b)
}

/// The order of the tree is a ranking.
pub proof fn lemma_tree_order_is_ranking()
    ensures
        is_ranking(by_kind_and_name()),
{
    assert forall|a: FileNode, b: FileNode| #[trigger]
        by_kind_and_name()(a, b) implies !by_kind_and_name()(b, a) by {
        lemma_text_lt_total(a.name@, b.name@);
    }
    assert forall|a: FileNode, b: FileNode, c: FileNode| #[trigger]
        by_kind_and_name()(a, b) && !#[trigger] by_kind_and_name()(c, b) implies by_kind_and_name()(
        a,
        c,
    ) by {
        lemma_text_lt_total(b.name@, c.name@);
        if a.is_file == b.is_file && b.is_file == c.is_file && b.name@ != c.name@ {
            lemma_text_lt_transitive(a.name@, b.name@, c.name@);
        }
    }
}

/// Tells whether an entry with this name is hidden.
pub fn is_hidden(name: &str) -> (yes: bool)
    ensures
        yes == hidden(name@),
{
    let chars = chars_of(name);
    chars.len() > 0 && chars[0] == '.'
}

/// Tells whether an entry with this name is listed.
pub fn is_listed(name: &str, is_file: bool) -> (yes: bool)
    ensures
        yes == listed(name@, is_file),
{
    !is_hidden(name) && (!is_file || text_ends_with(name, ".md"))
}

/// Tells whether `a` stands before `b` in the tree.
pub fn stands_before(a: &FileNode, b: &FileNode) -> (first: bool)
    ensures
        first == comes_before(*a, *b),
{
    (!a.is_file && b.is_file) || (a.is_file == b.is_file && text_less(
        a.name.as_str(),
        b.name.as_str(),
    ))
}

/// Brings the entries of one directory into the order of the tree. Entries
/// of one kind and one name keep the order in which they came.
pub fn sort_nodes(nodes: Vec<FileNode>) -> (sorted: Vec<FileNode>)
    ensures
        sorted@ == arranged(nodes@, by_kind_and_name()),
        ordered(sorted@, by_kind_and_name()),
        sorted@.to_multiset() == nodes@.to_multiset(),
{
    let ghost all = nodes@;
    proof {
        lemma_tree_order_is_ranking();
        lemma_arranged_ordered(all, by_kind_and_name());
        lemma_arranged_permutes(all, by_kind_and_name());
    }
    let mut rest = nodes;
    let mut out: Vec<FileNode> = Vec::new();
    assert(all.take(0) =~= Seq::empty());
    while rest.len() > 0
        invariant
            rest.len() <= all.len(),
            rest@ == all.skip(all.len() - rest.len()),
            out@ == arranged(all.take(all.len() - rest.len()), by_kind_and_name()),
        decreases rest.len(),
    {
        let ghost done = all.len() - rest.len();
        let node = rest.remove(0);
        let mut at: usize = 0;
        while at < out.len() && !stands_before(&node, &out[at])
            invariant
                at <= out.len(),
                forall|k: int| 0 <= k < at ==> !comes_before(node, #[trigger] out@[k]),
            decreases out.len() - at,
        {
            at = at + 1;
        }
        proof {
            lemma_slot_is(out@, node, by_kind_and_name(), at as int);
            assert(node == all[done]);
            assert(all.take(done + 1).drop_last() =~= all.take(done));
            assert(all.take(done + 1).last() == node);
            assert(rest@ =~= all.skip(done + 1));
        }
        out.insert(at, node);
    }
    assert(all.take(all.len() as int) =~= all);
    out
}

} // verus!

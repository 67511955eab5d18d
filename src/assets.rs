use vstd::prelude::*;

use crate::text::chars_of;

verus! {

/// What a directory entry is, without following links.
#[derive(Clone, Copy, Debug, PartialEq, Eq, Structural)]
pub enum EntryKind {
    Dir,
    File,
    /// Neither a directory nor a regular file, such as a symbolic link.
    Other,
}

/// What the static-asset copy does with one entry of a source directory.
#[derive(Clone, Copy, Debug, PartialEq, Eq, Structural)]
pub enum AssetAction {
    /// Create the directory under the output and copy its contents there.
    Descend,
    /// Copy the file byte for byte.
    Copy,
    /// Leave the entry out.
    Skip,
}

/// What clearing the output directory does with one of its entries.
#[derive(Clone, Copy, Debug, PartialEq, Eq, Structural)]
pub enum CleanAction {
    /// Clear the directory, then remove it.
    ClearAndRemoveDir,
    /// Remove the entry itself.
    RemoveFile,
}

pub open spec fn html_suffix() -> Seq<char> {
    seq!['.', 'h', 't', 'm', 'l']
}

pub open spec fn ds_store() -> Seq<char> {
    seq!['.', 'D', 'S', '_', 'S', 't', 'o', 'r', 'e']
}

/// A file name whose extension is `html`: it ends with `.html`, and that dot
/// does not start the name.
pub open spec fn is_html_name(name: Seq<char>) -> bool {
    name.len() > 5 && name.skip(name.len() - 5) == html_suffix()
}

/// A file that the static-asset copy leaves out.
pub open spec fn is_excluded_asset(name: Seq<char>) -> bool {
    is_html_name(name) || name == ds_store()
}

pub open spec fn asset_action_spec(kind: EntryKind, name: Seq<char>) -> AssetAction {
    match kind {
        EntryKind::Dir => AssetAction::Descend,
        EntryKind::File => if is_excluded_asset(name) {
            AssetAction::Skip
        } else {
            AssetAction::Copy
        },
        EntryKind::Other => AssetAction::Skip,
    }
}

fn ends_with_chars(cs: &Vec<char>, suffix: &Vec<char>) -> (r: bool)
    ensures
        r == (suffix@.len() <= cs@.len() && cs@.skip(cs@.len() - suffix@.len()) == suffix@),
{
    if suffix.len() > cs.len() {
        return false;
    }
    let start = cs.len() - suffix.len();
    let mut i: usize = 0;
    while i < suffix.len()
        invariant
            start == cs.len() - suffix.len(),
            i <= suffix.len(),
            forall|j: int| 0 <= j < i ==> cs@[start + j] == suffix@[j],
        decreases suffix.len() - i,
    {
        if cs[start + i] != suffix[i] {
            assert(cs@.skip(start as int)[i as int] != suffix@[i as int]);
            return false;
        }
        i = i + 1;
    }
    assert(cs@.skip(start as int) =~= suffix@);
    true
}

/// Whether the static-asset copy leaves out a file of this name: one whose
/// extension is `html`, or the marker file `.DS_Store`.
pub fn is_excluded_asset_name(name: &str) -> (r: bool)
    ensures
        r == is_excluded_asset(name@),
{
    let cs = chars_of(name);
    let html = chars_of(".html");
    let marker = chars_of(".DS_Store");
    proof {
        reveal_strlit(".html");
        reveal_strlit(".DS_Store");
        assert(html@ =~= html_suffix());
        assert(marker@ =~= ds_store());
    }
    let is_html = cs.len() > 5 && ends_with_chars(&cs, &html);
    let is_marker = cs.len() == 9 && ends_with_chars(&cs, &marker);
    proof {
        if cs@.len() == 9 {
            assert(cs@.skip(0) =~= cs@);
        }
    }
    is_html || is_marker
}

/// What the static-asset copy does with a source entry: it descends into
/// every directory, copies every regular file but those it leaves out, and
/// leaves out everything else.
pub fn asset_action(kind: EntryKind, name: &str) -> (r: AssetAction)
    ensures
        r == asset_action_spec(kind, name@),
{
    match kind {
        EntryKind::Dir => AssetAction::Descend,
        EntryKind::File => if is_excluded_asset_name(name) {
            AssetAction::Skip
        } else {
            AssetAction::Copy
        },
        EntryKind::Other => AssetAction::Skip,
    }
}

/// What clearing the output directory does with an entry: nothing in it is
/// kept, and a directory is emptied before it is removed.
pub fn clean_action(kind: EntryKind) -> (r: CleanAction)
    ensures
        r == (if kind == EntryKind::Dir {
            CleanAction::ClearAndRemoveDir
        } else {
            CleanAction::RemoveFile
        }),
{
    if kind == EntryKind::Dir {
        CleanAction::ClearAndRemoveDir
    } else {
        CleanAction::RemoveFile
    }
}

} // verus!

//! Shortcut synthesis: turn a declarative shortcut description into the
//! destination path and the exact contents of a small launcher script. The
//! caller writes the file; the contents are a pure function of the
//! description, so writing twice yields byte-identical files.

use crate::config::Shortcut;
use crate::paths::{join_path, file_name_of, spec_file_name, spec_join};
use vstd::prelude::*;
use vstd::string::StringExecFns;

verus! {

/// The contents of the launcher file for a shortcut with the given `target`
/// and `cwd`: a one-line start-and-detach launcher when `cwd` is empty,
/// otherwise a script that moves into `cwd` (relative to its own directory)
/// and invokes only the filename component of `target` from there.
pub open spec fn spec_shortcut_contents(target: Seq<char>, cwd: Seq<char>) -> Seq<char> {
    if cwd.len() == 0 {
        "@start \"\" \""@ + target + "\"\n"@
    } else {
        "@echo off\n\ncd /D %~dp0"@ + cwd + "\ncall .\\"@ + spec_file_name(target) + "\n"@
    }
}

/// A launcher file to be created: where it goes and what it holds.
#[derive(Debug)]
pub struct ShortcutFile {
    pub path: String,
    pub contents: String,
}

/// The exact contents of the launcher file for `shortcut`.
pub fn shortcut_contents(shortcut: &Shortcut) -> (r: String)
    ensures
        r@ == spec_shortcut_contents(shortcut.target@, shortcut.cwd@),
{
    if shortcut.cwd.as_str().is_empty() {
        let mut out = String::from_str("@start \"\" \"");
        out.append(shortcut.target.as_str());
        out.append("\"\n");
        proof {
            assert(out@ =~= spec_shortcut_contents(shortcut.target@, shortcut.cwd@));
        }
        out
    } else {
        let mut out = String::from_str("@echo off\n\ncd /D %~dp0");
        out.append(shortcut.cwd.as_str());
        out.append("\ncall .\\");
        let fname = file_name_of(shortcut.target.as_str());
        out.append(fname.as_str());
        out.append("\n");
        proof {
            assert(out@ =~= spec_shortcut_contents(shortcut.target@, shortcut.cwd@));
        }
        out
    }
}

/// Plan the launcher file for `shortcut` under `input_dir`: its destination
/// path (the shortcut's name joined onto the root) and its contents.
pub fn shortcut_file(shortcut: &Shortcut, input_dir: &str) -> (r: ShortcutFile)
    ensures
        r.path@ == spec_join(input_dir@, shortcut.name@),
        r.contents@ == spec_shortcut_contents(shortcut.target@, shortcut.cwd@),
{
    ShortcutFile { path: join_path(input_dir, shortcut.name.as_str()), contents: shortcut_contents(shortcut) }
}

/// Shortcut synthesis is deterministic in content: two shortcuts with equal
/// targets and working directories yield byte-identical launcher contents.
pub proof fn lemma_shortcut_contents_deterministic(a: Shortcut, b: Shortcut)
    requires
        a.target@ == b.target@,
        a.cwd@ == b.cwd@,
    ensures
        spec_shortcut_contents(a.target@, a.cwd@) == spec_shortcut_contents(b.target@, b.cwd@),
{
}

} // verus!

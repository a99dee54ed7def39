//! Preparing a replay of the recorded test build: the sources as they are
//! read, the recorded environment, and the recorded rustc arguments
//! redirected into a job's scratch tree.
use vstd::prelude::*;
use crate::path::components_of;
use crate::sources::Sources;
use crate::text::{
    debug_quoted, debug_text, replace_all, replaced, split_once, strip_prefix, without_prefix,
};

verus! {

/// `value` with every occurrence of `from` replaced by `to`.
pub fn substitute(value: &str, from: &str, to: &str) -> (r: String)
    ensures
        r@ == replaced(value@, from@, to@),
{
    replace_all(value, from, to)
}

/// Source text with CRLF line endings made LF, as cargo-mutants normalizes it
/// before it computes spans.
pub fn normalize_newlines(text: &str) -> (r: String)
    ensures
        r@ == replaced(text@, "\r\n"@, "\n"@),
{
    replace_all(text, "\r\n", "\n")
}

/// A recorded environment value with the placeholders that rules_rust's
/// process wrapper expands (`${pwd}`, `${exec_root}`, `${output_base}`, in
/// that order) replaced by the working directory.
pub open spec fn expanded_value(value: Seq<char>, cwd: Seq<char>) -> Seq<char> {
    replaced(
        replaced(replaced(value, "${pwd}"@, cwd), "${exec_root}"@, cwd),
        "${output_base}"@,
        cwd,
    )
}

/// A recorded `KEY=value` line as its key and its expanded value; for a line
/// without `=`, the message saying it is malformed.
pub fn env_entry(line: &str, cwd: &str) -> (r: Result<(String, String), String>)
    ensures
        !line@.contains('=') ==> (r matches Err(e) && e@ == "malformed env entry "@
            + debug_quoted(line@)),
        line@.contains('=') ==> (r matches Ok((k, v)) && exists|raw: Seq<char>|
            k@ + seq!['='] + raw == line@ && !k@.contains('=') && v@ == expanded_value(
                raw,
                cwd@,
            )),
{
    match split_once(line, '=') {
        None => {
            let mut e = "malformed env entry ".to_owned();
            e.append(debug_text(line).as_str());
            Err(e)
        },
        Some((key, raw)) => {
            let v1 = replace_all(raw.as_str(), "${pwd}", cwd);
            let v2 = replace_all(v1.as_str(), "${exec_root}", cwd);
            let v3 = replace_all(v2.as_str(), "${output_base}", cwd);
            assert(key@ + seq!['='] + raw@ == line@ && v3@ == expanded_value(raw@, cwd@));
            Ok((key, v3))
        },
    }
}

/// What a runfiles manifest line asks for.
pub enum RunfilesEntry {
    /// An empty file at this runfiles path (the line names no file after it).
    Empty(String),
    /// A link at this runfiles path to this file.
    Link(String, String),
}

/// A runfiles manifest line: the runfiles path and, after the first space,
/// the file it stands for; an empty file where the line has no space or
/// nothing after it.
pub fn runfiles_entry(line: &str) -> (r: RunfilesEntry)
    ensures
        line@.contains(' ') ==> (match r {
            RunfilesEntry::Empty(rel) => rel@ + seq![' '] == line@ && !rel@.contains(' '),
            RunfilesEntry::Link(rel, target) => rel@ + seq![' '] + target@ == line@
                && !rel@.contains(' ') && target@.len() > 0,
        }),
        !line@.contains(' ') ==> (r matches RunfilesEntry::Empty(rel) && rel@ == line@),
{
    match split_once(line, ' ') {
        Some((rel, target)) => {
            if target.as_str().is_empty() {
                assert(target@ =~= Seq::<char>::empty());
                assert(rel@ + seq![' '] =~= rel@ + seq![' '] + target@);
                RunfilesEntry::Empty(rel)
            } else {
                RunfilesEntry::Link(rel, target)
            }
        },
        None => RunfilesEntry::Empty(line.to_owned()),
    }
}

/// A recorded rustc argument, redirected into a job's scratch tree.
pub enum ReplayArg {
    /// `--out-dir=<dir>`: the job needs a private output directory under its
    /// scratch tree, at `<dir>` within it.
    OutDir(String),
    /// Any other argument, rewritten.
    Plain(String),
}

/// Redirects one recorded rustc argument: an `--out-dir` is made private to
/// the job; otherwise the recorded output path becomes `binary` and then the
/// recorded crate root becomes `scratch_root`.
pub fn replay_arg(arg: &str, output: &str, binary: &str, crate_root: &str, scratch_root: &str) -> (r:
    ReplayArg)
    ensures
        without_prefix(arg@, "--out-dir="@) matches Some(dir) ==> (r matches ReplayArg::OutDir(d)
            && d@ == dir),
        without_prefix(arg@, "--out-dir="@) is None ==> (r matches ReplayArg::Plain(a) && a@
            == replaced(replaced(arg@, output@, binary@), crate_root@, scratch_root@)),
{
    match strip_prefix(arg, "--out-dir=") {
        Some(dir) => ReplayArg::OutDir(dir),
        None => {
            let a = substitute(arg, output, binary);
            ReplayArg::Plain(substitute(a.as_str(), crate_root, scratch_root))
        },
    }
}

/// Redirects one recorded rustc argument of an integration suite: an
/// `--out-dir` is made private to the job; otherwise the suite's recorded
/// output path becomes `binary`, and then the library's recorded output path
/// (in its `--extern`) becomes `library`, the job's rebuilt copy.
pub fn suite_arg(arg: &str, output: &str, binary: &str, library_output: &str, library: &str) -> (r:
    ReplayArg)
    ensures
        without_prefix(arg@, "--out-dir="@) matches Some(dir) ==> (r matches ReplayArg::OutDir(d)
            && d@ == dir),
        without_prefix(arg@, "--out-dir="@) is None ==> (r matches ReplayArg::Plain(a) && a@
            == replaced(replaced(arg@, output@, binary@), library_output@, library@)),
{
    match strip_prefix(arg, "--out-dir=") {
        Some(dir) => ReplayArg::OutDir(dir),
        None => {
            let a = substitute(arg, output, binary);
            ReplayArg::Plain(substitute(a.as_str(), library_output, library))
        },
    }
}

/// The `--out-dir` argument naming `dir`.
pub fn out_dir_arg(dir: &str) -> (r: String)
    ensures
        r@ == "--out-dir="@ + dir@,
{
    let mut r = "--out-dir=".to_owned();
    r.append(dir);
    r
}

/// The compile data that is not also a source, in order: those files are
/// copied into a job's tree as they are (the sources are written from their
/// unmutated text).
pub fn data_to_copy(sources: &Sources, data: &Vec<String>) -> (r: Vec<String>)
    requires
        sources.wf(),
    ensures
        r.deep_view() == data.deep_view().filter(|d: Seq<char>| !sources.view().contains_key(components_of(d))),
{
    let ghost keep = |d: Seq<char>| !sources.view().contains_key(components_of(d));
    let mut r: Vec<String> = Vec::new();
    let mut i: usize = 0;
    while i < data.len()
        invariant
            sources.wf(),
            keep == (|d: Seq<char>| !sources.view().contains_key(components_of(d))),
            i <= data.len(),
            r.deep_view() == data.deep_view().take(i as int).filter(keep),
        decreases data.len() - i,
    {
        proof {
            reveal_with_fuel(Seq::<_>::filter, 1);
            assert(data.deep_view().take(i + 1).drop_last() =~= data.deep_view().take(i as int));
        }
        let ghost before = r.deep_view();
        if !sources.contains(data[i].as_str()) {
            r.push(data[i].clone());
            assert(r.deep_view() =~= before.push(data[i as int]@));
        } else {
            assert(r.deep_view() =~= before);
        }
        i = i + 1;
    }
    assert(data.deep_view().take(i as int) =~= data.deep_view());
    r
}

} // verus!

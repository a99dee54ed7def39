//! Enumerating a crate's mutants: the lister's arguments and the synthetic,
//! dependency-free Cargo manifest that `cargo-mutants --list` is pointed at.
use vstd::prelude::*;
use crate::manifest::{flag_values, opt_view};
use crate::text::same_text;

verus! {

/// What the lister needs.
pub struct ListArgs {
    /// The `cargo-mutants` binary.
    pub cargo_mutants: String,
    /// The `cargo` binary.
    pub cargo: String,
    /// The crate's name.
    pub crate_name: String,
    /// The crate's Rust edition.
    pub edition: String,
    /// The crate root.
    pub crate_root: String,
    /// Where the JSON mutant list goes.
    pub output: String,
    /// The crate's sources.
    pub srcs: Vec<String>,
    /// An optional `mutants.toml`.
    pub config: Option<String>,
}

/// The lister's arguments as plain values.
#[verifier::ext_equal]
pub struct ListArgsView {
    pub cargo_mutants: Seq<char>,
    pub cargo: Seq<char>,
    pub crate_name: Seq<char>,
    pub edition: Seq<char>,
    pub crate_root: Seq<char>,
    pub output: Seq<char>,
    pub srcs: Seq<Seq<char>>,
    pub config: Option<Seq<char>>,
}

impl View for ListArgs {
    type V = ListArgsView;

    open spec fn view(&self) -> ListArgsView {
        ListArgsView {
            cargo_mutants: self.cargo_mutants@,
            cargo: self.cargo@,
            crate_name: self.crate_name@,
            edition: self.edition@,
            crate_root: self.crate_root@,
            output: self.output@,
            srcs: self.srcs.deep_view(),
            config: opt_view(self.config),
        }
    }
}

/// The lister's flags read so far, as plain values.
#[verifier::ext_equal]
pub struct ListDraft {
    pub cargo_mutants: Option<Seq<char>>,
    pub cargo: Option<Seq<char>>,
    pub crate_name: Option<Seq<char>>,
    pub edition: Option<Seq<char>>,
    pub crate_root: Option<Seq<char>>,
    pub output: Option<Seq<char>>,
    pub srcs: Seq<Seq<char>>,
    pub config: Option<Seq<char>>,
}

/// Nothing read yet.
pub open spec fn empty_list_draft() -> ListDraft {
    ListDraft {
        cargo_mutants: None,
        cargo: None,
        crate_name: None,
        edition: None,
        crate_root: None,
        output: None,
        srcs: Seq::empty(),
        config: None,
    }
}

/// One flag and its value applied to the draft: `--src` collects, every other
/// flag takes the last value given.
pub open spec fn apply_list_flag(d: ListDraft, flag: Seq<char>, value: Seq<char>) -> Result<
    ListDraft,
    Seq<char>,
> {
    if flag == "--cargo-mutants"@ {
        Ok(ListDraft { cargo_mutants: Some(value), ..d })
    } else if flag == "--cargo"@ {
        Ok(ListDraft { cargo: Some(value), ..d })
    } else if flag == "--crate-name"@ {
        Ok(ListDraft { crate_name: Some(value), ..d })
    } else if flag == "--edition"@ {
        Ok(ListDraft { edition: Some(value), ..d })
    } else if flag == "--crate-root"@ {
        Ok(ListDraft { crate_root: Some(value), ..d })
    } else if flag == "--output"@ {
        Ok(ListDraft { output: Some(value), ..d })
    } else if flag == "--src"@ {
        Ok(ListDraft { srcs: d.srcs.push(value), ..d })
    } else if flag == "--config"@ {
        Ok(ListDraft { config: Some(value), ..d })
    } else {
        Err("unknown flag "@ + flag)
    }
}

/// The pairs of `argv` from index `i` on, applied to `d` in order; a flag
/// without a value is an error.
pub open spec fn apply_list_flags(d: ListDraft, argv: Seq<Seq<char>>, i: int) -> Result<
    ListDraft,
    Seq<char>,
>
    decreases argv.len() - i,
{
    if i < 0 || i >= argv.len() {
        Ok(d)
    } else if i + 1 >= argv.len() {
        Err("missing value for "@ + argv[i])
    } else {
        match apply_list_flag(d, argv[i], argv[i + 1]) {
            Ok(d2) => apply_list_flags(d2, argv, i + 2),
            Err(e) => Err(e),
        }
    }
}

/// The arguments a complete draft makes, or the first required flag missing.
pub open spec fn finish_list_draft(d: ListDraft) -> Result<ListArgsView, Seq<char>> {
    if d.cargo_mutants is None {
        Err("missing --cargo-mutants"@)
    } else if d.cargo is None {
        Err("missing --cargo"@)
    } else if d.crate_name is None {
        Err("missing --crate-name"@)
    } else if d.edition is None {
        Err("missing --edition"@)
    } else if d.crate_root is None {
        Err("missing --crate-root"@)
    } else if d.output is None {
        Err("missing --output"@)
    } else {
        Ok(
            ListArgsView {
                cargo_mutants: d.cargo_mutants->0,
                cargo: d.cargo->0,
                crate_name: d.crate_name->0,
                edition: d.edition->0,
                crate_root: d.crate_root->0,
                output: d.output->0,
                srcs: d.srcs,
                config: d.config,
            },
        )
    }
}

/// The lister's arguments that the argument list `argv` (program name
/// excluded) describes.
pub open spec fn list_args_of(argv: Seq<Seq<char>>) -> Result<ListArgsView, Seq<char>> {
    match apply_list_flags(empty_list_draft(), argv, 0) {
        Ok(d) => finish_list_draft(d),
        Err(e) => Err(e),
    }
}

/// From index `i` on, the flags add every `--src` value, in order, to the
/// sources of `d`.
proof fn lemma_list_sources(d: ListDraft, argv: Seq<Seq<char>>, i: int)
    requires
        0 <= i,
    ensures
        apply_list_flags(d, argv, i) matches Ok(d2) ==> d2.srcs == d.srcs + flag_values(
            argv,
            "--src"@,
            i,
        ),
    decreases argv.len() - i,
{
    reveal_strlit("--cargo-mutants");
    reveal_strlit("--cargo");
    reveal_strlit("--crate-name");
    reveal_strlit("--edition");
    reveal_strlit("--crate-root");
    reveal_strlit("--output");
    reveal_strlit("--src");
    reveal_strlit("--config");
    if i + 1 < argv.len() {
        let f = argv[i];
        let v = argv[i + 1];
        if apply_list_flag(d, f, v) is Ok {
            let d1 = apply_list_flag(d, f, v)->Ok_0;
            lemma_list_sources(d1, argv, i + 2);
            if f == "--src"@ {
                assert("--src"@.len() == 5);
                assert("--cargo-mutants"@.len() == 15 && "--cargo"@.len() == 7);
                assert("--crate-name"@.len() == 12 && "--edition"@.len() == 9);
                assert("--crate-root"@.len() == 12 && "--output"@.len() == 8);
                assert(d1.srcs == d.srcs.push(v));
                assert(d.srcs.push(v) + flag_values(argv, "--src"@, i + 2) =~= d.srcs + (seq![v]
                    + flag_values(argv, "--src"@, i + 2)));
            } else {
                assert(d1.srcs == d.srcs);
            }
        }
    } else {
        assert(d.srcs + Seq::<Seq<char>>::empty() =~= d.srcs);
    }
}

/// Every `--src` is kept: the sources of the lister's arguments are all the
/// values given to `--src`, in the order given.
pub proof fn every_source_is_listed(argv: Seq<Seq<char>>)
    ensures
        list_args_of(argv) matches Ok(a) ==> a.srcs == flag_values(argv, "--src"@, 0),
{
    lemma_list_sources(empty_list_draft(), argv, 0);
    assert(Seq::<Seq<char>>::empty() + flag_values(argv, "--src"@, 0) =~= flag_values(
        argv,
        "--src"@,
        0,
    ));
}

/// Takes the text out of `slot` and gives it back, or reports `missing`.
fn take_required(slot: Option<String>, missing: &str) -> (r: Result<String, String>)
    ensures
        slot matches Some(s) ==> r == Ok::<String, String>(s),
        slot is None ==> (r matches Err(e) && e@ == missing@),
{
    match slot {
        Some(s) => Ok(s),
        None => Err(missing.to_owned()),
    }
}

/// Reads the lister's arguments: flag and value pairs.
pub fn parse_list_args(argv: &Vec<String>) -> (r: Result<ListArgs, String>)
    ensures
        list_args_of(argv.deep_view()) == (match r {
            Ok(a) => Ok::<ListArgsView, Seq<char>>(a@),
            Err(e) => Err::<ListArgsView, Seq<char>>(e@),
        }),
{
    let mut cargo_mutants: Option<String> = None;
    let mut cargo: Option<String> = None;
    let mut crate_name: Option<String> = None;
    let mut edition: Option<String> = None;
    let mut crate_root: Option<String> = None;
    let mut output: Option<String> = None;
    let mut srcs: Vec<String> = Vec::new();
    let mut config: Option<String> = None;
    let ghost args = argv.deep_view();
    let mut i: usize = 0;
    assert(srcs.deep_view() =~= Seq::<Seq<char>>::empty());
    while i < argv.len()
        invariant
            args == argv.deep_view(),
            i <= argv.len(),
            apply_list_flags(empty_list_draft(), args, 0) == apply_list_flags(
                ListDraft {
                    cargo_mutants: opt_view(cargo_mutants),
                    cargo: opt_view(cargo),
                    crate_name: opt_view(crate_name),
                    edition: opt_view(edition),
                    crate_root: opt_view(crate_root),
                    output: opt_view(output),
                    srcs: srcs.deep_view(),
                    config: opt_view(config),
                },
                args,
                i as int,
            ),
        decreases argv.len() - i,
    {
        if i + 1 >= argv.len() {
            let mut e = "missing value for ".to_owned();
            e.append(argv[i].as_str());
            return Err(e);
        }
        let flag = argv[i].as_str();
        let value = argv[i + 1].clone();
        if same_text(flag, "--cargo-mutants") {
            cargo_mutants = Some(value);
        } else if same_text(flag, "--cargo") {
            cargo = Some(value);
        } else if same_text(flag, "--crate-name") {
            crate_name = Some(value);
        } else if same_text(flag, "--edition") {
            edition = Some(value);
        } else if same_text(flag, "--crate-root") {
            crate_root = Some(value);
        } else if same_text(flag, "--output") {
            output = Some(value);
        } else if same_text(flag, "--src") {
            let ghost before = srcs.deep_view();
            srcs.push(value);
            assert(srcs.deep_view() =~= before.push(argv[i + 1]@));
        } else if same_text(flag, "--config") {
            config = Some(value);
        } else {
            let mut e = "unknown flag ".to_owned();
            e.append(flag);
            return Err(e);
        }
        i = i + 2;
    }
    let cargo_mutants = take_required(cargo_mutants, "missing --cargo-mutants")?;
    let cargo = take_required(cargo, "missing --cargo")?;
    let crate_name = take_required(crate_name, "missing --crate-name")?;
    let edition = take_required(edition, "missing --edition")?;
    let crate_root = take_required(crate_root, "missing --crate-root")?;
    let output = take_required(output, "missing --output")?;
    Ok(ListArgs { cargo_mutants, cargo, crate_name, edition, crate_root, output, srcs, config })
}

/// The synthetic Cargo manifest: a workspace of its own (so cargo does not
/// walk up into whatever encloses it) holding one library package with no
/// dependencies, whose root is `root_path`.
pub open spec fn cargo_manifest_spec(name: Seq<char>, edition: Seq<char>, root_path: Seq<char>) -> Seq<
    char,
> {
    "[workspace]\n\n[package]\nname = \""@ + name + "\"\nversion = \"0.0.0\"\nedition = \""@
        + edition + "\"\n\n[lib]\nname = \""@ + name + "\"\npath = \""@ + root_path
        + "\"\ndoctest = false\n\n[dependencies]\n"@
}

/// The synthetic Cargo manifest for the crate `name`.
pub fn cargo_manifest(name: &str, edition: &str, root_path: &str) -> (r: String)
    ensures
        r@ == cargo_manifest_spec(name@, edition@, root_path@),
{
    let mut r = "[workspace]\n\n[package]\nname = \"".to_owned();
    r.append(name);
    r.append("\"\nversion = \"0.0.0\"\nedition = \"");
    r.append(edition);
    r.append("\"\n\n[lib]\nname = \"");
    r.append(name);
    r.append("\"\npath = \"");
    r.append(root_path);
    r.append("\"\ndoctest = false\n\n[dependencies]\n");
    r
}

} // verus!

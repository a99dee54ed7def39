//! The mutation runner's manifest: flag and value pairs, read from the
//! command line and from `@file` arguments.
use vstd::prelude::*;
use crate::text::{
    IntErrorKind, int_error_text, lines_of, parse_unsigned, parsed_unsigned, same_text,
    split_lines, strip_prefix, without_prefix,
};

verus! {

/// What the runner needs to replay the test build once per mutant.
pub struct Manifest {
    /// The rules_rust process wrapper that rustc is run under.
    pub process_wrapper: String,
    /// The `cargo-mutants --list --json` output.
    pub mutants: String,
    /// Files of recorded rustc arguments, one per line.
    pub rustc_args: Vec<String>,
    /// The file of recorded `KEY=value` environment entries.
    pub env: String,
    /// The crate root as it appears in the recorded arguments.
    pub crate_root: String,
    /// The output path as it appears in the recorded arguments.
    pub output: String,
    /// The crate's sources.
    pub srcs: Vec<String>,
    /// Files the build reads besides the sources.
    pub compile_data: Vec<String>,
    /// Arguments for the test binary.
    pub test_args: Vec<String>,
    /// Mutant test timeout, as a multiple of the unmutated run (at least 1).
    pub timeout_multiplier: u32,
    /// Mutants built and tested at once (at least 1).
    pub jobs: usize,
    /// Files of the recorded rustc arguments that build the library the
    /// integration suites link.
    pub library_rustc_args: Vec<String>,
    /// The library's output path as it appears in the recorded arguments
    /// (and in the suites' `--extern`).
    pub library_output: Option<String>,
    /// The integration suites, in the order they run.
    pub integration_tests: Vec<IntegrationTest>,
}

/// An integration suite: a test binary of its own, linked against the
/// library.
pub struct IntegrationTest {
    /// The suite's output path as it appears in its recorded arguments.
    pub output: String,
    /// Files of its recorded rustc arguments, one per line.
    pub rustc_args: Vec<String>,
}

/// An integration suite as plain values.
#[verifier::ext_equal]
pub struct IntegrationTestView {
    pub output: Seq<char>,
    pub rustc_args: Seq<Seq<char>>,
}

impl View for IntegrationTest {
    type V = IntegrationTestView;

    open spec fn view(&self) -> IntegrationTestView {
        IntegrationTestView { output: self.output@, rustc_args: self.rustc_args.deep_view() }
    }
}

/// The suites as plain values.
pub open spec fn suites_view(v: Seq<IntegrationTest>) -> Seq<IntegrationTestView> {
    v.map_values(|t: IntegrationTest| t@)
}

/// A manifest as plain values.
#[verifier::ext_equal]
pub struct ManifestView {
    pub process_wrapper: Seq<char>,
    pub mutants: Seq<char>,
    pub rustc_args: Seq<Seq<char>>,
    pub env: Seq<char>,
    pub crate_root: Seq<char>,
    pub output: Seq<char>,
    pub srcs: Seq<Seq<char>>,
    pub compile_data: Seq<Seq<char>>,
    pub test_args: Seq<Seq<char>>,
    pub timeout_multiplier: int,
    pub jobs: int,
    pub library_rustc_args: Seq<Seq<char>>,
    pub library_output: Option<Seq<char>>,
    pub integration_tests: Seq<IntegrationTestView>,
}

impl View for Manifest {
    type V = ManifestView;

    open spec fn view(&self) -> ManifestView {
        ManifestView {
            process_wrapper: self.process_wrapper@,
            mutants: self.mutants@,
            rustc_args: self.rustc_args.deep_view(),
            env: self.env@,
            crate_root: self.crate_root@,
            output: self.output@,
            srcs: self.srcs.deep_view(),
            compile_data: self.compile_data.deep_view(),
            test_args: self.test_args.deep_view(),
            timeout_multiplier: self.timeout_multiplier as int,
            jobs: self.jobs as int,
            library_rustc_args: self.library_rustc_args.deep_view(),
            library_output: opt_view(self.library_output),
            integration_tests: suites_view(self.integration_tests@),
        }
    }
}

/// The flags read so far, as plain values.
#[verifier::ext_equal]
pub struct DraftView {
    pub process_wrapper: Option<Seq<char>>,
    pub mutants: Option<Seq<char>>,
    pub rustc_args: Seq<Seq<char>>,
    pub env: Option<Seq<char>>,
    pub crate_root: Option<Seq<char>>,
    pub output: Option<Seq<char>>,
    pub srcs: Seq<Seq<char>>,
    pub compile_data: Seq<Seq<char>>,
    pub test_args: Seq<Seq<char>>,
    pub timeout_multiplier: int,
    pub jobs: int,
    pub library_rustc_args: Seq<Seq<char>>,
    pub library_output: Option<Seq<char>>,
    pub integration_tests: Seq<IntegrationTestView>,
}

/// Nothing read yet: the multiplier defaults to 5 and the jobs to 1.
pub open spec fn empty_draft() -> DraftView {
    DraftView {
        process_wrapper: None,
        mutants: None,
        rustc_args: Seq::empty(),
        env: None,
        crate_root: None,
        output: None,
        srcs: Seq::empty(),
        compile_data: Seq::empty(),
        test_args: Seq::empty(),
        timeout_multiplier: 5,
        jobs: 1,
        library_rustc_args: Seq::empty(),
        library_output: None,
        integration_tests: Seq::empty(),
    }
}

/// The message for a flag whose number does not parse.
pub open spec fn bad_number_text(flag: Seq<char>, value: Seq<char>, kind: IntErrorKind) -> Seq<
    char,
> {
    "bad "@ + flag + " "@ + value + ": "@ + int_error_text(kind)
}

/// One flag and its value applied to the draft: single-valued flags take the
/// last value given, list flags collect every value, numbers must parse.
pub open spec fn apply_flag(d: DraftView, flag: Seq<char>, value: Seq<char>) -> Result<
    DraftView,
    Seq<char>,
> {
    if flag == "--process-wrapper"@ {
        Ok(DraftView { process_wrapper: Some(value), ..d })
    } else if flag == "--mutants"@ {
        Ok(DraftView { mutants: Some(value), ..d })
    } else if flag == "--rustc-args"@ {
        Ok(DraftView { rustc_args: d.rustc_args.push(value), ..d })
    } else if flag == "--env"@ {
        Ok(DraftView { env: Some(value), ..d })
    } else if flag == "--crate-root"@ {
        Ok(DraftView { crate_root: Some(value), ..d })
    } else if flag == "--output"@ {
        Ok(DraftView { output: Some(value), ..d })
    } else if flag == "--src"@ {
        Ok(DraftView { srcs: d.srcs.push(value), ..d })
    } else if flag == "--compile-data"@ {
        Ok(DraftView { compile_data: d.compile_data.push(value), ..d })
    } else if flag == "--test-arg"@ {
        Ok(DraftView { test_args: d.test_args.push(value), ..d })
    } else if flag == "--timeout-multiplier"@ {
        match parsed_unsigned(value, u32::MAX as int) {
            Ok(n) => Ok(DraftView { timeout_multiplier: n, ..d }),
            Err(k) => Err(bad_number_text(flag, value, k)),
        }
    } else if flag == "--jobs"@ {
        match parsed_unsigned(value, usize::MAX as int) {
            Ok(n) => Ok(DraftView { jobs: n, ..d }),
            Err(k) => Err(bad_number_text(flag, value, k)),
        }
    } else if flag == "--library-rustc-args"@ {
        Ok(DraftView { library_rustc_args: d.library_rustc_args.push(value), ..d })
    } else if flag == "--library-output"@ {
        Ok(DraftView { library_output: Some(value), ..d })
    } else if flag == "--integration-test"@ {
        Ok(
            DraftView {
                integration_tests: d.integration_tests.push(
                    IntegrationTestView { output: value, rustc_args: Seq::empty() },
                ),
                ..d
            },
        )
    } else if flag == "--integration-test-rustc-args"@ {
        if d.integration_tests.len() == 0 {
            Err("--integration-test-rustc-args before any --integration-test"@)
        } else {
            let last = d.integration_tests.last();
            Ok(
                DraftView {
                    integration_tests: d.integration_tests.drop_last().push(
                        IntegrationTestView { rustc_args: last.rustc_args.push(value), ..last },
                    ),
                    ..d
                },
            )
        }
    } else {
        Err("unknown flag "@ + flag)
    }
}

/// The pairs of `argv` from index `i` on, applied to `d` in order; a flag
/// without a value is an error.
pub open spec fn apply_flags(d: DraftView, argv: Seq<Seq<char>>, i: int) -> Result<
    DraftView,
    Seq<char>,
>
    decreases argv.len() - i,
{
    if i < 0 || i >= argv.len() {
        Ok(d)
    } else if i + 1 >= argv.len() {
        Err("missing value for "@ + argv[i])
    } else {
        match apply_flag(d, argv[i], argv[i + 1]) {
            Ok(d2) => apply_flags(d2, argv, i + 2),
            Err(e) => Err(e),
        }
    }
}

/// The manifest a complete draft makes, or the first required flag missing
/// from it; the multiplier and the job count are raised to at least 1.
pub open spec fn finish_draft(d: DraftView) -> Result<ManifestView, Seq<char>> {
    if d.process_wrapper is None {
        Err("missing --process-wrapper"@)
    } else if d.mutants is None {
        Err("missing --mutants"@)
    } else if d.env is None {
        Err("missing --env"@)
    } else if d.crate_root is None {
        Err("missing --crate-root"@)
    } else if d.output is None {
        Err("missing --output"@)
    } else if d.integration_tests.len() > 0 && d.library_output is None {
        Err("--integration-test needs --library-output"@)
    } else if d.library_output is Some && d.library_rustc_args.len() == 0 {
        Err("--library-output needs --library-rustc-args"@)
    } else {
        Ok(
            ManifestView {
                process_wrapper: d.process_wrapper->0,
                mutants: d.mutants->0,
                rustc_args: d.rustc_args,
                env: d.env->0,
                crate_root: d.crate_root->0,
                output: d.output->0,
                srcs: d.srcs,
                compile_data: d.compile_data,
                test_args: d.test_args,
                timeout_multiplier: if d.timeout_multiplier < 1 {
                    1
                } else {
                    d.timeout_multiplier
                },
                jobs: if d.jobs < 1 {
                    1
                } else {
                    d.jobs
                },
                library_rustc_args: d.library_rustc_args,
                library_output: d.library_output,
                integration_tests: d.integration_tests,
            },
        )
    }
}

/// The manifest that the expanded argument list `argv` describes.
pub open spec fn manifest_of(argv: Seq<Seq<char>>) -> Result<ManifestView, Seq<char>> {
    match apply_flags(empty_draft(), argv, 0) {
        Ok(d) => finish_draft(d),
        Err(e) => Err(e),
    }
}

/// The values that the flag and value pairs of `argv`, from index `i` on,
/// give to `flag`, in order.
pub open spec fn flag_values(argv: Seq<Seq<char>>, flag: Seq<char>, i: int) -> Seq<Seq<char>>
    decreases argv.len() - i,
{
    if i < 0 || i + 1 >= argv.len() {
        Seq::empty()
    } else if argv[i] == flag {
        seq![argv[i + 1]] + flag_values(argv, flag, i + 2)
    } else {
        flag_values(argv, flag, i + 2)
    }
}

/// One more value for `flag`, where `f` is that flag.
pub open spec fn one_if(f: Seq<char>, flag: Seq<char>, v: Seq<char>) -> Seq<Seq<char>> {
    if f == flag {
        seq![v]
    } else {
        Seq::empty()
    }
}

/// One flag adds its value to its own list and leaves the other lists as
/// they were.
proof fn lemma_apply_flag_lists(d: DraftView, f: Seq<char>, v: Seq<char>)
    ensures
        apply_flag(d, f, v) matches Ok(d1) ==> {
            &&& d1.rustc_args == d.rustc_args + one_if(f, "--rustc-args"@, v)
            &&& d1.srcs == d.srcs + one_if(f, "--src"@, v)
            &&& d1.compile_data == d.compile_data + one_if(f, "--compile-data"@, v)
            &&& d1.test_args == d.test_args + one_if(f, "--test-arg"@, v)
            &&& d1.library_rustc_args == d.library_rustc_args + one_if(
                f,
                "--library-rustc-args"@,
                v,
            )
        },
{
    reveal_strlit("--process-wrapper");
    reveal_strlit("--mutants");
    reveal_strlit("--rustc-args");
    reveal_strlit("--env");
    reveal_strlit("--crate-root");
    reveal_strlit("--output");
    reveal_strlit("--src");
    reveal_strlit("--compile-data");
    reveal_strlit("--test-arg");
    reveal_strlit("--timeout-multiplier");
    reveal_strlit("--jobs");
    reveal_strlit("--library-rustc-args");
    reveal_strlit("--library-output");
    reveal_strlit("--integration-test");
    reveal_strlit("--integration-test-rustc-args");
    let lists = seq![
        "--rustc-args"@,
        "--src"@,
        "--compile-data"@,
        "--test-arg"@,
        "--library-rustc-args"@,
    ];
    let others = seq![
        "--process-wrapper"@,
        "--mutants"@,
        "--env"@,
        "--crate-root"@,
        "--output"@,
        "--timeout-multiplier"@,
        "--jobs"@,
        "--library-output"@,
        "--integration-test"@,
        "--integration-test-rustc-args"@,
    ];
    assert forall|a: int, b: int| 0 <= a < 5 && 0 <= b < 5 && a != b implies #[trigger] lists[a]
        != #[trigger] lists[b] by {
        if lists[a].len() == lists[b].len() {
            assert(lists[a][2] != lists[b][2]);
        }
    }
    assert forall|a: int, b: int| 0 <= a < 5 && 0 <= b < 10 implies #[trigger] lists[a]
        != #[trigger] others[b] by {
        if lists[a].len() == others[b].len() {
            assert(lists[a][2] != others[b][2]);
        }
    }
    assert(lists[0] == "--rustc-args"@ && lists[1] == "--src"@ && lists[2] == "--compile-data"@
        && lists[3] == "--test-arg"@ && lists[4] == "--library-rustc-args"@);
    assert(others[0] == "--process-wrapper"@ && others[1] == "--mutants"@ && others[2] == "--env"@
        && others[3] == "--crate-root"@ && others[4] == "--output"@ && others[5]
        == "--timeout-multiplier"@ && others[6] == "--jobs"@ && others[7] == "--library-output"@
        && others[8] == "--integration-test"@ && others[9] == "--integration-test-rustc-args"@);
    if apply_flag(d, f, v) is Ok {
        let d1 = apply_flag(d, f, v)->Ok_0;
        let e: Seq<Seq<char>> = Seq::empty();
        assert(d.rustc_args + e =~= d.rustc_args);
        assert(d.srcs + e =~= d.srcs);
        assert(d.compile_data + e =~= d.compile_data);
        assert(d.test_args + e =~= d.test_args);
        assert(d.library_rustc_args + e =~= d.library_rustc_args);
        assert(d.rustc_args + seq![v] =~= d.rustc_args.push(v));
        assert(d.srcs + seq![v] =~= d.srcs.push(v));
        assert(d.compile_data + seq![v] =~= d.compile_data.push(v));
        assert(d.test_args + seq![v] =~= d.test_args.push(v));
        assert(d.library_rustc_args + seq![v] =~= d.library_rustc_args.push(v));
    }
}

/// The flags from index `i` on add their values, in order, to the lists of
/// `d`.
proof fn lemma_apply_flags_lists(d: DraftView, argv: Seq<Seq<char>>, i: int)
    requires
        0 <= i,
    ensures
        apply_flags(d, argv, i) matches Ok(d2) ==> {
            &&& d2.rustc_args == d.rustc_args + flag_values(argv, "--rustc-args"@, i)
            &&& d2.srcs == d.srcs + flag_values(argv, "--src"@, i)
            &&& d2.compile_data == d.compile_data + flag_values(argv, "--compile-data"@, i)
            &&& d2.test_args == d.test_args + flag_values(argv, "--test-arg"@, i)
            &&& d2.library_rustc_args == d.library_rustc_args + flag_values(
                argv,
                "--library-rustc-args"@,
                i,
            )
        },
    decreases argv.len() - i,
{
    if i + 1 < argv.len() {
        let f = argv[i];
        let v = argv[i + 1];
        lemma_apply_flag_lists(d, f, v);
        if apply_flag(d, f, v) is Ok {
            let d1 = apply_flag(d, f, v)->Ok_0;
            lemma_apply_flags_lists(d1, argv, i + 2);
            let flags = seq![
                "--rustc-args"@,
                "--src"@,
                "--compile-data"@,
                "--test-arg"@,
                "--library-rustc-args"@,
            ];
            assert forall|k: int| 0 <= k < 5 implies flag_values(argv, #[trigger] flags[k], i)
                == one_if(f, flags[k], v) + flag_values(argv, flags[k], i + 2) by {
                if f == flags[k] {
                } else {
                    assert(one_if(f, flags[k], v) + flag_values(argv, flags[k], i + 2)
                        =~= flag_values(argv, flags[k], i + 2));
                }
            }
            assert(flags[0] == "--rustc-args"@ && flags[1] == "--src"@ && flags[2]
                == "--compile-data"@ && flags[3] == "--test-arg"@ && flags[4]
                == "--library-rustc-args"@);
            assert(d.rustc_args + one_if(f, flags[0], v) + flag_values(argv, flags[0], i + 2)
                =~= d.rustc_args + (one_if(f, flags[0], v) + flag_values(argv, flags[0], i + 2)));
            assert(d.srcs + one_if(f, flags[1], v) + flag_values(argv, flags[1], i + 2)
                =~= d.srcs + (one_if(f, flags[1], v) + flag_values(argv, flags[1], i + 2)));
            assert(d.compile_data + one_if(f, flags[2], v) + flag_values(argv, flags[2], i + 2)
                =~= d.compile_data + (one_if(f, flags[2], v) + flag_values(argv, flags[2], i + 2)));
            assert(d.test_args + one_if(f, flags[3], v) + flag_values(argv, flags[3], i + 2)
                =~= d.test_args + (one_if(f, flags[3], v) + flag_values(argv, flags[3], i + 2)));
            assert(d.library_rustc_args + one_if(f, flags[4], v) + flag_values(
                argv,
                flags[4],
                i + 2,
            ) =~= d.library_rustc_args + (one_if(f, flags[4], v) + flag_values(
                argv,
                flags[4],
                i + 2,
            )));
        }
    } else {
        let e: Seq<Seq<char>> = Seq::empty();
        assert(d.rustc_args + e =~= d.rustc_args);
        assert(d.srcs + e =~= d.srcs);
        assert(d.compile_data + e =~= d.compile_data);
        assert(d.test_args + e =~= d.test_args);
        assert(d.library_rustc_args + e =~= d.library_rustc_args);
    }
}

/// The list flags collect every value: the rustc argument files, sources,
/// compile data, test arguments and library argument files of a manifest
/// are all the values given to their flags, in the order given.
pub proof fn list_flags_collect_every_value(argv: Seq<Seq<char>>)
    ensures
        manifest_of(argv) matches Ok(m) ==> {
            &&& m.rustc_args == flag_values(argv, "--rustc-args"@, 0)
            &&& m.srcs == flag_values(argv, "--src"@, 0)
            &&& m.compile_data == flag_values(argv, "--compile-data"@, 0)
            &&& m.test_args == flag_values(argv, "--test-arg"@, 0)
            &&& m.library_rustc_args == flag_values(argv, "--library-rustc-args"@, 0)
        },
{
    lemma_apply_flags_lists(empty_draft(), argv, 0);
    let e: Seq<Seq<char>> = Seq::empty();
    assert(e + flag_values(argv, "--rustc-args"@, 0) =~= flag_values(argv, "--rustc-args"@, 0));
    assert(e + flag_values(argv, "--src"@, 0) =~= flag_values(argv, "--src"@, 0));
    assert(e + flag_values(argv, "--compile-data"@, 0) =~= flag_values(argv, "--compile-data"@, 0));
    assert(e + flag_values(argv, "--test-arg"@, 0) =~= flag_values(argv, "--test-arg"@, 0));
    assert(e + flag_values(argv, "--library-rustc-args"@, 0) =~= flag_values(
        argv,
        "--library-rustc-args"@,
        0,
    ));
}

/// A manifest always runs at least one job at a time, and gives a mutant's
/// tests at least as long as the unmutated run took.
pub proof fn manifest_floors(argv: Seq<Seq<char>>)
    ensures
        manifest_of(argv) matches Ok(m) ==> m.jobs >= 1 && m.timeout_multiplier >= 1,
{
}

/// The flags read so far.
struct Draft {
    process_wrapper: Option<String>,
    mutants: Option<String>,
    rustc_args: Vec<String>,
    env: Option<String>,
    crate_root: Option<String>,
    output: Option<String>,
    srcs: Vec<String>,
    compile_data: Vec<String>,
    test_args: Vec<String>,
    timeout_multiplier: u32,
    jobs: usize,
    library_rustc_args: Vec<String>,
    library_output: Option<String>,
    integration_tests: Vec<IntegrationTest>,
}

/// An optional text as plain values.
pub open spec fn opt_view(o: Option<String>) -> Option<Seq<char>> {
    match o {
        Some(s) => Some(s@),
        None => None,
    }
}

impl View for Draft {
    type V = DraftView;

    closed spec fn view(&self) -> DraftView {
        DraftView {
            process_wrapper: opt_view(self.process_wrapper),
            mutants: opt_view(self.mutants),
            rustc_args: self.rustc_args.deep_view(),
            env: opt_view(self.env),
            crate_root: opt_view(self.crate_root),
            output: opt_view(self.output),
            srcs: self.srcs.deep_view(),
            compile_data: self.compile_data.deep_view(),
            test_args: self.test_args.deep_view(),
            timeout_multiplier: self.timeout_multiplier as int,
            jobs: self.jobs as int,
            library_rustc_args: self.library_rustc_args.deep_view(),
            library_output: opt_view(self.library_output),
            integration_tests: suites_view(self.integration_tests@),
        }
    }
}

/// The message for a flag whose number does not parse.
fn bad_number(flag: &String, value: &String, kind: IntErrorKind) -> (r: String)
    ensures
        r@ == bad_number_text(flag@, value@, kind),
{
    let mut r = "bad ".to_owned();
    r.append(flag.as_str());
    r.append(" ");
    r.append(value.as_str());
    r.append(": ");
    r.append(kind.message());
    r
}

/// Appends `value` to a list of texts.
fn push_text(list: &mut Vec<String>, value: &String)
    ensures
        final(list).deep_view() == old(list).deep_view().push(value@),
{
    list.push(value.clone());
    assert(final(list).deep_view() =~= old(list).deep_view().push(value@));
}

/// Applies one flag and its value to `d`.
fn apply(d: &mut Draft, flag: &String, value: &String) -> (r: Result<(), String>)
    ensures
        apply_flag(old(d)@, flag@, value@) == (match r {
            Ok(_) => Ok::<DraftView, Seq<char>>(final(d)@),
            Err(e) => Err::<DraftView, Seq<char>>(e@),
        }),
{
    let f = flag.as_str();
    if same_text(f, "--process-wrapper") {
        d.process_wrapper = Some(value.clone());
    } else if same_text(f, "--mutants") {
        d.mutants = Some(value.clone());
    } else if same_text(f, "--rustc-args") {
        push_text(&mut d.rustc_args, value);
    } else if same_text(f, "--env") {
        d.env = Some(value.clone());
    } else if same_text(f, "--crate-root") {
        d.crate_root = Some(value.clone());
    } else if same_text(f, "--output") {
        d.output = Some(value.clone());
    } else if same_text(f, "--src") {
        push_text(&mut d.srcs, value);
    } else if same_text(f, "--compile-data") {
        push_text(&mut d.compile_data, value);
    } else if same_text(f, "--test-arg") {
        push_text(&mut d.test_args, value);
    } else if same_text(f, "--timeout-multiplier") {
        match parse_unsigned(value.as_str(), u32::MAX as u64) {
            Ok(n) => {
                d.timeout_multiplier = n as u32;
            },
            Err(k) => {
                return Err(bad_number(flag, value, k));
            },
        }
    } else if same_text(f, "--jobs") {
        match parse_unsigned(value.as_str(), usize::MAX as u64) {
            Ok(n) => {
                d.jobs = n as usize;
            },
            Err(k) => {
                return Err(bad_number(flag, value, k));
            },
        }
    } else if same_text(f, "--library-rustc-args") {
        push_text(&mut d.library_rustc_args, value);
    } else if same_text(f, "--library-output") {
        d.library_output = Some(value.clone());
    } else if same_text(f, "--integration-test") {
        let ghost before = d.integration_tests@;
        let t = IntegrationTest { output: value.clone(), rustc_args: Vec::new() };
        assert(t@ =~= IntegrationTestView { output: value@, rustc_args: Seq::empty() });
        d.integration_tests.push(t);
        assert(suites_view(d.integration_tests@) =~= suites_view(before).push(t@));
    } else if same_text(f, "--integration-test-rustc-args") {
        let ghost before = d.integration_tests@;
        match d.integration_tests.pop() {
            None => {
                return Err("--integration-test-rustc-args before any --integration-test".to_owned());
            },
            Some(t) => {
                let mut t = t;
                let ghost last = t@;
                assert(suites_view(before).last() == last);
                push_text(&mut t.rustc_args, value);
                let ghost rest = d.integration_tests@;
                assert(suites_view(rest) =~= suites_view(before).drop_last());
                d.integration_tests.push(t);
                assert(suites_view(d.integration_tests@) =~= suites_view(rest).push(t@));
                assert(t@ =~= IntegrationTestView { rustc_args: last.rustc_args.push(value@), ..last });
            },
        }
    } else {
        let mut e = "unknown flag ".to_owned();
        e.append(f);
        return Err(e);
    }
    Ok(())
}

/// The file an `@file` argument names, or `None` for an ordinary argument.
pub fn at_file(arg: &str) -> (r: Option<String>)
    ensures
        r is Some <==> without_prefix(arg@, "@"@) is Some,
        r matches Some(p) ==> p@ == without_prefix(arg@, "@"@)->0,
{
    strip_prefix(arg, "@")
}

/// The text read for argument `i`: `files[i]`, or nothing where `files` is
/// shorter.
pub open spec fn file_text(files: Seq<Seq<char>>, i: int) -> Seq<char> {
    if 0 <= i < files.len() {
        files[i]
    } else {
        Seq::empty()
    }
}

/// The argument list with each `@file` argument replaced, in place, by the
/// lines of its file, whose text is `files[i]` for argument `i`.
pub open spec fn expanded_args(args: Seq<Seq<char>>, files: Seq<Seq<char>>) -> Seq<Seq<char>>
    decreases args.len(),
{
    if args.len() == 0 {
        Seq::empty()
    } else {
        let i = args.len() - 1;
        expanded_args(args.drop_last(), files) + (if without_prefix(args[i], "@"@) is Some {
            lines_of(file_text(files, i))
        } else {
            seq![args[i]]
        })
    }
}

/// Splices the `@file` arguments: each is replaced by the lines of its file
/// (`files[i]` holds the text read for argument `i`; it is not looked at for
/// an ordinary argument).
pub fn expand_args(args: &Vec<String>, files: &Vec<String>) -> (r: Vec<String>)
    ensures
        r.deep_view() == expanded_args(args.deep_view(), files.deep_view()),
{
    let ghost a = args.deep_view();
    let ghost f = files.deep_view();
    let mut r: Vec<String> = Vec::new();
    let mut i: usize = 0;
    while i < args.len()
        invariant
            a == args.deep_view(),
            f == files.deep_view(),
            i <= args.len(),
            r.deep_view() == expanded_args(a.take(i as int), f),
        decreases args.len() - i,
    {
        assert(a.take(i + 1).drop_last() =~= a.take(i as int));
        let ghost before = r.deep_view();
        match at_file(args[i].as_str()) {
            Some(_) => {
                let lines = if i < files.len() {
                    split_lines(files[i].as_str())
                } else {
                    split_lines("")
                };
                proof {
                    reveal_strlit("");
                    assert(""@ =~= Seq::<char>::empty());
                }
                let mut k: usize = 0;
                while k < lines.len()
                    invariant
                        k <= lines.len(),
                        r.deep_view() == before + lines.deep_view().take(k as int),
                    decreases lines.len() - k,
                {
                    let ghost prev = r.deep_view();
                    let line = lines[k].clone();
                    assert(line@ == lines.deep_view()[k as int]);
                    r.push(line);
                    assert(r.deep_view() =~= prev.push(line@));
                    assert(r.deep_view() =~= before + lines.deep_view().take(k + 1));
                    k = k + 1;
                }
                assert(lines.deep_view().take(k as int) =~= lines.deep_view());
            },
            None => {
                r.push(args[i].clone());
                assert(r.deep_view() =~= before + seq![a[i as int]]);
            },
        }
        i = i + 1;
    }
    assert(a.take(i as int) =~= a);
    r
}

/// Reads the manifest from the expanded argument list: flag and value pairs.
pub fn parse_manifest(argv: &Vec<String>) -> (r: Result<Manifest, String>)
    ensures
        manifest_of(argv.deep_view()) == (match r {
            Ok(m) => Ok::<ManifestView, Seq<char>>(m@),
            Err(e) => Err::<ManifestView, Seq<char>>(e@),
        }),
{
    let mut d = Draft {
        process_wrapper: None,
        mutants: None,
        rustc_args: Vec::new(),
        env: None,
        crate_root: None,
        output: None,
        srcs: Vec::new(),
        compile_data: Vec::new(),
        test_args: Vec::new(),
        timeout_multiplier: 5,
        jobs: 1,
        library_rustc_args: Vec::new(),
        library_output: None,
        integration_tests: Vec::new(),
    };
    assert(suites_view(d.integration_tests@) =~= Seq::<IntegrationTestView>::empty());
    assert(d@ =~= empty_draft());
    let ghost args = argv.deep_view();
    let mut i: usize = 0;
    while i < argv.len()
        invariant
            args == argv.deep_view(),
            i <= argv.len(),
            apply_flags(empty_draft(), args, 0) == apply_flags(d@, args, i as int),
        decreases argv.len() - i,
    {
        if i + 1 >= argv.len() {
            let mut e = "missing value for ".to_owned();
            e.append(argv[i].as_str());
            return Err(e);
        }
        match apply(&mut d, &argv[i], &argv[i + 1]) {
            Ok(()) => {},
            Err(e) => {
                return Err(e);
            },
        }
        i = i + 2;
    }
    let process_wrapper = match d.process_wrapper {
        Some(v) => v,
        None => {
            return Err("missing --process-wrapper".to_owned());
        },
    };
    let mutants = match d.mutants {
        Some(v) => v,
        None => {
            return Err("missing --mutants".to_owned());
        },
    };
    let env = match d.env {
        Some(v) => v,
        None => {
            return Err("missing --env".to_owned());
        },
    };
    let crate_root = match d.crate_root {
        Some(v) => v,
        None => {
            return Err("missing --crate-root".to_owned());
        },
    };
    let output = match d.output {
        Some(v) => v,
        None => {
            return Err("missing --output".to_owned());
        },
    };
    if d.integration_tests.len() > 0 && d.library_output.is_none() {
        return Err("--integration-test needs --library-output".to_owned());
    }
    if d.library_output.is_some() && d.library_rustc_args.len() == 0 {
        return Err("--library-output needs --library-rustc-args".to_owned());
    }
    let m = Manifest {
        process_wrapper,
        mutants,
        rustc_args: d.rustc_args,
        env,
        crate_root,
        output,
        srcs: d.srcs,
        compile_data: d.compile_data,
        test_args: d.test_args,
        timeout_multiplier: if d.timeout_multiplier < 1 {
            1
        } else {
            d.timeout_multiplier
        },
        jobs: if d.jobs < 1 {
            1
        } else {
            d.jobs
        },
        library_rustc_args: d.library_rustc_args,
        library_output: d.library_output,
        integration_tests: d.integration_tests,
    };
    Ok(m)
}

} // verus!

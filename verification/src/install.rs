//! The `install` command: what its arguments ask for, and how one bundle is
//! linked into the plugin directory.

use vstd::prelude::*;
use vstd::string::StringExecFns;
use crate::state_path::{join, joined, texts};
use crate::text::{begins_with, concat2, concat3, same_text, starts_with};

verus! {

/// What the arguments of the command ask for.
#[derive(Debug, PartialEq, Eq)]
pub enum InstallRequest {
    /// Show the usage text.
    Help,
    /// An argument looks like a flag but is none.
    UnknownFlag(String),
    /// There is no package name.
    NoPackage,
    /// Install these packages, after bundling them unless told otherwise.
    Install { packages: Vec<String>, skip_bundle: bool, bundle_universal: bool },
}

pub open spec fn is_no_bundle(arg: Seq<char>) -> bool {
    arg == "--no-bundle"@
}

pub open spec fn is_universal(arg: Seq<char>) -> bool {
    arg == "--universal"@
}

pub open spec fn is_help(arg: Seq<char>) -> bool {
    arg == "-h"@ || arg == "--help"@
}

/// The argument is neither a flag nor looks like one.
pub open spec fn is_package(arg: Seq<char>) -> bool {
    !begins_with(arg, seq!['-'])
}

/// The argument looks like a flag but is none.
pub open spec fn is_unknown(arg: Seq<char>) -> bool {
    &&& begins_with(arg, seq!['-'])
    &&& !is_no_bundle(arg)
    &&& !is_universal(arg)
    &&& !is_help(arg)
}

/// The argument ends the processing: the first such one decides.
pub open spec fn is_decisive(arg: Seq<char>) -> bool {
    is_help(arg) || is_unknown(arg)
}

/// The package names among the arguments, in order.
pub open spec fn packages_of(args: Seq<Seq<char>>) -> Seq<Seq<char>> {
    args.filter(|a: Seq<char>| is_package(a))
}

/// Whether `request` is what the arguments ask for: the first decisive argument
/// asks for help or is refused; without one, the package names are installed.
pub open spec fn requested(args: Seq<Seq<char>>, request: InstallRequest) -> bool {
    match request {
        InstallRequest::Help => exists|i: int|
            0 <= i < args.len() && is_help(#[trigger] args[i]) && no_decisive(args.take(i)),
        InstallRequest::UnknownFlag(flag) => exists|i: int|
            0 <= i < args.len() && is_unknown(#[trigger] args[i]) && args[i] == flag@
                && no_decisive(args.take(i)),
        InstallRequest::NoPackage => no_decisive(args) && packages_of(args).len() == 0,
        InstallRequest::Install { packages, skip_bundle, bundle_universal } => {
            &&& no_decisive(args)
            &&& packages_of(args).len() > 0
            &&& texts(packages@) == packages_of(args)
            &&& skip_bundle == args.contains("--no-bundle"@)
            &&& bundle_universal == args.contains("--universal"@)
        },
    }
}

/// No argument is decisive.
pub open spec fn no_decisive(args: Seq<Seq<char>>) -> bool {
    forall|i: int| 0 <= i < args.len() ==> !is_decisive(#[trigger] args[i])
}

/// The flags are told apart, and none of them is a package name.
proof fn lemma_flags()
    ensures
        begins_with("--no-bundle"@, seq!['-']),
        begins_with("--universal"@, seq!['-']),
        begins_with("-h"@, seq!['-']),
        begins_with("--help"@, seq!['-']),
        "-"@ == seq!['-'],
        "--no-bundle"@ != "--universal"@,
        !is_help("--no-bundle"@),
        !is_help("--universal"@),
{
    reveal_strlit("--no-bundle");
    reveal_strlit("--universal");
    reveal_strlit("-h");
    reveal_strlit("--help");
    reveal_strlit("-");
    assert("--no-bundle"@.take(1) == seq!['-']);
    assert("--universal"@.take(1) == seq!['-']);
    assert("-h"@.take(1) == seq!['-']);
    assert("--help"@.take(1) == seq!['-']);
    assert("--no-bundle"@[2] != "--universal"@[2]);
    assert("--no-bundle"@.len() != "--help"@.len());
    assert("--no-bundle"@.len() != "-h"@.len());
    assert("--universal"@.len() != "--help"@.len());
    assert("--universal"@.len() != "-h"@.len());
}

/// Work out what the arguments of the command ask for.
pub fn parse_install_args(args: &Vec<String>) -> (request: InstallRequest)
    ensures
        requested(texts(args@), request),
{
    proof {
        lemma_flags();
    }
    let ghost all = texts(args@);
    let ghost pred = |a: Seq<char>| is_package(a);
    let mut packages: Vec<String> = Vec::new();
    let mut skip_bundle = false;
    let mut bundle_universal = false;
    let mut i: usize = 0;
    while i < args.len()
        invariant
            i <= args.len(),
            all == texts(args@),
            pred == (|a: Seq<char>| is_package(a)),
            no_decisive(all.take(i as int)),
            texts(packages@) == all.take(i as int).filter(pred),
            skip_bundle == all.take(i as int).contains("--no-bundle"@),
            bundle_universal == all.take(i as int).contains("--universal"@),
        decreases args.len() - i,
    {
        proof {
            lemma_flags();
        }
        let arg = args[i].as_str();
        let ghost done = all.take(i as int);
        let ghost next = all.take(i + 1);
        let ghost before = packages@;
        assert(next == done.push(arg@));
        assert(arg@ == all[i as int]);
        assert(next.last() == arg@ && next.drop_last() == done);
        let flag = starts_with(arg, "-");
        if same_text(arg, "--no-bundle") {
            skip_bundle = true;
        } else if same_text(arg, "--universal") {
            bundle_universal = true;
        } else if same_text(arg, "-h") || same_text(arg, "--help") {
            return InstallRequest::Help;
        } else if flag {
            return InstallRequest::UnknownFlag(args[i].clone());
        } else {
            packages.push(args[i].clone());
            assert(texts(packages@) == texts(before).push(arg@));
        }
        proof {
            reveal_with_fuel(Seq::filter, 2);
            lemma_contains_push(done, arg@, "--no-bundle"@);
            lemma_contains_push(done, arg@, "--universal"@);
            assert(no_decisive(next));
        }
        i += 1;
    }
    assert(all.take(i as int) == all);
    assert(texts(packages@).len() == packages.len());
    if packages.len() == 0 {
        InstallRequest::NoPackage
    } else {
        InstallRequest::Install { packages, skip_bundle, bundle_universal }
    }
}

/// What a longer list contains.
proof fn lemma_contains_push(s: Seq<Seq<char>>, last: Seq<char>, x: Seq<char>)
    ensures
        s.push(last).contains(x) <==> s.contains(x) || last == x,
{
    if s.contains(x) {
        let i = choose|i: int| 0 <= i < s.len() && s[i] == x;
        assert(s.push(last)[i] == x);
    }
    if last == x {
        assert(s.push(last)[s.len() as int] == x);
    }
}

/// The arguments of `cargo` that bundle packages.
pub open spec fn bundle_command(packages: Seq<Seq<char>>, universal: bool) -> Seq<Seq<char>> {
    let sub = if universal {
        "bundle-universal"@
    } else {
        "bundle"@
    };
    seq!["xtask"@, sub] + packages + seq!["--release"@]
}

/// The subcommand that bundles.
pub fn bundle_subcommand(universal: bool) -> (sub: &'static str)
    ensures
        sub@ == if universal {
            "bundle-universal"@
        } else {
            "bundle"@
        },
{
    if universal {
        "bundle-universal"
    } else {
        "bundle"
    }
}

/// The arguments of `cargo` that bundle the packages.
pub fn bundle_args(packages: &Vec<String>, universal: bool) -> (args: Vec<String>)
    ensures
        texts(args@) == bundle_command(texts(packages@), universal),
{
    let mut out: Vec<String> = Vec::new();
    out.push("xtask".to_owned());
    out.push(bundle_subcommand(universal).to_owned());
    let ghost sub = if universal {
        "bundle-universal"@
    } else {
        "bundle"@
    };
    let ghost head = seq!["xtask"@, sub];
    assert(texts(out@) == head);
    let mut i: usize = 0;
    while i < packages.len()
        invariant
            i <= packages.len(),
            texts(out@) == head + texts(packages@).take(i as int),
        decreases packages.len() - i,
    {
        let ghost before = out@;
        out.push(packages[i].clone());
        assert(texts(out@) == texts(before).push(packages@[i as int]@));
        assert(texts(packages@).take(i + 1) == texts(packages@).take(i as int).push(
            packages@[i as int]@,
        ));
        i += 1;
    }
    assert(texts(packages@).take(i as int) == texts(packages@));
    let ghost before = out@;
    out.push("--release".to_owned());
    assert(texts(out@) == texts(before).push("--release"@));
    out
}

/// One step of the command. A step that fails ends the command, and none of the
/// steps behind it is taken.
#[derive(Debug, PartialEq, Eq)]
pub enum InstallStep {
    /// Show the usage text.
    PrintHelp,
    /// Fail with a message.
    Fail(String),
    /// Show the announcement, and run `cargo` with the arguments.
    Bundle { announcement: String, args: Vec<String> },
    /// Find the plugin directory, and make it where it is missing.
    PrepareDirectory,
    /// Link the bundle of a package into the plugin directory.
    Link(String),
}

/// A step, with its texts as sequences.
pub enum StepModel {
    PrintHelp,
    Fail(Seq<char>),
    Bundle { announcement: Seq<char>, args: Seq<Seq<char>> },
    PrepareDirectory,
    Link(Seq<char>),
}

impl View for InstallStep {
    type V = StepModel;

    open spec fn view(&self) -> StepModel {
        match self {
            InstallStep::PrintHelp => StepModel::PrintHelp,
            InstallStep::Fail(message) => StepModel::Fail(message@),
            InstallStep::Bundle { announcement, args } => StepModel::Bundle {
                announcement: announcement@,
                args: texts(args@),
            },
            InstallStep::PrepareDirectory => StepModel::PrepareDirectory,
            InstallStep::Link(pkg) => StepModel::Link(pkg@),
        }
    }
}

/// The steps in a list.
pub open spec fn step_models(steps: Seq<InstallStep>) -> Seq<StepModel> {
    Seq::new(steps.len(), |i: int| steps[i]@)
}

/// What is shown before bundling.
pub open spec fn bundle_announcement(universal: bool) -> Seq<char> {
    "==> running cargo xtask "@ + (if universal {
        "bundle-universal"@
    } else {
        "bundle"@
    }) + " <packages> --release"@
}

/// The links of packages, in order.
pub open spec fn link_steps(packages: Seq<Seq<char>>) -> Seq<StepModel> {
    Seq::new(packages.len(), |i: int| StepModel::Link(packages[i]))
}

/// The steps that a request takes: bundle the packages unless told otherwise,
/// prepare the plugin directory, and link every package in order.
pub open spec fn steps_for(request: InstallRequest) -> Seq<StepModel> {
    match request {
        InstallRequest::Help => seq![StepModel::PrintHelp],
        InstallRequest::UnknownFlag(flag) => seq![StepModel::Fail("unknown flag: "@ + flag@)],
        InstallRequest::NoPackage => seq![
            StepModel::PrintHelp,
            StepModel::Fail("no package name given"@),
        ],
        InstallRequest::Install { packages, skip_bundle, bundle_universal } => {
            let bundling = if skip_bundle {
                seq![]
            } else {
                seq![
                    StepModel::Bundle {
                        announcement: bundle_announcement(bundle_universal),
                        args: bundle_command(texts(packages@), bundle_universal),
                    },
                ]
            };
            bundling + seq![StepModel::PrepareDirectory] + link_steps(texts(packages@))
        },
    }
}

/// The steps that a request takes.
pub fn install_steps(request: &InstallRequest) -> (steps: Vec<InstallStep>)
    ensures
        step_models(steps@) == steps_for(*request),
        *request matches InstallRequest::Install { packages, skip_bundle, .. } ==> {
            let first: int = if skip_bundle {
                1
            } else {
                2
            };
            &&& steps@.len() == first + packages@.len()
            &&& steps@[first - 1] is PrepareDirectory
            &&& !skip_bundle ==> steps@[0] is Bundle
            &&& forall|k: int|
                0 <= k < packages@.len() ==> (#[trigger] steps@[first + k] matches InstallStep::Link(
                    pkg,
                ) && pkg@ == packages@[k]@)
        },
        !(*request is Install) ==> steps@.len() > 0 && forall|k: int|
            0 <= k < steps@.len() ==> #[trigger] steps@[k] is PrintHelp || steps@[k] is Fail,
{
    let mut steps: Vec<InstallStep> = Vec::new();
    match request {
        InstallRequest::Help => {
            steps.push(InstallStep::PrintHelp);
        },
        InstallRequest::UnknownFlag(flag) => {
            steps.push(InstallStep::Fail(concat2("unknown flag: ", flag.as_str())));
        },
        InstallRequest::NoPackage => {
            steps.push(InstallStep::PrintHelp);
            steps.push(InstallStep::Fail("no package name given".to_owned()));
        },
        InstallRequest::Install { packages, skip_bundle, bundle_universal } => {
            if !*skip_bundle {
                let announcement = concat3(
                    "==> running cargo xtask ",
                    bundle_subcommand(*bundle_universal),
                    " <packages> --release",
                );
                let args = bundle_args(packages, *bundle_universal);
                steps.push(InstallStep::Bundle { announcement, args });
            }
            steps.push(InstallStep::PrepareDirectory);
            let ghost head = step_models(steps@);
            let ghost links = link_steps(texts(packages@));
            assert(head + links == steps_for(*request));
            let mut i: usize = 0;
            while i < packages.len()
                invariant
                    i <= packages.len(),
                    links == link_steps(texts(packages@)),
                    step_models(steps@) == head + links.take(i as int),
                decreases packages.len() - i,
            {
                let ghost before = steps@;
                steps.push(InstallStep::Link(packages[i].clone()));
                assert(step_models(steps@) == step_models(before).push(links[i as int]));
                i += 1;
            }
            assert(links.take(i as int) == links);
        },
    }
    proof {
        assert forall|k: int| 0 <= k < steps@.len() implies #[trigger] steps@[k]@ == steps_for(
            *request,
        )[k] by {
            assert(step_models(steps@)[k] == steps@[k]@);
        }
        assert(step_models(steps@).len() == steps@.len());
        if let InstallRequest::Install { packages, skip_bundle, .. } = request {
            let first: int = if *skip_bundle {
                1
            } else {
                2
            };
            let planned = steps_for(*request);
            assert(steps@[first - 1]@ == planned[first - 1]);
            assert(steps@[0]@ == planned[0]);
            assert forall|k: int| 0 <= k < packages@.len() implies (
            #[trigger] steps@[first + k] matches InstallStep::Link(pkg) && pkg@
                == packages@[k]@) by {
                assert(steps@[first + k]@ == planned[first + k]);
                assert(planned[first + k] == StepModel::Link(texts(packages@)[k]));
            }
        }
    }
    steps
}

/// The step to take after the first `taken` ones, given whether one of these
/// failed: a failure ends the command.
pub fn next_step(steps: &Vec<InstallStep>, taken: usize, failed: bool) -> (step: Option<
    &InstallStep,
>)
    ensures
        step == if failed || taken >= steps@.len() {
            None
        } else {
            Some(&steps@[taken as int])
        },
{
    if failed || taken >= steps.len() {
        None
    } else {
        Some(&steps[taken])
    }
}

/// What comes of bundling: the command goes on only if it succeeded.
pub fn bundle_outcome(success: bool) -> (outcome: Result<(), String>)
    ensures
        outcome is Ok <==> success,
        outcome matches Err(message) ==> message@ == "bundle step failed — aborting install"@,
{
    if success {
        Ok(())
    } else {
        Err("bundle step failed — aborting install".to_owned())
    }
}

/// The file name of a package's bundle.
pub fn bundle_name(pkg: &str) -> (name: String)
    ensures
        name@ == pkg@ + ".vst3"@,
{
    concat2(pkg, ".vst3")
}

/// Where the bundle of a package is built, seen from the workspace directory, in
/// Unix syntax.
pub fn bundle_path(workspace: &str, pkg: &str) -> (path: String)
    ensures
        path@ == joined(joined(joined(workspace@, "target"@), "bundled"@), pkg@ + ".vst3"@),
{
    let target = join(workspace, "target");
    let bundled = join(target.as_str(), "bundled");
    join(bundled.as_str(), bundle_name(pkg).as_str())
}

/// Where the bundle of a package is linked to, in Unix syntax.
pub fn link_path(vst3_dir: &str, pkg: &str) -> (path: String)
    ensures
        path@ == joined(vst3_dir@, pkg@ + ".vst3"@),
{
    join(vst3_dir, bundle_name(pkg).as_str())
}

/// How a link is made.
#[derive(Debug, Copy, Clone, PartialEq, Eq, Structural)]
pub enum LinkStep {
    /// Remove the link that is there, then make the new one.
    Replace,
    /// Make the link.
    Create,
}

/// Why there is nothing to link.
pub open spec fn missing_bundle(src: Seq<char>, pkg: Seq<char>) -> Seq<char> {
    src + " does not exist — run `cargo xtask bundle "@ + pkg
        + " --release` first, or drop the --no-bundle flag"@
}

/// Why nothing is overwritten.
pub open spec fn real_install(dst: Seq<char>) -> Seq<char> {
    dst
        + " exists and is not a symlink; refusing to overwrite a real install. Remove it by hand and re-run if you want the symlink."@
}

/// Decide how to link the bundle `src` of a package to `dst`, given what is on
/// disk. A link is replaced, and anything else that is there is never touched.
pub fn plan_link(
    pkg: &str,
    src: &str,
    dst: &str,
    src_exists: bool,
    dst_is_symlink: bool,
    dst_exists: bool,
) -> (step: Result<LinkStep, String>)
    ensures
        match step {
            Ok(LinkStep::Replace) => src_exists && dst_is_symlink,
            Ok(LinkStep::Create) => src_exists && !dst_is_symlink && !dst_exists,
            Err(message) => if !src_exists {
                message@ == missing_bundle(src@, pkg@)
            } else {
                !dst_is_symlink && dst_exists && message@ == real_install(dst@)
            },
        },
{
    if !src_exists {
        let mut message = concat3(src, " does not exist — run `cargo xtask bundle ", pkg);
        message.append(" --release` first, or drop the --no-bundle flag");
        return Err(message);
    }
    if dst_is_symlink {
        Ok(LinkStep::Replace)
    } else if dst_exists {
        Err(
            concat2(
                dst,
                " exists and is not a symlink; refusing to overwrite a real install. Remove it by hand and re-run if you want the symlink.",
            ),
        )
    } else {
        Ok(LinkStep::Create)
    }
}

/// The arguments ask for one thing only.
pub proof fn law_arguments_ask_for_one_thing(
    args: Seq<Seq<char>>,
    a: InstallRequest,
    b: InstallRequest,
)
    requires
        requested(args, a),
        requested(args, b),
    ensures
        match (a, b) {
            (InstallRequest::Help, InstallRequest::Help) => true,
            (InstallRequest::UnknownFlag(f), InstallRequest::UnknownFlag(g)) => f@ == g@,
            (InstallRequest::NoPackage, InstallRequest::NoPackage) => true,
            (
                InstallRequest::Install { packages: p, skip_bundle: s, bundle_universal: u },
                InstallRequest::Install { packages: q, skip_bundle: t, bundle_universal: v },
            ) => texts(p@) == texts(q@) && s == t && u == v,
            _ => false,
        },
{
    assert forall|i: int, j: int|
        0 <= i < args.len() && 0 <= j < args.len() && is_decisive(#[trigger] args[i])
            && is_decisive(#[trigger] args[j]) && no_decisive(args.take(i)) && no_decisive(
            args.take(j),
        ) implies i == j by {
        if i < j {
            assert(args.take(j)[i] == args[i]);
        } else if j < i {
            assert(args.take(i)[j] == args[j]);
        }
    }
}

/// Bundling, if it is asked for, is the first step, and nothing is linked before
/// the plugin directory is there; each package is linked once, in order.
pub proof fn law_bundling_comes_before_linking(
    packages: Vec<String>,
    skip_bundle: bool,
    bundle_universal: bool,
    i: int,
)
    ensures
        ({
            let steps = steps_for(
                InstallRequest::Install { packages, skip_bundle, bundle_universal },
            );
            let first: int = if skip_bundle {
                1
            } else {
                2
            };
            &&& steps.len() == first + packages@.len()
            &&& 0 <= i < steps.len() ==> {
                &&& steps[i] is Bundle <==> i == 0 && !skip_bundle
                &&& steps[i] is PrepareDirectory <==> i == first - 1
                &&& steps[i] is Link <==> i >= first
                &&& i >= first ==> steps[i] == StepModel::Link(packages@[i - first]@)
            }
        }),
{
}

/// A request that is refused links nothing and bundles nothing.
pub proof fn law_only_an_install_acts(request: InstallRequest, i: int)
    requires
        request !is Install,
        0 <= i < steps_for(request).len(),
    ensures
        steps_for(request)[i] is PrintHelp || steps_for(request)[i] is Fail,
{
}

/// What each argument is: a flag begins with a dash, `--no-bundle`, `--universal`,
/// `-h` and `--help` are the known ones, and everything else is a package.
pub proof fn law_what_an_argument_is(arg: Seq<char>)
    ensures
        is_package(arg) <==> arg.len() == 0 || arg[0] != '-',
        is_help(arg) <==> arg == "-h"@ || arg == "--help"@,
        is_no_bundle(arg) <==> arg == "--no-bundle"@,
        is_universal(arg) <==> arg == "--universal"@,
        is_unknown(arg) <==> arg.len() > 0 && arg[0] == '-' && arg != "-h"@ && arg != "--help"@
            && arg != "--no-bundle"@ && arg != "--universal"@,
        is_decisive(arg) <==> arg.len() > 0 && arg[0] == '-' && arg != "--no-bundle"@ && arg
            != "--universal"@,
{
    lemma_flags();
    if arg.len() > 0 {
        assert(arg.take(1)[0] == arg[0]);
        if arg[0] == '-' {
            assert(arg.take(1) == seq!['-']);
        }
    }
    assert(begins_with(arg, seq!['-']) <==> arg.len() > 0 && arg[0] == '-');
}

/// What arguments ask for, in terms of the arguments themselves. An install is
/// asked for if every argument that begins with a dash is one of the two flags:
/// the packages are the arguments without a dash, each and in order, and the flags
/// are on if they are there. Help is asked for, or a flag is refused, by the first
/// argument with a dash that is none of the two.
pub proof fn law_what_arguments_ask_for(args: Seq<Seq<char>>, request: InstallRequest)
    requires
        requested(args, request),
    ensures
        ({
            let open = |arg: Seq<char>|
                arg.len() == 0 || arg[0] != '-' || arg == "--no-bundle"@ || arg == "--universal"@;
            let packages_in = args.filter(|arg: Seq<char>| arg.len() == 0 || arg[0] != '-');
            match request {
                InstallRequest::Install { packages, skip_bundle, bundle_universal } => {
                    &&& forall|i: int| 0 <= i < args.len() ==> open(#[trigger] args[i])
                    &&& packages@.len() == packages_in.len() > 0
                    &&& forall|k: int|
                        0 <= k < packages@.len() ==> (#[trigger] packages@[k])@ == packages_in[k]
                    &&& skip_bundle <==> args.contains("--no-bundle"@)
                    &&& bundle_universal <==> args.contains("--universal"@)
                },
                InstallRequest::NoPackage => {
                    &&& forall|i: int| 0 <= i < args.len() ==> open(#[trigger] args[i])
                    &&& packages_in.len() == 0
                },
                InstallRequest::Help => exists|i: int|
                    {
                        &&& 0 <= i < args.len()
                        &&& (#[trigger] args[i] == "-h"@ || args[i] == "--help"@)
                        &&& forall|k: int| 0 <= k < i ==> open(#[trigger] args[k])
                    },
                InstallRequest::UnknownFlag(flag) => exists|i: int|
                    {
                        &&& 0 <= i < args.len()
                        &&& #[trigger] args[i] == flag@
                        &&& !open(args[i]) && args[i] != "-h"@ && args[i] != "--help"@
                        &&& forall|k: int| 0 <= k < i ==> open(#[trigger] args[k])
                    },
            }
        }),
{
    let open = |arg: Seq<char>|
        arg.len() == 0 || arg[0] != '-' || arg == "--no-bundle"@ || arg == "--universal"@;
    let by_dash = |arg: Seq<char>| arg.len() == 0 || arg[0] != '-';
    assert forall|arg: Seq<char>| #[trigger] is_decisive(arg) <==> !open(arg) by {
        law_what_an_argument_is(arg);
    }
    lemma_packages_by_dash(args, by_dash);
    match request {
        InstallRequest::Help => {
            let i = choose|i: int|
                0 <= i < args.len() && is_help(#[trigger] args[i]) && no_decisive(args.take(i));
            assert forall|k: int| 0 <= k < i implies open(#[trigger] args[k]) by {
                assert(args.take(i)[k] == args[k]);
                assert(!is_decisive(args.take(i)[k]));
            }
            law_what_an_argument_is(args[i]);
        },
        InstallRequest::UnknownFlag(flag) => {
            let i = choose|i: int|
                0 <= i < args.len() && is_unknown(#[trigger] args[i]) && args[i] == flag@
                    && no_decisive(args.take(i));
            assert forall|k: int| 0 <= k < i implies open(#[trigger] args[k]) by {
                assert(args.take(i)[k] == args[k]);
                assert(!is_decisive(args.take(i)[k]));
            }
            law_what_an_argument_is(args[i]);
        },
        InstallRequest::NoPackage => {
            assert forall|i: int| 0 <= i < args.len() implies open(#[trigger] args[i]) by {
                assert(!is_decisive(args[i]));
            }
        },
        InstallRequest::Install { packages, .. } => {
            assert forall|i: int| 0 <= i < args.len() implies open(#[trigger] args[i]) by {
                assert(!is_decisive(args[i]));
            }
            assert forall|k: int| 0 <= k < packages@.len() implies (#[trigger] packages@[k])@
                == packages_of(args)[k] by {
                assert(texts(packages@)[k] == packages@[k]@);
            }
            assert(texts(packages@).len() == packages@.len());
        },
    }
}

/// The packages are the arguments without a dash.
proof fn lemma_packages_by_dash(args: Seq<Seq<char>>, by_dash: spec_fn(Seq<char>) -> bool)
    requires
        forall|arg: Seq<char>| #[trigger] by_dash(arg) <==> arg.len() == 0 || arg[0] != '-',
    ensures
        packages_of(args) == args.filter(by_dash),
    decreases args.len(),
{
    reveal(Seq::filter);
    if args.len() > 0 {
        lemma_packages_by_dash(args.drop_last(), by_dash);
        law_what_an_argument_is(args.last());
        assert(by_dash(args.last()) == is_package(args.last()));
    }
}

/// The arguments of `cargo`: the two words that bundle, the packages in order, and
/// that it is a release.
pub proof fn law_what_cargo_is_called_with(packages: Seq<Seq<char>>, universal: bool, k: int)
    ensures
        ({
            let args = bundle_command(packages, universal);
            &&& args.len() == packages.len() + 3
            &&& args[0] == "xtask"@
            &&& args[1] == if universal {
                "bundle-universal"@
            } else {
                "bundle"@
            }
            &&& 0 <= k < packages.len() ==> args[2 + k] == packages[k]
            &&& args.last() == "--release"@
        }),
{
}

/// The steps of each request, with the texts that are shown.
pub proof fn law_what_each_request_does(
    flag: String,
    packages: Vec<String>,
    skip_bundle: bool,
    bundle_universal: bool,
)
    ensures
        steps_for(InstallRequest::Help) == seq![StepModel::PrintHelp],
        steps_for(InstallRequest::NoPackage) == seq![
            StepModel::PrintHelp,
            StepModel::Fail("no package name given"@),
        ],
        steps_for(InstallRequest::UnknownFlag(flag)) == seq![
            StepModel::Fail("unknown flag: "@ + flag@),
        ],
        !skip_bundle ==> steps_for(
            InstallRequest::Install { packages, skip_bundle, bundle_universal },
        )[0] == (StepModel::Bundle {
            announcement: "==> running cargo xtask "@ + (if bundle_universal {
                "bundle-universal"@
            } else {
                "bundle"@
            }) + " <packages> --release"@,
            args: bundle_command(texts(packages@), bundle_universal),
        }),
{
}

/// Why a bundle is not linked.
pub proof fn law_why_a_bundle_is_not_linked(src: Seq<char>, dst: Seq<char>, pkg: Seq<char>)
    ensures
        missing_bundle(src, pkg) == src + " does not exist — run `cargo xtask bundle "@ + pkg
            + " --release` first, or drop the --no-bundle flag"@,
        real_install(dst) == dst
            + " exists and is not a symlink; refusing to overwrite a real install. Remove it by hand and re-run if you want the symlink."@,
{
}

} // verus!

use ccomidi::install::{
    bundle_args, bundle_name, bundle_outcome, bundle_path, bundle_subcommand, install_steps,
    link_path, next_step, parse_install_args, plan_link, InstallRequest, InstallStep, LinkStep,
};

fn args(list: &[&str]) -> Vec<String> {
    list.iter().map(|s| s.to_string()).collect()
}

fn parse(list: &[&str]) -> InstallRequest {
    parse_install_args(&args(list))
}

#[test]
fn packages_and_flags_in_any_order() {
    assert_eq!(
        parse(&["a", "--universal", "b"]),
        InstallRequest::Install {
            packages: args(&["a", "b"]),
            skip_bundle: false,
            bundle_universal: true,
        }
    );
    assert_eq!(
        parse(&["--no-bundle", "ccomidi-nih"]),
        InstallRequest::Install {
            packages: args(&["ccomidi-nih"]),
            skip_bundle: true,
            bundle_universal: false,
        }
    );
}

#[test]
fn the_first_decisive_argument_counts() {
    assert_eq!(parse(&["-h"]), InstallRequest::Help);
    assert_eq!(parse(&["a", "--help", "--bogus"]), InstallRequest::Help);
    assert_eq!(parse(&["--bogus", "-h"]), InstallRequest::UnknownFlag("--bogus".to_string()));
    assert_eq!(parse(&["a", "-"]), InstallRequest::UnknownFlag("-".to_string()));
    assert_eq!(
        parse(&["--universal2", "a"]),
        InstallRequest::UnknownFlag("--universal2".to_string())
    );
}

#[test]
fn a_package_is_needed() {
    assert_eq!(parse(&[]), InstallRequest::NoPackage);
    assert_eq!(parse(&["--no-bundle", "--universal"]), InstallRequest::NoPackage);
}

#[test]
fn bundling_is_a_release_build() {
    assert_eq!(bundle_subcommand(false), "bundle");
    assert_eq!(
        bundle_args(&args(&["a", "b"]), false),
        args(&["xtask", "bundle", "a", "b", "--release"])
    );
    assert_eq!(
        bundle_args(&args(&["a"]), true),
        args(&["xtask", "bundle-universal", "a", "--release"])
    );
}

#[test]
fn bundle_paths() {
    assert_eq!(bundle_name("x"), "x.vst3");
    assert_eq!(bundle_path("/w", "x"), "/w/target/bundled/x.vst3");
    assert_eq!(link_path("/home/u/.vst3", "x"), "/home/u/.vst3/x.vst3");
}

#[test]
fn links_are_replaced_and_real_installs_are_not() {
    assert_eq!(plan_link("x", "/s", "/d", true, false, false), Ok(LinkStep::Create));
    assert_eq!(plan_link("x", "/s", "/d", true, true, true), Ok(LinkStep::Replace));
    // A dangling link.
    assert_eq!(plan_link("x", "/s", "/d", true, true, false), Ok(LinkStep::Replace));
    assert_eq!(
        plan_link("x", "/s", "/d", true, false, true),
        Err("/d exists and is not a symlink; refusing to overwrite a real install. \
             Remove it by hand and re-run if you want the symlink."
            .to_string())
    );
    assert_eq!(
        plan_link("x", "/s", "/d", false, true, true),
        Err("/s does not exist — run `cargo xtask bundle x --release` first, \
             or drop the --no-bundle flag"
            .to_string())
    );
}

#[test]
fn an_install_bundles_and_then_links_in_order() {
    assert_eq!(
        install_steps(&parse(&["b", "--universal", "a"])),
        vec![
            InstallStep::Bundle {
                announcement: "==> running cargo xtask bundle-universal <packages> --release"
                    .to_string(),
                args: args(&["xtask", "bundle-universal", "b", "a", "--release"]),
            },
            InstallStep::PrepareDirectory,
            InstallStep::Link("b".to_string()),
            InstallStep::Link("a".to_string()),
        ]
    );
    assert_eq!(
        install_steps(&parse(&["--no-bundle", "a"])),
        vec![InstallStep::PrepareDirectory, InstallStep::Link("a".to_string())]
    );
}

#[test]
fn a_refused_request_only_tells_why() {
    assert_eq!(install_steps(&parse(&["-h"])), vec![InstallStep::PrintHelp]);
    assert_eq!(
        install_steps(&parse(&["a", "--bogus"])),
        vec![InstallStep::Fail("unknown flag: --bogus".to_string())]
    );
    assert_eq!(
        install_steps(&parse(&["--no-bundle"])),
        vec![InstallStep::PrintHelp, InstallStep::Fail("no package name given".to_string())]
    );
}

#[test]
fn a_failed_bundle_ends_the_install() {
    let steps = install_steps(&parse(&["a"]));
    assert_eq!(next_step(&steps, 1, false), Some(&InstallStep::PrepareDirectory));
    assert_eq!(next_step(&steps, 1, true), None);
    assert_eq!(next_step(&steps, 3, false), None);
    assert_eq!(bundle_outcome(true), Ok(()));
    assert_eq!(bundle_outcome(false), Err("bundle step failed — aborting install".to_string()));
}

use namelessrealms_core::minecraft::libraries::is_rules;
use namelessrealms_core::utils::{OSArch, OSType, PlatformInfo};
use namelessrealms_core::version_metadata::{LibrariesRules, LibrariesRulesOS};

fn host(os: OSType, arch: OSArch) -> PlatformInfo {
    PlatformInfo { os, arch, os_version: String::from("10.0") }
}

fn rule(action: &str, name: Option<&str>, arch: Option<&str>) -> LibrariesRules {
    LibrariesRules {
        action: action.to_string(),
        os: Some(LibrariesRulesOS {
            name: name.map(|s| s.to_string()),
            arch: arch.map(|s| s.to_string()),
        }),
    }
}

fn bare(action: &str) -> LibrariesRules {
    LibrariesRules { action: action.to_string(), os: None }
}

#[test]
fn single_allow_rule_with_matching_os_applies() {
    let windows = vec![rule("allow", Some("windows"), None)];
    assert!(is_rules(&windows, &host(OSType::Windows, OSArch::X86_64)));
    let osx = vec![rule("allow", Some("osx"), None)];
    assert!(is_rules(&osx, &host(OSType::MacOS, OSArch::Aarch64)));
    let linux = vec![rule("allow", Some("linux"), None)];
    assert!(is_rules(&linux, &host(OSType::Linux, OSArch::X86)));
}

#[test]
fn single_allow_rule_with_other_os_does_not_apply() {
    let rules = vec![rule("allow", Some("windows"), None)];
    assert!(!is_rules(&rules, &host(OSType::Linux, OSArch::X86_64)));
    assert!(!is_rules(&rules, &host(OSType::MacOS, OSArch::X86_64)));
}

#[test]
fn macos_is_not_called_macos_in_rules() {
    let rules = vec![rule("allow", Some("macos"), None)];
    assert!(!is_rules(&rules, &host(OSType::MacOS, OSArch::X86_64)));
}

#[test]
fn no_rules_apply() {
    assert!(is_rules(&Vec::new(), &host(OSType::Linux, OSArch::X86_64)));
}

#[test]
fn allow_without_condition_does_not_decide() {
    let rules = vec![bare("allow")];
    assert!(is_rules(&rules, &host(OSType::Linux, OSArch::X86_64)));
    let then_disallow = vec![bare("allow"), rule("disallow", Some("osx"), None)];
    assert!(!is_rules(&then_disallow, &host(OSType::MacOS, OSArch::X86_64)));
    assert!(is_rules(&then_disallow, &host(OSType::Windows, OSArch::X86_64)));
}

#[test]
fn allow_with_empty_condition_does_not_decide() {
    let rules = vec![rule("allow", None, None), rule("allow", Some("linux"), None)];
    assert!(is_rules(&rules, &host(OSType::Linux, OSArch::X86_64)));
    assert!(!is_rules(&rules, &host(OSType::Windows, OSArch::X86_64)));
}

#[test]
fn disallow_by_os_name() {
    let rules = vec![rule("disallow", Some("osx"), None)];
    assert!(!is_rules(&rules, &host(OSType::MacOS, OSArch::X86_64)));
    assert!(is_rules(&rules, &host(OSType::Linux, OSArch::X86_64)));
}

#[test]
fn disallow_by_arch_alone_does_not_decide() {
    let rules = vec![rule("disallow", None, Some("x86"))];
    assert!(is_rules(&rules, &host(OSType::Windows, OSArch::X86)));
}

#[test]
fn allow_by_arch() {
    let rules = vec![rule("allow", None, Some("x86"))];
    assert!(is_rules(&rules, &host(OSType::Windows, OSArch::X86)));
    assert!(!is_rules(&rules, &host(OSType::Windows, OSArch::X86_64)));
    let x64 = vec![rule("allow", None, Some("x64"))];
    assert!(is_rules(&x64, &host(OSType::Linux, OSArch::X86_64)));
    let arm = vec![rule("allow", None, Some("arm"))];
    assert!(is_rules(&arm, &host(OSType::MacOS, OSArch::Aarch64)));
    assert!(!is_rules(&arm, &host(OSType::MacOS, OSArch::X86_64)));
}

#[test]
fn os_name_goes_before_arch_in_one_rule() {
    let rules = vec![rule("allow", Some("linux"), Some("x86"))];
    assert!(is_rules(&rules, &host(OSType::Linux, OSArch::X86_64)));
    assert!(!is_rules(&rules, &host(OSType::Windows, OSArch::X86)));
}

#[test]
fn first_rule_that_decides_wins() {
    let rules = vec![rule("allow", Some("windows"), None), rule("allow", Some("linux"), None)];
    assert!(is_rules(&rules, &host(OSType::Windows, OSArch::X86_64)));
    assert!(!is_rules(&rules, &host(OSType::Linux, OSArch::X86_64)));
    let allow_then_disallow =
        vec![rule("allow", Some("osx"), None), rule("disallow", Some("osx"), None)];
    assert!(is_rules(&allow_then_disallow, &host(OSType::MacOS, OSArch::X86_64)));
}

#[test]
fn unknown_action_does_not_decide() {
    let rules = vec![rule("forbid", Some("linux"), None)];
    assert!(is_rules(&rules, &host(OSType::Linux, OSArch::X86_64)));
    let upper = vec![rule("Allow", Some("windows"), None)];
    assert!(is_rules(&upper, &host(OSType::Linux, OSArch::X86_64)));
}

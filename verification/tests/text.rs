use namelessrealms_core::global_path::join_path;
use namelessrealms_core::text::{contains_text, decimal_string, join, same_text, split, to_chars};
use namelessrealms_core::utils::{get_arch_rule_name, get_os_rule_name, is_mc_version, OSArch, OSType};

fn strings(parts: &[&str]) -> Vec<String> {
    parts.iter().map(|s| s.to_string()).collect()
}

#[test]
fn chars_of_a_text() {
    assert_eq!(to_chars("a/b"), vec!['a', '/', 'b']);
    assert_eq!(to_chars(""), Vec::<char>::new());
    assert_eq!(to_chars("é1"), vec!['é', '1']);
}

#[test]
fn same_text_compares_characters() {
    assert!(same_text("allow", "allow"));
    assert!(!same_text("allow", "allo"));
    assert!(!same_text("allow", "allaw"));
    assert!(same_text("", ""));
    assert!(!same_text("", "a"));
}

#[test]
fn contains_text_finds_runs() {
    assert!(contains_text("org.lwjgl:lwjgl:3.3.1:natives-linux", "natives"));
    assert!(contains_text("natives", "natives"));
    assert!(contains_text("xnatives", "natives"));
    assert!(!contains_text("native", "natives"));
    assert!(!contains_text("nativ-es", "natives"));
    assert!(contains_text("anything", ""));
    assert!(contains_text("", ""));
    assert!(!contains_text("", "a"));
    assert!(contains_text("aab", "ab"));
}

#[test]
fn split_gives_the_pieces() {
    assert_eq!(split("a/b/c", '/'), strings(&["a", "b", "c"]));
    assert_eq!(split("abc", '/'), strings(&["abc"]));
    assert_eq!(split("", '/'), strings(&[""]));
    assert_eq!(split("/a", '/'), strings(&["", "a"]));
    assert_eq!(split("a/", '/'), strings(&["a", ""]));
    assert_eq!(split("a//b", '/'), strings(&["a", "", "b"]));
    assert_eq!(split("é.ü", '.'), strings(&["é", "ü"]));
}

#[test]
fn split_agrees_with_std() {
    for text in ["1.16.5", "", ".", "..", "a.b.", ".a", "no dots"] {
        let expected: Vec<String> = text.split('.').map(|s| s.to_string()).collect();
        assert_eq!(split(text, '.'), expected);
    }
}

#[test]
fn join_puts_the_separator_between() {
    assert_eq!(join(&strings(&["a", "b", "c"]), ";"), "a;b;c");
    assert_eq!(join(&strings(&["a"]), ";"), "a");
    assert_eq!(join(&strings(&[]), ";"), "");
    assert_eq!(join(&strings(&["", ""]), ":"), ":");
    assert_eq!(join(&strings(&["a", "b"]), ", "), "a, b");
}

#[test]
fn join_of_split_gives_the_text_back() {
    for text in ["a/b/c", "", "/", "//x/", "plain"] {
        assert_eq!(join(&split(text, '/'), "/"), text);
    }
}

#[test]
fn decimal_string_writes_numbers() {
    assert_eq!(decimal_string(0), "0");
    assert_eq!(decimal_string(7), "7");
    assert_eq!(decimal_string(10), "10");
    assert_eq!(decimal_string(1024), "1024");
    assert_eq!(decimal_string(2048), "2048");
    assert_eq!(decimal_string(4096), "4096");
    assert_eq!(decimal_string(1234567890), "1234567890");
    assert_eq!(decimal_string(u32::MAX), "4294967295");
}

#[test]
fn join_path_uses_the_separator_of_the_host() {
    assert_eq!(join_path("/home/u/common", "libraries", OSType::Linux), "/home/u/common/libraries");
    assert_eq!(join_path("/home/u/common", "libraries", OSType::MacOS), "/home/u/common/libraries");
    assert_eq!(
        join_path("C:\\Users\\u\\common", "libraries", OSType::Windows),
        "C:\\Users\\u\\common\\libraries"
    );
    assert_eq!(
        join_path("C:\\common\\libraries", "com/mojang/a.jar", OSType::Windows),
        "C:\\common\\libraries\\com/mojang/a.jar"
    );
}

#[test]
fn join_path_adds_no_second_separator() {
    assert_eq!(join_path("/", "bin", OSType::Linux), "/bin");
    assert_eq!(join_path("/common/", "bin", OSType::Linux), "/common/bin");
    assert_eq!(join_path("C:\\common\\", "bin", OSType::Windows), "C:\\common\\bin");
    assert_eq!(join_path("C:/common/", "bin", OSType::Windows), "C:/common/bin");
    assert_eq!(join_path("", "bin", OSType::Linux), "bin");
    assert_eq!(join_path("", "bin", OSType::Windows), "bin");
}

#[test]
fn backslash_separates_on_windows_only() {
    assert_eq!(join_path("dir\\", "bin", OSType::Linux), "dir\\/bin");
    assert_eq!(join_path("dir\\", "bin", OSType::Windows), "dir\\bin");
}

#[test]
fn rule_names_of_the_host() {
    assert_eq!(get_os_rule_name(OSType::Windows), "windows");
    assert_eq!(get_os_rule_name(OSType::MacOS), "osx");
    assert_eq!(get_os_rule_name(OSType::Linux), "linux");
    assert_eq!(get_arch_rule_name(OSArch::X86), "x86");
    assert_eq!(get_arch_rule_name(OSArch::X86_64), "x64");
    assert_eq!(get_arch_rule_name(OSArch::Aarch64), "arm");
}

#[test]
fn versions_compare_by_numbers() {
    assert!(!is_mc_version(1, 13, "1.12.2"));
    assert!(is_mc_version(1, 13, "1.13"));
    assert!(is_mc_version(1, 13, "1.16.5"));
    assert!(!is_mc_version(1, 13, "1.9"));
    assert!(!is_mc_version(1, 13, "1.9.4"));
    assert!(is_mc_version(1, 13, "1.13.0"));
    assert!(is_mc_version(1, 13, "1.13.2"));
    assert!(is_mc_version(1, 13, "1.20"));
    assert!(is_mc_version(1, 13, "2.0"));
    assert!(is_mc_version(1, 13, "2"));
    assert!(!is_mc_version(1, 13, "1"));
    assert!(!is_mc_version(1, 13, "0.99"));
    assert!(!is_mc_version(1, 13, "1.7.10"));
}

#[test]
fn versions_with_other_text() {
    assert!(!is_mc_version(1, 13, ""));
    assert!(!is_mc_version(1, 13, "release"));
    assert!(is_mc_version(1, 13, "1.14-pre1"));
    assert!(!is_mc_version(1, 13, "1.12-pre7"));
    assert!(is_mc_version(1, 13, "1.013"));
    assert!(is_mc_version(1, 13, "01.13"));
    assert!(!is_mc_version(1, 13, "1.x13"));
    assert!(is_mc_version(0, 0, ""));
    assert!(is_mc_version(1, 0, "1"));
}

#[test]
fn versions_with_very_large_numbers() {
    assert!(is_mc_version(1, 13, "99999999999999999999999999.0"));
    assert!(is_mc_version(1, 13, "1.99999999999999999999999999"));
    assert!(is_mc_version(u64::MAX, u64::MAX, "18446744073709551616"));
    assert!(is_mc_version(u64::MAX, u64::MAX, "18446744073709551615.18446744073709551615"));
    assert!(!is_mc_version(u64::MAX, u64::MAX, "18446744073709551615.18446744073709551614"));
    assert!(!is_mc_version(u64::MAX, 0, "18446744073709551614.9"));
}

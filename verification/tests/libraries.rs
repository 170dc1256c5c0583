use namelessrealms_core::minecraft::libraries::{
    add_allow_libs, is_libraries, LibrariesJar, LibrariesJarType,
};
use namelessrealms_core::utils::{OSArch, OSType, PlatformInfo};
use namelessrealms_core::version_metadata::{
    Libraries, LibrariesClassifiers, LibrariesDownloads, LibrariesFile, LibrariesRules,
    LibrariesRulesOS,
};

fn on(os: OSType) -> PlatformInfo {
    PlatformInfo { os, arch: OSArch::X86_64, os_version: String::from("10.0") }
}

fn file(path: &str) -> LibrariesFile {
    LibrariesFile {
        path: path.to_string(),
        sha1: format!("sha1-of-{}", path),
        size: 1234,
        url: format!("https://libraries.example/{}", path),
    }
}

fn no_classifiers() -> LibrariesClassifiers {
    LibrariesClassifiers {
        natives_linux: None,
        natives_macos: None,
        natives_osx: None,
        natives_windows: None,
    }
}

fn library(
    name: &str,
    rules: Option<Vec<LibrariesRules>>,
    artifact: Option<LibrariesFile>,
    classifiers: Option<LibrariesClassifiers>,
) -> Libraries {
    Libraries { name: name.to_string(), rules, downloads: LibrariesDownloads { artifact, classifiers } }
}

fn allow_os(name: &str) -> LibrariesRules {
    LibrariesRules {
        action: "allow".to_string(),
        os: Some(LibrariesRulesOS { name: Some(name.to_string()), arch: None }),
    }
}

#[test]
fn linux_only_classifier_gives_nothing_on_windows() {
    let classifiers =
        LibrariesClassifiers { natives_linux: Some(file("a/b-natives-linux.jar")), ..no_classifiers() };
    let libs = vec![library("org.lwjgl:lwjgl-platform:2.9.4", None, None, Some(classifiers))];
    assert_eq!(is_libraries(&libs, &on(OSType::Windows), "/common/libraries"), Vec::new());
    assert_eq!(is_libraries(&libs, &on(OSType::MacOS), "/common/libraries"), Vec::new());
    assert_eq!(is_libraries(&libs, &on(OSType::Linux), "/common/libraries").len(), 1);
}

#[test]
fn artifact_is_resolved_below_the_libraries_directory() {
    let libs = vec![library(
        "com.mojang:brigadier:1.0.18",
        None,
        Some(file("com/mojang/brigadier/1.0.18/brigadier-1.0.18.jar")),
        None,
    )];
    let jars = is_libraries(&libs, &on(OSType::Linux), "/common/libraries");
    assert_eq!(
        jars,
        vec![LibrariesJar {
            jar_type: LibrariesJarType::Artifact,
            name: "brigadier-1.0.18.jar".to_string(),
            relative_path: "com/mojang/brigadier/1.0.18/brigadier-1.0.18.jar".to_string(),
            path: "/common/libraries/com/mojang/brigadier/1.0.18/brigadier-1.0.18.jar".to_string(),
            sha1: "sha1-of-com/mojang/brigadier/1.0.18/brigadier-1.0.18.jar".to_string(),
            size: 1234,
            download_url:
                "https://libraries.example/com/mojang/brigadier/1.0.18/brigadier-1.0.18.jar"
                    .to_string(),
        }]
    );
}

#[test]
fn paths_on_windows_use_the_backslash_after_the_directory() {
    let libs = vec![library("a:b:1", None, Some(file("a/b/1/b-1.jar")), None)];
    let jars = is_libraries(&libs, &on(OSType::Windows), "C:\\common\\libraries");
    assert_eq!(jars[0].path, "C:\\common\\libraries\\a/b/1/b-1.jar");
    assert_eq!(jars[0].relative_path, "a/b/1/b-1.jar");
    assert_eq!(jars[0].name, "b-1.jar");
}

#[test]
fn name_is_the_last_part_of_the_path_not_the_library_name() {
    let libs = vec![
        library("group:thing:1.0", None, Some(file("thing.jar")), None),
        library("group:other:1.0", None, Some(file("deep/er/other-1.0.jar")), None),
        library("group:odd:1.0", None, Some(file("ends/with/slash/")), None),
    ];
    let jars = is_libraries(&libs, &on(OSType::Linux), "/l");
    assert_eq!(jars[0].name, "thing.jar");
    assert_eq!(jars[1].name, "other-1.0.jar");
    assert_eq!(jars[2].name, "");
}

#[test]
fn natives_in_the_library_name_make_the_artifact_native() {
    let libs = vec![
        library(
            "org.lwjgl:lwjgl:3.3.1:natives-windows",
            None,
            Some(file("org/lwjgl/lwjgl/3.3.1/lwjgl-3.3.1-natives-windows.jar")),
            None,
        ),
        library(
            "org.lwjgl:lwjgl:3.3.1",
            None,
            Some(file("org/lwjgl/lwjgl/3.3.1/lwjgl-3.3.1-natives-in-path-only.jar")),
            None,
        ),
    ];
    let jars = is_libraries(&libs, &on(OSType::Windows), "/l");
    assert_eq!(jars.len(), 2);
    assert_eq!(jars[0].jar_type, LibrariesJarType::Natives);
    assert_eq!(jars[1].jar_type, LibrariesJarType::Artifact);
}

#[test]
fn artifact_comes_before_the_native_file_of_one_library() {
    let classifiers = LibrariesClassifiers {
        natives_windows: Some(file("p/p-natives-windows.jar")),
        natives_linux: Some(file("p/p-natives-linux.jar")),
        natives_osx: Some(file("p/p-natives-osx.jar")),
        natives_macos: None,
    };
    let libs = vec![library("g:p:1", None, Some(file("p/p.jar")), Some(classifiers))];
    let jars = is_libraries(&libs, &on(OSType::Windows), "/l");
    assert_eq!(jars.len(), 2);
    assert_eq!(jars[0].name, "p.jar");
    assert_eq!(jars[0].jar_type, LibrariesJarType::Artifact);
    assert_eq!(jars[1].name, "p-natives-windows.jar");
    assert_eq!(jars[1].jar_type, LibrariesJarType::Natives);
    let jars = is_libraries(&libs, &on(OSType::Linux), "/l");
    assert_eq!(jars[1].name, "p-natives-linux.jar");
    let jars = is_libraries(&libs, &on(OSType::MacOS), "/l");
    assert_eq!(jars[1].name, "p-natives-osx.jar");
    assert_eq!(jars[1].path, "/l/p/p-natives-osx.jar");
}

#[test]
fn macos_spelling_is_tried_before_osx() {
    let both = LibrariesClassifiers {
        natives_macos: Some(file("p/p-natives-macos.jar")),
        natives_osx: Some(file("p/p-natives-osx.jar")),
        ..no_classifiers()
    };
    let libs = vec![library("g:p:1", None, None, Some(both))];
    let jars = is_libraries(&libs, &on(OSType::MacOS), "/l");
    assert_eq!(jars.len(), 1);
    assert_eq!(jars[0].name, "p-natives-macos.jar");

    let macos_only = LibrariesClassifiers {
        natives_macos: Some(file("p/p-natives-macos.jar")),
        ..no_classifiers()
    };
    let libs = vec![library("g:p:1", None, None, Some(macos_only))];
    let jars = is_libraries(&libs, &on(OSType::MacOS), "/l");
    assert_eq!(jars[0].name, "p-natives-macos.jar");
    assert_eq!(is_libraries(&libs, &on(OSType::Linux), "/l"), Vec::new());
}

#[test]
fn rules_keep_a_library_out() {
    let classifiers = LibrariesClassifiers {
        natives_linux: Some(file("q/q-natives-linux.jar")),
        ..no_classifiers()
    };
    let libs = vec![
        library("g:first:1", None, Some(file("first.jar")), None),
        library("g:q:1", Some(vec![allow_os("osx")]), Some(file("q/q.jar")), Some(classifiers)),
        library("g:last:1", Some(vec![allow_os("linux")]), Some(file("last.jar")), None),
        library("g:free:1", Some(Vec::new()), Some(file("free.jar")), None),
    ];
    let names: Vec<String> =
        is_libraries(&libs, &on(OSType::Linux), "/l").into_iter().map(|j| j.name).collect();
    assert_eq!(names, vec!["first.jar", "last.jar", "free.jar"]);
    let names: Vec<String> =
        is_libraries(&libs, &on(OSType::MacOS), "/l").into_iter().map(|j| j.name).collect();
    assert_eq!(names, vec!["first.jar", "q.jar", "free.jar"]);
}

#[test]
fn no_libraries_give_no_files() {
    assert_eq!(is_libraries(&Vec::new(), &on(OSType::Linux), "/l"), Vec::new());
    let empty = vec![library("g:none:1", None, None, None)];
    assert_eq!(is_libraries(&empty, &on(OSType::Linux), "/l"), Vec::new());
    let hollow = vec![library("g:none:1", None, None, Some(no_classifiers()))];
    assert_eq!(is_libraries(&hollow, &on(OSType::Windows), "/l"), Vec::new());
}

#[test]
fn resolving_two_lists_in_a_row_is_resolving_them_joined() {
    let a = vec![library("g:a:1", None, Some(file("a.jar")), None)];
    let b = vec![
        library("g:b:1", Some(vec![allow_os("windows")]), Some(file("b.jar")), None),
        library("g:c:1", None, Some(file("c.jar")), None),
    ];
    let mut both = a.clone();
    both.extend(b.clone());
    let host = on(OSType::Linux);
    let mut expected = is_libraries(&a, &host, "/l");
    expected.extend(is_libraries(&b, &host, "/l"));
    assert_eq!(is_libraries(&both, &host, "/l"), expected);
}

#[test]
fn add_allow_libs_appends_and_does_not_read_rules() {
    let mut out = is_libraries(
        &vec![library("g:a:1", None, Some(file("a.jar")), None)],
        &on(OSType::Linux),
        "/l",
    );
    let kept_out = library("g:b:1", Some(vec![allow_os("windows")]), Some(file("b.jar")), None);
    add_allow_libs(&kept_out, &on(OSType::Linux), "/l", &mut out);
    let names: Vec<String> = out.into_iter().map(|j| j.name).collect();
    assert_eq!(names, vec!["a.jar", "b.jar"]);
}

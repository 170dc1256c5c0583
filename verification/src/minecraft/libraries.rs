//! Which libraries of a version apply to the host, and where their files lie.
use crate::global_path::{join_path, joined_path, lemma_joined_path_ends};
use crate::text::{contains_text, lemma_pieces_nonempty, occurs_in, pieces, same_text, split, starts_with};
use crate::utils::{
    arch_rule_name, get_arch_rule_name, get_os_rule_name, os_rule_name, OSType, PlatformInfo,
    PlatformInfoView,
};
use crate::version_metadata::{
    Libraries, LibrariesClassifiers, LibrariesClassifiersView, LibrariesFile, LibrariesFileView,
    LibrariesRules, LibrariesRulesView, LibrariesView,
};
use vstd::prelude::*;

verus! {

/// What a resolved file is for.
#[derive(Clone, Copy, Debug, PartialEq, Eq, Structural)]
pub enum LibrariesJarType {
    /// A jar for the classpath.
    Artifact,
    /// An archive of native code, to be unpacked before the launch.
    Natives,
}

/// One file that the host needs, with where it lies and where it comes from.
#[derive(Clone, Debug, PartialEq, Eq)]
pub struct LibrariesJar {
    pub jar_type: LibrariesJarType,
    /// The file's own name: the last part of `relative_path`.
    pub name: String,
    /// Path below the libraries directory.
    pub relative_path: String,
    /// Path of the file on the host.
    pub path: String,
    pub sha1: String,
    pub size: u32,
    pub download_url: String,
}

pub struct LibrariesJarView {
    pub jar_type: LibrariesJarType,
    pub name: Seq<char>,
    pub relative_path: Seq<char>,
    pub path: Seq<char>,
    pub sha1: Seq<char>,
    pub size: u32,
    pub download_url: Seq<char>,
}

impl DeepView for LibrariesJar {
    type V = LibrariesJarView;

    open spec fn deep_view(&self) -> LibrariesJarView {
        LibrariesJarView {
            jar_type: self.jar_type,
            name: self.name@,
            relative_path: self.relative_path@,
            path: self.path@,
            sha1: self.sha1@,
            size: self.size,
            download_url: self.download_url@,
        }
    }
}

/// What one rule says of the host, if it says anything. A rule that allows
/// speaks by the name of the operating system where it gives one, else by the
/// architecture where it gives one; a rule that disallows speaks only by the
/// name of the operating system.
pub open spec fn rule_verdict(rule: LibrariesRulesView, host: PlatformInfoView) -> Option<bool> {
    if rule.action == "allow"@ && rule.os is Some && rule.os->0.name is Some {
        Some(os_rule_name(host.os) == rule.os->0.name->0)
    } else if rule.action == "allow"@ && rule.os is Some && rule.os->0.arch is Some {
        Some(arch_rule_name(host.arch) == rule.os->0.arch->0)
    } else if rule.action == "disallow"@ && rule.os is Some && rule.os->0.name is Some {
        Some(os_rule_name(host.os) != rule.os->0.name->0)
    } else {
        None
    }
}

/// Whether `rules` let an entry through on `host`: the first rule that says
/// anything decides alone, and where none does the entry is let through.
pub open spec fn rules_apply(rules: Seq<LibrariesRulesView>, host: PlatformInfoView) -> bool
    decreases rules.len(),
{
    if rules.len() == 0 {
        true
    } else {
        match rule_verdict(rules.first(), host) {
            Some(verdict) => verdict,
            None => rules_apply(rules.drop_first(), host),
        }
    }
}

/// What one rule says of the host, if it says anything.
fn rule_says(rule: &LibrariesRules, host: &PlatformInfo) -> (out: Option<bool>)
    ensures
        out == rule_verdict(rule.deep_view(), host.deep_view()),
{
    let allows = same_text(rule.action.as_str(), "allow");
    let disallows = same_text(rule.action.as_str(), "disallow");
    match &rule.os {
        Some(os) => {
            match &os.name {
                Some(os_name) => {
                    let named = same_text(get_os_rule_name(host.os), os_name.as_str());
                    if allows {
                        Some(named)
                    } else if disallows {
                        Some(!named)
                    } else {
                        None
                    }
                },
                None => {
                    match &os.arch {
                        Some(arch_name) => {
                            if allows {
                                Some(same_text(get_arch_rule_name(host.arch), arch_name.as_str()))
                            } else {
                                None
                            }
                        },
                        None => None,
                    }
                },
            }
        },
        None => None,
    }
}

/// Whether `rules` let an entry through on `host`.
pub fn is_rules(rules: &Vec<LibrariesRules>, host: &PlatformInfo) -> (applies: bool)
    ensures
        applies == rules_apply(rules.deep_view(), host.deep_view()),
{
    let mut i: usize = 0;
    assert(rules.deep_view().skip(0) =~= rules.deep_view());
    while i < rules.len()
        invariant
            i <= rules.len(),
            rules_apply(rules.deep_view(), host.deep_view()) == rules_apply(
                rules.deep_view().skip(i as int),
                host.deep_view(),
            ),
        decreases rules.len() - i,
    {
        let ghost rest = rules.deep_view().skip(i as int);
        assert(rest.first() == rules[i as int].deep_view());
        assert(rest.drop_first() =~= rules.deep_view().skip(i + 1));
        match rule_says(&rules[i], host) {
            Some(verdict) => {
                return verdict;
            },
            None => {},
        }
        i = i + 1;
    }
    true
}

/// The kind under which the file that serves every host is listed: newer
/// metadata lists native files that way too, and marks them in the library's
/// name.
pub open spec fn artifact_type(name: Seq<char>) -> LibrariesJarType {
    if occurs_in("natives"@, name) {
        LibrariesJarType::Natives
    } else {
        LibrariesJarType::Artifact
    }
}

/// The native file for `os`. For macOS the entry spelled `macos` is taken
/// where there is one, else the entry spelled `osx`.
pub open spec fn native_file(
    classifiers: LibrariesClassifiersView,
    os: OSType,
) -> Option<LibrariesFileView> {
    match os {
        OSType::Windows => classifiers.natives_windows,
        OSType::Linux => classifiers.natives_linux,
        OSType::MacOS => if classifiers.natives_macos is Some {
            classifiers.natives_macos
        } else {
            classifiers.natives_osx
        },
    }
}

/// The resolved form of `file`: named after the last part of its path, and
/// lying at that path below `libraries_dir`.
pub open spec fn jar_of(
    file: LibrariesFileView,
    jar_type: LibrariesJarType,
    libraries_dir: Seq<char>,
    os: OSType,
) -> LibrariesJarView {
    LibrariesJarView {
        jar_type,
        name: pieces(file.path, '/').last(),
        relative_path: file.path,
        path: joined_path(libraries_dir, file.path, os),
        sha1: file.sha1,
        size: file.size,
        download_url: file.url,
    }
}

/// The files that one library gives on a host with operating system `os`:
/// the file that serves every host, if there is one, and then the native file
/// for `os`, if there is one.
pub open spec fn library_jars(
    library: LibrariesView,
    os: OSType,
    libraries_dir: Seq<char>,
) -> Seq<LibrariesJarView> {
    let general = match library.downloads.artifact {
        Some(file) => seq![jar_of(file, artifact_type(library.name), libraries_dir, os)],
        None => Seq::<LibrariesJarView>::empty(),
    };
    let native = match library.downloads.classifiers {
        Some(classifiers) => match native_file(classifiers, os) {
            Some(file) => seq![jar_of(file, LibrariesJarType::Natives, libraries_dir, os)],
            None => Seq::<LibrariesJarView>::empty(),
        },
        None => Seq::<LibrariesJarView>::empty(),
    };
    general + native
}

/// Whether a library is wanted on `host`: one without rules always is.
pub open spec fn library_allowed(library: LibrariesView, host: PlatformInfoView) -> bool {
    match library.rules {
        Some(rules) => rules_apply(rules, host),
        None => true,
    }
}

/// The files that `libraries` give on `host`, library by library in the order
/// of the list; a library that its rules keep out gives none.
pub open spec fn resolved_jars(
    libraries: Seq<LibrariesView>,
    host: PlatformInfoView,
    libraries_dir: Seq<char>,
) -> Seq<LibrariesJarView>
    decreases libraries.len(),
{
    if libraries.len() == 0 {
        Seq::<LibrariesJarView>::empty()
    } else {
        let before = resolved_jars(libraries.drop_last(), host, libraries_dir);
        if library_allowed(libraries.last(), host) {
            before + library_jars(libraries.last(), host.os, libraries_dir)
        } else {
            before
        }
    }
}

/// The native file for `os`, if the metadata has one.
fn pick_native_file(classifiers: &LibrariesClassifiers, os: OSType) -> (out: &Option<
    LibrariesFile,
>)
    ensures
        out.deep_view() == native_file(classifiers.deep_view(), os),
{
    match os {
        OSType::Windows => &classifiers.natives_windows,
        OSType::Linux => &classifiers.natives_linux,
        OSType::MacOS => {
            if classifiers.natives_macos.is_some() {
                &classifiers.natives_macos
            } else {
                &classifiers.natives_osx
            }
        },
    }
}

/// The resolved form of `file`.
fn resolve_file(
    file: &LibrariesFile,
    jar_type: LibrariesJarType,
    libraries_dir: &str,
    os: OSType,
) -> (jar: LibrariesJar)
    ensures
        jar.deep_view() == jar_of(file.deep_view(), jar_type, libraries_dir@, os),
{
    let mut parts = split(file.path.as_str(), '/');
    proof {
        lemma_pieces_nonempty(file.path@, '/');
    }
    let ghost all = parts.deep_view();
    assert(all.last() == parts@.last()@);
    let name = match parts.pop() {
        Some(last) => last,
        None => String::new(),
    };
    LibrariesJar {
        jar_type,
        name,
        relative_path: file.path.clone(),
        path: join_path(libraries_dir, file.path.as_str(), os),
        sha1: file.sha1.clone(),
        size: file.size,
        download_url: file.url.clone(),
    }
}

/// Appends to `allow_libs` the files that `item` gives on `host`.
pub fn add_allow_libs(
    item: &Libraries,
    host: &PlatformInfo,
    libraries_dir: &str,
    allow_libs: &mut Vec<LibrariesJar>,
)
    ensures
        final(allow_libs).deep_view() == old(allow_libs).deep_view() + library_jars(
            item.deep_view(),
            host.os,
            libraries_dir@,
        ),
{
    let ghost before = allow_libs.deep_view();
    let ghost view = item.deep_view();
    if let Some(file) = &item.downloads.artifact {
        let jar_type = if contains_text(item.name.as_str(), "natives") {
            LibrariesJarType::Natives
        } else {
            LibrariesJarType::Artifact
        };
        allow_libs.push(resolve_file(file, jar_type, libraries_dir, host.os));
        assert(allow_libs.deep_view() =~= before.push(
            jar_of(file.deep_view(), artifact_type(view.name), libraries_dir@, host.os),
        ));
    }
    let ghost middle = allow_libs.deep_view();
    if let Some(classifiers) = &item.downloads.classifiers {
        if let Some(file) = pick_native_file(classifiers, host.os) {
            allow_libs.push(
                resolve_file(file, LibrariesJarType::Natives, libraries_dir, host.os),
            );
            assert(allow_libs.deep_view() =~= middle.push(
                jar_of(file.deep_view(), LibrariesJarType::Natives, libraries_dir@, host.os),
            ));
        }
    }
    assert(allow_libs.deep_view() =~= before + library_jars(view, host.os, libraries_dir@));
}

/// The files that `libraries` give on `host`, with their paths below
/// `libraries_dir`.
pub fn is_libraries(libraries: &Vec<Libraries>, host: &PlatformInfo, libraries_dir: &str) -> (out:
    Vec<LibrariesJar>)
    ensures
        out.deep_view() == resolved_jars(libraries.deep_view(), host.deep_view(), libraries_dir@),
{
    let mut allow_libs: Vec<LibrariesJar> = Vec::new();
    let mut i: usize = 0;
    assert(libraries.deep_view().take(0) =~= Seq::<LibrariesView>::empty());
    assert(allow_libs.deep_view() =~= Seq::<LibrariesJarView>::empty());
    while i < libraries.len()
        invariant
            i <= libraries.len(),
            allow_libs.deep_view() == resolved_jars(
                libraries.deep_view().take(i as int),
                host.deep_view(),
                libraries_dir@,
            ),
        decreases libraries.len() - i,
    {
        let lib = &libraries[i];
        let ghost next = libraries.deep_view().take(i + 1);
        assert(next.drop_last() =~= libraries.deep_view().take(i as int));
        assert(next.last() == lib.deep_view());
        let wanted = match &lib.rules {
            Some(rules) => is_rules(rules, host),
            None => true,
        };
        if wanted {
            add_allow_libs(lib, host, libraries_dir, &mut allow_libs);
        }
        i = i + 1;
    }
    assert(libraries.deep_view().take(libraries.len() as int) =~= libraries.deep_view());
    allow_libs
}

/// A list of one rule that allows by the name of an operating system lets an
/// entry through exactly on hosts with that operating system.
pub proof fn lemma_single_allow_rule(rule: LibrariesRulesView, host: PlatformInfoView)
    requires
        rule.action == "allow"@,
        rule.os is Some,
        rule.os->0.name is Some,
    ensures
        rules_apply(seq![rule], host) == (os_rule_name(host.os) == rule.os->0.name->0),
{
    assert(seq![rule].first() == rule);
}

/// A list of one rule that disallows by the name of an operating system
/// keeps an entry out exactly on hosts with that operating system.
pub proof fn lemma_single_disallow_rule(rule: LibrariesRulesView, host: PlatformInfoView)
    requires
        rule.action == "disallow"@,
        rule.os is Some,
        rule.os->0.name is Some,
    ensures
        rules_apply(seq![rule], host) == (os_rule_name(host.os) != rule.os->0.name->0),
{
    reveal_strlit("allow");
    reveal_strlit("disallow");
    assert("allow"@.len() != "disallow"@.len());
    assert(seq![rule].first() == rule);
}

/// The first rule that says anything decides: the rules after it are not
/// read, and the rules before it, which say nothing, change nothing.
pub proof fn lemma_first_verdict_decides(
    silent: Seq<LibrariesRulesView>,
    rule: LibrariesRulesView,
    rest: Seq<LibrariesRulesView>,
    host: PlatformInfoView,
)
    requires
        forall|i: int| 0 <= i < silent.len() ==> rule_verdict(silent[i], host) is None,
        rule_verdict(rule, host) is Some,
    ensures
        rules_apply(silent + seq![rule] + rest, host) == rule_verdict(rule, host)->0,
    decreases silent.len(),
{
    let all = silent + seq![rule] + rest;
    if silent.len() == 0 {
        assert(all.first() == rule);
    } else {
        assert(all.first() == silent[0]);
        assert(all.drop_first() =~= silent.drop_first() + seq![rule] + rest);
        lemma_first_verdict_decides(silent.drop_first(), rule, rest, host);
    }
}

/// Rules of which none says anything let the entry through.
pub proof fn lemma_silent_rules_apply(rules: Seq<LibrariesRulesView>, host: PlatformInfoView)
    requires
        forall|i: int| 0 <= i < rules.len() ==> rule_verdict(rules[i], host) is None,
    ensures
        rules_apply(rules, host),
    decreases rules.len(),
{
    if rules.len() > 0 {
        lemma_silent_rules_apply(rules.drop_first(), host);
    }
}

/// A library that has native files only, and none for the host's operating
/// system, gives no file there, whatever its rules say.
pub proof fn lemma_missing_native_file(
    library: LibrariesView,
    host: PlatformInfoView,
    libraries_dir: Seq<char>,
)
    requires
        library.downloads.artifact is None,
        library.downloads.classifiers is Some,
        native_file(library.downloads.classifiers->0, host.os) is None,
    ensures
        library_jars(library, host.os, libraries_dir).len() == 0,
        resolved_jars(seq![library], host, libraries_dir).len() == 0,
{
    let alone = seq![library];
    assert(alone.last() == library);
    assert(alone.drop_last().len() == 0);
    assert(resolved_jars(alone.drop_last(), host, libraries_dir).len() == 0);
}

/// Resolving a list that is made of two lists gives the files of the first
/// and then the files of the second: the order of the libraries is kept.
pub proof fn lemma_resolved_jars_concat(
    first: Seq<LibrariesView>,
    second: Seq<LibrariesView>,
    host: PlatformInfoView,
    libraries_dir: Seq<char>,
)
    ensures
        resolved_jars(first + second, host, libraries_dir) == resolved_jars(
            first,
            host,
            libraries_dir,
        ) + resolved_jars(second, host, libraries_dir),
    decreases second.len(),
{
    if second.len() == 0 {
        assert(first + second =~= first);
        assert(resolved_jars(first, host, libraries_dir) + resolved_jars(
            second,
            host,
            libraries_dir,
        ) =~= resolved_jars(first, host, libraries_dir));
    } else {
        let whole = first + second;
        assert(whole.drop_last() =~= first + second.drop_last());
        assert(whole.last() == second.last());
        lemma_resolved_jars_concat(first, second.drop_last(), host, libraries_dir);
        let a = resolved_jars(first, host, libraries_dir);
        let b = resolved_jars(second.drop_last(), host, libraries_dir);
        let c = library_jars(second.last(), host.os, libraries_dir);
        assert((a + b) + c =~= a + (b + c));
    }
}

/// Every file that one library gives lies below the libraries directory, at
/// its relative path, and is named after the last part of that path.
pub proof fn lemma_library_jars_placed(
    library: LibrariesView,
    os: OSType,
    libraries_dir: Seq<char>,
    k: int,
)
    requires
        0 <= k < library_jars(library, os, libraries_dir).len(),
    ensures
        ({
            let jar = library_jars(library, os, libraries_dir)[k];
            &&& jar.path == joined_path(libraries_dir, jar.relative_path, os)
            &&& starts_with(jar.path, libraries_dir)
            &&& jar.name == pieces(jar.relative_path, '/').last()
        }),
{
    let jar = library_jars(library, os, libraries_dir)[k];
    lemma_joined_path_ends(libraries_dir, jar.relative_path, os);
}

/// Every resolved file lies below the libraries directory, at its relative
/// path, and is named after the last part of that path.
pub proof fn lemma_resolved_jars_placed(
    libraries: Seq<LibrariesView>,
    host: PlatformInfoView,
    libraries_dir: Seq<char>,
    k: int,
)
    requires
        0 <= k < resolved_jars(libraries, host, libraries_dir).len(),
    ensures
        ({
            let jar = resolved_jars(libraries, host, libraries_dir)[k];
            &&& jar.path == joined_path(libraries_dir, jar.relative_path, host.os)
            &&& starts_with(jar.path, libraries_dir)
            &&& jar.name == pieces(jar.relative_path, '/').last()
        }),
    decreases libraries.len(),
{
    let before = resolved_jars(libraries.drop_last(), host, libraries_dir);
    if k < before.len() {
        lemma_resolved_jars_placed(libraries.drop_last(), host, libraries_dir, k);
    } else {
        lemma_library_jars_placed(libraries.last(), host.os, libraries_dir, k - before.len());
    }
}

} // verus!

//! Assembly of the command tokens that start the client runtime.
use crate::global_path::{join_path, joined_path};
use crate::minecraft::libraries::LibrariesJarView;
use crate::text::{decimal, decimal_string, join, joined, pieces, same_text, split};
use crate::utils::{
    is_mc_version, version_at_least, version_numbers, OSArch, OSType, PlatformInfo,
    PlatformInfoView,
};
use crate::version_metadata::{JavaArgument, JavaArgumentView, VersionMetadata, VersionMetadataView};
use vstd::prelude::*;

verus! {

/// What a launch adds to the metadata of the version: memory limits, the
/// launcher's own name and version, who plays, and where the game keeps its
/// files.
#[derive(Clone, Debug)]
pub struct BuildContext {
    /// Upper limit of the Java heap in megabytes; zero asks for the default.
    pub max_memory_mb: u32,
    /// Initial size of the Java heap in megabytes; zero asks for the default.
    pub min_memory_mb: u32,
    pub launcher_brand: String,
    pub launcher_version: String,
    pub player_name: String,
    pub user_id: String,
    pub access_token: String,
    pub user_type: String,
    pub version_type: String,
    pub instance_dir: String,
    pub assets_dir: String,
}

pub struct BuildContextView {
    pub max_memory_mb: u32,
    pub min_memory_mb: u32,
    pub launcher_brand: Seq<char>,
    pub launcher_version: Seq<char>,
    pub player_name: Seq<char>,
    pub user_id: Seq<char>,
    pub access_token: Seq<char>,
    pub user_type: Seq<char>,
    pub version_type: Seq<char>,
    pub instance_dir: Seq<char>,
    pub assets_dir: Seq<char>,
}

impl DeepView for BuildContext {
    type V = BuildContextView;

    open spec fn deep_view(&self) -> BuildContextView {
        BuildContextView {
            max_memory_mb: self.max_memory_mb,
            min_memory_mb: self.min_memory_mb,
            launcher_brand: self.launcher_brand@,
            launcher_version: self.launcher_version@,
            player_name: self.player_name@,
            user_id: self.user_id@,
            access_token: self.access_token@,
            user_type: self.user_type@,
            version_type: self.version_type@,
            instance_dir: self.instance_dir@,
            assets_dir: self.assets_dir@,
        }
    }
}

/// What the process launcher needs: the directory for the native libraries of
/// this launch, and the command tokens in order.
#[derive(Debug)]
pub struct JavaStartParameters {
    pub natives_dir_path: String,
    pub parameters: Vec<String>,
}

pub struct JavaStartParametersView {
    pub natives_dir_path: Seq<char>,
    pub parameters: Seq<Seq<char>>,
}

impl DeepView for JavaStartParameters {
    type V = JavaStartParametersView;

    open spec fn deep_view(&self) -> JavaStartParametersView {
        JavaStartParametersView {
            natives_dir_path: self.natives_dir_path@,
            parameters: self.parameters.deep_view(),
        }
    }
}

/// Builds the start parameters of one launch. Each builder has a directory
/// of its own for the native libraries.
#[derive(Debug)]
pub struct BuildParameters<'a> {
    version_metadata: &'a VersionMetadata,
    context: BuildContext,
    host: PlatformInfo,
    natives_dir_path: String,
}

pub struct BuildParametersView {
    pub version_metadata: VersionMetadataView,
    pub context: BuildContextView,
    pub host: PlatformInfoView,
    pub natives_dir_path: Seq<char>,
}

impl<'a> DeepView for BuildParameters<'a> {
    type V = BuildParametersView;

    closed spec fn deep_view(&self) -> BuildParametersView {
        BuildParametersView {
            version_metadata: self.version_metadata.deep_view(),
            context: self.context.deep_view(),
            host: self.host.deep_view(),
            natives_dir_path: self.natives_dir_path@,
        }
    }
}

/// Default upper limit of the Java heap, in megabytes.
pub const DEFAULT_MAX_MEMORY_MB: u32 = 2048;

/// Default initial size of the Java heap, in megabytes.
pub const DEFAULT_MIN_MEMORY_MB: u32 = 1024;

/// The first version that brings its Java arguments as templates.
pub const MODERN_MAJOR: u64 = 1;

/// The first version that brings its Java arguments as templates.
pub const MODERN_MINOR: u64 = 13;

/// Whether the version `id` brings its Java arguments as templates: 1.13 and
/// every later version do, by the numbers of the identifier.
pub open spec fn uses_modern_schema(id: Seq<char>) -> bool {
    version_at_least(version_numbers(id), seq![MODERN_MAJOR as nat, MODERN_MINOR as nat])
}

/// The character that separates the entries of a classpath on a host: `;` on
/// Windows, `:` elsewhere.
pub open spec fn class_path_separator_char(os: OSType) -> char {
    if os == OSType::Windows {
        ';'
    } else {
        ':'
    }
}

/// What stands between the entries of a classpath on a host.
pub open spec fn class_path_separator(os: OSType) -> Seq<char> {
    seq![class_path_separator_char(os)]
}

/// The paths of `libraries` on the host, in the order of the list.
pub open spec fn jar_paths(libraries: Seq<LibrariesJarView>) -> Seq<Seq<char>> {
    libraries.map_values(|jar: LibrariesJarView| jar.path)
}

/// The classpath of a launch: the path of every resolved library, of either
/// kind and in the order of the list, and the client jar last.
pub open spec fn class_path(
    libraries: Seq<LibrariesJarView>,
    client_jar: Seq<char>,
    os: OSType,
) -> Seq<char> {
    joined(jar_paths(libraries).push(client_jar), class_path_separator(os))
}

/// The classpath that `p` launches with.
pub open spec fn class_path_of(p: BuildParametersView) -> Seq<char> {
    class_path(p.version_metadata.libraries, p.version_metadata.client_jar.path, p.host.os)
}

/// The memory limit that is used: the configured one, or the default where
/// zero is configured.
pub open spec fn memory_limit(configured: u32, default: u32) -> u32 {
    if configured != 0 {
        configured
    } else {
        default
    }
}

/// The two memory flags.
pub open spec fn memory_tokens(context: BuildContextView) -> Seq<Seq<char>> {
    seq![
        "-Xmx"@ + decimal(memory_limit(context.max_memory_mb, DEFAULT_MAX_MEMORY_MB) as nat) + "M"@,
        "-Xms"@ + decimal(memory_limit(context.min_memory_mb, DEFAULT_MIN_MEMORY_MB) as nat) + "M"@,
    ]
}

/// The value that a placeholder of the game arguments stands for, if it is a
/// known one.
pub open spec fn game_value(key: Seq<char>, p: BuildParametersView) -> Option<Seq<char>> {
    if key == "${auth_player_name}"@ {
        Some(p.context.player_name)
    } else if key == "${version_name}"@ {
        Some(p.version_metadata.id)
    } else if key == "${game_directory}"@ {
        Some(p.context.instance_dir)
    } else if key == "${assets_root}"@ {
        Some(p.context.assets_dir)
    } else if key == "${assets_index_name}"@ {
        Some(p.version_metadata.assets_index_id)
    } else if key == "${auth_uuid}"@ {
        Some(p.context.user_id)
    } else if key == "${auth_access_token}"@ {
        Some(p.context.access_token)
    } else if key == "${user_type}"@ {
        Some(p.context.user_type)
    } else if key == "${version_type}"@ {
        Some(p.context.version_type)
    } else if key == "${user_properties}"@ {
        Some("{}"@)
    } else {
        None
    }
}

/// The tokens of one game argument: its name and its value, or nothing at
/// all where the placeholder is not a known one.
pub open spec fn game_argument_tokens(
    argument: JavaArgumentView,
    p: BuildParametersView,
) -> Seq<Seq<char>> {
    match game_value(argument.key, p) {
        Some(value) => seq![argument.name, value],
        None => Seq::<Seq<char>>::empty(),
    }
}

/// The tokens of the game arguments, argument by argument.
pub open spec fn game_tokens(arguments: Seq<JavaArgumentView>, p: BuildParametersView) -> Seq<
    Seq<char>,
>
    decreases arguments.len(),
{
    if arguments.len() == 0 {
        Seq::<Seq<char>>::empty()
    } else {
        game_tokens(arguments.drop_last(), p) + game_argument_tokens(arguments.last(), p)
    }
}

/// The tokens of one templated Java argument: `-cp` and the classpath for
/// the classpath placeholder, one token `name=value` for the natives
/// directory, the launcher's name and the launcher's version, and nothing for
/// any other placeholder.
pub open spec fn jvm_argument_tokens(
    argument: JavaArgumentView,
    p: BuildParametersView,
) -> Seq<Seq<char>> {
    if argument.key == "${classpath}"@ {
        seq!["-cp"@, class_path_of(p)]
    } else if argument.key == "${natives_directory}"@ {
        seq![argument.name + "="@ + p.natives_dir_path]
    } else if argument.key == "${launcher_name}"@ {
        seq![argument.name + "="@ + p.context.launcher_brand]
    } else if argument.key == "${launcher_version}"@ {
        seq![argument.name + "="@ + p.context.launcher_version]
    } else {
        Seq::<Seq<char>>::empty()
    }
}

/// The tokens of the templated Java arguments, argument by argument.
pub open spec fn templated_jvm_tokens(
    arguments: Seq<JavaArgumentView>,
    p: BuildParametersView,
) -> Seq<Seq<char>>
    decreases arguments.len(),
{
    if arguments.len() == 0 {
        Seq::<Seq<char>>::empty()
    } else {
        templated_jvm_tokens(arguments.drop_last(), p) + jvm_argument_tokens(arguments.last(), p)
    }
}

/// The Java arguments of a version from 1.13 on: the required flags as the
/// metadata has them, then the templated arguments filled in.
pub open spec fn modern_jvm_tokens(p: BuildParametersView) -> Seq<Seq<char>> {
    p.version_metadata.java_parameters.jvm.required + templated_jvm_tokens(
        p.version_metadata.java_parameters.jvm.arguments,
        p,
    )
}

/// The system properties that name the host's operating system. On macOS
/// there are none.
pub open spec fn os_info_tokens(host: PlatformInfoView) -> Seq<Seq<char>> {
    match host.os {
        OSType::Windows => seq![
            "-Dos.name=Windows "@ + host.os_version,
            "-Dos.version="@ + host.os_version,
        ],
        OSType::MacOS => Seq::<Seq<char>>::empty(),
        OSType::Linux => seq!["-Dos.name=Linux"@, "-Dos.version="@ + host.os_version],
    }
}

/// The flag that makes the stack of a thread smaller, on 32-bit hosts only.
pub open spec fn stack_size_tokens(arch: OSArch) -> Seq<Seq<char>> {
    if arch == OSArch::X86 {
        seq!["-Xss1M"@]
    } else {
        Seq::<Seq<char>>::empty()
    }
}

/// The Java arguments of a version before 1.13.
pub open spec fn legacy_jvm_tokens(p: BuildParametersView) -> Seq<Seq<char>> {
    seq![
        "-XX:HeapDumpPath=MojangTricksIntelDriversForPerformance_javaw.exe_minecraft.exe.heapdump"@,
    ] + stack_size_tokens(p.host.arch) + os_info_tokens(p.host) + seq![
        "-Dminecraft.launcher.brand="@ + p.context.launcher_brand,
        "-Dminecraft.launcher.version="@ + p.context.launcher_version,
        "-Djava.library.path="@ + p.natives_dir_path,
        "-cp"@,
        class_path_of(p),
    ]
}

/// What follows the Java arguments in either schema: the memory flags, the
/// main class, and the game arguments.
pub open spec fn common_tokens(p: BuildParametersView) -> Seq<Seq<char>> {
    memory_tokens(p.context) + seq![p.version_metadata.main_class_name] + game_tokens(
        p.version_metadata.java_parameters.game.arguments,
        p,
    )
}

/// All command tokens of the launch, in order.
pub open spec fn start_tokens(p: BuildParametersView) -> Seq<Seq<char>> {
    if uses_modern_schema(p.version_metadata.id) {
        modern_jvm_tokens(p) + common_tokens(p)
    } else {
        legacy_jvm_tokens(p) + common_tokens(p)
    }
}

/// The text `prefix` followed by `value`.
fn prefixed(prefix: &str, value: &str) -> (out: String)
    ensures
        out@ == prefix@ + value@,
{
    let mut out = String::from_str(prefix);
    out.append(value);
    out
}

/// The token `name=value`.
fn assignment(name: &str, value: &str) -> (out: String)
    ensures
        out@ == name@ + "="@ + value@,
{
    let mut out = String::from_str(name);
    out.append("=");
    out.append(value);
    out
}

/// Moves the tokens of `more` to the end of `tokens`.
fn push_all(tokens: &mut Vec<String>, more: Vec<String>)
    ensures
        final(tokens).deep_view() == old(tokens).deep_view() + more.deep_view(),
{
    let ghost before = tokens.deep_view();
    let ghost added = more.deep_view();
    let mut more = more;
    tokens.append(&mut more);
    assert(tokens.deep_view() =~= before + added);
}

/// `c` is a digit of base sixteen, letters in lower case.
pub open spec fn is_lower_hex(c: char) -> bool {
    ('0' <= c && c <= '9') || ('a' <= c && c <= 'f')
}

/// `c` may stand at position `i` of an identifier written in five groups: a
/// hyphen after the eighth digit and after each of the next three groups of
/// four, a digit of base sixteen everywhere else.
pub open spec fn fits_uuid_text(i: int, c: char) -> bool {
    if i == 8 || i == 13 || i == 18 || i == 23 {
        c == '-'
    } else {
        is_lower_hex(c)
    }
}

/// `text` is a random identifier of 128 bits as it is written out: 36
/// characters in five groups, with the marks of a random identifier where
/// the third and the fourth group begin.
pub open spec fn is_uuid_text(text: Seq<char>) -> bool {
    &&& text.len() == 36
    &&& forall|i: int| 0 <= i < 36 ==> fits_uuid_text(i, #[trigger] text[i])
    &&& text[14] == '4'
    &&& (text[19] == '8' || text[19] == '9' || text[19] == 'a' || text[19] == 'b')
}

/// The directory for the native libraries of one launch: below `bin` in the
/// common directory, named by the first group of the launch's identifier.
pub open spec fn natives_dir(common_dir: Seq<char>, token: Seq<char>, os: OSType) -> Seq<char> {
    joined_path(joined_path(common_dir, "bin"@, os), pieces(token, '-').first(), os)
}

/// A fresh random identifier, written out. Calls `uuid::Uuid::new_v4` and
/// formats the result with its `Display`, which writes the hyphenated form
/// in lower case. Nothing is claimed of which identifier comes back, only of
/// its shape. `new_v4` panics where the operating system cannot give random
/// bytes.
#[verifier::external_body]
fn new_uuid_text() -> (text: String)
    ensures
        is_uuid_text(text@),
{
    uuid::Uuid::new_v4().to_string()
}

/// The directory for the native libraries of the launch that `token`
/// identifies.
pub fn natives_dir_for(common_dir: &str, token: &str, os: OSType) -> (out: String)
    ensures
        out@ == natives_dir(common_dir@, token@, os),
{
    let groups = split(token, '-');
    proof {
        crate::text::lemma_pieces_nonempty(token@, '-');
    }
    assert(groups.deep_view().first() == groups@.first()@);
    let bin = join_path(common_dir, "bin", os);
    join_path(bin.as_str(), groups[0].as_str(), os)
}

impl<'a> BuildParameters<'a> {
    /// A builder for one launch of the version that `version_metadata`
    /// describes, on `host`. Its directory for native libraries lies below
    /// `bin` in `common_dir` and is named by the first group of a fresh random
    /// identifier.
    pub fn new(
        version_metadata: &'a VersionMetadata,
        context: BuildContext,
        host: PlatformInfo,
        common_dir: &str,
    ) -> (out: BuildParameters<'a>)
        ensures
            exists|token: Seq<char>|
                is_uuid_text(token) && out.deep_view() == (BuildParametersView {
                    version_metadata: version_metadata.deep_view(),
                    context: context.deep_view(),
                    host: host.deep_view(),
                    natives_dir_path: #[trigger] natives_dir(common_dir@, token, host.os),
                }),
    {
        let token = new_uuid_text();
        let out = BuildParameters::with_token(
            version_metadata,
            context,
            host,
            common_dir,
            token.as_str(),
        );
        assert(is_uuid_text(token@));
        out
    }

    /// A builder for the launch that `token` identifies: as [`Self::new`],
    /// with the identifier given.
    pub fn with_token(
        version_metadata: &'a VersionMetadata,
        context: BuildContext,
        host: PlatformInfo,
        common_dir: &str,
        token: &str,
    ) -> (out: BuildParameters<'a>)
        ensures
            out.deep_view() == (BuildParametersView {
                version_metadata: version_metadata.deep_view(),
                context: context.deep_view(),
                host: host.deep_view(),
                natives_dir_path: natives_dir(common_dir@, token@, host.os),
            }),
    {
        let natives_dir_path = natives_dir_for(common_dir, token, host.os);
        BuildParameters { version_metadata, context, host, natives_dir_path }
    }

    /// The builder's directory for native libraries.
    pub fn natives_dir_path(&self) -> (out: &str)
        ensures
            out@ == self.deep_view().natives_dir_path,
    {
        self.natives_dir_path.as_str()
    }

    /// The identifier of the version to launch.
    fn minecraft_version(&self) -> (id: &str)
        ensures
            id@ == self.deep_view().version_metadata.id,
    {
        self.version_metadata.id.as_str()
    }

    /// The classpath of the launch.
    fn assemble_library_path(&self) -> (out: String)
        ensures
            out@ == class_path_of(self.deep_view()),
    {
        let metadata_libraries = &self.version_metadata.libraries;
        let mut libraries: Vec<String> = Vec::new();
        let mut i: usize = 0;
        assert(libraries.deep_view() =~= jar_paths(metadata_libraries.deep_view().take(0)));
        while i < metadata_libraries.len()
            invariant
                i <= metadata_libraries.len(),
                libraries.deep_view() == jar_paths(metadata_libraries.deep_view().take(i as int)),
            decreases metadata_libraries.len() - i,
        {
            let ghost before = libraries.deep_view();
            let path = metadata_libraries[i].path.clone();
            libraries.push(path);
            assert(libraries.deep_view() =~= before.push(path@));
            assert(metadata_libraries.deep_view()[i as int].path == path@);
            i = i + 1;
            assert(before.push(path@) =~= jar_paths(metadata_libraries.deep_view().take(i as int)));
        }
        assert(metadata_libraries.deep_view().take(i as int) =~= metadata_libraries.deep_view());
        let ghost paths = libraries.deep_view();
        libraries.push(self.version_metadata.client_jar.path.clone());
        assert(libraries.deep_view() =~= paths.push(self.version_metadata.client_jar.path@));
        proof {
            reveal_strlit(";");
            reveal_strlit(":");
            assert(";"@ =~= seq![';']);
            assert(":"@ =~= seq![':']);
        }
        if self.host.os == OSType::Windows {
            join(&libraries, ";")
        } else {
            join(&libraries, ":")
        }
    }

    /// The two memory flags.
    fn jvm_parameters(&self) -> (out: Vec<String>)
        ensures
            out.deep_view() == memory_tokens(self.deep_view().context),
    {
        let mut arguments: Vec<String> = Vec::new();
        let ram_size_max = if self.context.max_memory_mb != 0 {
            self.context.max_memory_mb
        } else {
            DEFAULT_MAX_MEMORY_MB
        };
        let ram_size_min = if self.context.min_memory_mb != 0 {
            self.context.min_memory_mb
        } else {
            DEFAULT_MIN_MEMORY_MB
        };
        let mut max_flag = prefixed("-Xmx", decimal_string(ram_size_max).as_str());
        max_flag.append("M");
        let mut min_flag = prefixed("-Xms", decimal_string(ram_size_min).as_str());
        min_flag.append("M");
        arguments.push(max_flag);
        arguments.push(min_flag);
        assert(arguments.deep_view() =~= memory_tokens(self.deep_view().context));
        arguments
    }

    /// The value that a placeholder of the game arguments stands for.
    fn game_argument_value(&self, key: &str) -> (out: Option<String>)
        ensures
            out.deep_view() == game_value(key@, self.deep_view()),
    {
        if same_text(key, "${auth_player_name}") {
            Some(self.context.player_name.clone())
        } else if same_text(key, "${version_name}") {
            Some(self.version_metadata.id.clone())
        } else if same_text(key, "${game_directory}") {
            Some(self.context.instance_dir.clone())
        } else if same_text(key, "${assets_root}") {
            Some(self.context.assets_dir.clone())
        } else if same_text(key, "${assets_index_name}") {
            Some(self.version_metadata.assets_index_id.clone())
        } else if same_text(key, "${auth_uuid}") {
            Some(self.context.user_id.clone())
        } else if same_text(key, "${auth_access_token}") {
            Some(self.context.access_token.clone())
        } else if same_text(key, "${user_type}") {
            Some(self.context.user_type.clone())
        } else if same_text(key, "${version_type}") {
            Some(self.context.version_type.clone())
        } else if same_text(key, "${user_properties}") {
            Some(String::from_str("{}"))
        } else {
            None
        }
    }

    /// The tokens of the game arguments.
    fn minecraft_arguments(&self) -> (out: Vec<String>)
        ensures
            out.deep_view() == game_tokens(
                self.deep_view().version_metadata.java_parameters.game.arguments,
                self.deep_view(),
            ),
    {
        let games = &self.version_metadata.java_parameters.game.arguments;
        let mut game_arguments: Vec<String> = Vec::new();
        let mut i: usize = 0;
        assert(games.deep_view().take(0) =~= Seq::<JavaArgumentView>::empty());
        assert(game_arguments.deep_view() =~= Seq::<Seq<char>>::empty());
        while i < games.len()
            invariant
                i <= games.len(),
                game_arguments.deep_view() == game_tokens(
                    games.deep_view().take(i as int),
                    self.deep_view(),
                ),
            decreases games.len() - i,
        {
            let game = &games[i];
            let ghost before = game_arguments.deep_view();
            let ghost next = games.deep_view().take(i + 1);
            assert(next.drop_last() =~= games.deep_view().take(i as int));
            assert(next.last() == game.deep_view());
            match self.game_argument_value(game.key.as_str()) {
                Some(value) => {
                    game_arguments.push(game.name.clone());
                    game_arguments.push(value);
                    assert(game_arguments.deep_view() =~= before + seq![game.name@, value@]);
                },
                None => {
                    assert(before + Seq::<Seq<char>>::empty() =~= before);
                },
            }
            i = i + 1;
        }
        assert(games.deep_view().take(games.len() as int) =~= games.deep_view());
        game_arguments
    }

    /// The tokens of one templated Java argument.
    fn jvm_argument(&self, argument: &JavaArgument) -> (out: Vec<String>)
        ensures
            out.deep_view() == jvm_argument_tokens(argument.deep_view(), self.deep_view()),
    {
        let mut out: Vec<String> = Vec::new();
        let key = argument.key.as_str();
        let jvm_name = argument.name.as_str();
        if same_text(key, "${classpath}") {
            out.push(String::from_str("-cp"));
            out.push(self.assemble_library_path());
        } else if same_text(key, "${natives_directory}") {
            out.push(assignment(jvm_name, self.natives_dir_path.as_str()));
        } else if same_text(key, "${launcher_name}") {
            out.push(assignment(jvm_name, self.context.launcher_brand.as_str()));
        } else if same_text(key, "${launcher_version}") {
            out.push(assignment(jvm_name, self.context.launcher_version.as_str()));
        }
        assert(out.deep_view() =~= jvm_argument_tokens(argument.deep_view(), self.deep_view()));
        out
    }

    /// The Java arguments of a version from 1.13 on.
    fn get_jvm_arguments_for_113_and_above(&self) -> (out: Vec<String>)
        ensures
            out.deep_view() == modern_jvm_tokens(self.deep_view()),
    {
        let jvms = &self.version_metadata.java_parameters.jvm;
        let mut jvm_arguments: Vec<String> = Vec::new();
        let mut i: usize = 0;
        while i < jvms.required.len()
            invariant
                i <= jvms.required.len(),
                jvm_arguments.deep_view() == jvms.required.deep_view().take(i as int),
            decreases jvms.required.len() - i,
        {
            let ghost before = jvm_arguments.deep_view();
            let required = jvms.required[i].clone();
            jvm_arguments.push(required);
            assert(jvm_arguments.deep_view() =~= before.push(required@));
            assert(jvms.required.deep_view()[i as int] == required@);
            i = i + 1;
            assert(before.push(required@) =~= jvms.required.deep_view().take(i as int));
        }
        assert(jvms.required.deep_view().take(i as int) =~= jvms.required.deep_view());
        let mut k: usize = 0;
        assert(jvms.arguments.deep_view().take(0) =~= Seq::<JavaArgumentView>::empty());
        assert(jvm_arguments.deep_view() + Seq::<Seq<char>>::empty() =~= jvm_arguments.deep_view());
        while k < jvms.arguments.len()
            invariant
                k <= jvms.arguments.len(),
                jvm_arguments.deep_view() == jvms.required.deep_view() + templated_jvm_tokens(
                    jvms.arguments.deep_view().take(k as int),
                    self.deep_view(),
                ),
            decreases jvms.arguments.len() - k,
        {
            let jvm = &jvms.arguments[k];
            let ghost done = templated_jvm_tokens(
                jvms.arguments.deep_view().take(k as int),
                self.deep_view(),
            );
            let ghost next = jvms.arguments.deep_view().take(k + 1);
            assert(next.drop_last() =~= jvms.arguments.deep_view().take(k as int));
            assert(next.last() == jvm.deep_view());
            let more = self.jvm_argument(jvm);
            assert((jvms.required.deep_view() + done) + more.deep_view() =~= jvms.required.deep_view()
                + (done + more.deep_view()));
            push_all(&mut jvm_arguments, more);
            k = k + 1;
        }
        assert(jvms.arguments.deep_view().take(k as int) =~= jvms.arguments.deep_view());
        jvm_arguments
    }

    /// The Java arguments of a version before 1.13.
    fn get_jvm_arguments_for_112_and_later(&self) -> (out: Vec<String>)
        ensures
            out.deep_view() == legacy_jvm_tokens(self.deep_view()),
    {
        let mut jvm_arguments: Vec<String> = Vec::new();
        jvm_arguments.push(
            String::from_str(
                "-XX:HeapDumpPath=MojangTricksIntelDriversForPerformance_javaw.exe_minecraft.exe.heapdump",
            ),
        );
        if self.host.arch == OSArch::X86 {
            jvm_arguments.push(String::from_str("-Xss1M"));
        }
        let os_version = self.host.os_version.as_str();
        match self.host.os {
            OSType::Windows => {
                jvm_arguments.push(prefixed("-Dos.name=Windows ", os_version));
                jvm_arguments.push(prefixed("-Dos.version=", os_version));
            },
            OSType::MacOS => {},
            OSType::Linux => {
                jvm_arguments.push(String::from_str("-Dos.name=Linux"));
                jvm_arguments.push(prefixed("-Dos.version=", os_version));
            },
        }
        jvm_arguments.push(
            prefixed("-Dminecraft.launcher.brand=", self.context.launcher_brand.as_str()),
        );
        jvm_arguments.push(
            prefixed("-Dminecraft.launcher.version=", self.context.launcher_version.as_str()),
        );
        jvm_arguments.push(prefixed("-Djava.library.path=", self.natives_dir_path.as_str()));
        jvm_arguments.push(String::from_str("-cp"));
        jvm_arguments.push(self.assemble_library_path());
        assert(jvm_arguments.deep_view() =~= legacy_jvm_tokens(self.deep_view()));
        jvm_arguments
    }

    /// Appends what follows the Java arguments in either schema.
    fn push_common(&self, parameters: &mut Vec<String>)
        ensures
            final(parameters).deep_view() == old(parameters).deep_view() + common_tokens(
                self.deep_view(),
            ),
    {
        let ghost before = parameters.deep_view();
        let ghost p = self.deep_view();
        push_all(parameters, self.jvm_parameters());
        parameters.push(self.version_metadata.main_class_name.clone());
        assert(parameters.deep_view() =~= before + memory_tokens(p.context) + seq![
            p.version_metadata.main_class_name,
        ]);
        push_all(parameters, self.minecraft_arguments());
        assert(parameters.deep_view() =~= before + common_tokens(p));
    }

    /// All command tokens for a version from 1.13 on.
    fn build_113above(&self) -> (out: Vec<String>)
        ensures
            out.deep_view() == modern_jvm_tokens(self.deep_view()) + common_tokens(
                self.deep_view(),
            ),
    {
        let mut parameters: Vec<String> = self.get_jvm_arguments_for_113_and_above();
        self.push_common(&mut parameters);
        parameters
    }

    /// All command tokens for a version before 1.13.
    fn build_112later(&self) -> (out: Vec<String>)
        ensures
            out.deep_view() == legacy_jvm_tokens(self.deep_view()) + common_tokens(
                self.deep_view(),
            ),
    {
        let mut parameters: Vec<String> = self.get_jvm_arguments_for_112_and_later();
        self.push_common(&mut parameters);
        parameters
    }

    /// The start parameters of the launch: the builder's directory for native
    /// libraries, and the command tokens in the schema of the version.
    pub fn get_java_start_parameters(&self) -> (out: JavaStartParameters)
        ensures
            out.deep_view() == (JavaStartParametersView {
                natives_dir_path: self.deep_view().natives_dir_path,
                parameters: start_tokens(self.deep_view()),
            }),
    {
        let parameters = if is_mc_version(MODERN_MAJOR, MODERN_MINOR, self.minecraft_version()) {
            self.build_113above()
        } else {
            self.build_112later()
        };
        JavaStartParameters { natives_dir_path: self.natives_dir_path.clone(), parameters }
    }
}

/// The first group of a written-out random identifier is its first eight
/// characters: the directory of a launch is named by eight digits of base
/// sixteen.
pub proof fn lemma_natives_dir_name(common_dir: Seq<char>, token: Seq<char>, os: OSType)
    requires
        is_uuid_text(token),
    ensures
        natives_dir(common_dir, token, os) == joined_path(
            joined_path(common_dir, "bin"@, os),
            token.subrange(0, 8),
            os,
        ),
        forall|i: int| 0 <= i < 8 ==> is_lower_hex(#[trigger] token.subrange(0, 8)[i]),
{
    assert forall|j: int| 0 <= j < 8 implies token[j] != '-' by {
        assert(fits_uuid_text(j, token[j]));
    }
    assert(token[8] == '-') by {
        assert(fits_uuid_text(8, token[8]));
    }
    crate::text::lemma_first_piece(token, '-', 8);
    assert forall|i: int| 0 <= i < 8 implies is_lower_hex(#[trigger] token.subrange(0, 8)[i]) by {
        assert(fits_uuid_text(i, token[i]));
    }
}

/// The classpath ends with the client jar on every host: it is the client
/// jar alone where there is no library, and else the libraries' paths, a
/// separator and the client jar. On Windows the separator is `;`, elsewhere
/// `:`.
pub proof fn lemma_class_path_shape(
    libraries: Seq<LibrariesJarView>,
    client_jar: Seq<char>,
    os: OSType,
)
    ensures
        crate::text::ends_with(class_path(libraries, client_jar, os), client_jar),
        libraries.len() == 0 ==> class_path(libraries, client_jar, os) == client_jar,
        libraries.len() > 0 ==> class_path(libraries, client_jar, os) == joined(
            jar_paths(libraries),
            class_path_separator(os),
        ) + class_path_separator(os) + client_jar,
        os == OSType::Windows ==> class_path_separator(os) == seq![';'],
        os != OSType::Windows ==> class_path_separator(os) == seq![':'],
{
    let paths = jar_paths(libraries);
    let all = paths.push(client_jar);
    let whole = class_path(libraries, client_jar, os);
    assert(all.drop_last() =~= paths);
    assert(all.last() == client_jar);
    if libraries.len() == 0 {
        assert(all[0] == client_jar);
        assert(whole.subrange(0, whole.len() as int) =~= whole);
    } else {
        assert(whole.subrange(whole.len() - client_jar.len(), whole.len() as int) =~= client_jar);
    }
}

/// The tokens of two lists of game arguments, one after the other, are the
/// tokens of the lists joined: each argument gives its tokens by itself.
pub proof fn lemma_game_tokens_concat(
    first: Seq<JavaArgumentView>,
    second: Seq<JavaArgumentView>,
    p: BuildParametersView,
)
    ensures
        game_tokens(first + second, p) == game_tokens(first, p) + game_tokens(second, p),
    decreases second.len(),
{
    if second.len() == 0 {
        assert(first + second =~= first);
        assert(game_tokens(first, p) + game_tokens(second, p) =~= game_tokens(first, p));
    } else {
        let whole = first + second;
        assert(whole.drop_last() =~= first + second.drop_last());
        assert(whole.last() == second.last());
        lemma_game_tokens_concat(first, second.drop_last(), p);
        assert((game_tokens(first, p) + game_tokens(second.drop_last(), p)) + game_argument_tokens(
            second.last(),
            p,
        ) =~= game_tokens(first, p) + (game_tokens(second.drop_last(), p) + game_argument_tokens(
            second.last(),
            p,
        )));
    }
}

/// A game argument whose placeholder is not a known one gives no token: the
/// tokens are those of the list without it.
pub proof fn lemma_unknown_game_key_gives_nothing(
    arguments: Seq<JavaArgumentView>,
    i: int,
    p: BuildParametersView,
)
    requires
        0 <= i < arguments.len(),
        game_value(arguments[i].key, p) is None,
    ensures
        game_argument_tokens(arguments[i], p).len() == 0,
        game_tokens(arguments, p) == game_tokens(arguments.remove(i), p),
{
    let head = arguments.take(i);
    let tail = arguments.skip(i + 1);
    let one = seq![arguments[i]];
    assert(arguments =~= head + one + tail);
    assert(arguments.remove(i) =~= head + tail);
    lemma_game_tokens_concat(head + one, tail, p);
    lemma_game_tokens_concat(head, one, p);
    lemma_game_tokens_concat(head, tail, p);
    assert(one.drop_last().len() == 0);
    assert(game_tokens(one.drop_last(), p).len() == 0);
    assert(game_tokens(one, p).len() == 0);
    assert(game_tokens(head, p) + game_tokens(one, p) =~= game_tokens(head, p));
}

/// The game arguments give their tokens in pairs, a name and its value: no
/// name stands without a value.
pub proof fn lemma_game_tokens_in_pairs(arguments: Seq<JavaArgumentView>, p: BuildParametersView)
    ensures
        game_tokens(arguments, p).len() % 2 == 0,
        game_tokens(arguments, p).len() <= 2 * arguments.len(),
    decreases arguments.len(),
{
    if arguments.len() > 0 {
        lemma_game_tokens_in_pairs(arguments.drop_last(), p);
    }
}

/// The tokens of two lists of templated Java arguments, one after the other,
/// are the tokens of the lists joined.
pub proof fn lemma_templated_jvm_tokens_concat(
    first: Seq<JavaArgumentView>,
    second: Seq<JavaArgumentView>,
    p: BuildParametersView,
)
    ensures
        templated_jvm_tokens(first + second, p) == templated_jvm_tokens(first, p)
            + templated_jvm_tokens(second, p),
    decreases second.len(),
{
    if second.len() == 0 {
        assert(first + second =~= first);
        assert(templated_jvm_tokens(first, p) + templated_jvm_tokens(second, p)
            =~= templated_jvm_tokens(first, p));
    } else {
        let whole = first + second;
        assert(whole.drop_last() =~= first + second.drop_last());
        assert(whole.last() == second.last());
        lemma_templated_jvm_tokens_concat(first, second.drop_last(), p);
        assert((templated_jvm_tokens(first, p) + templated_jvm_tokens(second.drop_last(), p))
            + jvm_argument_tokens(second.last(), p) =~= templated_jvm_tokens(first, p) + (
        templated_jvm_tokens(second.drop_last(), p) + jvm_argument_tokens(second.last(), p)));
    }
}

/// A templated Java argument whose placeholder is none of the four known
/// ones gives no token: the tokens are those of the list without it.
pub proof fn lemma_unknown_jvm_key_gives_nothing(
    arguments: Seq<JavaArgumentView>,
    i: int,
    p: BuildParametersView,
)
    requires
        0 <= i < arguments.len(),
        arguments[i].key != "${classpath}"@,
        arguments[i].key != "${natives_directory}"@,
        arguments[i].key != "${launcher_name}"@,
        arguments[i].key != "${launcher_version}"@,
    ensures
        templated_jvm_tokens(arguments, p) == templated_jvm_tokens(arguments.remove(i), p),
{
    let head = arguments.take(i);
    let tail = arguments.skip(i + 1);
    let one = seq![arguments[i]];
    assert(arguments =~= head + one + tail);
    assert(arguments.remove(i) =~= head + tail);
    lemma_templated_jvm_tokens_concat(head + one, tail, p);
    lemma_templated_jvm_tokens_concat(head, one, p);
    lemma_templated_jvm_tokens_concat(head, tail, p);
    assert(one.drop_last().len() == 0);
    assert(templated_jvm_tokens(one.drop_last(), p).len() == 0);
    assert(templated_jvm_tokens(one, p).len() == 0);
    assert(templated_jvm_tokens(head, p) + templated_jvm_tokens(one, p) =~= templated_jvm_tokens(
        head,
        p,
    ));
}

/// On macOS the Java arguments of a version before 1.13 hold no system
/// property that names the operating system: the flags go from the stack
/// size straight on to the launcher's name, and none of them, up to `-cp`,
/// begins with `-Dos.`.
pub proof fn lemma_legacy_macos_names_no_os(p: BuildParametersView)
    requires
        p.host.os == OSType::MacOS,
    ensures
        os_info_tokens(p.host).len() == 0,
        legacy_jvm_tokens(p) == seq![
            "-XX:HeapDumpPath=MojangTricksIntelDriversForPerformance_javaw.exe_minecraft.exe.heapdump"@,
        ] + stack_size_tokens(p.host.arch) + seq![
            "-Dminecraft.launcher.brand="@ + p.context.launcher_brand,
            "-Dminecraft.launcher.version="@ + p.context.launcher_version,
            "-Djava.library.path="@ + p.natives_dir_path,
            "-cp"@,
            class_path_of(p),
        ],
        forall|i: int|
            0 <= i < legacy_jvm_tokens(p).len() - 1 ==> !crate::text::starts_with(
                #[trigger] legacy_jvm_tokens(p)[i],
                "-Dos."@,
            ),
{
    let heap =
        "-XX:HeapDumpPath=MojangTricksIntelDriversForPerformance_javaw.exe_minecraft.exe.heapdump"@;
    let tail = seq![
        "-Dminecraft.launcher.brand="@ + p.context.launcher_brand,
        "-Dminecraft.launcher.version="@ + p.context.launcher_version,
        "-Djava.library.path="@ + p.natives_dir_path,
        "-cp"@,
        class_path_of(p),
    ];
    let tokens = legacy_jvm_tokens(p);
    assert(tokens =~= seq![heap] + stack_size_tokens(p.host.arch) + tail);
    reveal_strlit(
        "-XX:HeapDumpPath=MojangTricksIntelDriversForPerformance_javaw.exe_minecraft.exe.heapdump",
    );
    reveal_strlit("-Xss1M");
    reveal_strlit("-Dminecraft.launcher.brand=");
    reveal_strlit("-Dminecraft.launcher.version=");
    reveal_strlit("-Djava.library.path=");
    reveal_strlit("-cp");
    reveal_strlit("-Dos.");
    let probe = "-Dos."@;
    assert(probe.len() == 5);
    assert(probe[1] == 'D' && probe[2] == 'o');
    assert forall|i: int| 0 <= i < tokens.len() - 1 implies !crate::text::starts_with(
        #[trigger] tokens[i],
        probe,
    ) by {
        let token = tokens[i];
        if crate::text::starts_with(token, probe) {
            assert(token.subrange(0, 5)[1] == token[1]);
            assert(token.subrange(0, 5)[2] == token[2]);
            assert(token[1] == 'D');
            assert(token[2] == 'o');
            if i == 0 {
                assert(token == heap);
                assert(heap[1] == 'X');
            } else if p.host.arch == OSArch::X86 {
                if i == 1 {
                    assert(token == "-Xss1M"@);
                    assert("-Xss1M"@[1] == 'X');
                } else if i == 2 {
                    assert(token[2] == "-Dminecraft.launcher.brand="@[2]);
                } else if i == 3 {
                    assert(token[2] == "-Dminecraft.launcher.version="@[2]);
                } else if i == 4 {
                    assert(token[2] == "-Djava.library.path="@[2]);
                } else {
                    assert(token == "-cp"@);
                    assert("-cp"@[1] == 'c');
                }
            } else {
                if i == 1 {
                    assert(token[2] == "-Dminecraft.launcher.brand="@[2]);
                } else if i == 2 {
                    assert(token[2] == "-Dminecraft.launcher.version="@[2]);
                } else if i == 3 {
                    assert(token[2] == "-Djava.library.path="@[2]);
                } else {
                    assert(token == "-cp"@);
                    assert("-cp"@[1] == 'c');
                }
            }
        }
    }
}

/// Where no path holds the separator of the host, the entries of the
/// classpath are the paths of the libraries, in their order, and then the
/// client jar.
pub proof fn lemma_class_path_entries(
    libraries: Seq<LibrariesJarView>,
    client_jar: Seq<char>,
    os: OSType,
)
    requires
        forall|j: int| 0 <= j < client_jar.len() ==> client_jar[j] != class_path_separator_char(os),
        forall|k: int, j: int|
            0 <= k < libraries.len() && 0 <= j < libraries[k].path.len() ==> libraries[k].path[j]
                != class_path_separator_char(os),
    ensures
        pieces(class_path(libraries, client_jar, os), class_path_separator_char(os)) == jar_paths(
            libraries,
        ).push(client_jar),
{
    lemma_class_path_shape(libraries, client_jar, os);
    let sep = class_path_separator_char(os);
    let all = jar_paths(libraries).push(client_jar);
    assert forall|k: int, j: int| 0 <= k < all.len() && 0 <= j < all[k].len() implies all[k][j]
        != sep by {
        if k < libraries.len() {
            assert(all[k] == libraries[k].path);
        }
    }
    crate::text::lemma_pieces_of_joined(all, sep);
}

/// Which schema a version gets is decided by the first two numbers of its
/// identifier: the modern one from 1.13 on.
pub proof fn lemma_schema_by_numbers(id: Seq<char>)
    ensures
        uses_modern_schema(id) <==> (crate::utils::number_at(version_numbers(id), 0) > 1 || (
        crate::utils::number_at(version_numbers(id), 0) == 1 && crate::utils::number_at(
            version_numbers(id),
            1,
        ) >= 13)),
{
    crate::utils::lemma_at_least_two_numbers(version_numbers(id), 1, 13);
}

} // verus!

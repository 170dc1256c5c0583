//! The parts of a version's metadata that library resolution and parameter
//! assembly read, each with its view as plain mathematical data.
use crate::minecraft::libraries::{LibrariesJar, LibrariesJarView};
use vstd::prelude::*;

verus! {

/// One downloadable file of a library.
#[derive(Clone, Debug)]
pub struct LibrariesFile {
    /// Path of the file below the libraries directory, parts separated by `/`.
    pub path: String,
    pub sha1: String,
    pub size: u32,
    pub url: String,
}

pub struct LibrariesFileView {
    pub path: Seq<char>,
    pub sha1: Seq<char>,
    pub size: u32,
    pub url: Seq<char>,
}

impl DeepView for LibrariesFile {
    type V = LibrariesFileView;

    open spec fn deep_view(&self) -> LibrariesFileView {
        LibrariesFileView {
            path: self.path@,
            sha1: self.sha1@,
            size: self.size,
            url: self.url@,
        }
    }
}

/// The native files of a library, one for each operating system that has
/// one. Metadata spells the entry for macOS in two ways.
#[derive(Clone, Debug)]
pub struct LibrariesClassifiers {
    pub natives_linux: Option<LibrariesFile>,
    pub natives_macos: Option<LibrariesFile>,
    pub natives_osx: Option<LibrariesFile>,
    pub natives_windows: Option<LibrariesFile>,
}

pub struct LibrariesClassifiersView {
    pub natives_linux: Option<LibrariesFileView>,
    pub natives_macos: Option<LibrariesFileView>,
    pub natives_osx: Option<LibrariesFileView>,
    pub natives_windows: Option<LibrariesFileView>,
}

impl DeepView for LibrariesClassifiers {
    type V = LibrariesClassifiersView;

    open spec fn deep_view(&self) -> LibrariesClassifiersView {
        LibrariesClassifiersView {
            natives_linux: self.natives_linux.deep_view(),
            natives_macos: self.natives_macos.deep_view(),
            natives_osx: self.natives_osx.deep_view(),
            natives_windows: self.natives_windows.deep_view(),
        }
    }
}

/// What can be downloaded for a library: one file for every host, native
/// files by operating system, or both.
#[derive(Clone, Debug)]
pub struct LibrariesDownloads {
    pub artifact: Option<LibrariesFile>,
    pub classifiers: Option<LibrariesClassifiers>,
}

pub struct LibrariesDownloadsView {
    pub artifact: Option<LibrariesFileView>,
    pub classifiers: Option<LibrariesClassifiersView>,
}

impl DeepView for LibrariesDownloads {
    type V = LibrariesDownloadsView;

    open spec fn deep_view(&self) -> LibrariesDownloadsView {
        LibrariesDownloadsView {
            artifact: self.artifact.deep_view(),
            classifiers: self.classifiers.deep_view(),
        }
    }
}

/// The condition of a rule on the host.
#[derive(Clone, Debug)]
pub struct LibrariesRulesOS {
    pub name: Option<String>,
    pub arch: Option<String>,
}

pub struct LibrariesRulesOSView {
    pub name: Option<Seq<char>>,
    pub arch: Option<Seq<char>>,
}

impl DeepView for LibrariesRulesOS {
    type V = LibrariesRulesOSView;

    open spec fn deep_view(&self) -> LibrariesRulesOSView {
        LibrariesRulesOSView { name: self.name.deep_view(), arch: self.arch.deep_view() }
    }
}

/// One rule of a library: an action, `allow` or `disallow`, and the condition
/// under which it speaks.
#[derive(Clone, Debug)]
pub struct LibrariesRules {
    pub action: String,
    pub os: Option<LibrariesRulesOS>,
}

pub struct LibrariesRulesView {
    pub action: Seq<char>,
    pub os: Option<LibrariesRulesOSView>,
}

impl DeepView for LibrariesRules {
    type V = LibrariesRulesView;

    open spec fn deep_view(&self) -> LibrariesRulesView {
        LibrariesRulesView { action: self.action@, os: self.os.deep_view() }
    }
}

/// One library that a version asks for.
#[derive(Clone, Debug)]
pub struct Libraries {
    pub name: String,
    pub rules: Option<Vec<LibrariesRules>>,
    pub downloads: LibrariesDownloads,
}

pub struct LibrariesView {
    pub name: Seq<char>,
    pub rules: Option<Seq<LibrariesRulesView>>,
    pub downloads: LibrariesDownloadsView,
}

impl DeepView for Libraries {
    type V = LibrariesView;

    open spec fn deep_view(&self) -> LibrariesView {
        LibrariesView {
            name: self.name@,
            rules: self.rules.deep_view(),
            downloads: self.downloads.deep_view(),
        }
    }
}

/// An argument of the metadata that is filled in at launch: the flag's name
/// and the placeholder that says which value belongs to it.
#[derive(Clone, Debug)]
pub struct JavaArgument {
    pub name: String,
    pub key: String,
}

pub struct JavaArgumentView {
    pub name: Seq<char>,
    pub key: Seq<char>,
}

impl DeepView for JavaArgument {
    type V = JavaArgumentView;

    open spec fn deep_view(&self) -> JavaArgumentView {
        JavaArgumentView { name: self.name@, key: self.key@ }
    }
}

/// The arguments for the Java runtime that newer metadata brings: flags that
/// are passed on as they are, and arguments to fill in.
#[derive(Clone, Debug)]
pub struct JvmParameters {
    pub required: Vec<String>,
    pub arguments: Vec<JavaArgument>,
}

pub struct JvmParametersView {
    pub required: Seq<Seq<char>>,
    pub arguments: Seq<JavaArgumentView>,
}

impl DeepView for JvmParameters {
    type V = JvmParametersView;

    open spec fn deep_view(&self) -> JvmParametersView {
        JvmParametersView {
            required: self.required.deep_view(),
            arguments: self.arguments.deep_view(),
        }
    }
}

/// The arguments for the game itself.
#[derive(Clone, Debug)]
pub struct GameParameters {
    pub arguments: Vec<JavaArgument>,
}

pub struct GameParametersView {
    pub arguments: Seq<JavaArgumentView>,
}

impl DeepView for GameParameters {
    type V = GameParametersView;

    open spec fn deep_view(&self) -> GameParametersView {
        GameParametersView { arguments: self.arguments.deep_view() }
    }
}

/// Both argument blocks of a version.
#[derive(Clone, Debug)]
pub struct JavaParameters {
    pub jvm: JvmParameters,
    pub game: GameParameters,
}

pub struct JavaParametersView {
    pub jvm: JvmParametersView,
    pub game: GameParametersView,
}

impl DeepView for JavaParameters {
    type V = JavaParametersView;

    open spec fn deep_view(&self) -> JavaParametersView {
        JavaParametersView { jvm: self.jvm.deep_view(), game: self.game.deep_view() }
    }
}

/// The client's own jar.
#[derive(Clone, Debug)]
pub struct ClientJar {
    /// Absolute path of the jar.
    pub path: String,
}

pub struct ClientJarView {
    pub path: Seq<char>,
}

impl DeepView for ClientJar {
    type V = ClientJarView;

    open spec fn deep_view(&self) -> ClientJarView {
        ClientJarView { path: self.path@ }
    }
}

/// What a launch reads of a version: its identifier, its entry point, its
/// argument blocks, the libraries resolved for the host, and the client jar.
#[derive(Clone, Debug)]
pub struct VersionMetadata {
    pub id: String,
    pub main_class_name: String,
    pub assets_index_id: String,
    pub java_parameters: JavaParameters,
    pub libraries: Vec<LibrariesJar>,
    pub client_jar: ClientJar,
}

pub struct VersionMetadataView {
    pub id: Seq<char>,
    pub main_class_name: Seq<char>,
    pub assets_index_id: Seq<char>,
    pub java_parameters: JavaParametersView,
    pub libraries: Seq<LibrariesJarView>,
    pub client_jar: ClientJarView,
}

impl DeepView for VersionMetadata {
    type V = VersionMetadataView;

    open spec fn deep_view(&self) -> VersionMetadataView {
        VersionMetadataView {
            id: self.id@,
            main_class_name: self.main_class_name@,
            assets_index_id: self.assets_index_id@,
            java_parameters: self.java_parameters.deep_view(),
            libraries: self.libraries.deep_view(),
            client_jar: self.client_jar.deep_view(),
        }
    }
}

} // verus!

//! The editor extension: how the language server is found, installed and
//! started.

use serde_json::Value;
use vstd::prelude::*;

use crate::environment::{is_stable_sort, sort_by_key, unordered_env, upsert_all};
use crate::json::{compact_text, json_text};
use crate::pairs::{pair_views, upsert, upserted, Pair};
use crate::text::{
    blank, has_prefix, joined, joined3, same_text, string_view, trimmed_option, views,
};

verus! {

pub const LANGUAGE_SERVER_ID: &'static str = "42-tools-lsp";
pub const SERVER_BINARY_NAME: &'static str = "forty-two-tools-lsp";
pub const GITHUB_REPOSITORY: &'static str = "EdizKeskin/42-tools-zed";
pub const SETTINGS_ENV_VAR: &'static str = "FORTY_TWO_TOOLS_SETTINGS_JSON";
pub const EXTENSION_VERSION: &'static str = "0.1.4";
pub const WINDOWS_UNSUPPORTED_MESSAGE: &'static str =
    "42 Tools currently supports macOS and Linux only.";

/// The extension.
pub struct FortyTwoToolsExtension;

// ---------------------------------------------------------------------------
// Settings of the extension
// ---------------------------------------------------------------------------

/// How a program is to be started.
#[derive(Debug, Clone, PartialEq, Eq)]
pub struct CommandSettings {
    pub path: Option<String>,
    pub arguments: Option<Vec<String>>,
    /// Variables with different names.
    pub env: Option<Vec<(String, String)>>,
}

/// The settings of a language server.
#[derive(Debug, Clone, PartialEq, Eq)]
pub struct LspSettings {
    pub binary: Option<CommandSettings>,
    pub initialization_options: Option<Value>,
    pub settings: Option<Value>,
}

/// A program with its arguments and its environment.
#[derive(Debug, Clone, PartialEq, Eq)]
pub struct ServerCommand {
    pub command: String,
    pub args: Vec<String>,
    pub env: Vec<(String, String)>,
}

/// The program that the settings name, unless it is blank.
pub open spec fn configured_path(settings: LspSettings) -> Option<Seq<char>> {
    match settings.binary {
        Some(binary) => match binary.path {
            Some(path) => if blank(path@) {
                None
            } else {
                Some(path@)
            },
            None => None,
        },
        None => None,
    }
}

/// The arguments that the settings give.
pub open spec fn configured_arguments(settings: LspSettings) -> Seq<Seq<char>> {
    match settings.binary {
        Some(binary) => match binary.arguments {
            Some(arguments) => views(arguments@),
            None => Seq::empty(),
        },
        None => Seq::empty(),
    }
}

/// The variables that the settings give.
pub open spec fn configured_variables(settings: LspSettings) -> Seq<Pair> {
    match settings.binary {
        Some(binary) => match binary.env {
            Some(variables) => pair_views(variables@),
            None => Seq::empty(),
        },
        None => Seq::empty(),
    }
}

/// The text of the settings that the server is started with.
pub open spec fn settings_text(settings: LspSettings) -> Option<Seq<char>> {
    match settings.settings {
        Some(value) => Some(json_text(value)),
        None => None,
    }
}

// ---------------------------------------------------------------------------
// Installed files
// ---------------------------------------------------------------------------

/// Where a version of the server is installed.
#[derive(Debug, Clone, PartialEq, Eq)]
pub struct InstalledBinaries {
    pub version_dir: String,
    pub server_path: String,
}

/// The tag of the release that belongs to this version.
pub open spec fn release_tag_text() -> Seq<char> {
    "v"@ + EXTENSION_VERSION@
}

/// The path of the server of this version.
pub open spec fn server_path_text() -> Seq<char> {
    release_tag_text() + "/"@ + SERVER_BINARY_NAME@
}

impl InstalledBinaries {
    /// Where this version is installed.
    pub open spec fn is_current(self) -> bool {
        self.version_dir@ == release_tag_text() && self.server_path@ == server_path_text()
    }
}

// ---------------------------------------------------------------------------
// Platforms and releases
// ---------------------------------------------------------------------------

/// An operating system.
#[derive(Debug, Clone, Copy, PartialEq, Eq, Structural)]
pub enum Os {
    Mac,
    Linux,
    Windows,
}

/// A kind of processor.
#[derive(Debug, Clone, Copy, PartialEq, Eq, Structural)]
pub enum Architecture {
    Aarch64,
    X86,
    X8664,
}

/// What a machine is.
#[derive(Debug, Clone, Copy, PartialEq, Eq, Structural)]
pub struct Platform {
    pub os: Os,
    pub architecture: Architecture,
}

/// A file of a release.
#[derive(Debug, Clone, PartialEq, Eq)]
pub struct GithubReleaseAsset {
    pub name: String,
    pub download_url: String,
}

/// A release with its files.
#[derive(Debug, Clone, PartialEq, Eq)]
pub struct GithubRelease {
    pub version: String,
    pub assets: Vec<GithubReleaseAsset>,
}

/// How messages name an operating system.
pub open spec fn os_text(os: Os) -> Seq<char> {
    match os {
        Os::Mac => "Os::Mac"@,
        Os::Linux => "Os::Linux"@,
        Os::Windows => "Os::Windows"@,
    }
}

/// How messages name a kind of processor.
pub open spec fn architecture_text(architecture: Architecture) -> Seq<char> {
    match architecture {
        Architecture::Aarch64 => "Architecture::Aarch64"@,
        Architecture::X86 => "Architecture::X86"@,
        Architecture::X8664 => "Architecture::X8664"@,
    }
}

/// How messages name a platform.
pub open spec fn platform_text(platform: Platform) -> Seq<char> {
    "`"@ + os_text(platform.os) + "` / `"@ + architecture_text(platform.architecture) + "`"@
}

/// The release asset for a platform: there is one for macOS and Linux, on
/// 64-bit ARM and 64-bit Intel processors each.
pub open spec fn asset_name(platform: Platform) -> Option<Seq<char>> {
    match (platform.os, platform.architecture) {
        (Os::Mac, Architecture::Aarch64) => Some("42-tools-mac-aarch64.zip"@),
        (Os::Mac, Architecture::X8664) => Some("42-tools-mac-x86_64.zip"@),
        (Os::Linux, Architecture::Aarch64) => Some("42-tools-linux-aarch64.zip"@),
        (Os::Linux, Architecture::X8664) => Some("42-tools-linux-x86_64.zip"@),
        _ => None,
    }
}

/// What is said of a platform without a release asset: `reason` and the
/// platform, or for Windows a sentence of its own.
pub open spec fn unsupported_text(platform: Platform, reason: Seq<char>) -> Seq<char> {
    if platform.os == Os::Windows {
        WINDOWS_UNSUPPORTED_MESSAGE@
    } else {
        reason + platform_text(platform)
    }
}

/// The reason where an asset is looked for.
pub const NOT_SUPPORTED: &'static str = "42 Tools does not support platform ";

/// The reason where the server is to be installed.
pub const NO_RELEASE_ASSETS: &'static str =
    "42 Tools does not have release assets for platform ";

/// Says of a platform that it has no release asset.
fn unsupported_message(platform: Platform, reason: &str) -> (message: String)
    ensures
        message@ == unsupported_text(platform, reason@),
{
    let os = match platform.os {
        Os::Mac => "Os::Mac",
        Os::Linux => "Os::Linux",
        Os::Windows => {
            return WINDOWS_UNSUPPORTED_MESSAGE.to_string();
        },
    };
    let architecture = match platform.architecture {
        Architecture::Aarch64 => "Architecture::Aarch64",
        Architecture::X86 => "Architecture::X86",
        Architecture::X8664 => "Architecture::X8664",
    };
    let mut name = joined3("`", os, "` / `");
    name.append(architecture);
    name.append("`");
    joined(reason, name.as_str())
}

/// The place of the first asset with this name, or how many assets there are.
pub open spec fn asset_index(assets: Seq<GithubReleaseAsset>, name: Seq<char>) -> int
    decreases assets.len(),
{
    if assets.len() == 0 || assets[0].name@ == name {
        0
    } else {
        1 + asset_index(assets.skip(1), name)
    }
}

/// What is said of a release that lacks an asset.
pub open spec fn missing_asset_text(version: Seq<char>, name: Seq<char>) -> Seq<char> {
    "GitHub release `"@ + version + "` is missing asset `"@ + name + "`"@
}

// ---------------------------------------------------------------------------
// Old installs
// ---------------------------------------------------------------------------

/// A directory entry: whether it is a directory, and its name where that is
/// text.
#[derive(Debug, Clone, PartialEq, Eq)]
pub struct DirectoryEntry {
    pub is_directory: bool,
    pub name: Option<String>,
}

/// What has happened while old installs are removed.
#[derive(Debug)]
pub enum CleanupEvent {
    /// The work directory was listed, or not.
    Listed(bool),
    /// The next entry was read, or could not be.
    Entry(Result<DirectoryEntry, String>),
    /// No entry is left.
    Exhausted,
    /// The entry with this path was removed, or could not be.
    Removed { path: String, outcome: Result<(), String> },
}

/// What to do next while old installs are removed.
#[derive(Debug)]
pub enum CleanupAction {
    /// Read the next entry.
    Next,
    /// Remove the entry with all that it holds.
    Remove,
    /// Nothing is left to do.
    Finish(Result<(), String>),
}

/// A directory of another version.
pub open spec fn stale(entry: DirectoryEntry, current_version_dir: Seq<char>) -> bool {
    &&& entry.is_directory
    &&& entry.name is Some
    &&& entry.name->0@ != current_version_dir
    &&& "v"@.is_prefix_of(entry.name->0@)
}

// ---------------------------------------------------------------------------
// Installing
// ---------------------------------------------------------------------------

/// What the editor shows of an installation.
#[derive(Debug, Clone, PartialEq, Eq)]
pub enum InstallationStatus {
    Idle,
    Downloading,
    Failed(String),
}

/// What has happened while the server is looked for and installed.
#[derive(Debug)]
pub enum InstallEvent {
    /// The server is needed.
    Requested,
    /// It was looked for, and found or not.
    Checked(bool),
    /// Something has come of its download.
    Progress(DownloadEvent),
}

/// What has happened while the server is downloaded.
#[derive(Debug)]
pub enum DownloadEvent {
    /// Old installs were removed, or could not be.
    CleanedUp(Result<(), String>),
    /// The release was loaded, or could not be.
    ReleaseLoaded(Result<GithubRelease, String>),
    /// The asset was downloaded and unpacked, or could not be.
    Downloaded(Result<(), String>),
    /// The server was made executable, or could not be.
    MadeExecutable(Result<(), String>),
    /// It was looked for once more, and found or not.
    Rechecked(bool),
}

/// What to do next while the server is installed.
#[derive(Debug)]
pub enum InstallAction {
    /// See whether this file exists.
    Check(String),
    /// Remove the installs of other versions than the one in this directory.
    CleanUp(String),
    /// Load the release with this tag of this repository.
    LoadRelease { repository: String, tag: String },
    /// Download this file and unpack it into this directory.
    Download { url: String, directory: String },
    /// Make this file executable.
    MakeExecutable(String),
    /// See once more whether this file exists.
    Recheck(String),
    /// Nothing is left to do.
    Finish(Result<InstalledBinaries, String>),
}

/// What the editor is to show, if that changes, and what to do next.
#[derive(Debug)]
pub struct InstallStep {
    pub status: Option<InstallationStatus>,
    pub action: InstallAction,
}

impl InstallStep {
    /// The installation has failed.
    pub open spec fn fails(self, error: Seq<char>) -> bool {
        &&& self.status is Some
        &&& self.status->0 is Failed
        &&& self.status->0->Failed_0@ == error
        &&& self.action is Finish
        &&& self.action->Finish_0 is Err
        &&& self.action->Finish_0->Err_0@ == error
    }

    /// This version is installed.
    pub open spec fn installs(self) -> bool {
        &&& self.action is Finish
        &&& self.action->Finish_0 is Ok
        &&& self.action->Finish_0->Ok_0.is_current()
    }
}

/// The installation has failed.
fn failed(error: String) -> (step: InstallStep)
    ensures
        step.fails(error@),
{
    InstallStep {
        status: Some(InstallationStatus::Failed(error.clone())),
        action: InstallAction::Finish(Err(error)),
    }
}

/// What is said where the release could not be loaded.
pub open spec fn release_failure_text(error: Seq<char>) -> Seq<char> {
    "failed to load GitHub release `"@ + release_tag_text() + "` for `"@ + GITHUB_REPOSITORY@
        + "`: "@ + error
}

/// What is said where the asset could not be downloaded.
pub open spec fn download_failure_text(name: Seq<char>, error: Seq<char>) -> Seq<char> {
    "failed to download `"@ + name + "`: "@ + error
}

/// What is said where the server could not be made executable.
pub open spec fn executable_failure_text(error: Seq<char>) -> Seq<char> {
    "failed to mark `"@ + SERVER_BINARY_NAME@ + "` as executable: "@ + error
}

/// What is said of an asset that did not hold the server.
pub open spec fn unpack_failure_text(name: Seq<char>) -> Seq<char> {
    "release asset `"@ + name + "` did not unpack the expected files into `"@
        + release_tag_text() + "`"@
}

/// What follows each event while the server is installed. It is downloaded only
/// where it is not there yet, and what was downloaded counts only where the
/// server is there then.
pub open spec fn is_install_step(
    step: InstallStep,
    platform: Platform,
    event: InstallEvent,
) -> bool {
    match event {
        InstallEvent::Requested => {
            &&& step.status is None
            &&& if asset_name(platform) is Some {
                step.action is Check && step.action->Check_0@ == server_path_text()
            } else {
                &&& step.action is Finish
                &&& step.action->Finish_0 is Err
                &&& step.action->Finish_0->Err_0@ == unsupported_text(
                    platform,
                    NO_RELEASE_ASSETS@,
                )
            }
        },
        InstallEvent::Checked(true) => step.status is None && step.installs(),
        InstallEvent::Checked(false) => {
            &&& step.status == Some(InstallationStatus::Downloading)
            &&& step.action is CleanUp
            &&& step.action->CleanUp_0@ == release_tag_text()
        },
        InstallEvent::Progress(event) => is_download_step(step, platform, event),
    }
}

/// What follows each event while the server is downloaded.
pub open spec fn is_download_step(
    step: InstallStep,
    platform: Platform,
    event: DownloadEvent,
) -> bool {
    match event {
        DownloadEvent::CleanedUp(Err(error)) => step.fails(error@),
        DownloadEvent::CleanedUp(Ok(_)) => {
            &&& step.status is None
            &&& step.action is LoadRelease
            &&& step.action->repository@ == GITHUB_REPOSITORY@
            &&& step.action->tag@ == release_tag_text()
        },
        DownloadEvent::ReleaseLoaded(Err(error)) => step.fails(
            release_failure_text(error@),
        ),
        DownloadEvent::ReleaseLoaded(Ok(release)) => match asset_name(platform) {
            None => step.fails(unsupported_text(platform, NOT_SUPPORTED@)),
            Some(name) => if asset_index(release.assets@, name) < release.assets@.len() {
                &&& step.status is None
                &&& step.action is Download
                &&& step.action->url@ == release.assets@[asset_index(
                    release.assets@,
                    name,
                )].download_url@
                &&& step.action->directory@ == release_tag_text()
            } else {
                step.fails(missing_asset_text(release.version@, name))
            },
        },
        DownloadEvent::Downloaded(Err(error)) => match asset_name(platform) {
            None => step.fails(unsupported_text(platform, NOT_SUPPORTED@)),
            Some(name) => step.fails(download_failure_text(name, error@)),
        },
        DownloadEvent::Downloaded(Ok(_)) => {
            &&& step.status is None
            &&& step.action is MakeExecutable
            &&& step.action->MakeExecutable_0@ == server_path_text()
        },
        DownloadEvent::MadeExecutable(Err(error)) => step.fails(
            executable_failure_text(error@),
        ),
        DownloadEvent::MadeExecutable(Ok(_)) => {
            &&& step.status is None
            &&& step.action is Recheck
            &&& step.action->Recheck_0@ == server_path_text()
        },
        DownloadEvent::Rechecked(true) => {
            &&& step.status == Some(InstallationStatus::Idle)
            &&& step.installs()
        },
        DownloadEvent::Rechecked(false) => match asset_name(platform) {
            None => step.fails(unsupported_text(platform, NOT_SUPPORTED@)),
            Some(name) => step.fails(unpack_failure_text(name)),
        },
    }
}

// ---------------------------------------------------------------------------
// Starting the server
// ---------------------------------------------------------------------------

/// What has happened since the server was to be started.
#[derive(Debug)]
pub enum LaunchEvent {
    /// The server is to be started.
    Requested,
    /// It was installed, or could not be.
    Installed(Result<InstalledBinaries, String>),
}

/// What to do next to start the server.
#[derive(Debug)]
pub enum LaunchAction {
    /// Start this program.
    Run(String),
    /// See that the server is installed.
    Install,
    /// The server cannot be started, and why.
    Fail(String),
}

/// What has happened since the editor asked for options of the server.
#[derive(Debug)]
pub enum OptionsEvent {
    /// They were asked for.
    Requested,
    /// The settings were loaded, or could not be.
    Loaded(Result<LspSettings, String>),
}

/// What to do next to answer with options of the server.
#[derive(Debug)]
pub enum OptionsAction {
    /// Load the settings.
    Load,
    /// Answer with these options.
    Finish(Result<Option<Value>, String>),
}

impl OptionsAction {
    /// Answer with these options.
    pub open spec fn answers(self, options: Option<Value>) -> bool {
        self == OptionsAction::Finish(Ok(options))
    }
}

impl FortyTwoToolsExtension {
    /// The tag of the release that belongs to this version.
    pub fn release_tag() -> (tag: String)
        ensures
            tag@ == release_tag_text(),
    {
        joined("v", EXTENSION_VERSION)
    }

    /// Where this version is installed.
    pub fn versioned_install_paths() -> (installed: InstalledBinaries)
        ensures
            installed.is_current(),
    {
        let version_dir = Self::release_tag();
        let server_path = joined3(version_dir.as_str(), "/", SERVER_BINARY_NAME);
        InstalledBinaries { version_dir, server_path }
    }

    /// The program that the settings name, unless it is blank.
    pub fn configured_binary_path(settings: &LspSettings) -> (path: Option<String>)
        ensures
            string_view(path) == configured_path(*settings),
    {
        match &settings.binary {
            Some(binary) => match &binary.path {
                Some(path) => {
                    if trimmed_option(path.as_str()).is_none() {
                        None
                    } else {
                        Some(path.clone())
                    }
                },
                None => None,
            },
            None => None,
        }
    }

    /// The arguments that the settings give.
    pub fn server_args(settings: &LspSettings) -> (args: Vec<String>)
        ensures
            views(args@) == configured_arguments(*settings),
    {
        if let Some(binary) = &settings.binary {
            if let Some(arguments) = &binary.arguments {
                let args = arguments.clone();
                assert(views(args@) =~= views(arguments@));
                return args;
            }
        }
        let args: Vec<String> = Vec::new();
        assert(views(args@) =~= Seq::<Seq<char>>::empty());
        args
    }

    /// Gives a variable a value: in the first place that it has, or else at
    /// the end.
    pub fn upsert_env(env: &mut Vec<(String, String)>, key: String, value: String)
        ensures
            pair_views(final(env)@) == upserted(pair_views(old(env)@), key@, value@),
    {
        upsert(env, key, value);
    }

    /// The environment of the server, given the text of its settings.
    pub fn env_with_settings(
        env: Vec<(String, String)>,
        settings: &LspSettings,
        settings_json: Option<String>,
    ) -> (sorted: Vec<(String, String)>)
        ensures
            is_stable_sort(
                pair_views(sorted@),
                unordered_env(
                    pair_views(env@),
                    configured_variables(*settings),
                    SETTINGS_ENV_VAR@,
                    string_view(settings_json),
                ),
            ),
    {
        let mut all = env;
        if let Some(binary) = &settings.binary {
            if let Some(variables) = &binary.env {
                upsert_all(&mut all, variables);
            }
        }
        if let Some(text) = settings_json {
            Self::upsert_env(&mut all, SETTINGS_ENV_VAR.to_string(), text);
        }
        sort_by_key(all)
    }

    /// The environment of the server: the given one, with the variables of the
    /// settings and the settings themselves, in order.
    pub fn build_server_env(env: Vec<(String, String)>, settings: &LspSettings) -> (sorted: Vec<
        (String, String),
    >)
        ensures
            is_stable_sort(
                pair_views(sorted@),
                unordered_env(
                    pair_views(env@),
                    configured_variables(*settings),
                    SETTINGS_ENV_VAR@,
                    settings_text(*settings),
                ),
            ),
    {
        let settings_json = match &settings.settings {
            Some(value) => Some(compact_text(value)),
            None => None,
        };
        Self::env_with_settings(env, settings, settings_json)
    }

    /// Decides which program is the server: the one that the settings name,
    /// else the installed one of this version.
    pub fn language_server_command_from_settings(
        settings: &LspSettings,
        event: LaunchEvent,
    ) -> (action: LaunchAction)
        ensures
            match event {
                LaunchEvent::Requested => match configured_path(*settings) {
                    Some(path) => action is Run && action->Run_0@ == path,
                    None => action is Install,
                },
                LaunchEvent::Installed(Ok(installed)) => action == LaunchAction::Run(
                    installed.server_path,
                ),
                LaunchEvent::Installed(Err(error)) => action == LaunchAction::Fail(error),
            },
    {
        match event {
            LaunchEvent::Requested => match Self::configured_binary_path(settings) {
                Some(path) => LaunchAction::Run(path),
                None => LaunchAction::Install,
            },
            LaunchEvent::Installed(Ok(installed)) => LaunchAction::Run(installed.server_path),
            LaunchEvent::Installed(Err(error)) => LaunchAction::Fail(error),
        }
    }

    /// The command that starts a program as the server.
    pub fn server_command(
        program: String,
        settings: &LspSettings,
        shell_env: Vec<(String, String)>,
    ) -> (command: ServerCommand)
        ensures
            command.command == program,
            views(command.args@) == configured_arguments(*settings),
            is_stable_sort(
                pair_views(command.env@),
                unordered_env(
                    pair_views(shell_env@),
                    configured_variables(*settings),
                    SETTINGS_ENV_VAR@,
                    settings_text(*settings),
                ),
            ),
    {
        ServerCommand {
            command: program,
            args: Self::server_args(settings),
            env: Self::build_server_env(shell_env, settings),
        }
    }

    /// The release asset for a platform.
    pub fn release_asset_name(platform: Platform) -> (name: Result<&'static str, String>)
        ensures
            match asset_name(platform) {
                Some(asset) => name is Ok && name->Ok_0@ == asset,
                None => name is Err && name->Err_0@ == unsupported_text(platform, NOT_SUPPORTED@),
            },
    {
        match (platform.os, platform.architecture) {
            (Os::Mac, Architecture::Aarch64) => Ok("42-tools-mac-aarch64.zip"),
            (Os::Mac, Architecture::X8664) => Ok("42-tools-mac-x86_64.zip"),
            (Os::Linux, Architecture::Aarch64) => Ok("42-tools-linux-aarch64.zip"),
            (Os::Linux, Architecture::X8664) => Ok("42-tools-linux-x86_64.zip"),
            _ => Err(unsupported_message(platform, NOT_SUPPORTED)),
        }
    }

    /// The first asset of a release with this name.
    pub fn find_release_asset<'a>(
        release: &'a GithubRelease,
        asset_name: &str,
    ) -> (asset: Result<&'a GithubReleaseAsset, String>)
        ensures
            ({
                let place = asset_index(release.assets@, asset_name@);
                if place < release.assets@.len() {
                    asset is Ok && *asset->Ok_0 == release.assets@[place] && asset->Ok_0.name@
                        == asset_name@
                } else {
                    asset is Err && asset->Err_0@ == missing_asset_text(
                        release.version@,
                        asset_name@,
                    )
                }
            }),
    {
        let n = release.assets.len();
        let mut i: usize = 0;
        proof {
            assert(release.assets@.skip(0) =~= release.assets@);
        }
        while i < n
            invariant
                i <= n,
                n == release.assets@.len(),
                asset_index(release.assets@, asset_name@) == i + asset_index(
                    release.assets@.skip(i as int),
                    asset_name@,
                ),
            decreases n - i,
        {
            if same_text(release.assets[i].name.as_str(), asset_name) {
                return Ok(&release.assets[i]);
            }
            proof {
                let rest = release.assets@.skip(i as int);
                assert(rest[0] == release.assets@[i as int]);
                assert(rest.skip(1) =~= release.assets@.skip(i + 1));
            }
            i += 1;
        }
        let mut message = joined3(
            "GitHub release `",
            release.version.as_str(),
            "` is missing asset `",
        );
        message.append(asset_name);
        message.append("`");
        Err(message)
    }

    /// Decides what follows while old installs are removed: the directories of
    /// other versions go, all else stays.
    pub fn cleanup_old_installs(current_version_dir: &str, event: CleanupEvent) -> (action:
        CleanupAction)
        ensures
            match event {
                CleanupEvent::Listed(true) => action is Next,
                CleanupEvent::Listed(false) => action is Finish && action->Finish_0 is Ok,
                CleanupEvent::Entry(Ok(entry)) => if stale(entry, current_version_dir@) {
                    action is Remove
                } else {
                    action is Next
                },
                CleanupEvent::Entry(Err(error)) => action is Finish && action->Finish_0 is Err
                    && action->Finish_0->Err_0@ == "failed to inspect extension work dir: "@
                    + error@,
                CleanupEvent::Exhausted => action is Finish && action->Finish_0 is Ok,
                CleanupEvent::Removed { path, outcome: Ok(_) } => action is Next,
                CleanupEvent::Removed { path, outcome: Err(error) } => action is Finish
                    && action->Finish_0 is Err && action->Finish_0->Err_0@
                    == "failed to remove old bundled tool directory `"@ + path@ + "`: "@ + error@,
            },
    {
        match event {
            CleanupEvent::Listed(listed) => {
                if listed {
                    CleanupAction::Next
                } else {
                    CleanupAction::Finish(Ok(()))
                }
            },
            CleanupEvent::Entry(Ok(entry)) => {
                if !entry.is_directory {
                    return CleanupAction::Next;
                }
                match &entry.name {
                    Some(name) => {
                        if same_text(name.as_str(), current_version_dir) || !has_prefix(
                            name.as_str(),
                            "v",
                        ) {
                            CleanupAction::Next
                        } else {
                            CleanupAction::Remove
                        }
                    },
                    None => CleanupAction::Next,
                }
            },
            CleanupEvent::Entry(Err(error)) => CleanupAction::Finish(
                Err(joined("failed to inspect extension work dir: ", error.as_str())),
            ),
            CleanupEvent::Exhausted => CleanupAction::Finish(Ok(())),
            CleanupEvent::Removed { path: _, outcome: Ok(_) } => CleanupAction::Next,
            CleanupEvent::Removed { path, outcome: Err(error) } => {
                let mut message = joined3(
                    "failed to remove old bundled tool directory `",
                    path.as_str(),
                    "`: ",
                );
                message.append(error.as_str());
                CleanupAction::Finish(Err(message))
            },
        }
    }

    /// Decides what follows while the server is installed.
    pub fn ensure_versioned_binaries(platform: Platform, event: InstallEvent) -> (step:
        InstallStep)
        ensures
            is_install_step(step, platform, event),
    {
        let installed = Self::versioned_install_paths();
        match event {
            InstallEvent::Requested => {
                let action = match Self::release_asset_name(platform) {
                    Ok(_) => InstallAction::Check(installed.server_path),
                    Err(_) => InstallAction::Finish(
                        Err(unsupported_message(platform, NO_RELEASE_ASSETS)),
                    ),
                };
                InstallStep { status: None, action }
            },
            InstallEvent::Checked(found) => {
                if found {
                    InstallStep { status: None, action: InstallAction::Finish(Ok(installed)) }
                } else {
                    InstallStep {
                        status: Some(InstallationStatus::Downloading),
                        action: InstallAction::CleanUp(installed.version_dir),
                    }
                }
            },
            InstallEvent::Progress(event) => Self::install_versioned_binaries(
                platform,
                installed,
                event,
            ),
        }
    }

    /// Decides what follows once the server is to be downloaded.
    fn install_versioned_binaries(
        platform: Platform,
        installed: InstalledBinaries,
        event: DownloadEvent,
    ) -> (step: InstallStep)
        requires
            installed.is_current(),
        ensures
            is_download_step(step, platform, event),
    {
        match event {
            DownloadEvent::CleanedUp(Err(error)) => failed(error),
            DownloadEvent::CleanedUp(Ok(_)) => InstallStep {
                status: None,
                action: InstallAction::LoadRelease {
                    repository: GITHUB_REPOSITORY.to_string(),
                    tag: Self::release_tag(),
                },
            },
            DownloadEvent::ReleaseLoaded(Err(error)) => {
                let tag = Self::release_tag();
                let mut message = joined3("failed to load GitHub release `", tag.as_str(), "` for `");
                message.append(GITHUB_REPOSITORY);
                message.append("`: ");
                message.append(error.as_str());
                failed(message)
            },
            DownloadEvent::ReleaseLoaded(Ok(release)) => match Self::release_asset_name(platform) {
                Ok(name) => match Self::find_release_asset(&release, name) {
                    Ok(asset) => InstallStep {
                        status: None,
                        action: InstallAction::Download {
                            url: asset.download_url.clone(),
                            directory: installed.version_dir,
                        },
                    },
                    Err(error) => failed(error),
                },
                Err(error) => failed(error),
            },
            DownloadEvent::Downloaded(Err(error)) => match Self::release_asset_name(platform) {
                Ok(name) => {
                    let mut message = joined3("failed to download `", name, "`: ");
                    message.append(error.as_str());
                    failed(message)
                },
                Err(error) => failed(error),
            },
            DownloadEvent::Downloaded(Ok(_)) => InstallStep {
                status: None,
                action: InstallAction::MakeExecutable(installed.server_path),
            },
            DownloadEvent::MadeExecutable(Err(error)) => {
                let mut message = joined3(
                    "failed to mark `",
                    SERVER_BINARY_NAME,
                    "` as executable: ",
                );
                message.append(error.as_str());
                failed(message)
            },
            DownloadEvent::MadeExecutable(Ok(_)) => InstallStep {
                status: None,
                action: InstallAction::Recheck(installed.server_path),
            },
            DownloadEvent::Rechecked(true) => InstallStep {
                status: Some(InstallationStatus::Idle),
                action: InstallAction::Finish(Ok(installed)),
            },
            DownloadEvent::Rechecked(false) => match Self::release_asset_name(platform) {
                Ok(name) => {
                    let mut message = joined3(
                        "release asset `",
                        name,
                        "` did not unpack the expected files into `",
                    );
                    message.append(installed.version_dir.as_str());
                    message.append("`");
                    failed(message)
                },
                Err(error) => failed(error),
            },
        }
    }

    /// Tells whether this extension starts a language server.
    pub fn serves(language_server_id: &str) -> (b: bool)
        ensures
            b == (language_server_id@ == LANGUAGE_SERVER_ID@),
    {
        same_text(language_server_id, LANGUAGE_SERVER_ID)
    }

    /// Refuses to start another language server.
    pub fn check_language_server(language_server_id: &str) -> (outcome: Result<(), String>)
        ensures
            if language_server_id@ == LANGUAGE_SERVER_ID@ {
                outcome is Ok
            } else {
                outcome is Err && outcome->Err_0@ == "unsupported language server id: "@
                    + language_server_id@
            },
    {
        if Self::serves(language_server_id) {
            Ok(())
        } else {
            Err(joined("unsupported language server id: ", language_server_id))
        }
    }

    /// Decides what follows when the editor asks for the options that the
    /// server is started with.
    pub fn language_server_initialization_options(
        language_server_id: &str,
        event: OptionsEvent,
    ) -> (action: OptionsAction)
        ensures
            if language_server_id@ != LANGUAGE_SERVER_ID@ {
                action.answers(None)
            } else {
                match event {
                    OptionsEvent::Requested => action is Load,
                    OptionsEvent::Loaded(Ok(settings)) => action.answers(
                        settings.initialization_options,
                    ),
                    OptionsEvent::Loaded(Err(error)) => action == OptionsAction::Finish(
                        Err(error),
                    ),
                }
            },
    {
        if !Self::serves(language_server_id) {
            return OptionsAction::Finish(Ok(None));
        }
        match event {
            OptionsEvent::Requested => OptionsAction::Load,
            OptionsEvent::Loaded(Ok(settings)) => OptionsAction::Finish(
                Ok(settings.initialization_options),
            ),
            OptionsEvent::Loaded(Err(error)) => OptionsAction::Finish(Err(error)),
        }
    }

    /// Decides what follows when the editor asks for the settings of the
    /// server.
    pub fn language_server_workspace_configuration(
        language_server_id: &str,
        event: OptionsEvent,
    ) -> (action: OptionsAction)
        ensures
            if language_server_id@ != LANGUAGE_SERVER_ID@ {
                action.answers(None)
            } else {
                match event {
                    OptionsEvent::Requested => action is Load,
                    OptionsEvent::Loaded(Ok(settings)) => action.answers(settings.settings),
                    OptionsEvent::Loaded(Err(error)) => action == OptionsAction::Finish(
                        Err(error),
                    ),
                }
            },
    {
        if !Self::serves(language_server_id) {
            return OptionsAction::Finish(Ok(None));
        }
        match event {
            OptionsEvent::Requested => OptionsAction::Load,
            OptionsEvent::Loaded(Ok(settings)) => OptionsAction::Finish(Ok(settings.settings)),
            OptionsEvent::Loaded(Err(error)) => OptionsAction::Finish(Err(error)),
        }
    }
}

// ---------------------------------------------------------------------------
// Laws
// ---------------------------------------------------------------------------

/// There are release assets for macOS and Linux on 64-bit processors, and for
/// no other platform.
pub proof fn supported_platforms(platform: Platform)
    ensures
        asset_name(platform) is Some <==> (platform.os == Os::Mac || platform.os == Os::Linux) && (
        platform.architecture == Architecture::Aarch64 || platform.architecture
            == Architecture::X8664),
{
}

/// The server counts as installed only where it was found.
pub proof fn installed_means_found(step: InstallStep, platform: Platform, event: InstallEvent)
    requires
        is_install_step(step, platform, event),
        step.installs(),
    ensures
        event == InstallEvent::Checked(true) || event == InstallEvent::Progress(
            DownloadEvent::Rechecked(true),
        ),
{
}

/// Once the download was announced, the editor is shown how it ended.
pub proof fn end_of_installation_is_shown(
    step: InstallStep,
    platform: Platform,
    event: DownloadEvent,
)
    requires
        is_download_step(step, platform, event),
        step.action is Finish,
    ensures
        step.action->Finish_0 is Ok ==> step.status == Some(InstallationStatus::Idle),
        step.action->Finish_0 is Err ==> step.fails(step.action->Finish_0->Err_0@),
{
}

/// Where a platform has no release asset, nothing is downloaded.
pub proof fn unsupported_platform_downloads_nothing(
    step: InstallStep,
    platform: Platform,
    event: InstallEvent,
)
    requires
        is_install_step(step, platform, event),
        asset_name(platform) is None,
    ensures
        !(step.action is Download),
        event is Requested ==> step.action is Finish && step.action->Finish_0 is Err,
{
}

/// The install of the current version is never removed, and neither is a file.
pub proof fn current_install_stays(entry: DirectoryEntry, current_version_dir: Seq<char>)
    requires
        string_view(entry.name) == Some(current_version_dir) || !entry.is_directory,
    ensures
        !stale(entry, current_version_dir),
{
}

} // verus!

//! What holds of the server that the extension finds, installs and starts.

use serde_json::Value;
use vstd::prelude::*;

use crate::environment::{
    comes_first, is_stable_sort, nothing_else_is_handed_on, set_variables_are_handed_on,
    settings_text_comes_first, under, unordered_env,
};
use crate::extension::{
    asset_index, asset_name, configured_arguments, configured_path, configured_variables,
    is_download_step, is_install_step, missing_asset_text, release_tag_text, server_path_text,
    settings_text, stale, unsupported_text, Architecture, DirectoryEntry, DownloadEvent,
    GithubReleaseAsset, InstallEvent, InstallStep, InstallationStatus, InstalledBinaries,
    LspSettings, OptionsAction, Os, Platform, SETTINGS_ENV_VAR,
};
use crate::json::json_text;
use crate::pairs::{distinct_keys, pair_views, Pair};
use crate::settings_laws::is_set;

verus! {

// ---------------------------------------------------------------------------
// Starting the server
// ---------------------------------------------------------------------------

/// The settings name a program where they hold one that is not blank, and then
/// as they hold it.
pub proof fn set_program_is_taken_as_it_is(settings: LspSettings)
    ensures
        configured_path(settings) is Some <==> settings.binary is Some && is_set(
            settings.binary->0.path,
        ),
        configured_path(settings) is Some ==> configured_path(settings)->0
            == settings.binary->0.path->0@,
{
}

/// The server is given the arguments of the settings, in their order, whatever
/// else they say.
pub proof fn set_arguments_are_handed_on(settings: LspSettings)
    ensures
        settings.binary is Some && settings.binary->0.arguments is Some ==> {
            let given = settings.binary->0.arguments->0@;
            &&& configured_arguments(settings).len() == given.len()
            &&& forall|i: int|
                0 <= i < given.len() ==> #[trigger] configured_arguments(settings)[i] == given[i]@
        },
        settings.binary is None || settings.binary->0.arguments is None ==> configured_arguments(
            settings,
        ).len() == 0,
{
}

/// The environment of the server, given the one of the shell.
pub open spec fn is_server_env(
    sorted: Seq<Pair>,
    shell: Seq<Pair>,
    settings: LspSettings,
) -> bool {
    is_stable_sort(
        sorted,
        unordered_env(
            shell,
            configured_variables(settings),
            SETTINGS_ENV_VAR@,
            settings_text(settings),
        ),
    )
}

/// The variables of the settings have different names.
pub open spec fn has_distinct_variables(settings: LspSettings) -> bool {
    settings.binary is Some && settings.binary->0.env is Some ==> distinct_keys(
        pair_views(settings.binary->0.env->0@),
    )
}

/// Each variable of the settings stands in the environment of the server with
/// its value, before any other under its name, whether or not the settings hold
/// a value for the server too.
pub proof fn server_is_given_the_set_variables(
    sorted: Seq<Pair>,
    shell: Seq<Pair>,
    settings: LspSettings,
    i: int,
)
    requires
        is_server_env(sorted, shell, settings),
        has_distinct_variables(settings),
        settings.binary is Some,
        settings.binary->0.env is Some,
        0 <= i < settings.binary->0.env->0@.len(),
        settings.settings is Some ==> settings.binary->0.env->0@[i].0@
            != "FORTY_TWO_TOOLS_SETTINGS_JSON"@,
    ensures
        comes_first(
            sorted,
            (settings.binary->0.env->0@[i].0@, settings.binary->0.env->0@[i].1@),
        ),
{
    let variables = pair_views(settings.binary->0.env->0@);
    let pair = (settings.binary->0.env->0@[i].0@, settings.binary->0.env->0@[i].1@);
    assert(variables[i] == pair);
    set_variables_are_handed_on(
        shell,
        variables,
        SETTINGS_ENV_VAR@,
        settings_text(settings),
        sorted,
        i,
    );
}

/// The value that the settings hold for the server stands in its environment as
/// compact JSON, before any other under its name.
pub proof fn server_is_given_its_settings(
    sorted: Seq<Pair>,
    shell: Seq<Pair>,
    settings: LspSettings,
)
    requires
        is_server_env(sorted, shell, settings),
        has_distinct_variables(settings),
        settings.settings is Some,
    ensures
        comes_first(
            sorted,
            ("FORTY_TWO_TOOLS_SETTINGS_JSON"@, json_text(settings.settings->0)),
        ),
{
    settings_text_comes_first(
        shell,
        configured_variables(settings),
        SETTINGS_ENV_VAR@,
        json_text(settings.settings->0),
        sorted,
    );
}

/// Every other variable of the shell stands in the environment of the server as
/// it stood in the shell.
pub proof fn server_is_given_the_shell(
    sorted: Seq<Pair>,
    shell: Seq<Pair>,
    settings: LspSettings,
    key: Seq<char>,
)
    requires
        is_server_env(sorted, shell, settings),
        has_distinct_variables(settings),
        settings.settings is Some ==> key != "FORTY_TWO_TOOLS_SETTINGS_JSON"@,
        settings.binary is Some && settings.binary->0.env is Some ==> forall|i: int|
            0 <= i < settings.binary->0.env->0@.len() ==> (
            #[trigger] settings.binary->0.env->0@[i]).0@ != key,
    ensures
        under(sorted, key) == under(shell, key),
{
    let variables = configured_variables(settings);
    assert forall|i: int| 0 <= i < variables.len() implies #[trigger] variables[i].0 != key by {
        assert(variables[i].0 == settings.binary->0.env->0@[i].0@);
    }
    nothing_else_is_handed_on(
        shell,
        variables,
        SETTINGS_ENV_VAR@,
        settings_text(settings),
        sorted,
        key,
    );
}

// ---------------------------------------------------------------------------
// Platforms and releases
// ---------------------------------------------------------------------------

/// The release assets are named after the platform.
pub proof fn assets_are_named_after_platforms(platform: Platform)
    ensures
        platform.os == Os::Mac && platform.architecture == Architecture::Aarch64 ==> asset_name(
            platform,
        ) == Some("42-tools-mac-aarch64.zip"@),
        platform.os == Os::Mac && platform.architecture == Architecture::X8664 ==> asset_name(
            platform,
        ) == Some("42-tools-mac-x86_64.zip"@),
        platform.os == Os::Linux && platform.architecture == Architecture::Aarch64 ==> asset_name(
            platform,
        ) == Some("42-tools-linux-aarch64.zip"@),
        platform.os == Os::Linux && platform.architecture == Architecture::X8664 ==> asset_name(
            platform,
        ) == Some("42-tools-linux-x86_64.zip"@),
        platform.os == Os::Windows || platform.architecture == Architecture::X86 ==> asset_name(
            platform,
        ) is None,
{
}

/// The user is told which platform has no release asset; of Windows they are
/// told what is supported instead.
pub proof fn unsupported_platforms_are_told(platform: Platform, reason: Seq<char>)
    ensures
        platform.os == Os::Windows ==> unsupported_text(platform, reason)
            == "42 Tools currently supports macOS and Linux only."@,
        platform.os == Os::Mac && platform.architecture == Architecture::X86 ==> unsupported_text(
            platform,
            reason,
        ) == reason + ("`"@ + "Os::Mac"@ + "` / `"@ + "Architecture::X86"@ + "`"@),
        platform.os == Os::Linux && platform.architecture == Architecture::X86 ==> unsupported_text(
            platform,
            reason,
        ) == reason + ("`"@ + "Os::Linux"@ + "` / `"@ + "Architecture::X86"@ + "`"@),
{
}

/// The first asset with a name is the one that is found.
pub proof fn first_asset_of_a_name_is_found(
    assets: Seq<GithubReleaseAsset>,
    name: Seq<char>,
    place: int,
)
    requires
        0 <= place <= assets.len(),
        forall|i: int| 0 <= i < place ==> (#[trigger] assets[i]).name@ != name,
        place < assets.len() ==> assets[place].name@ == name,
    ensures
        asset_index(assets, name) == place,
    decreases assets.len(),
{
    if assets.len() > 0 && assets[0].name@ != name {
        let rest = assets.skip(1);
        assert forall|i: int| 0 <= i < place - 1 implies (#[trigger] rest[i]).name@ != name by {
            assert(rest[i] == assets[i + 1]);
        }
        if place < assets.len() {
            assert(rest[place - 1] == assets[place]);
        }
        first_asset_of_a_name_is_found(rest, name, place - 1);
    } else if assets.len() > 0 && place > 0 {
        assert(assets[0].name@ != name);
    }
}

/// A release that lacks an asset is named with the asset.
pub proof fn missing_assets_are_told(version: Seq<char>, name: Seq<char>)
    ensures
        missing_asset_text(version, name) == "GitHub release `"@ + version
            + "` is missing asset `"@ + name + "`"@,
{
}

// ---------------------------------------------------------------------------
// Installing
// ---------------------------------------------------------------------------

/// The server lies in the directory that bears the tag of the release.
pub proof fn server_lies_under_its_tag(installed: InstalledBinaries)
    ensures
        installed.is_current() <==> installed.version_dir@ == "v"@ + "0.1.4"@
            && installed.server_path@ == installed.version_dir@ + "/"@ + "forty-two-tools-lsp"@,
        release_tag_text() == "v"@ + "0.1.4"@,
        server_path_text() == release_tag_text() + "/"@ + "forty-two-tools-lsp"@,
{
}

/// A failed step shows its error and ends with it.
pub proof fn failed_steps_end_with_their_error(step: InstallStep, error: Seq<char>)
    ensures
        step.fails(error) <==> {
            &&& step.status is Some
            &&& step.status->0 is Failed
            &&& step.status->0->Failed_0@ == error
            &&& step.action is Finish
            &&& step.action->Finish_0 is Err
            &&& step.action->Finish_0->Err_0@ == error
        },
        step.installs() <==> step.action is Finish && step.action->Finish_0 is Ok
            && step.action->Finish_0->Ok_0.is_current(),
{
}

/// What is asked for before anything is downloaded: the server is looked for
/// where the platform has an asset, and downloaded only where it was not found.
pub proof fn server_is_looked_for_first(
    step: InstallStep,
    platform: Platform,
    event: InstallEvent,
)
    requires
        is_install_step(step, platform, event),
    ensures
        event is Requested && asset_name(platform) is Some ==> {
            &&& step.status is None
            &&& step.action is Check
            &&& step.action->Check_0@ == server_path_text()
        },
        event is Requested && asset_name(platform) is None ==> {
            &&& step.status is None
            &&& step.action is Finish
            &&& step.action->Finish_0 is Err
            &&& step.action->Finish_0->Err_0@ == unsupported_text(
                platform,
                "42 Tools does not have release assets for platform "@,
            )
        },
        event == InstallEvent::Checked(true) ==> {
            &&& step.status is None
            &&& step.action is Finish
            &&& step.action->Finish_0 is Ok
            &&& step.action->Finish_0->Ok_0.version_dir@ == release_tag_text()
            &&& step.action->Finish_0->Ok_0.server_path@ == server_path_text()
        },
        event == InstallEvent::Checked(false) ==> {
            &&& step.status == Some(InstallationStatus::Downloading)
            &&& step.action is CleanUp
            &&& step.action->CleanUp_0@ == release_tag_text()
        },
        event is Progress ==> is_download_step(step, platform, event->Progress_0),
{
}

/// While nothing goes wrong: old installs are removed, the release of this tag
/// is loaded, the asset for the platform is unpacked into the directory of the
/// tag, the server is made executable, and it is looked for once more.
pub proof fn download_goes_step_by_step(
    step: InstallStep,
    platform: Platform,
    event: DownloadEvent,
    name: Seq<char>,
)
    requires
        is_download_step(step, platform, event),
        asset_name(platform) == Some(name),
    ensures
        event is CleanedUp && event->CleanedUp_0 is Ok ==> {
            &&& step.status is None
            &&& step.action is LoadRelease
            &&& step.action->repository@ == "EdizKeskin/42-tools-zed"@
            &&& step.action->tag@ == release_tag_text()
        },
        event is ReleaseLoaded && event->ReleaseLoaded_0 is Ok ==> {
            let assets = event->ReleaseLoaded_0->Ok_0.assets@;
            forall|i: int|
                0 <= i < assets.len() && (#[trigger] assets[i]).name@ == name && (forall|j: int|
                    0 <= j < i ==> (#[trigger] assets[j]).name@ != name) ==> {
                    &&& step.status is None
                    &&& step.action is Download
                    &&& step.action->url@ == assets[i].download_url@
                    &&& step.action->directory@ == release_tag_text()
                }
        },
        event is Downloaded && event->Downloaded_0 is Ok ==> {
            &&& step.status is None
            &&& step.action is MakeExecutable
            &&& step.action->MakeExecutable_0@ == server_path_text()
        },
        event is MadeExecutable && event->MadeExecutable_0 is Ok ==> {
            &&& step.status is None
            &&& step.action is Recheck
            &&& step.action->Recheck_0@ == server_path_text()
        },
        event == DownloadEvent::Rechecked(true) ==> {
            &&& step.status == Some(InstallationStatus::Idle)
            &&& step.action is Finish
            &&& step.action->Finish_0 is Ok
            &&& step.action->Finish_0->Ok_0.version_dir@ == release_tag_text()
            &&& step.action->Finish_0->Ok_0.server_path@ == server_path_text()
        },
{
    if event is ReleaseLoaded && event->ReleaseLoaded_0 is Ok {
        let assets = event->ReleaseLoaded_0->Ok_0.assets@;
        assert forall|i: int|
            0 <= i < assets.len() && (#[trigger] assets[i]).name@ == name && (forall|j: int|
                0 <= j < i ==> (#[trigger] assets[j]).name@ != name) implies {
            &&& step.status is None
            &&& step.action is Download
            &&& step.action->url@ == assets[i].download_url@
            &&& step.action->directory@ == release_tag_text()
        } by {
            first_asset_of_a_name_is_found(assets, name, i);
        }
    }
}

/// Each thing that goes wrong while the server is downloaded ends it, with what
/// went wrong.
pub proof fn download_failures_are_told(
    step: InstallStep,
    platform: Platform,
    event: DownloadEvent,
    name: Seq<char>,
)
    requires
        is_download_step(step, platform, event),
        asset_name(platform) == Some(name),
    ensures
        match event {
            DownloadEvent::CleanedUp(Err(error)) => step.fails(error@),
            DownloadEvent::ReleaseLoaded(Err(error)) => step.fails(
                "failed to load GitHub release `"@ + release_tag_text() + "` for `"@
                    + "EdizKeskin/42-tools-zed"@ + "`: "@ + error@,
            ),
            DownloadEvent::ReleaseLoaded(Ok(release)) => (forall|i: int|
                0 <= i < release.assets@.len() ==> (#[trigger] release.assets@[i]).name@ != name)
                ==> step.fails(missing_asset_text(release.version@, name)),
            DownloadEvent::Downloaded(Err(error)) => step.fails(
                "failed to download `"@ + name + "`: "@ + error@,
            ),
            DownloadEvent::MadeExecutable(Err(error)) => step.fails(
                "failed to mark `"@ + "forty-two-tools-lsp"@ + "` as executable: "@ + error@,
            ),
            DownloadEvent::Rechecked(false) => step.fails(
                "release asset `"@ + name + "` did not unpack the expected files into `"@
                    + release_tag_text() + "`"@,
            ),
            _ => true,
        },
{
    if event is ReleaseLoaded && event->ReleaseLoaded_0 is Ok {
        let assets = event->ReleaseLoaded_0->Ok_0.assets@;
        if forall|i: int| 0 <= i < assets.len() ==> (#[trigger] assets[i]).name@ != name {
            first_asset_of_a_name_is_found(assets, name, assets.len() as int);
        }
    }
}

/// Old installs are the directories whose names start with `v`, but for the one
/// of the current version.
pub proof fn old_installs_are_told_by_their_name(
    entry: DirectoryEntry,
    current_version_dir: Seq<char>,
)
    ensures
        stale(entry, current_version_dir) <==> {
            &&& entry.is_directory
            &&& entry.name is Some
            &&& entry.name->0@.len() > 0
            &&& entry.name->0@[0] == 'v'
            &&& entry.name->0@ != current_version_dir
        },
{
    reveal_strlit("v");
    if entry.name is Some {
        let name = entry.name->0@;
        if name.len() > 0 && name[0] == 'v' {
            assert("v"@ =~= name.take(1));
            assert("v"@.is_prefix_of(name));
        }
        if "v"@.is_prefix_of(name) {
            assert(name.subrange(0, 1)[0] == "v"@[0]);
        }
    }
}

/// An answer with options is an end that succeeded with them.
pub proof fn answers_hold_their_options(action: OptionsAction, options: Option<Value>)
    ensures
        action.answers(options) <==> action is Finish && action->Finish_0 is Ok
            && action->Finish_0->Ok_0 == options,
{
}

} // verus!

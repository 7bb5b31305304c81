use forty_two_tools::environment::sort_by_key;
use forty_two_tools::extension::{
    Architecture, CleanupAction, CleanupEvent, CommandSettings, DirectoryEntry,
    DownloadEvent, FortyTwoToolsExtension, GithubRelease, GithubReleaseAsset, InstallAction, InstallEvent,
    InstallStep, InstallationStatus, LaunchAction, LaunchEvent, LspSettings, OptionsAction,
    OptionsEvent, Os, Platform, SETTINGS_ENV_VAR,
};
use serde_json::Value;

fn asset(name: &str) -> GithubReleaseAsset {
    GithubReleaseAsset {
        name: name.to_string(),
        download_url: format!("https://example.com/{name}"),
    }
}

fn pair(key: &str, value: &str) -> (String, String) {
    (key.to_string(), value.to_string())
}

fn settings(binary: Option<CommandSettings>) -> LspSettings {
    LspSettings {
        binary,
        initialization_options: None,
        settings: None,
    }
}

fn linux() -> Platform {
    Platform {
        os: Os::Linux,
        architecture: Architecture::X8664,
    }
}

fn install(event: InstallEvent) -> InstallStep {
    FortyTwoToolsExtension::ensure_versioned_binaries(linux(), event)
}

fn progress(event: DownloadEvent) -> InstallStep {
    install(InstallEvent::Progress(event))
}

fn failure(step: InstallStep) -> String {
    match (step.status, step.action) {
        (Some(InstallationStatus::Failed(shown)), InstallAction::Finish(Err(error))) => {
            assert_eq!(shown, error);
            error
        }
        other => panic!("expected a failure, got {other:?}"),
    }
}

#[test]
fn versioned_paths_match_release_tag() {
    let paths = FortyTwoToolsExtension::versioned_install_paths();
    assert_eq!(paths.version_dir, "v0.1.4");
    assert_eq!(paths.server_path, "v0.1.4/forty-two-tools-lsp");
}

#[test]
fn server_env_preserves_user_env_and_injects_defaults() {
    let value: Value =
        serde_json::from_str(r#"{ "header": { "login": "marvin" } }"#).expect("valid JSON");
    let settings = LspSettings {
        binary: None,
        initialization_options: None,
        settings: Some(value),
    };

    let env = FortyTwoToolsExtension::build_server_env(
        vec![(
            "PATH".to_string(),
            "/home/edizk/.local/bin:/usr/bin".to_string(),
        )],
        &settings,
    );

    assert!(env
        .iter()
        .any(|(key, value)| { key == SETTINGS_ENV_VAR && value.contains("\"marvin\"") }));
    assert!(env
        .iter()
        .any(|(key, value)| key == "PATH" && value.contains("/home/edizk/.local/bin")));
}

#[test]
fn release_asset_lookup_reports_missing_assets() {
    let release = GithubRelease {
        version: "v0.1.0".to_string(),
        assets: vec![asset("something-else.zip")],
    };

    let error = FortyTwoToolsExtension::find_release_asset(&release, "42-tools-mac-aarch64.zip")
        .expect_err("missing asset should fail");
    assert!(error.contains("42-tools-mac-aarch64.zip"));
    assert_eq!(error, "GitHub release `v0.1.0` is missing asset `42-tools-mac-aarch64.zip`");
}

#[test]
fn first_asset_of_a_name_is_found() {
    let mut second = asset("b.zip");
    second.download_url = "https://example.com/second".to_string();
    let release = GithubRelease {
        version: "v0.1.4".to_string(),
        assets: vec![asset("a.zip"), asset("b.zip"), second],
    };
    let found = FortyTwoToolsExtension::find_release_asset(&release, "b.zip").expect("asset");
    assert_eq!(found.download_url, "https://example.com/b.zip");
}

#[test]
fn settings_travel_as_compact_json() {
    let value: Value = serde_json::from_str(r#"{ "a": [1, 2] }"#).expect("valid JSON");
    let mut with_value = settings(None);
    with_value.settings = Some(value);
    let env = FortyTwoToolsExtension::build_server_env(Vec::new(), &with_value);
    assert_eq!(env, vec![pair("FORTY_TWO_TOOLS_SETTINGS_JSON", r#"{"a":[1,2]}"#)]);
}

#[test]
fn variables_of_the_settings_win_and_are_sorted() {
    let binary = |env: Vec<(String, String)>| {
        settings(Some(CommandSettings {
            path: None,
            arguments: None,
            env: Some(env),
        }))
    };
    let shell = || vec![pair("Z", "1"), pair("PATH", "/bin"), pair("Z", "2"), pair("b", "x")];
    let expected = vec![
        pair("A", "new"),
        pair("PATH", "/bin"),
        pair("Z", "3"),
        pair("Z", "2"),
        pair("b", "x"),
    ];
    let one = binary(vec![pair("Z", "3"), pair("A", "new")]);
    assert_eq!(FortyTwoToolsExtension::build_server_env(shell(), &one), expected);
    let other = binary(vec![pair("A", "new"), pair("Z", "3")]);
    assert_eq!(FortyTwoToolsExtension::build_server_env(shell(), &other), expected);
    let text = Some("{}".to_string());
    let env = FortyTwoToolsExtension::env_with_settings(
        vec![pair(SETTINGS_ENV_VAR, "old")],
        &settings(None),
        text,
    );
    assert_eq!(env, vec![pair(SETTINGS_ENV_VAR, "{}")]);
}

#[test]
fn sorting_keeps_the_order_of_equal_names() {
    assert_eq!(
        sort_by_key(vec![pair("b", "1"), pair("a", "2"), pair("b", "0"), pair("", "3")]),
        vec![pair("", "3"), pair("a", "2"), pair("b", "1"), pair("b", "0")]
    );
}

#[test]
fn upserting_takes_the_first_place() {
    let mut env = vec![pair("a", "1"), pair("b", "2"), pair("a", "3")];
    FortyTwoToolsExtension::upsert_env(&mut env, "a".to_string(), "4".to_string());
    FortyTwoToolsExtension::upsert_env(&mut env, "c".to_string(), "5".to_string());
    assert_eq!(env, vec![pair("a", "4"), pair("b", "2"), pair("a", "3"), pair("c", "5")]);
}

#[test]
fn configured_server_is_run() {
    let given = settings(Some(CommandSettings {
        path: Some("/opt/lsp".to_string()),
        arguments: Some(vec!["--stdio".to_string()]),
        env: None,
    }));
    let action = FortyTwoToolsExtension::language_server_command_from_settings(
        &given,
        LaunchEvent::Requested,
    );
    let program = match action {
        LaunchAction::Run(program) => program,
        other => panic!("expected a program, got {other:?}"),
    };
    let command =
        FortyTwoToolsExtension::server_command(program, &given, vec![pair("PATH", "/bin")]);
    assert_eq!(command.command, "/opt/lsp");
    assert_eq!(command.args, vec!["--stdio"]);
    assert_eq!(command.env, vec![pair("PATH", "/bin")]);
}

#[test]
fn server_is_installed_where_none_is_configured() {
    let blank = settings(Some(CommandSettings {
        path: Some("  ".to_string()),
        arguments: None,
        env: None,
    }));
    assert_eq!(FortyTwoToolsExtension::configured_binary_path(&blank), None);
    assert!(FortyTwoToolsExtension::server_args(&blank).is_empty());
    for given in [blank, settings(None)] {
        assert!(matches!(
            FortyTwoToolsExtension::language_server_command_from_settings(
                &given,
                LaunchEvent::Requested
            ),
            LaunchAction::Install
        ));
    }
    let paths = FortyTwoToolsExtension::versioned_install_paths();
    match FortyTwoToolsExtension::language_server_command_from_settings(
        &settings(None),
        LaunchEvent::Installed(Ok(paths)),
    ) {
        LaunchAction::Run(program) => assert_eq!(program, "v0.1.4/forty-two-tools-lsp"),
        other => panic!("expected a program, got {other:?}"),
    }
    match FortyTwoToolsExtension::language_server_command_from_settings(
        &settings(None),
        LaunchEvent::Installed(Err("offline".to_string())),
    ) {
        LaunchAction::Fail(error) => assert_eq!(error, "offline"),
        other => panic!("expected a failure, got {other:?}"),
    }
}

#[test]
fn assets_exist_for_four_platforms() {
    let name = |os: Os, architecture: Architecture| {
        FortyTwoToolsExtension::release_asset_name(Platform { os, architecture })
    };
    assert_eq!(name(Os::Mac, Architecture::Aarch64), Ok("42-tools-mac-aarch64.zip"));
    assert_eq!(name(Os::Mac, Architecture::X8664), Ok("42-tools-mac-x86_64.zip"));
    assert_eq!(name(Os::Linux, Architecture::Aarch64), Ok("42-tools-linux-aarch64.zip"));
    assert_eq!(name(Os::Linux, Architecture::X8664), Ok("42-tools-linux-x86_64.zip"));
    assert_eq!(
        name(Os::Windows, Architecture::X8664),
        Err("42 Tools currently supports macOS and Linux only.".to_string())
    );
    assert_eq!(
        name(Os::Linux, Architecture::X86),
        Err("42 Tools does not support platform `Os::Linux` / `Architecture::X86`".to_string())
    );
}

#[test]
fn unsupported_platforms_install_nothing() {
    let request = |os: Os, architecture: Architecture| {
        let step = FortyTwoToolsExtension::ensure_versioned_binaries(
            Platform { os, architecture },
            InstallEvent::Requested,
        );
        assert_eq!(step.status, None);
        match step.action {
            InstallAction::Finish(Err(error)) => error,
            other => panic!("expected a failure, got {other:?}"),
        }
    };
    assert_eq!(
        request(Os::Windows, Architecture::Aarch64),
        "42 Tools currently supports macOS and Linux only."
    );
    assert_eq!(
        request(Os::Mac, Architecture::X86),
        "42 Tools does not have release assets for platform `Os::Mac` / `Architecture::X86`"
    );
}

#[test]
fn installed_server_is_not_downloaded() {
    let step = install(InstallEvent::Requested);
    assert_eq!(step.status, None);
    match step.action {
        InstallAction::Check(path) => assert_eq!(path, "v0.1.4/forty-two-tools-lsp"),
        other => panic!("expected a check, got {other:?}"),
    }
    let step = install(InstallEvent::Checked(true));
    assert_eq!(step.status, None);
    match step.action {
        InstallAction::Finish(Ok(paths)) => {
            assert_eq!(paths, FortyTwoToolsExtension::versioned_install_paths());
        }
        other => panic!("expected the paths, got {other:?}"),
    }
}

#[test]
fn missing_server_is_downloaded() {
    let step = install(InstallEvent::Checked(false));
    assert_eq!(step.status, Some(InstallationStatus::Downloading));
    assert!(matches!(step.action, InstallAction::CleanUp(directory) if directory == "v0.1.4"));
    match progress(DownloadEvent::CleanedUp(Ok(()))).action {
        InstallAction::LoadRelease { repository, tag } => {
            assert_eq!(repository, "EdizKeskin/42-tools-zed");
            assert_eq!(tag, "v0.1.4");
        }
        other => panic!("expected a release, got {other:?}"),
    }
    let release = GithubRelease {
        version: "v0.1.4".to_string(),
        assets: vec![asset("42-tools-mac-x86_64.zip"), asset("42-tools-linux-x86_64.zip")],
    };
    match progress(DownloadEvent::ReleaseLoaded(Ok(release))).action {
        InstallAction::Download { url, directory } => {
            assert_eq!(url, "https://example.com/42-tools-linux-x86_64.zip");
            assert_eq!(directory, "v0.1.4");
        }
        other => panic!("expected a download, got {other:?}"),
    }
    match progress(DownloadEvent::Downloaded(Ok(()))).action {
        InstallAction::MakeExecutable(path) => assert_eq!(path, "v0.1.4/forty-two-tools-lsp"),
        other => panic!("expected a file, got {other:?}"),
    }
    match progress(DownloadEvent::MadeExecutable(Ok(()))).action {
        InstallAction::Recheck(path) => assert_eq!(path, "v0.1.4/forty-two-tools-lsp"),
        other => panic!("expected a check, got {other:?}"),
    }
    let step = progress(DownloadEvent::Rechecked(true));
    assert_eq!(step.status, Some(InstallationStatus::Idle));
    assert!(matches!(step.action, InstallAction::Finish(Ok(_))));
}

#[test]
fn failed_installations_are_shown() {
    let offline = || "offline".to_string();
    assert_eq!(failure(progress(DownloadEvent::CleanedUp(Err(offline())))), "offline");
    assert_eq!(
        failure(progress(DownloadEvent::ReleaseLoaded(Err(offline())))),
        "failed to load GitHub release `v0.1.4` for `EdizKeskin/42-tools-zed`: offline"
    );
    let release = GithubRelease {
        version: "v0.1.4".to_string(),
        assets: Vec::new(),
    };
    assert_eq!(
        failure(progress(DownloadEvent::ReleaseLoaded(Ok(release)))),
        "GitHub release `v0.1.4` is missing asset `42-tools-linux-x86_64.zip`"
    );
    assert_eq!(
        failure(progress(DownloadEvent::Downloaded(Err(offline())))),
        "failed to download `42-tools-linux-x86_64.zip`: offline"
    );
    assert_eq!(
        failure(progress(DownloadEvent::MadeExecutable(Err(offline())))),
        "failed to mark `forty-two-tools-lsp` as executable: offline"
    );
    assert_eq!(
        failure(progress(DownloadEvent::Rechecked(false))),
        "release asset `42-tools-linux-x86_64.zip` did not unpack the expected files into `v0.1.4`"
    );
}

#[test]
fn cleanup_removes_directories_of_other_versions() {
    let seen = |is_directory: bool, name: Option<&str>| {
        FortyTwoToolsExtension::cleanup_old_installs(
            "v0.1.4",
            CleanupEvent::Entry(Ok(DirectoryEntry {
                is_directory,
                name: name.map(|name| name.to_string()),
            })),
        )
    };
    assert!(matches!(seen(true, Some("v0.1.3")), CleanupAction::Remove));
    assert!(matches!(seen(true, Some("v0.1.4")), CleanupAction::Next));
    assert!(matches!(seen(true, Some("cache")), CleanupAction::Next));
    assert!(matches!(seen(true, Some("")), CleanupAction::Next));
    assert!(matches!(seen(true, None), CleanupAction::Next));
    assert!(matches!(seen(false, Some("v0.1.3")), CleanupAction::Next));
}

#[test]
fn cleanup_reports_what_went_wrong() {
    let next = |event: CleanupEvent| FortyTwoToolsExtension::cleanup_old_installs("v0.1.4", event);
    assert!(matches!(next(CleanupEvent::Listed(true)), CleanupAction::Next));
    assert!(matches!(next(CleanupEvent::Listed(false)), CleanupAction::Finish(Ok(()))));
    assert!(matches!(next(CleanupEvent::Exhausted), CleanupAction::Finish(Ok(()))));
    match next(CleanupEvent::Entry(Err("denied".to_string()))) {
        CleanupAction::Finish(Err(error)) => {
            assert_eq!(error, "failed to inspect extension work dir: denied");
        }
        other => panic!("expected a failure, got {other:?}"),
    }
    let removed = |outcome: Result<(), String>| CleanupEvent::Removed {
        path: "./v0.1.3".to_string(),
        outcome,
    };
    assert!(matches!(next(removed(Ok(()))), CleanupAction::Next));
    match next(removed(Err("denied".to_string()))) {
        CleanupAction::Finish(Err(error)) => assert_eq!(
            error,
            "failed to remove old bundled tool directory `./v0.1.3`: denied"
        ),
        other => panic!("expected a failure, got {other:?}"),
    }
}

#[test]
fn other_servers_are_refused() {
    assert!(FortyTwoToolsExtension::serves("42-tools-lsp"));
    assert!(!FortyTwoToolsExtension::serves("clangd"));
    assert_eq!(FortyTwoToolsExtension::check_language_server("42-tools-lsp"), Ok(()));
    assert_eq!(
        FortyTwoToolsExtension::check_language_server("clangd"),
        Err("unsupported language server id: clangd".to_string())
    );
}

#[test]
fn options_come_from_the_settings() {
    let one: Value = serde_json::from_str("1").expect("valid JSON");
    let two: Value = serde_json::from_str("2").expect("valid JSON");
    let loaded = || {
        OptionsEvent::Loaded(Ok(LspSettings {
            binary: None,
            initialization_options: Some(one.clone()),
            settings: Some(two.clone()),
        }))
    };
    let answer = |action: OptionsAction| match action {
        OptionsAction::Finish(answer) => answer,
        OptionsAction::Load => panic!("expected an answer"),
    };
    let options = FortyTwoToolsExtension::language_server_initialization_options;
    let configuration = FortyTwoToolsExtension::language_server_workspace_configuration;
    assert!(matches!(options("42-tools-lsp", OptionsEvent::Requested), OptionsAction::Load));
    assert!(matches!(configuration("42-tools-lsp", OptionsEvent::Requested), OptionsAction::Load));
    assert_eq!(answer(options("42-tools-lsp", loaded())), Ok(Some(one.clone())));
    assert_eq!(answer(configuration("42-tools-lsp", loaded())), Ok(Some(two.clone())));
    let broken = || OptionsEvent::Loaded(Err("broken".to_string()));
    assert_eq!(answer(options("42-tools-lsp", broken())), Err("broken".to_string()));
    assert_eq!(answer(configuration("42-tools-lsp", broken())), Err("broken".to_string()));
    assert_eq!(answer(options("clangd", OptionsEvent::Requested)), Ok(None));
    assert_eq!(answer(configuration("clangd", OptionsEvent::Requested)), Ok(None));
}

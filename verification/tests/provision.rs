use mpls_provision::platform::{identify, Arch, Os, Platform, PlatformArch};
use mpls_provision::release::{find_asset, online_step, plan_online, Asset, OnlineDirective, Release};
use mpls_provision::names::FileType;
use mpls_provision::offline::{installed_executable_path, parse_install_dir, select_offline};
use mpls_provision::resolver::{launch_args, Error, Mpls, ResolveStep};

fn linux_amd64() -> Platform {
    Platform { os: Os::Linux, arch: PlatformArch::Amd64 }
}

fn asset(name: &str, url: &str) -> Asset {
    Asset { name: name.to_string(), download_url: url.to_string() }
}

#[test]
fn identify_supported_pairs() {
    for os in [Os::Linux, Os::Mac, Os::Windows] {
        assert_eq!(
            identify(os, Arch::Aarch64),
            Ok(Platform { os, arch: PlatformArch::Arm64 })
        );
        assert_eq!(
            identify(os, Arch::X8664),
            Ok(Platform { os, arch: PlatformArch::Amd64 })
        );
    }
}

#[test]
fn identify_rejects_unsupported_arch() {
    for os in [Os::Linux, Os::Mac, Os::Windows] {
        let err = identify(os, Arch::X86).unwrap_err();
        assert_eq!(err, Error::UnsupportedArchitecture { arch: Arch::X86 });
        assert_eq!(err.message(), "X86 is not supported by MPLS");
    }
}

#[test]
fn derived_names_linux_amd64() {
    let plan = plan_online("v1.2.3", linux_amd64());
    assert_eq!(plan.archived_name, "mpls_1.2.3_linux_amd64.tar.gz");
    assert_eq!(plan.unarchived_name, "mpls_1.2.3_linux_amd64");
    assert_eq!(plan.executable_path, "mpls_1.2.3_linux_amd64/mpls");
    assert_eq!(plan.file_type, FileType::GzipTar);
}

#[test]
fn derived_names_windows_and_mac() {
    let plan = plan_online(
        "v0.16.0",
        Platform { os: Os::Windows, arch: PlatformArch::Arm64 },
    );
    assert_eq!(plan.archived_name, "mpls_0.16.0_windows_arm64.zip");
    assert_eq!(plan.file_type, FileType::Zip);
    let plan = plan_online("v0.16.0", Platform { os: Os::Mac, arch: PlatformArch::Amd64 });
    assert_eq!(plan.archived_name, "mpls_0.16.0_darwin_amd64.tar.gz");
    assert_eq!(plan.executable_path, "mpls_0.16.0_darwin_amd64/mpls");
}

#[test]
fn online_reuses_existing_install_without_download() {
    // Even with no matching asset, an existing unarchived executable is
    // reused and nothing is downloaded.
    let plan = plan_online("v1.2.3", linux_amd64());
    let directive = online_step(&plan, true, &vec![]).unwrap();
    assert_eq!(directive, OnlineDirective::UseExisting);
}

#[test]
fn online_downloads_exact_asset_match() {
    let plan = plan_online("v1.2.3", linux_amd64());
    let assets = vec![
        asset("mpls_1.2.3_darwin_amd64.tar.gz", "u0"),
        asset("mpls_1.2.3_linux_amd64.tar.gz", "u1"),
        asset("mpls_1.2.3_linux_amd64.tar.gz.sha256", "u2"),
    ];
    let directive = online_step(&plan, false, &assets).unwrap();
    assert_eq!(directive, OnlineDirective::Download { asset: 1 });
}

#[test]
fn online_fails_without_exact_asset_match() {
    let plan = plan_online("v1.2.3", linux_amd64());
    let assets = vec![asset("mpls_1.2.3_linux_arm64.tar.gz", "u0")];
    let err = online_step(&plan, false, &assets).unwrap_err();
    assert_eq!(err, Error::AssetNotFound);
    assert_eq!(err.message(), "Can't find the executable in MPLS GitHub release.");
}

#[test]
fn find_asset_returns_first_exact_match() {
    let assets = vec![asset("a", "u0"), asset("b", "u1"), asset("b", "u2")];
    assert_eq!(find_asset(&assets, &"b".to_string()), Some(1));
    assert_eq!(find_asset(&assets, &"c".to_string()), None);
}

#[test]
fn offline_selects_highest_matching_version() {
    let names = vec![
        "mpls_1.2.0_linux_amd64".to_string(),
        "mpls_1.3.0_linux_amd64".to_string(),
        "mpls_1.3.0_darwin_amd64".to_string(),
    ];
    let path = select_offline(&names, linux_amd64()).unwrap();
    assert_eq!(path, "mpls_1.3.0_linux_amd64/mpls");
}

#[test]
fn offline_ignores_other_platforms_even_when_higher() {
    let names = vec![
        "mpls_1.3.0_linux_amd64".to_string(),
        "mpls_9.9.9_darwin_amd64".to_string(),
        "mpls_9.9.9_linux_arm64".to_string(),
        "mpls_9.9.9_windows_amd64".to_string(),
    ];
    let path = select_offline(&names, linux_amd64()).unwrap();
    assert_eq!(path, "mpls_1.3.0_linux_amd64/mpls");
}

#[test]
fn offline_orders_versions_numerically_not_textually() {
    let names = vec![
        "mpls_0.9.0_linux_amd64".to_string(),
        "mpls_0.10.0_linux_amd64".to_string(),
        "mpls_0.2.11_linux_amd64".to_string(),
    ];
    let path = select_offline(&names, linux_amd64()).unwrap();
    assert_eq!(path, "mpls_0.10.0_linux_amd64/mpls");
}

#[test]
fn offline_fails_when_nothing_matches() {
    let names = vec![
        "src".to_string(),
        "mpls_1.3.0_darwin_amd64".to_string(),
        "mpls-1.3.0-linux-amd64".to_string(),
        "".to_string(),
    ];
    let err = select_offline(&names, linux_amd64()).unwrap_err();
    assert_eq!(err, Error::NoInstallationFound);
    assert_eq!(
        err.message(),
        "No installation of MPLS has found. We can't install it because we have no internet connection."
    );
}

#[test]
fn parse_accepts_exact_shape_only() {
    let p = linux_amd64();
    let some = |s: &str| parse_install_dir(&s.to_string(), p);
    assert_eq!(some("mpls_1.2.3_linux_amd64"), Some((1, 2, 3)));
    assert_eq!(some("mpls_0.16.0_linux_amd64"), Some((0, 16, 0)));
    // Digit runs may carry leading zeros; their value decides.
    assert_eq!(some("mpls_01.2.3_linux_amd64"), Some((1, 2, 3)));
    assert_eq!(some("mpls_1.2.3_darwin_amd64"), None);
    assert_eq!(some("mpls_1.2.3_linux_arm64"), None);
    assert_eq!(some("mpls_1.2_linux_amd64"), None);
    assert_eq!(some("mpls_1.2.3.4_linux_amd64"), None);
    assert_eq!(some("mpls_1..3_linux_amd64"), None);
    assert_eq!(some("mpls_.2.3_linux_amd64"), None);
    assert_eq!(some("mpls_1.2._linux_amd64"), None);
    assert_eq!(some("mpls_1.2.3_linux_amd64x"), None);
    assert_eq!(some("xmpls_1.2.3_linux_amd64"), None);
    assert_eq!(some("mpls_1.2.3linux_amd64"), None);
    assert_eq!(some("mpls_a.2.3_linux_amd64"), None);
    assert_eq!(some("mpls"), None);
    assert_eq!(some(""), None);
}

#[test]
fn parse_rejects_component_beyond_u64() {
    let p = linux_amd64();
    // u64::MAX is 18446744073709551615; one more does not fit.
    let fits = "mpls_18446744073709551615.0.1_linux_amd64".to_string();
    assert_eq!(parse_install_dir(&fits, p), Some((u64::MAX, 0, 1)));
    let over = "mpls_18446744073709551616.0.1_linux_amd64".to_string();
    assert_eq!(parse_install_dir(&over, p), None);
}

#[test]
fn installed_path_renders_versions_canonically() {
    assert_eq!(
        installed_executable_path((0, 10, 305), linux_amd64()),
        "mpls_0.10.305_linux_amd64/mpls"
    );
    assert_eq!(
        installed_executable_path(
            (1, 2, 3),
            Platform { os: Os::Mac, arch: PlatformArch::Arm64 }
        ),
        "mpls_1.2.3_darwin_arm64/mpls"
    );
}

#[test]
fn resolution_is_cached_per_instance() {
    let mut m = Mpls::new();
    assert!(m.language_server_path.is_none());
    assert!(!m.is_resolved());
    assert_eq!(m.begin_resolution(None), ResolveStep::FetchRelease);
    assert!(m.language_server_path.is_none());
    m.commit("mpls_1.3.0_linux_amd64/mpls".to_string());
    assert!(m.is_resolved());
    // A second resolution short-circuits on the cached path and changes
    // nothing, whatever ambient path is offered now.
    assert_eq!(
        m.begin_resolution(Some("/usr/bin/mpls".to_string())),
        ResolveStep::AlreadyResolved
    );
    assert_eq!(
        m.language_server_path.as_deref(),
        Some("mpls_1.3.0_linux_amd64/mpls")
    );
    let first = m.launch_command().unwrap();
    assert_eq!(m.begin_resolution(None), ResolveStep::AlreadyResolved);
    let second = m.launch_command().unwrap();
    assert_eq!(first, second);
}

#[test]
fn ambient_installation_bypasses_provisioning() {
    let mut m = Mpls::new();
    assert_eq!(
        m.begin_resolution(Some("/usr/bin/mpls".to_string())),
        ResolveStep::UseAmbient
    );
    assert_eq!(m.language_server_path.as_deref(), Some("/usr/bin/mpls"));
}

#[test]
fn launch_command_always_carries_the_three_flags() {
    assert!(Mpls::new().launch_command().is_none());
    let flags = vec!["--enable-emoji", "--enable-wikilinks", "--enable-footnotes"];
    let mut online = Mpls::new();
    online.commit("mpls_1.2.3_linux_amd64/mpls".to_string());
    let (cmd, args) = online.launch_command().unwrap();
    assert_eq!(cmd, "mpls_1.2.3_linux_amd64/mpls");
    assert_eq!(args, flags);
    let mut ambient = Mpls::new();
    ambient.begin_resolution(Some("/usr/bin/mpls".to_string()));
    let (cmd, args) = ambient.launch_command().unwrap();
    assert_eq!(cmd, "/usr/bin/mpls");
    assert_eq!(args, flags);
    assert_eq!(launch_args(), flags);
}

#[test]
fn release_values_flow_through_the_plan() {
    let release = Release {
        version: "v1.2.3".to_string(),
        assets: vec![asset("mpls_1.2.3_linux_amd64.tar.gz", "https://example.invalid/a")],
    };
    let plan = plan_online(&release.version, linux_amd64());
    let directive = online_step(&plan, false, &release.assets).unwrap();
    match directive {
        OnlineDirective::Download { asset } => {
            assert_eq!(release.assets[asset].download_url, "https://example.invalid/a");
        }
        other => panic!("expected a download directive, got {:?}", other),
    }
}

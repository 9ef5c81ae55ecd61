use lodestone_cli::artifact::download_release;
use lodestone_cli::artifact::executable_name_without_version;
use lodestone_cli::artifact::get_executable_name;
use lodestone_cli::artifact::get_release_url;
use lodestone_cli::artifact::get_release_url_and_exe_path;
use lodestone_cli::artifact::get_release_url_and_executable_name;
use lodestone_cli::artifact::is_artifact_file_name;
use lodestone_cli::artifact::name_for;
use lodestone_cli::artifact::ReleaseTarget;
use lodestone_cli::error::UpdateError;
use lodestone_cli::version::Version;
use lodestone_cli::version::VersionWithV;

fn target(arch: &str, os: &str) -> ReleaseTarget {
    ReleaseTarget { arch: arch.to_string(), os: os.to_string() }
}

#[test]
fn supported_platforms_have_their_key() {
    assert_eq!(executable_name_without_version(&target("x86_64", "windows")).unwrap(), "lodestone_core_windows_x86_64");
    assert_eq!(executable_name_without_version(&target("x86_64", "linux")).unwrap(), "lodestone_core_linux_x86_64");
    assert_eq!(executable_name_without_version(&target("aarch64", "linux")).unwrap(), "lodestone_core_linux_aarch");
    assert_eq!(executable_name_without_version(&target("aarch64", "macos")).unwrap(), "lodestone_core_macos_aarch");
}

#[test]
fn unsupported_platforms_have_none() {
    for (arch, os) in [("x86_64", "macos"), ("aarch64", "windows"), ("x86", "linux"), ("arm", "linux"), ("", ""), ("X86_64", "linux"), ("x86_64", "Linux"), ("linux", "x86_64")] {
        assert!(executable_name_without_version(&target(arch, os)).is_none());
        assert_eq!(name_for(&Version::new(1, 0, 0), &target(arch, os)).unwrap_err(), UpdateError::UnsupportedPlatform);
        let tagged = VersionWithV::from_str("v1.0.0").unwrap();
        assert_eq!(get_executable_name(&tagged, &target(arch, os)).unwrap_err(), UpdateError::UnsupportedPlatform);
        assert_eq!(get_release_url(&tagged, &target(arch, os)).unwrap_err(), UpdateError::UnsupportedPlatform);
        assert_eq!(download_release(&tagged, &target(arch, os)).unwrap_err(), UpdateError::UnsupportedPlatform);
    }
}

#[test]
fn name_for_templates_file_name_and_address() {
    let d = name_for(&Version::parse("1.3.0").unwrap(), &target("x86_64", "linux")).unwrap();
    assert_eq!(d.expected_filename, "lodestone_core_linux_x86_64_1.3.0");
    assert_eq!(
        d.download_url,
        "https://github.com/Lodestone-Team/lodestone_core/releases/download/v1.3.0/lodestone_core_linux_x86_64_1.3.0"
    );
    let w = name_for(&Version::parse("0.4.2-beta.1").unwrap(), &target("x86_64", "windows")).unwrap();
    assert_eq!(w.expected_filename, "lodestone_core_windows_x86_64_0.4.2-beta.1.exe");
    assert_eq!(
        w.download_url,
        "https://github.com/Lodestone-Team/lodestone_core/releases/download/v0.4.2-beta.1/lodestone_core_windows_x86_64_0.4.2-beta.1.exe"
    );
    let m = name_for(&Version::new(2, 0, 0), &target("aarch64", "macos")).unwrap();
    assert_eq!(m.expected_filename, "lodestone_core_macos_aarch_2.0.0");
}

#[test]
fn name_for_gives_the_same_descriptor_every_time() {
    let v = Version::parse("1.3.0+build").unwrap();
    let t = target("aarch64", "linux");
    let first = name_for(&v, &t).unwrap();
    let second = name_for(&v.clone(), &target("aarch64", "linux")).unwrap();
    assert_eq!(first.expected_filename, second.expected_filename);
    assert_eq!(first.download_url, second.download_url);
    assert_eq!(first.expected_filename, "lodestone_core_linux_aarch_1.3.0+build");
}

#[test]
fn tagged_versions_have_the_bare_name_and_the_tag_in_the_address() {
    let v = VersionWithV::from_str("v0.4.2").unwrap();
    assert_eq!(get_executable_name(&v, &target("x86_64", "linux")).unwrap(), "lodestone_core_linux_x86_64_0.4.2");
    assert_eq!(get_executable_name(&v, &target("x86_64", "windows")).unwrap(), "lodestone_core_windows_x86_64_0.4.2.exe");
    assert_eq!(
        get_release_url(&v, &target("aarch64", "macos")).unwrap(),
        "https://github.com/Lodestone-Team/lodestone_core/releases/download/v0.4.2/lodestone_core_macos_aarch_0.4.2"
    );
    let d = download_release(&v, &target("aarch64", "linux")).unwrap();
    assert_eq!(d.expected_filename, "lodestone_core_linux_aarch_0.4.2");
    assert_eq!(
        d.download_url,
        "https://github.com/Lodestone-Team/lodestone_core/releases/download/v0.4.2/lodestone_core_linux_aarch_0.4.2"
    );
    let plain = name_for(&Version::parse("0.4.2").unwrap(), &target("aarch64", "linux")).unwrap();
    assert_eq!(plain.expected_filename, d.expected_filename);
    assert_eq!(plain.download_url, d.download_url);
}

#[test]
fn distinct_versions_have_distinct_file_names() {
    let texts = ["1.0.0", "1.0.0-1", "1.0.0-1.0", "1.0.0+1", "1.0.0-1+1", "10.0.0", "1.0.10", "1.10.0", "1.0.0--", "1.0.0-a-b", "1.0.0-a+b"];
    for os_target in [target("x86_64", "linux"), target("x86_64", "windows")] {
        let mut names = Vec::new();
        for t in texts {
            names.push(name_for(&Version::parse(t).unwrap(), &os_target).unwrap().expected_filename);
        }
        for i in 0..names.len() {
            for j in 0..names.len() {
                assert_eq!(names[i] == names[j], i == j, "{} and {}", texts[i], texts[j]);
            }
        }
    }
}

#[test]
fn artifact_names_are_recognised() {
    for name in [
        "lodestone_core_linux_x86_64_1.3.0",
        "lodestone_core_windows_x86_64_1.3.0.exe",
        "lodestone_core_linux_aarch_0.1.0-rc.1",
        "lodestone_core_macos_aarch_2.0.0+b",
        "lodestone_core_macos_aarch_",
    ] {
        assert!(is_artifact_file_name(name), "{name}");
    }
    for name in [
        "",
        "config.json",
        "lodestone_core_linux_x86_64",
        "lodestone_core_linux_x86_641.3.0",
        "lodestone_core_linux_x86_1.3.0",
        "Lodestone_core_linux_x86_64_1.3.0",
        "xlodestone_core_linux_x86_64_1.3.0",
        "lodestone_core_arm_v0.2.0",
    ] {
        assert!(!is_artifact_file_name(name), "{name}");
    }
    for (arch, os) in [("x86_64", "windows"), ("x86_64", "linux"), ("aarch64", "linux"), ("aarch64", "macos")] {
        let d = name_for(&Version::parse("1.2.3-rc.1").unwrap(), &target(arch, os)).unwrap();
        assert!(is_artifact_file_name(&d.expected_filename));
    }
}

#[test]
fn first_releases_are_named_with_exe_everywhere() {
    let (url, name) = get_release_url_and_exe_path("v0.1.0", &target("x86_64", "windows")).unwrap();
    assert_eq!(name, "lodestone_core_windows_v0.1.0.exe");
    assert_eq!(url, "https://github.com/Lodestone-Team/lodestone_core/releases/download/v0.1.0/lodestone_core_windows_v0.1.0.exe");
    let (url, name) = get_release_url_and_exe_path("v0.1.0", &target("arm", "linux")).unwrap();
    assert_eq!(name, "lodestone_core_arm_v0.1.0.exe");
    assert_eq!(url, "https://github.com/Lodestone-Team/lodestone_core/releases/download/v0.1.0/lodestone_core_arm_v0.1.0.exe");
    let (_, name) = get_release_url_and_exe_path("v0.1.0", &target("x86", "linux")).unwrap();
    assert_eq!(name, "lodestone_core_v0.1.0.exe");
    assert_eq!(get_release_url_and_exe_path("v0.1.0", &target("x86_64", "linux")).unwrap_err(), UpdateError::UnsupportedPlatform);
    assert_eq!(get_release_url_and_exe_path("v0.1.0", &target("aarch64", "linux")).unwrap_err(), UpdateError::UnsupportedPlatform);
}

#[test]
fn later_releases_are_named_with_exe_on_windows_only() {
    let (url, name) = get_release_url_and_executable_name("v0.2.0", &target("x86_64", "windows")).unwrap();
    assert_eq!(name, "lodestone_core_windows_v0.2.0.exe");
    assert_eq!(url, "https://github.com/Lodestone-Team/lodestone_core/releases/download/v0.2.0/lodestone_core_windows_v0.2.0.exe");
    let (url, name) = get_release_url_and_executable_name("v0.2.0", &target("aarch64", "linux")).unwrap();
    assert_eq!(name, "lodestone_core_arm_v0.2.0");
    assert_eq!(url, "https://github.com/Lodestone-Team/lodestone_core/releases/download/v0.2.0/lodestone_core_arm_v0.2.0");
    let (_, name) = get_release_url_and_executable_name("v0.2.0", &target("x86", "linux")).unwrap();
    assert_eq!(name, "lodestone_core_v0.2.0");
    assert_eq!(get_release_url_and_executable_name("v0.2.0", &target("arm", "linux")).unwrap_err(), UpdateError::UnsupportedPlatform);
}

//! Artifact naming: from a version and the host's platform to the file name
//! of the executable and the address it is downloaded from.

use crate::error::UpdateError;
use crate::text::same_text;
use crate::text::starts_with;
use crate::text::starts_with_text;
use crate::version::law_text_is_one_to_one;
use crate::version::tag_text;
use crate::version::Version;
use crate::version::VersionView;
use crate::version::VersionWithV;
use vstd::prelude::*;
use vstd::string::StringExecFns;

verus! {

/// The platform that artifacts are selected for.
#[derive(Debug)]
pub struct ReleaseTarget {
    /// The CPU architecture, as `std::env::consts::ARCH` names it.
    pub arch: String,
    /// The operating system, as `std::env::consts::OS` names it.
    pub os: String,
}

/// The mathematical content of a release target.
pub struct TargetView {
    pub arch: Seq<char>,
    pub os: Seq<char>,
}

impl View for ReleaseTarget {
    type V = TargetView;

    open spec fn view(&self) -> TargetView {
        TargetView { arch: self.arch@, os: self.os@ }
    }
}

/// Where an artifact is found and what it is called on disk.
#[derive(Debug)]
pub struct ArtifactDescriptor {
    pub expected_filename: String,
    pub download_url: String,
}

/// The mathematical content of an artifact descriptor.
pub struct DescriptorView {
    pub expected_filename: Seq<char>,
    pub download_url: Seq<char>,
}

impl View for ArtifactDescriptor {
    type V = DescriptorView;

    open spec fn view(&self) -> DescriptorView {
        DescriptorView {
            expected_filename: self.expected_filename@,
            download_url: self.download_url@,
        }
    }
}

/// The address under which releases are published.
pub open spec fn release_host() -> Seq<char> {
    "https://github.com/Lodestone-Team/lodestone_core/"@
}

/// The supported platforms and the name of the executable on each, without
/// its version.
pub open spec fn platform_key(target: TargetView) -> Option<Seq<char>> {
    if target.arch == "x86_64"@ && target.os == "windows"@ {
        Some("lodestone_core_windows_x86_64"@)
    } else if target.arch == "x86_64"@ && target.os == "linux"@ {
        Some("lodestone_core_linux_x86_64"@)
    } else if target.arch == "aarch64"@ && target.os == "linux"@ {
        Some("lodestone_core_linux_aarch"@)
    } else if target.arch == "aarch64"@ && target.os == "macos"@ {
        Some("lodestone_core_macos_aarch"@)
    } else {
        None
    }
}

/// The file name of an artifact: the platform's key, `_`, the version as
/// written, and `.exe` on Windows.
pub open spec fn artifact_file_name(key: Seq<char>, version_text: Seq<char>, os: Seq<char>) -> Seq<
    char,
> {
    key + seq!['_'] + version_text + (if os == "windows"@ {
        ".exe"@
    } else {
        Seq::<char>::empty()
    })
}

/// The address of an artifact: the release host, `releases/download/`, the
/// version as written, `/`, the file name.
pub open spec fn artifact_url(version_text: Seq<char>, file_name: Seq<char>) -> Seq<char> {
    release_host() + "releases/download/"@ + version_text + seq!['/'] + file_name
}

/// The descriptor of the artifact of a version on a platform, or `None`
/// where the platform is not supported: the file name holds the version as
/// it is written bare, the address holds the version's tag.
pub open spec fn descriptor_for(version: VersionView, target: TargetView) -> Option<
    DescriptorView,
> {
    match platform_key(target) {
        Some(key) => Some(
            DescriptorView {
                expected_filename: artifact_file_name(key, version.text(), target.os),
                download_url: artifact_url(
                    tag_text(version),
                    artifact_file_name(key, version.text(), target.os),
                ),
            },
        ),
        None => None,
    }
}

/// The keys of the supported platforms.
pub open spec fn supported_keys() -> Seq<Seq<char>> {
    seq![
        "lodestone_core_windows_x86_64"@,
        "lodestone_core_linux_x86_64"@,
        "lodestone_core_linux_aarch"@,
        "lodestone_core_macos_aarch"@,
    ]
}

/// The name is that of an artifact of a supported platform: it begins with
/// one of the platform keys and `_`.
pub open spec fn is_artifact_name(name: Seq<char>) -> bool {
    exists|i: int|
        0 <= i < supported_keys().len() && starts_with(
            name,
            #[trigger] supported_keys()[i] + seq!['_'],
        )
}

/// Whether a file of this name is an artifact of a supported platform.
pub fn is_artifact_file_name(name: &str) -> (r: bool)
    ensures
        r == is_artifact_name(name@),
{
    proof {
        reveal_strlit("_");
    }
    let windows = begins_with(name, "lodestone_core_windows_x86_64", "_");
    let linux = begins_with(name, "lodestone_core_linux_x86_64", "_");
    let linux_arm = begins_with(name, "lodestone_core_linux_aarch", "_");
    let macos = begins_with(name, "lodestone_core_macos_aarch", "_");
    proof {
        let keys = supported_keys();
        assert("_"@ =~= seq!['_']);
        if is_artifact_name(name@) {
            let i = choose|i: int|
                0 <= i < supported_keys().len() && starts_with(
                    name@,
                    #[trigger] supported_keys()[i] + seq!['_'],
                );
            assert(i == 0 || i == 1 || i == 2 || i == 3);
        }
        assert(keys[0] == "lodestone_core_windows_x86_64"@);
        assert(keys[1] == "lodestone_core_linux_x86_64"@);
        assert(keys[2] == "lodestone_core_linux_aarch"@);
        assert(keys[3] == "lodestone_core_macos_aarch"@);
        if windows {
            assert(starts_with(name@, keys[0] + seq!['_']));
        }
        if linux {
            assert(starts_with(name@, keys[1] + seq!['_']));
        }
        if linux_arm {
            assert(starts_with(name@, keys[2] + seq!['_']));
        }
        if macos {
            assert(starts_with(name@, keys[3] + seq!['_']));
        }
    }
    windows || linux || linux_arm || macos
}

fn begins_with(name: &str, key: &str, separator: &str) -> (r: bool)
    ensures
        r == starts_with(name@, key@ + separator@),
{
    let mut prefix = String::from_str(key);
    prefix.append(separator);
    starts_with_text(name, prefix.as_str())
}

/// The name of the executable for the platform, without its version;
/// `None` where the platform is not supported.
pub fn executable_name_without_version(target: &ReleaseTarget) -> (r: Option<String>)
    ensures
        match r {
            Some(name) => platform_key(target@) == Some(name@),
            None => platform_key(target@) is None,
        },
{
    let arch = target.arch.as_str();
    let os = target.os.as_str();
    if same_text(arch, "x86_64") && same_text(os, "windows") {
        Some(String::from_str("lodestone_core_windows_x86_64"))
    } else if same_text(arch, "x86_64") && same_text(os, "linux") {
        Some(String::from_str("lodestone_core_linux_x86_64"))
    } else if same_text(arch, "aarch64") && same_text(os, "linux") {
        Some(String::from_str("lodestone_core_linux_aarch"))
    } else if same_text(arch, "aarch64") && same_text(os, "macos") {
        Some(String::from_str("lodestone_core_macos_aarch"))
    } else {
        None
    }
}

fn file_name_for(version_text: &str, target: &ReleaseTarget) -> (r: Result<String, UpdateError>)
    ensures
        match r {
            Ok(name) => platform_key(target@) is Some && name@ == artifact_file_name(
                platform_key(target@)->0,
                version_text@,
                target@.os,
            ),
            Err(e) => e == UpdateError::UnsupportedPlatform && platform_key(target@) is None,
        },
{
    match executable_name_without_version(target) {
        Some(key) => {
            proof {
                reveal_strlit("_");
            }
            let ghost key_text = key@;
            let mut name = key;
            name.append("_");
            name.append(version_text);
            if same_text(target.os.as_str(), "windows") {
                name.append(".exe");
            }
            assert(name@ =~= artifact_file_name(key_text, version_text@, target@.os));
            Ok(name)
        },
        None => Err(UpdateError::UnsupportedPlatform),
    }
}

fn url_for(version_text: &str, file_name: &str) -> (r: String)
    ensures
        r@ == artifact_url(version_text@, file_name@),
{
    proof {
        reveal_strlit("/");
    }
    let mut url = String::from_str("https://github.com/Lodestone-Team/lodestone_core/");
    url.append("releases/download/");
    url.append(version_text);
    url.append("/");
    url.append(file_name);
    assert(url@ =~= artifact_url(version_text@, file_name@));
    url
}

fn describe(version: &Version, target: &ReleaseTarget) -> (r: Result<
    ArtifactDescriptor,
    UpdateError,
>)
    ensures
        match r {
            Ok(d) => descriptor_for(version@, target@) == Some(d@),
            Err(e) => e == UpdateError::UnsupportedPlatform && platform_key(target@) is None,
        },
{
    let text = version.to_string();
    match file_name_for(text.as_str(), target) {
        Ok(name) => {
            proof {
                reveal_strlit("v");
            }
            let mut tag = String::from_str("v");
            tag.append(text.as_str());
            assert(tag@ =~= tag_text(version@));
            let url = url_for(tag.as_str(), name.as_str());
            Ok(ArtifactDescriptor { expected_filename: name, download_url: url })
        },
        Err(e) => Err(e),
    }
}

/// The artifact of `version` on `target`: the file name is templated from
/// the platform's key and the version's text, the address from the
/// version's tag and the file name. A platform outside the supported ones
/// is an error, never a default.
pub fn name_for(version: &Version, target: &ReleaseTarget) -> (r: Result<
    ArtifactDescriptor,
    UpdateError,
>)
    ensures
        match r {
            Ok(d) => descriptor_for(version@, target@) == Some(d@),
            Err(e) => e == UpdateError::UnsupportedPlatform && platform_key(target@) is None,
        },
{
    describe(version, target)
}

/// The file name of the executable of a tagged version on `target`.
pub fn get_executable_name(version: &VersionWithV, target: &ReleaseTarget) -> (r: Result<
    String,
    UpdateError,
>)
    ensures
        match r {
            Ok(name) => descriptor_for(version@, target@) is Some && name@ == descriptor_for(
                version@,
                target@,
            )->0.expected_filename,
            Err(e) => e == UpdateError::UnsupportedPlatform && platform_key(target@) is None,
        },
{
    match describe(&version.0, target) {
        Ok(d) => Ok(d.expected_filename),
        Err(e) => Err(e),
    }
}

/// The address from which the executable of a tagged version is downloaded
/// on `target`.
pub fn get_release_url(version: &VersionWithV, target: &ReleaseTarget) -> (r: Result<
    String,
    UpdateError,
>)
    ensures
        match r {
            Ok(url) => descriptor_for(version@, target@) is Some && url@ == descriptor_for(
                version@,
                target@,
            )->0.download_url,
            Err(e) => e == UpdateError::UnsupportedPlatform && platform_key(target@) is None,
        },
{
    match describe(&version.0, target) {
        Ok(d) => Ok(d.download_url),
        Err(e) => Err(e),
    }
}

/// What is downloaded for a tagged version on `target`, and under which
/// file name it is placed in the install directory.
pub fn download_release(version: &VersionWithV, target: &ReleaseTarget) -> (r: Result<
    ArtifactDescriptor,
    UpdateError,
>)
    ensures
        match r {
            Ok(d) => descriptor_for(version@, target@) == Some(d@),
            Err(e) => e == UpdateError::UnsupportedPlatform && platform_key(target@) is None,
        },
{
    describe(&version.0, target)
}

/// The file names of the first published releases, by platform: always
/// with `.exe`, and with the tag as it stands.
pub open spec fn first_release_name(tag: Seq<char>, target: TargetView) -> Option<Seq<char>> {
    if target.arch == "x86_64"@ && target.os == "windows"@ {
        Some("lodestone_core_windows_"@ + tag + ".exe"@)
    } else if target.arch == "arm"@ && target.os == "linux"@ {
        Some("lodestone_core_arm_"@ + tag + ".exe"@)
    } else if target.arch == "x86"@ && target.os == "linux"@ {
        Some("lodestone_core_"@ + tag + ".exe"@)
    } else {
        None
    }
}

/// The file names of the releases that followed, by platform: `.exe` on
/// Windows only.
pub open spec fn second_release_name(tag: Seq<char>, target: TargetView) -> Option<Seq<char>> {
    if target.arch == "x86_64"@ && target.os == "windows"@ {
        Some("lodestone_core_windows_"@ + tag + ".exe"@)
    } else if target.arch == "aarch64"@ && target.os == "linux"@ {
        Some("lodestone_core_arm_"@ + tag)
    } else if target.arch == "x86"@ && target.os == "linux"@ {
        Some("lodestone_core_"@ + tag)
    } else {
        None
    }
}

fn named(prefix: &str, tag: &str, suffix: &str) -> (r: String)
    ensures
        r@ == prefix@ + tag@ + suffix@,
{
    let mut name = String::from_str(prefix);
    name.append(tag);
    name.append(suffix);
    name
}

/// The address and the file name of one of the first published releases,
/// for the tag as the registry writes it.
pub fn get_release_url_and_exe_path(version: &str, target: &ReleaseTarget) -> (r: Result<
    (String, String),
    UpdateError,
>)
    ensures
        match r {
            Ok((url, name)) => first_release_name(version@, target@) == Some(name@) && url@
                == artifact_url(version@, name@),
            Err(e) => e == UpdateError::UnsupportedPlatform && first_release_name(
                version@,
                target@,
            ) is None,
        },
{
    proof {
        reveal_strlit("");
    }
    let arch = target.arch.as_str();
    let os = target.os.as_str();
    let name = if same_text(arch, "x86_64") && same_text(os, "windows") {
        named("lodestone_core_windows_", version, ".exe")
    } else if same_text(arch, "arm") && same_text(os, "linux") {
        named("lodestone_core_arm_", version, ".exe")
    } else if same_text(arch, "x86") && same_text(os, "linux") {
        named("lodestone_core_", version, ".exe")
    } else {
        return Err(UpdateError::UnsupportedPlatform);
    };
    let url = url_for(version, name.as_str());
    Ok((url, name))
}

/// The address and the file name of one of the releases that followed the
/// first, for the tag as the registry writes it.
pub fn get_release_url_and_executable_name(version: &str, target: &ReleaseTarget) -> (r: Result<
    (String, String),
    UpdateError,
>)
    ensures
        match r {
            Ok((url, name)) => second_release_name(version@, target@) == Some(name@) && url@
                == artifact_url(version@, name@),
            Err(e) => e == UpdateError::UnsupportedPlatform && second_release_name(
                version@,
                target@,
            ) is None,
        },
{
    proof {
        reveal_strlit("");
    }
    let arch = target.arch.as_str();
    let os = target.os.as_str();
    let name = if same_text(arch, "x86_64") && same_text(os, "windows") {
        named("lodestone_core_windows_", version, ".exe")
    } else if same_text(arch, "aarch64") && same_text(os, "linux") {
        let n = named("lodestone_core_arm_", version, "");
        assert(n@ =~= "lodestone_core_arm_"@ + version@);
        n
    } else if same_text(arch, "x86") && same_text(os, "linux") {
        let n = named("lodestone_core_", version, "");
        assert(n@ =~= "lodestone_core_"@ + version@);
        n
    } else {
        return Err(UpdateError::UnsupportedPlatform);
    };
    let url = url_for(version, name.as_str());
    Ok((url, name))
}

/// A platform outside the supported ones has no artifact, whatever the
/// version.
pub proof fn law_unsupported_platform_has_no_artifact(version: VersionView, target: TargetView)
    requires
        platform_key(target) is None,
    ensures
        descriptor_for(version, target) is None,
{
}

/// The descriptor depends on nothing but the version and the platform:
/// equal inputs give equal descriptors.
pub proof fn law_naming_is_a_function(
    first: VersionView,
    first_target: TargetView,
    second: VersionView,
    second_target: TargetView,
)
    requires
        first == second,
        first_target.arch == second_target.arch,
        first_target.os == second_target.os,
    ensures
        descriptor_for(first, first_target) == descriptor_for(second, second_target),
{
}

/// Different versions are placed under different file names on one
/// platform.
pub proof fn law_distinct_versions_have_distinct_file_names(
    first: VersionView,
    second: VersionView,
    target: TargetView,
)
    requires
        first.wf(),
        second.wf(),
        platform_key(target) is Some,
        first != second,
    ensures
        descriptor_for(first, target)->0.expected_filename != descriptor_for(
            second,
            target,
        )->0.expected_filename,
{
    let key = platform_key(target)->0;
    let head = key + seq!['_'];
    let tail = if target.os == "windows"@ {
        ".exe"@
    } else {
        Seq::<char>::empty()
    };
    let a = descriptor_for(first, target)->0.expected_filename;
    let b = descriptor_for(second, target)->0.expected_filename;
    if a == b {
        assert(a == head + first.text() + tail);
        assert(b == head + second.text() + tail);
        assert(a.len() == head.len() + first.text().len() + tail.len());
        assert(b.len() == head.len() + second.text().len() + tail.len());
        assert forall|i: int| 0 <= i < first.text().len() implies first.text()[i]
            == second.text()[i] by {
            assert(a[head.len() + i] == first.text()[i]);
            assert(b[head.len() + i] == second.text()[i]);
        }
        assert(first.text() =~= second.text());
        law_text_is_one_to_one(first, second);
    }
}

/// The file under which an artifact is placed has an artifact name, for
/// every version and every supported platform.
pub proof fn law_placed_artifacts_have_artifact_names(version: VersionView, target: TargetView)
    requires
        platform_key(target) is Some,
    ensures
        is_artifact_name(descriptor_for(version, target)->0.expected_filename),
{
    let key = platform_key(target)->0;
    let name = descriptor_for(version, target)->0.expected_filename;
    let keys = supported_keys();
    let i: int = if key == keys[0] {
        0
    } else if key == keys[1] {
        1
    } else if key == keys[2] {
        2
    } else {
        3
    };
    assert(keys[i] == key);
    assert(name.subrange(0, (key + seq!['_']).len() as int) =~= key + seq!['_']);
    assert(starts_with(name, keys[i] + seq!['_']));
}

} // verus!

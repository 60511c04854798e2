use vstd::prelude::*;
use vstd::string::StringExecFns;

use crate::version::{
    lemma_le_total_transitive, lemma_version_order_fields, version_le, version_view, Version,
    VersionView,
};
use crate::version_type::VersionType;

verus! {

/// The installable components that the Android modules are made of.
#[derive(Debug, Clone, Copy, PartialEq, Eq, Structural, Hash)]
pub enum Component {
    AndroidOpenJdk,
    AndroidSdkNdkTools,
    AndroidSdkPlatformTools,
    AndroidSdkBuildTools,
    AndroidSdkPlatforms,
    AndroidNdk,
}

/// One downloadable part of an editor module: where to get it, how large it
/// is, and which directory, if any, is to be renamed once it is unpacked.
#[derive(Debug, Clone)]
pub struct ModulePart {
    pub component: Component,
    pub name: String,
    pub download_url: String,
    pub version: String,
    pub main: bool,
    pub installed_size: u64,
    pub download_size: u64,
    pub rename_from: Option<String>,
    pub rename_to: Option<String>,
}

/// The text of an optional path.
pub open spec fn optional_text(p: Option<String>) -> Option<Seq<char>> {
    match p {
        Some(s) => Some(s@),
        None => None,
    }
}

/// `p` is the part with exactly these contents.
pub open spec fn part_is(
    p: ModulePart,
    component: Component,
    name: Seq<char>,
    download_url: Seq<char>,
    version: Seq<char>,
    main: bool,
    installed_size: u64,
    download_size: u64,
    rename_from: Option<Seq<char>>,
    rename_to: Option<Seq<char>>,
) -> bool {
    &&& p.component == component
    &&& p.name@ == name
    &&& p.download_url@ == download_url
    &&& p.version@ == version
    &&& p.main == main
    &&& p.installed_size == installed_size
    &&& p.download_size == download_size
    &&& optional_text(p.rename_from) == rename_from
    &&& optional_text(p.rename_to) == rename_to
}

/// The first editor version that ships with NDK r19: 2019.3.0a0.
pub open spec fn first_r19_editor() -> VersionView {
    version_view(2019, 3, 0, VersionType::Alpha, 0)
}

/// Editors from 2019.3.0a0 on take NDK r19; older ones take r16b.
pub open spec fn takes_ndk_r19(version: VersionView) -> bool {
    version_le(first_r19_editor(), version)
}

/// An editor takes NDK r19 exactly when it is 2019.3 or later: its major
/// number is above 2019, or it is 2019 and its minor number is at least 3. So
/// the choice only moves one way as versions grow.
pub proof fn lemma_ndk_r19_threshold(v: VersionView, w: VersionView)
    ensures
        takes_ndk_r19(v) <==> v.major > 2019 || (v.major == 2019 && v.minor >= 3),
        version_le(v, w) && takes_ndk_r19(v) ==> takes_ndk_r19(w),
{
    lemma_version_order_fields(first_r19_editor(), v);
    lemma_version_order_fields(v, w);
    lemma_version_order_fields(first_r19_editor(), w);
    if version_le(v, w) && takes_ndk_r19(v) {
        lemma_le_total_transitive(first_r19_editor(), v, w);
    }
}

/// The OpenJDK part of the Android module, the same for every editor version.
pub fn get_android_open_jdk_download_info(_version: &Version) -> (r: ModulePart)
    ensures
        part_is(
            r,
            Component::AndroidOpenJdk,
            "OpenJDK"@,
            "http://download.unity3d.com/download_unity/open-jdk/open-jdk-linux-x64/jdk8u172-b11_4be8440cc514099cfe1b50cbc74128f6955cd90fd5afe15ea7be60f832de67b4.zip"@,
            "8u172-b11"@,
            true,
            73_170_000,
            162_000_000,
            None,
            None,
        ),
{
    ModulePart {
        component: Component::AndroidOpenJdk,
        name: String::from_str("OpenJDK"),
        download_url: String::from_str(
            "http://download.unity3d.com/download_unity/open-jdk/open-jdk-linux-x64/jdk8u172-b11_4be8440cc514099cfe1b50cbc74128f6955cd90fd5afe15ea7be60f832de67b4.zip",
        ),
        version: String::from_str("8u172-b11"),
        main: true,
        installed_size: 73_170_000,
        download_size: 162_000_000,
        rename_from: None,
        rename_to: None,
    }
}

/// The parts of the Android SDK & NDK module for the given editor version: the
/// SDK tools, platform tools, build tools and platforms, and the NDK release
/// that the editor version takes (r19 from 2019.3.0a0 on, r16b before).
pub fn get_android_sdk_ndk_download_info(version: &Version) -> (r: Vec<ModulePart>)
    ensures
        r.len() == 5,
        part_is(
            r[0],
            Component::AndroidSdkNdkTools,
            "Android SDK & NDK Tools"@,
            "https://dl.google.com/android/repository/sdk-tools-linux-4333796.zip"@,
            "26.1.1"@,
            true,
            174_000_000,
            148_000_000,
            None,
            None,
        ),
        part_is(
            r[1],
            Component::AndroidSdkPlatformTools,
            "Android SDK Platform Tools"@,
            "https://dl.google.com/android/repository/platform-tools_r28.0.1-linux.zip"@,
            "28.0.1"@,
            false,
            15_700_000,
            4_550_000,
            None,
            None,
        ),
        part_is(
            r[2],
            Component::AndroidSdkBuildTools,
            "Android SDK Build Tools"@,
            "https://dl.google.com/android/repository/build-tools_r28.0.3-linux.zip"@,
            "28.0.3"@,
            false,
            120_000_000,
            52_600_000,
            Some(
                "{UNITY_PATH}/Editor/Data/PlaybackEngines/AndroidPlayer/SDK/build-tools/android-9"@,
            ),
            Some("{UNITY_PATH}/Editor/Data/PlaybackEngines/AndroidPlayer/SDK/build-tools/28.0.3"@),
        ),
        part_is(
            r[3],
            Component::AndroidSdkPlatforms,
            "Android SDK Platforms"@,
            "https://dl.google.com/android/repository/platform-28_r06.zip"@,
            "28"@,
            false,
            121_000_000,
            60_600_000,
            Some("{UNITY_PATH}/Editor/Data/PlaybackEngines/AndroidPlayer/SDK/platforms/android-9"@),
            Some(
                "{UNITY_PATH}/Editor/Data/PlaybackEngines/AndroidPlayer/SDK/platforms/android-28"@,
            ),
        ),
        takes_ndk_r19(version@) ==> part_is(
            r[4],
            Component::AndroidNdk,
            "Android NDK"@,
            "https://dl.google.com/android/repository/android-ndk-"@ + "r19"@
                + "-linux-x86_64.zip"@,
            "r19"@,
            false,
            2_690_000_000,
            785_000_000,
            None,
            None,
        ),
        !takes_ndk_r19(version@) ==> part_is(
            r[4],
            Component::AndroidNdk,
            "Android NDK"@,
            "https://dl.google.com/android/repository/android-ndk-"@ + "r16b"@
                + "-linux-x86_64.zip"@,
            "r16b"@,
            false,
            2_355_200_000,
            626_000_000,
            None,
            None,
        ),
{
    let (ndk_version, ndk_install_size, ndk_download_size) = if *version >= Version::a(
        2019,
        3,
        0,
        0,
    ) {
        ("r19", 2_690_000_000u64, 785_000_000u64)
    } else {
        ("r16b", 2_355_200_000u64, 626_000_000u64)
    };
    let mut parts: Vec<ModulePart> = Vec::new();
    parts.push(
        ModulePart {
            component: Component::AndroidSdkNdkTools,
            name: String::from_str("Android SDK & NDK Tools"),
            download_url: String::from_str(
                "https://dl.google.com/android/repository/sdk-tools-linux-4333796.zip",
            ),
            version: String::from_str("26.1.1"),
            main: true,
            installed_size: 174_000_000,
            download_size: 148_000_000,
            rename_from: None,
            rename_to: None,
        },
    );
    parts.push(
        ModulePart {
            component: Component::AndroidSdkPlatformTools,
            name: String::from_str("Android SDK Platform Tools"),
            download_url: String::from_str(
                "https://dl.google.com/android/repository/platform-tools_r28.0.1-linux.zip",
            ),
            version: String::from_str("28.0.1"),
            main: false,
            installed_size: 15_700_000,
            download_size: 4_550_000,
            rename_from: None,
            rename_to: None,
        },
    );
    parts.push(
        ModulePart {
            component: Component::AndroidSdkBuildTools,
            name: String::from_str("Android SDK Build Tools"),
            download_url: String::from_str(
                "https://dl.google.com/android/repository/build-tools_r28.0.3-linux.zip",
            ),
            version: String::from_str("28.0.3"),
            main: false,
            installed_size: 120_000_000,
            download_size: 52_600_000,
            rename_from: Some(
                String::from_str(
                    "{UNITY_PATH}/Editor/Data/PlaybackEngines/AndroidPlayer/SDK/build-tools/android-9",
                ),
            ),
            rename_to: Some(
                String::from_str(
                    "{UNITY_PATH}/Editor/Data/PlaybackEngines/AndroidPlayer/SDK/build-tools/28.0.3",
                ),
            ),
        },
    );
    parts.push(
        ModulePart {
            component: Component::AndroidSdkPlatforms,
            name: String::from_str("Android SDK Platforms"),
            download_url: String::from_str(
                "https://dl.google.com/android/repository/platform-28_r06.zip",
            ),
            version: String::from_str("28"),
            main: false,
            installed_size: 121_000_000,
            download_size: 60_600_000,
            rename_from: Some(
                String::from_str(
                    "{UNITY_PATH}/Editor/Data/PlaybackEngines/AndroidPlayer/SDK/platforms/android-9",
                ),
            ),
            rename_to: Some(
                String::from_str(
                    "{UNITY_PATH}/Editor/Data/PlaybackEngines/AndroidPlayer/SDK/platforms/android-28",
                ),
            ),
        },
    );
    let download_url = String::from_str(
        "https://dl.google.com/android/repository/android-ndk-",
    ).concat(ndk_version).concat("-linux-x86_64.zip");
    parts.push(
        ModulePart {
            component: Component::AndroidNdk,
            name: String::from_str("Android NDK"),
            download_url,
            version: String::from_str(ndk_version),
            main: false,
            installed_size: ndk_install_size,
            download_size: ndk_download_size,
            rename_from: None,
            rename_to: None,
        },
    );
    parts
}

} // verus!

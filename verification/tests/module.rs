use uvm_core::{
    get_android_open_jdk_download_info, get_android_sdk_ndk_download_info, read_version_from_path,
    Component, UvmVersionError, Version,
};

#[test]
fn open_jdk_part() {
    let p = get_android_open_jdk_download_info(&Version::f(2019, 1, 0, 1));
    assert_eq!(p.component, Component::AndroidOpenJdk);
    assert_eq!(p.name, "OpenJDK");
    assert_eq!(p.version, "8u172-b11");
    assert!(p.main);
    assert_eq!(p.installed_size, 73_170_000);
    assert_eq!(p.download_size, 162_000_000);
    assert!(p.rename_from.is_none() && p.rename_to.is_none());
    assert!(p.download_url.ends_with("be60f832de67b4.zip"));
}

#[test]
fn sdk_ndk_parts_for_new_editor() {
    let parts = get_android_sdk_ndk_download_info(&Version::a(2019, 3, 0, 0));
    assert_eq!(parts.len(), 5);
    assert_eq!(parts[0].component, Component::AndroidSdkNdkTools);
    assert!(parts[0].main);
    assert_eq!(parts[1].version, "28.0.1");
    assert_eq!(
        parts[2].rename_to.as_deref(),
        Some("{UNITY_PATH}/Editor/Data/PlaybackEngines/AndroidPlayer/SDK/build-tools/28.0.3")
    );
    assert_eq!(
        parts[3].rename_from.as_deref(),
        Some("{UNITY_PATH}/Editor/Data/PlaybackEngines/AndroidPlayer/SDK/platforms/android-9")
    );
    let ndk = &parts[4];
    assert_eq!(ndk.component, Component::AndroidNdk);
    assert_eq!(ndk.version, "r19");
    assert_eq!(ndk.download_url, "https://dl.google.com/android/repository/android-ndk-r19-linux-x86_64.zip");
    assert_eq!(ndk.installed_size, 2_690_000_000);
    assert_eq!(ndk.download_size, 785_000_000);
}

#[test]
fn sdk_ndk_parts_for_old_editor() {
    let parts = get_android_sdk_ndk_download_info(&Version::f(2019, 2, 9, 1));
    let ndk = &parts[4];
    assert_eq!(ndk.version, "r16b");
    assert_eq!(ndk.download_url, "https://dl.google.com/android/repository/android-ndk-r16b-linux-x86_64.zip");
    assert_eq!(ndk.installed_size, 2_355_200_000);
    assert_eq!(ndk.download_size, 626_000_000);
    assert!(!ndk.main);
}

#[test]
fn read_version_from_path_is_unsupported() {
    match read_version_from_path("/Applications/Unity") {
        Err(UvmVersionError::IllegalOperation(m)) => {
            assert_eq!(m, "fn 'read_version_from_path' not supported on current platform")
        }
        other => panic!("unexpected {:?}", other),
    }
}

use uvm_core::{EditorInstallation, Installation, Version};

#[test]
fn editor_location_is_the_bundle_in_the_installation_directory() {
    let i = Installation::new(Version::f(2019, 1, 0, 1), "/Applications/Unity/Hub/Editor/2019.1.0f1".to_string());
    let e = EditorInstallation::from(i);
    assert_eq!(e.version, Version::f(2019, 1, 0, 1));
    assert_eq!(e.location, "/Applications/Unity/Hub/Editor/2019.1.0f1/Unity.app");
    assert!(e.manual);
}

#[test]
fn editor_location_with_trailing_separator_or_empty_path() {
    let e = EditorInstallation::from(Installation::new(Version::b(1, 2, 3, 4), "/opt/unity/".to_string()));
    assert_eq!(e.location, "/opt/unity/Unity.app");
    let e = EditorInstallation::from(Installation::new(Version::b(1, 2, 3, 4), String::new()));
    assert_eq!(e.location, "Unity.app");
}

#[test]
fn editor_location_agrees_with_path_join() {
    for base in ["/a/b", "/a/b/", "", "rel", "/", "ü/ß"].iter() {
        let e = EditorInstallation::from(Installation::new(Version::f(1, 0, 0, 0), base.to_string()));
        let joined = std::path::Path::new(base).join("Unity.app");
        assert_eq!(e.location, joined.to_str().unwrap());
    }
}

#[test]
fn version_of_an_installation() {
    let i = Installation::new(Version::p(2018, 4, 2, 3), "/x".to_string());
    assert_eq!(i.path(), "/x");
    assert_eq!(*i.version(), Version::p(2018, 4, 2, 3));
    let v: Version = i.into();
    assert_eq!(v, Version::p(2018, 4, 2, 3));
}

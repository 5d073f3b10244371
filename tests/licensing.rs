use apple_codesign::licensing::{ComponentFlavor, PackageLicenseInfo, SourceLocation};

#[test]
fn component_flavor_equivalence() {
    assert_eq!(
        ComponentFlavor::PythonDistribution("foo".to_string()),
        ComponentFlavor::PythonDistribution("foo".to_string())
    );
    assert_ne!(
        ComponentFlavor::PythonDistribution("foo".to_string()),
        ComponentFlavor::PythonStandardLibraryModule("foo".into())
    );
    assert_eq!(
        ComponentFlavor::PythonStandardLibraryModule("foo".into()),
        ComponentFlavor::PythonStandardLibraryModule("foo".into())
    );
    assert_eq!(
        ComponentFlavor::PythonStandardLibraryModule("foo".into()),
        ComponentFlavor::PythonStandardLibraryExtensionModule("foo".into())
    );
    assert_eq!(
        ComponentFlavor::PythonStandardLibraryModule("foo".into()),
        ComponentFlavor::PythonExtensionModule("foo".into())
    );
    assert_eq!(
        ComponentFlavor::PythonStandardLibraryModule("foo".into()),
        ComponentFlavor::PythonModule("foo".into())
    );

    assert_ne!(
        ComponentFlavor::PythonStandardLibraryModule("foo".into()),
        ComponentFlavor::PythonStandardLibraryModule("bar".into())
    );
    assert_ne!(
        ComponentFlavor::PythonStandardLibraryModule("foo".into()),
        ComponentFlavor::PythonStandardLibraryExtensionModule("bar".into())
    );
    assert_ne!(
        ComponentFlavor::PythonStandardLibraryModule("foo".into()),
        ComponentFlavor::PythonExtensionModule("bar".into())
    );
    assert_ne!(
        ComponentFlavor::PythonStandardLibraryModule("foo".into()),
        ComponentFlavor::PythonModule("bar".into())
    );
}

#[test]
fn component_flavor_library_and_crate_equivalence() {
    assert_eq!(ComponentFlavor::Library("z".into()), ComponentFlavor::Library("z".into()));
    assert_ne!(ComponentFlavor::Library("z".into()), ComponentFlavor::RustCrate("z".into()));
    assert_ne!(ComponentFlavor::RustCrate("a".into()), ComponentFlavor::RustCrate("b".into()));
    assert_ne!(ComponentFlavor::PythonModule("z".into()), ComponentFlavor::Library("z".into()));
}

#[test]
fn component_flavor_predicates() {
    let stdlib = ComponentFlavor::PythonStandardLibraryModule("os".into());
    assert!(stdlib.is_python_standard_library());
    assert!(stdlib.is_python_distribution_component());
    assert_eq!(stdlib.python_module_name(), Some("os"));
    assert_eq!(stdlib.ordinal_value(), 1);

    let dist = ComponentFlavor::PythonDistribution("cpython".into());
    assert!(!dist.is_python_standard_library());
    assert!(dist.is_python_distribution_component());
    assert_eq!(dist.python_module_name(), None);
    assert_eq!(dist.ordinal_value(), 0);

    let ext = ComponentFlavor::PythonExtensionModule("_ssl".into());
    assert!(ext.is_python_standard_library());
    assert!(!ext.is_python_distribution_component());
    assert_eq!(ext.ordinal_value(), 3);

    let krate = ComponentFlavor::RustCrate("serde".into());
    assert!(!krate.is_python_standard_library());
    assert_eq!(krate.python_module_name(), None);
    assert_eq!(krate.ordinal_value(), 6);
}

#[test]
fn package_license_info_default_is_empty() {
    let info = PackageLicenseInfo::default();
    assert!(info.package.is_empty());
    assert!(info.metadata_licenses.is_empty());
    assert!(!info.is_public_domain);
    assert_eq!(SourceLocation::NotSet, SourceLocation::NotSet);
    assert_ne!(SourceLocation::NotSet, SourceLocation::Url("https://example.com".into()));
}

//! Kinds of software components, as licensing metadata names them.
use vstd::prelude::*;

verus! {

/// System libraries that are safe to link against, ignoring copyleft license implications.
pub const SAFE_SYSTEM_LIBRARIES: [&'static str; 7] = [
    "cabinet",
    "iphlpapi",
    "msi",
    "rpcrt4",
    "rt",
    "winmm",
    "ws2_32",
];

/// Describes the type of a software component.
#[derive(Clone, Debug)]
pub enum ComponentFlavor {
    /// A Python distribution.
    PythonDistribution(String),
    /// A Python module in the standard library.
    PythonStandardLibraryModule(String),
    /// A compiled Python extension module in the standard library.
    PythonStandardLibraryExtensionModule(String),
    /// A compiled Python extension module.
    PythonExtensionModule(String),
    /// A Python module.
    PythonModule(String),
    /// A generic software library.
    Library(String),
    /// A Rust crate.
    RustCrate(String),
}

/// The Python module name of a component, for the flavors that have one.
pub open spec fn module_name(f: ComponentFlavor) -> Option<Seq<char>> {
    match f {
        ComponentFlavor::PythonStandardLibraryModule(n) => Some(n@),
        ComponentFlavor::PythonStandardLibraryExtensionModule(n) => Some(n@),
        ComponentFlavor::PythonExtensionModule(n) => Some(n@),
        ComponentFlavor::PythonModule(n) => Some(n@),
        _ => None,
    }
}

/// Equivalence of components: two components with Python module names are
/// equivalent when the names agree; a module never equals a non-module; other
/// components are equivalent when flavor and name agree.
pub open spec fn flavor_eq(a: ComponentFlavor, b: ComponentFlavor) -> bool {
    match (module_name(a), module_name(b)) {
        (Some(x), Some(y)) => x == y,
        (None, None) => match (a, b) {
            (ComponentFlavor::PythonDistribution(x), ComponentFlavor::PythonDistribution(y)) => x@ == y@,
            (ComponentFlavor::Library(x), ComponentFlavor::Library(y)) => x@ == y@,
            (ComponentFlavor::RustCrate(x), ComponentFlavor::RustCrate(y)) => x@ == y@,
            _ => false,
        },
        _ => false,
    }
}

impl ComponentFlavor {
    /// The position of this flavor in the order of flavors.
    pub fn ordinal_value(&self) -> (r: u8)
        ensures
            r == match *self {
                ComponentFlavor::PythonDistribution(_) => 0u8,
                ComponentFlavor::PythonStandardLibraryModule(_) => 1u8,
                ComponentFlavor::PythonStandardLibraryExtensionModule(_) => 2u8,
                ComponentFlavor::PythonExtensionModule(_) => 3u8,
                ComponentFlavor::PythonModule(_) => 4u8,
                ComponentFlavor::Library(_) => 5u8,
                ComponentFlavor::RustCrate(_) => 6u8,
            },
    {
        match self {
            ComponentFlavor::PythonDistribution(_) => 0,
            ComponentFlavor::PythonStandardLibraryModule(_) => 1,
            ComponentFlavor::PythonStandardLibraryExtensionModule(_) => 2,
            ComponentFlavor::PythonExtensionModule(_) => 3,
            ComponentFlavor::PythonModule(_) => 4,
            ComponentFlavor::Library(_) => 5,
            ComponentFlavor::RustCrate(_) => 6,
        }
    }

    /// Whether this component is part of the Python standard library.
    pub fn is_python_standard_library(&self) -> (r: bool)
        ensures
            r == (*self is PythonStandardLibraryModule || *self is PythonStandardLibraryExtensionModule
                || *self is PythonExtensionModule),
    {
        match self {
            ComponentFlavor::PythonDistribution(_) => false,
            ComponentFlavor::PythonStandardLibraryModule(_) => true,
            ComponentFlavor::PythonStandardLibraryExtensionModule(_) => true,
            ComponentFlavor::PythonExtensionModule(_) => true,
            ComponentFlavor::PythonModule(_) => false,
            ComponentFlavor::Library(_) => false,
            ComponentFlavor::RustCrate(_) => false,
        }
    }

    /// The Python module name, for flavors that are Python modules.
    fn module_name_string(&self) -> (r: Option<&String>)
        ensures
            match r {
                Some(n) => module_name(*self) == Some(n@),
                None => module_name(*self) is None,
            },
    {
        match self {
            ComponentFlavor::PythonStandardLibraryModule(name) => Some(name),
            ComponentFlavor::PythonStandardLibraryExtensionModule(name) => Some(name),
            ComponentFlavor::PythonExtensionModule(name) => Some(name),
            ComponentFlavor::PythonModule(name) => Some(name),
            _ => None,
        }
    }

    /// The Python module name, for flavors that are Python modules.
    pub fn python_module_name(&self) -> (r: Option<&str>)
        ensures
            match r {
                Some(n) => module_name(*self) == Some(n@),
                None => module_name(*self) is None,
            },
    {
        match self.module_name_string() {
            Some(name) => Some(name.as_str()),
            None => None,
        }
    }

    /// Whether the component is part of a Python distribution.
    pub fn is_python_distribution_component(&self) -> (r: bool)
        ensures
            r == (*self is PythonDistribution || *self is PythonStandardLibraryModule
                || *self is PythonStandardLibraryExtensionModule),
    {
        match self {
            ComponentFlavor::PythonDistribution(_) => true,
            ComponentFlavor::PythonStandardLibraryModule(_) => true,
            ComponentFlavor::PythonStandardLibraryExtensionModule(_) => true,
            _ => false,
        }
    }
}

impl PartialEq for ComponentFlavor {
    fn eq(&self, other: &ComponentFlavor) -> (r: bool) {
        match (self.module_name_string(), other.module_name_string()) {
            (Some(a), Some(b)) => a.eq(b),
            (None, None) => match (self, other) {
                (ComponentFlavor::PythonDistribution(a), ComponentFlavor::PythonDistribution(b)) => a.eq(b),
                (ComponentFlavor::Library(a), ComponentFlavor::Library(b)) => a.eq(b),
                (ComponentFlavor::RustCrate(a), ComponentFlavor::RustCrate(b)) => a.eq(b),
                _ => false,
            },
            _ => false,
        }
    }
}

impl vstd::std_specs::cmp::PartialEqSpecImpl for ComponentFlavor {
    open spec fn obeys_eq_spec() -> bool {
        true
    }

    open spec fn eq_spec(&self, other: &ComponentFlavor) -> bool {
        flavor_eq(*self, *other)
    }
}

impl Eq for ComponentFlavor {
}

/// Where source code for a component can be obtained from.
#[derive(Clone, Debug, PartialEq)]
pub enum SourceLocation {
    /// Source code is not available.
    NotSet,
    /// Source code is available at a URL.
    Url(String),
}

/// License information of a Python package.
#[derive(Clone, Debug, Default, Eq, PartialEq)]
pub struct PackageLicenseInfo {
    /// The Python package whose license info is being annotated.
    pub package: String,
    /// Version string of the Python package.
    pub version: String,
    /// `License` entries in package metadata.
    pub metadata_licenses: Vec<String>,
    /// Licenses present in `Classifier: License` entries in package metadata.
    pub classifier_licenses: Vec<String>,
    /// Texts of licenses present in the package.
    pub license_texts: Vec<String>,
    /// Texts of NOTICE files in the package.
    pub notice_texts: Vec<String>,
    /// Whether the license is in the public domain.
    pub is_public_domain: bool,
}

} // verus!

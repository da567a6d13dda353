//! The Android application manifest: loading it from XML document bytes,
//! reading its identity and version attributes, deriving a display name,
//! and serializing it back.

use crate::text::{last_segment, last_segment_of, title_case, title_of};
use crate::xml::{
    attr_in_ns, attr_no_ns, parse_root, parsed_attrs, root_attrs, serializable, serialize_root,
    writes_faithfully,
};
use vstd::prelude::*;
use vstd::string::*;

verus! {

/// The namespace URI that qualifies Android platform attributes.
pub open spec fn android_ns() -> Seq<char> {
    "http://schemas.android.com/apk/res/android"@
}

/// Why a manifest could not be loaded.
#[derive(Clone, Copy, Debug, PartialEq, Eq, Structural)]
pub enum ManifestError {
    /// The bytes are not a well-formed XML document.
    MalformedXml,
}

/// An Android application manifest: the path it was loaded from and the
/// parsed XML tree of the document.
pub struct AndroidManifest {
    path: String,
    root: elementtree::Element,
}

impl AndroidManifest {
    /// The attributes of the manifest's root element, keyed by optional
    /// namespace URI and local name.
    pub closed spec fn spec_attrs(self) -> Map<(Option<Seq<char>>, Seq<char>), Seq<char>> {
        root_attrs(self.root)
    }

    /// The path the manifest was loaded from.
    pub closed spec fn spec_path(self) -> Seq<char> {
        self.path@
    }

    /// Holds when writing the manifest keeps its attributes: its
    /// namespaced attributes are written with nonempty prefixes and its
    /// namespace declarations survive emission (see
    /// `xml::writes_faithfully`). An ordinary manifest, whose Android
    /// attributes ride on a prefixed namespace declaration, satisfies it.
    pub closed spec fn spec_writes_faithfully(self) -> bool {
        writes_faithfully(self.root)
    }

    #[verifier::type_invariant]
    spec fn wf(self) -> bool {
        serializable(self.root)
    }

    /// The package identifier: the root's unqualified `package` attribute,
    /// or `"unknown"` when it is absent.
    pub open spec fn spec_package(self) -> Seq<char> {
        if self.spec_attrs().contains_key((None::<Seq<char>>, "package"@)) {
            self.spec_attrs()[(None::<Seq<char>>, "package"@)]
        } else {
            "unknown"@
        }
    }

    /// The internal version code: the `versionCode` attribute in the
    /// Android namespace, or `"0"` when it is absent.
    pub open spec fn spec_version_code(self) -> Seq<char> {
        if self.spec_attrs().contains_key((Some(android_ns()), "versionCode"@)) {
            self.spec_attrs()[(Some(android_ns()), "versionCode"@)]
        } else {
            "0"@
        }
    }

    /// The human-readable version: the `versionName` attribute in the
    /// Android namespace, or `"0.0"` when it is absent.
    pub open spec fn spec_version_name(self) -> Seq<char> {
        if self.spec_attrs().contains_key((Some(android_ns()), "versionName"@)) {
            self.spec_attrs()[(Some(android_ns()), "versionName"@)]
        } else {
            "0.0"@
        }
    }

    /// Parses manifest XML bytes read from `path`. Fails exactly when the
    /// bytes are not a well-formed XML document.
    pub fn from_bytes(path: String, data: &[u8]) -> (r: Result<AndroidManifest, ManifestError>)
        ensures
            r is Ok <==> parsed_attrs(data@) is Some,
            r matches Ok(m) ==> m.spec_attrs() == parsed_attrs(data@).unwrap() && m.spec_path()
                == path@,
            r matches Err(e) ==> e == ManifestError::MalformedXml,
    {
        match parse_root(data) {
            Ok(root) => Ok(AndroidManifest { path, root }),
            Err(_) => Err(ManifestError::MalformedXml),
        }
    }

    /// Returns the package identifier, or `"unknown"` when the manifest
    /// carries none.
    pub fn package<'a>(&'a self) -> (r: &'a str)
        ensures
            r@ == self.spec_package(),
    {
        proof {
            reveal_strlit("package");
        }
        match attr_no_ns(&self.root, "package") {
            Some(v) => v,
            None => "unknown",
        }
    }

    /// Returns a human-friendly application name derived from the package
    /// identifier: its last dot-delimited segment, title-cased.
    pub fn name(&self) -> (r: String)
        ensures
            r@ == title_of(last_segment_of(self.spec_package())),
    {
        let pkg = self.package();
        let seg = last_segment(pkg);
        title_case(seg.as_str())
    }

    /// Returns the internal version code, or `"0"` when the manifest
    /// carries none.
    pub fn version_code<'a>(&'a self) -> (r: &'a str)
        ensures
            r@ == self.spec_version_code(),
    {
        match attr_in_ns(&self.root, "http://schemas.android.com/apk/res/android", "versionCode") {
            Some(v) => v,
            None => "0",
        }
    }

    /// Returns the human-readable version, or `"0.0"` when the manifest
    /// carries none.
    pub fn version_name<'a>(&'a self) -> (r: &'a str)
        ensures
            r@ == self.spec_version_name(),
    {
        match attr_in_ns(&self.root, "http://schemas.android.com/apk/res/android", "versionName") {
            Some(v) => v,
            None => "0.0",
        }
    }

    /// Returns the path the manifest was loaded from.
    pub fn path<'a>(&'a self) -> (r: &'a str)
        ensures
            r@ == self.spec_path(),
    {
        self.path.as_str()
    }

    /// Serializes the manifest's tree back to XML document bytes. Writing
    /// to memory does not fail. For a manifest that writes faithfully —
    /// see `spec_writes_faithfully` — the output parses back to a
    /// document with the same root attributes; outside that condition the
    /// writer can drop an attribute's namespace qualification, and
    /// nothing is claimed of the output.
    pub fn to_xml_bytes(&self) -> (r: Vec<u8>)
        ensures
            self.spec_writes_faithfully() ==> parsed_attrs(r@) == Some(self.spec_attrs()),
    {
        proof {
            use_type_invariant(&*self);
        }
        match serialize_root(&self.root) {
            Ok(b) => b,
            Err(_) => vstd::pervasive::unreached(),
        }
    }

    /// A diagnostic rendering of the manifest's package and version values.
    pub fn describe(&self) -> (r: String)
        ensures
            r@ == "AndroidManifest { package: "@ + self.spec_package() + ", version_code: "@
                + self.spec_version_code() + ", version_name: "@ + self.spec_version_name()
                + " }"@,
    {
        let mut r = String::from_str("AndroidManifest { package: ");
        r.append(self.package());
        r.append(", version_code: ");
        r.append(self.version_code());
        r.append(", version_name: ");
        r.append(self.version_name());
        r.append(" }");
        r
    }
}

/// Saving a manifest and loading what was written preserves its values: if
/// `saved` parses to the attributes of `m` (as `to_xml_bytes` ensures of
/// its output for a manifest that writes faithfully) and `reloaded` was
/// loaded from `saved` (as `from_bytes` ensures), then `reloaded` has the
/// same package, version code and version name as `m`.
pub proof fn lemma_save_reload_preserves_values(
    m: AndroidManifest,
    saved: Seq<u8>,
    reloaded: AndroidManifest,
)
    requires
        parsed_attrs(saved) == Some(m.spec_attrs()),
        parsed_attrs(saved) == Some(reloaded.spec_attrs()),
    ensures
        reloaded.spec_package() == m.spec_package(),
        reloaded.spec_version_code() == m.spec_version_code(),
        reloaded.spec_version_name() == m.spec_version_name(),
{
}

} // verus!

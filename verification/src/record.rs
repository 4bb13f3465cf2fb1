//! One published version of a crate, as the index records it.

use vstd::prelude::*;

verus! {

/// `serde_json::Value`, any JSON value. Nothing inside it is seen here: the
/// fields of a record that hold one are carried through untouched.
#[verifier::external_type_specification]
#[verifier::external_body]
pub struct ExJsonValue(serde_json::Value);

/// A single version of a crate published to the index: one line of the
/// crate's metadata file.
///
/// The library reads `vers` and `yanked` and changes `yanked` alone; the
/// other fields are carried through as they were decoded.
#[derive(Debug, Clone, PartialEq, Eq)]
pub struct CrateVersion {
    pub name: String,
    pub vers: String,
    pub deps: Vec<serde_json::Value>,
    pub features: Option<serde_json::Value>,
    pub links: Option<String>,
    pub cksum: String,
    pub yanked: bool,
}

/// What a [`CrateVersion`] holds.
pub struct CrateVersionView {
    pub name: Seq<char>,
    pub vers: Seq<char>,
    pub deps: Seq<serde_json::Value>,
    pub features: Option<serde_json::Value>,
    pub links: Option<Seq<char>>,
    pub cksum: Seq<char>,
    pub yanked: bool,
}

impl View for CrateVersion {
    type V = CrateVersionView;

    open spec fn view(&self) -> CrateVersionView {
        CrateVersionView {
            name: self.name@,
            vers: self.vers@,
            deps: self.deps@,
            features: self.features,
            links: match self.links {
                Some(l) => Some(l@),
                None => None,
            },
            cksum: self.cksum@,
            yanked: self.yanked,
        }
    }
}

impl DeepView for CrateVersion {
    type V = CrateVersionView;

    open spec fn deep_view(&self) -> CrateVersionView {
        self@
    }
}

impl CrateVersionView {
    /// The same record with its yanked flag set to `yanked`.
    pub open spec fn with_yanked(self, yanked: bool) -> CrateVersionView {
        CrateVersionView { yanked, ..self }
    }
}

impl CrateVersion {
    /// The same record with its yanked flag set to `yanked`.
    pub fn with_yanked(self, yanked: bool) -> (changed: CrateVersion)
        ensures
            changed@ == self@.with_yanked(yanked),
    {
        CrateVersion {
            name: self.name,
            vers: self.vers,
            deps: self.deps,
            features: self.features,
            links: self.links,
            cksum: self.cksum,
            yanked,
        }
    }
}

} // verus!

//! Third-party libraries a repository declares in its manifests.

use vstd::prelude::*;

verus! {

/// A library named by a manifest, with the version or version requirement
/// the manifest gives, if any.
#[derive(Debug, PartialEq, Eq, Hash)]
pub struct LibraryDependency {
    pub name: String,
    pub version: Option<String>,
    pub source_file: String,
}

/// Mathematical value of a [`LibraryDependency`].
pub struct LibraryModel {
    pub name: Seq<char>,
    pub version: Option<Seq<char>>,
    pub source_file: Seq<char>,
}

impl View for LibraryDependency {
    type V = LibraryModel;

    open spec fn view(&self) -> LibraryModel {
        LibraryModel {
            name: self.name@,
            version: self.version.deep_view(),
            source_file: self.source_file@,
        }
    }
}

impl DeepView for LibraryDependency {
    type V = LibraryModel;

    open spec fn deep_view(&self) -> LibraryModel {
        self@
    }
}

impl Clone for LibraryDependency {
    fn clone(&self) -> (r: Self)
        ensures
            r@ == self@,
    {
        LibraryDependency {
            name: self.name.clone(),
            version: self.version.clone(),
            source_file: self.source_file.clone(),
        }
    }
}

} // verus!

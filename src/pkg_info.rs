use vstd::prelude::*;

verus! {

/// Name, version and authors of the package.
pub struct PkgInfo {
    pkg_name: &'static str,
    pkg_version: &'static str,
    pkg_authors: &'static str,
}

impl PkgInfo {
    pub closed spec fn name_view(&self) -> Seq<char> {
        self.pkg_name@
    }

    pub closed spec fn version_view(&self) -> Seq<char> {
        self.pkg_version@
    }

    pub closed spec fn authors_view(&self) -> Seq<char> {
        self.pkg_authors@
    }

    pub fn new(pkg_name: &'static str, pkg_version: &'static str, pkg_authors: &'static str) -> (r:
        PkgInfo)
        ensures
            r.name_view() == pkg_name@,
            r.version_view() == pkg_version@,
            r.authors_view() == pkg_authors@,
    {
        PkgInfo { pkg_name, pkg_version, pkg_authors }
    }

    pub fn get_pkg_name(&self) -> (r: &str)
        ensures
            r@ == self.name_view(),
    {
        self.pkg_name
    }

    pub fn get_pkg_version(&self) -> (r: &str)
        ensures
            r@ == self.version_view(),
    {
        self.pkg_version
    }

    pub fn get_pkg_authors(&self) -> (r: &str)
        ensures
            r@ == self.authors_view(),
    {
        self.pkg_authors
    }
}

} // verus!

//! What a decoded container holds: a package and its links.

use vstd::prelude::*;

verus! {

/// A link as a value: each field is text, empty where the container gave none.
pub struct LinkModel {
    pub url: Seq<char>,
    pub name: Seq<char>,
    pub size: Seq<char>,
}

/// A package as a value.
pub struct PackageModel {
    pub name: Seq<char>,
    pub password: Seq<char>,
    pub files: Seq<LinkModel>,
}

impl LinkModel {
    /// The link with no field set.
    pub open spec fn blank() -> LinkModel {
        LinkModel { url: Seq::empty(), name: Seq::empty(), size: Seq::empty() }
    }
}

impl PackageModel {
    /// The package without a name, a password or files.
    pub open spec fn blank() -> PackageModel {
        PackageModel { name: Seq::empty(), password: Seq::empty(), files: Seq::empty() }
    }
}

/// One file of a package: where to find it, what it is called and how large
/// it is. A field that the container did not give is the empty string.
#[derive(Debug, Clone, PartialEq, Eq)]
pub struct DlcLink {
    pub url: String,
    pub name: String,
    pub size: String,
}

/// The readable content of a container: the package's name, its password
/// and its files in the order of the container.
#[derive(Debug, Clone, PartialEq, Eq)]
pub struct DlcPackage {
    pub name: String,
    pub password: String,
    pub files: Vec<DlcLink>,
}

impl View for DlcLink {
    type V = LinkModel;

    open spec fn view(&self) -> LinkModel {
        LinkModel { url: self.url@, name: self.name@, size: self.size@ }
    }
}

/// The values of a list of links.
pub open spec fn link_views(links: Seq<DlcLink>) -> Seq<LinkModel> {
    links.map_values(|l: DlcLink| l@)
}

impl View for DlcPackage {
    type V = PackageModel;

    open spec fn view(&self) -> PackageModel {
        PackageModel {
            name: self.name@,
            password: self.password@,
            files: link_views(self.files@),
        }
    }
}

impl DlcLink {
    /// A link with every field empty.
    pub fn new() -> (r: DlcLink)
        ensures
            r@ == LinkModel::blank(),
    {
        DlcLink { url: String::new(), name: String::new(), size: String::new() }
    }
}

impl DlcPackage {
    /// A package without a name, a password or files.
    pub fn new() -> (r: DlcPackage)
        ensures
            r@ == PackageModel::blank(),
    {
        let r = DlcPackage { name: String::new(), password: String::new(), files: Vec::new() };
        assert(link_views(r.files@) =~= Seq::empty());
        r
    }
}

} // verus!

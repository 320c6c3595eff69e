//! The records that the registry returns for the versions of a package.

use vstd::prelude::*;

verus! {

/// Container-specific metadata of a version: the tags that point at it.
#[derive(Debug, Clone)]
pub struct ContainerVersionMetadata {
    pub tags: Vec<String>,
}

/// Metadata of a version: the package type and what belongs to that type.
#[derive(Debug, Clone)]
pub struct PackageVersionMetadata {
    pub package_type: String,
    pub container: ContainerVersionMetadata,
}

/// One stored version of a package.
///
/// `id` is assigned by the registry and only serves to delete the version;
/// `name` is the content digest.
#[derive(Debug, Clone)]
pub struct PackageVersion {
    pub id: u64,
    pub name: String,
    pub metadata: PackageVersionMetadata,
}

/// What a `ContainerVersionMetadata` holds, as mathematical values.
pub struct ContainerVersionMetadataView {
    pub tags: Seq<Seq<char>>,
}

/// What a `PackageVersionMetadata` holds, as mathematical values.
pub struct PackageVersionMetadataView {
    pub package_type: Seq<char>,
    pub container: ContainerVersionMetadataView,
}

/// What a `PackageVersion` holds, as mathematical values.
pub struct PackageVersionView {
    pub id: u64,
    pub name: Seq<char>,
    pub metadata: PackageVersionMetadataView,
}

impl View for ContainerVersionMetadata {
    type V = ContainerVersionMetadataView;

    open spec fn view(&self) -> ContainerVersionMetadataView {
        ContainerVersionMetadataView { tags: self.tags.deep_view() }
    }
}

impl View for PackageVersionMetadata {
    type V = PackageVersionMetadataView;

    open spec fn view(&self) -> PackageVersionMetadataView {
        PackageVersionMetadataView {
            package_type: self.package_type@,
            container: self.container@,
        }
    }
}

impl View for PackageVersion {
    type V = PackageVersionView;

    open spec fn view(&self) -> PackageVersionView {
        PackageVersionView { id: self.id, name: self.name@, metadata: self.metadata@ }
    }
}

impl PackageVersionView {
    /// A version is untagged when no tag points at it.
    pub open spec fn is_untagged(self) -> bool {
        self.metadata.container.tags.len() == 0
    }
}

impl DeepView for PackageVersion {
    type V = PackageVersionView;

    open spec fn deep_view(&self) -> PackageVersionView {
        self@
    }
}

impl PackageVersion {
    /// Whether no tag points at this version, which makes it a candidate for
    /// deletion.
    pub fn is_untagged(&self) -> (r: bool)
        ensures
            r == self@.is_untagged(),
    {
        self.metadata.container.tags.len() == 0
    }
}

} // verus!

use vstd::prelude::*;
use crate::utils::clock::now_seconds;
use crate::utils::keyed::{Keyed, has_key, is_first_key, key_strs, position_of};
use crate::utils::text::to_owned_string;

verus! {

/// Root structure for a delivery model.
#[derive(Debug)]
pub struct DeliveryModel {
    pub version: String,
    pub kind: DeliveryDiagramKind,
    pub metadata: DeliveryMetadata,
    pub packages: Vec<DeliveryPackage>,
}

impl DeliveryModel {
    /// A new, empty delivery model with the given title.
    pub fn new(title: &str) -> (m: Self)
        ensures
            m.metadata.created_at >= 0,
            m.metadata.updated_at >= 0,
            m.version@ == "1.0"@,
            m.kind == DeliveryDiagramKind::DeliveryModel,
            m.metadata.title@ == title@,
            m.metadata.description is None,
            m.packages@.len() == 0,
    {
        DeliveryModel {
            version: String::from_str("1.0"),
            kind: DeliveryDiagramKind::DeliveryModel,
            metadata: DeliveryMetadata {
                title: String::from_str(title),
                description: None,
                created_at: now_seconds(),
                updated_at: now_seconds(),
            },
            packages: Vec::new(),
        }
    }

    /// Updates the modification time; nothing else changes.
    pub fn touch(&mut self)
        ensures
            final(self).metadata.updated_at >= 0,
            final(self).version == old(self).version,
            final(self).kind == old(self).kind,
            final(self).metadata.title == old(self).metadata.title,
            final(self).metadata.description == old(self).metadata.description,
            final(self).metadata.created_at == old(self).metadata.created_at,
            final(self).packages == old(self).packages,
    {
        self.metadata.updated_at = now_seconds();
    }

    /// The IDs of all packages, in order.
    pub fn all_package_ids(&self) -> (r: Vec<&str>)
        ensures
            r@.len() == self.packages@.len(),
            forall|i: int| 0 <= i < self.packages@.len() ==> #[trigger] r@[i]@ == self.packages@[i].id@,
    {
        key_strs(&self.packages)
    }

    /// The first package with the given ID.
    pub fn find_package(&self, id: &str) -> (r: Option<&DeliveryPackage>)
        ensures
            match r {
                Some(p) => exists|i: int| is_first_key(self.packages@, id@, i) && self.packages@[i] == *p,
                None => !has_key(self.packages@, id@),
            },
    {
        let key = to_owned_string(id);
        match position_of(&self.packages, &key) {
            Some(i) => Some(&self.packages[i]),
            None => None,
        }
    }

    /// The first package with the given ID, for modification.
    pub fn find_package_mut(&mut self, id: &str) -> (r: Option<&mut DeliveryPackage>)
        ensures
            match r {
                Some(p) => exists|i: int| {
                    &&& is_first_key(old(self).packages@, id@, i)
                    &&& *p == old(self).packages@[i]
                    &&& final(self).packages@ == old(self).packages@.update(i, *final(p))
                },
                None => !has_key(old(self).packages@, id@) && *final(self) == *old(self),
            },
            final(self).version == old(self).version,
            final(self).kind == old(self).kind,
            final(self).metadata == old(self).metadata,
    {
        let key = to_owned_string(id);
        match position_of(&self.packages, &key) {
            Some(i) => Some(&mut self.packages[i]),
            None => None,
        }
    }

    /// The name of the first package with the given ID.
    pub fn get_package_name(&self, id: &str) -> (r: Option<&str>)
        ensures
            match r {
                Some(n) => exists|i: int| is_first_key(self.packages@, id@, i) && n@ == self.packages@[i].name@,
                None => !has_key(self.packages@, id@),
            },
    {
        match self.find_package(id) {
            Some(p) => Some(p.name.as_str()),
            None => None,
        }
    }
}

/// The kind tag of a delivery model.
#[derive(Debug, Clone, Copy, PartialEq, Eq, Structural)]
pub enum DeliveryDiagramKind {
    DeliveryModel,
}

/// Title, description and timestamps (seconds since the Unix epoch).
#[derive(Debug)]
pub struct DeliveryMetadata {
    pub title: String,
    pub description: Option<String>,
    pub created_at: i64,
    pub updated_at: i64,
}

/// A package that is delivered (image, archive, chart, ...).
#[derive(Debug)]
pub struct DeliveryPackage {
    pub id: String,
    pub name: String,
    pub description: Option<String>,
    pub version: Option<String>,
    pub delivery_type: DeliveryType,
    pub artifacts: Vec<String>,
    pub registry: Option<String>,
}

impl Keyed for DeliveryPackage {
    open spec fn key(&self) -> Seq<char> {
        self.id@
    }

    fn key_text(&self) -> (r: &String) {
        &self.id
    }
}

/// The form in which a package is delivered.
#[derive(Debug, Clone, Copy, PartialEq, Eq, Structural)]
pub enum DeliveryType {
    ContainerImage,
    Archive,
    Installer,
    HelmChart,
    NpmPackage,
    Crate,
}

impl Default for DeliveryType {
    fn default() -> (r: Self)
        ensures
            r == DeliveryType::ContainerImage,
    {
        DeliveryType::ContainerImage
    }
}

} // verus!

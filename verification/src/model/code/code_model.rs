use vstd::prelude::*;
use crate::utils::clock::now_seconds;
use crate::utils::keyed::{Keyed, has_key, is_first_key, key_strs, position_of};
use crate::utils::text::to_owned_string;

verus! {

/// Root structure for a code model.
#[derive(Debug)]
pub struct CodeModel {
    pub version: String,
    pub kind: CodeDiagramKind,
    pub metadata: CodeMetadata,
    pub packages: Vec<CodePackage>,
    pub dependencies: Vec<PackageDependency>,
}

/// Whether `p` is the package of position `i` of `s`, found by `id`.
pub open spec fn found_in<T: Keyed>(s: Seq<T>, id: Seq<char>, r: Option<&T>) -> bool {
    match r {
        Some(p) => exists|i: int| is_first_key(s, id, i) && s[i] == *p,
        None => !has_key(s, id),
    }
}

impl CodeModel {
    /// A new, empty code model with the given title.
    pub fn new(title: &str) -> (m: Self)
        ensures
            m.metadata.created_at >= 0,
            m.metadata.updated_at >= 0,
            m.version@ == "1.0"@,
            m.kind == CodeDiagramKind::CodeModel,
            m.metadata.title@ == title@,
            m.metadata.description is None,
            m.packages@.len() == 0,
            m.dependencies@.len() == 0,
    {
        CodeModel {
            version: String::from_str("1.0"),
            kind: CodeDiagramKind::CodeModel,
            metadata: CodeMetadata {
                title: String::from_str(title),
                description: None,
                created_at: now_seconds(),
                updated_at: now_seconds(),
            },
            packages: Vec::new(),
            dependencies: Vec::new(),
        }
    }

    /// Updates the modification time; nothing else changes.
    pub fn touch(&mut self)
        ensures
            final(self).metadata.updated_at >= 0,
            final(self).version == old(self).version,
            final(self).kind == old(self).kind,
            final(self).metadata.title == old(self).metadata.title,
            final(self).metadata.description == old(self).metadata.description,
            final(self).metadata.created_at == old(self).metadata.created_at,
            final(self).packages == old(self).packages,
            final(self).dependencies == old(self).dependencies,
    {
        self.metadata.updated_at = now_seconds();
    }

    /// The IDs of all packages, in order.
    pub fn all_package_ids(&self) -> (r: Vec<&str>)
        ensures
            r@.len() == self.packages@.len(),
            forall|i: int| 0 <= i < self.packages@.len() ==> #[trigger] r@[i]@ == self.packages@[i].id@,
    {
        key_strs(&self.packages)
    }

    /// The first package with the given ID.
    pub fn find_package(&self, id: &str) -> (r: Option<&CodePackage>)
        ensures
            found_in(self.packages@, id@, r),
    {
        let key = to_owned_string(id);
        match position_of(&self.packages, &key) {
            Some(i) => Some(&self.packages[i]),
            None => None,
        }
    }

    /// The first package with the given ID, for modification.
    pub fn find_package_mut(&mut self, id: &str) -> (r: Option<&mut CodePackage>)
        ensures
            match r {
                Some(p) => exists|i: int| {
                    &&& is_first_key(old(self).packages@, id@, i)
                    &&& *p == old(self).packages@[i]
                    &&& final(self).packages@ == old(self).packages@.update(i, *final(p))
                },
                None => !has_key(old(self).packages@, id@) && *final(self) == *old(self),
            },
            final(self).version == old(self).version,
            final(self).kind == old(self).kind,
            final(self).metadata == old(self).metadata,
            final(self).dependencies == old(self).dependencies,
    {
        let key = to_owned_string(id);
        match position_of(&self.packages, &key) {
            Some(i) => Some(&mut self.packages[i]),
            None => None,
        }
    }

    /// The name of the first package with the given ID.
    pub fn get_package_name(&self, id: &str) -> (r: Option<&str>)
        ensures
            match r {
                Some(n) => exists|i: int| is_first_key(self.packages@, id@, i) && n@ == self.packages@[i].name@,
                None => !has_key(self.packages@, id@),
            },
    {
        match self.find_package(id) {
            Some(p) => Some(p.name.as_str()),
            None => None,
        }
    }
}

/// The kind tag of a code model.
#[derive(Debug, Clone, Copy, PartialEq, Eq, Structural)]
pub enum CodeDiagramKind {
    CodeModel,
}

/// Title, description and timestamps (seconds since the Unix epoch).
#[derive(Debug)]
pub struct CodeMetadata {
    pub title: String,
    pub description: Option<String>,
    pub created_at: i64,
    pub updated_at: i64,
}

/// A code package (module, library, service, etc.).
#[derive(Debug)]
pub struct CodePackage {
    pub id: String,
    pub name: String,
    pub description: Option<String>,
    pub language: Option<Language>,
    pub framework: Option<String>,
    pub path: Option<String>,
    pub element_id: Option<String>,
}

impl Keyed for CodePackage {
    open spec fn key(&self) -> Seq<char> {
        self.id@
    }

    fn key_text(&self) -> (r: &String) {
        &self.id
    }
}

/// Programming language, with a custom name for others.
#[derive(Debug, Clone, PartialEq, Eq)]
pub enum Language {
    Rust,
    Java,
    Python,
    Go,
    TypeScript,
    Cpp,
    CSharp,
    JavaScript,
    Kotlin,
    Swift,
    Custom(String),
}

/// Package-to-package dependency.
#[derive(Debug)]
pub struct PackageDependency {
    pub from: String,
    pub to: String,
}

} // verus!

use vstd::prelude::*;
use crate::utils::clock::now_seconds;
use crate::utils::keyed::{Keyed, has_key, is_first_key, key_strs, position_of};
use crate::utils::text::to_owned_string;

verus! {

/// Root structure for a build model.
#[derive(Debug)]
pub struct BuildModel {
    pub version: String,
    pub kind: BuildDiagramKind,
    pub metadata: BuildMetadata,
    pub artifacts: Vec<BuildArtifact>,
    pub dependencies: Vec<ArtifactDependency>,
}

impl BuildModel {
    /// A new, empty build model with the given title.
    pub fn new(title: &str) -> (m: Self)
        ensures
            m.metadata.created_at >= 0,
            m.metadata.updated_at >= 0,
            m.version@ == "1.0"@,
            m.kind == BuildDiagramKind::BuildModel,
            m.metadata.title@ == title@,
            m.metadata.description is None,
            m.artifacts@.len() == 0,
            m.dependencies@.len() == 0,
    {
        BuildModel {
            version: String::from_str("1.0"),
            kind: BuildDiagramKind::BuildModel,
            metadata: BuildMetadata {
                title: String::from_str(title),
                description: None,
                created_at: now_seconds(),
                updated_at: now_seconds(),
            },
            artifacts: Vec::new(),
            dependencies: Vec::new(),
        }
    }

    /// Updates the modification time; nothing else changes.
    pub fn touch(&mut self)
        ensures
            final(self).metadata.updated_at >= 0,
            final(self).version == old(self).version,
            final(self).kind == old(self).kind,
            final(self).metadata.title == old(self).metadata.title,
            final(self).metadata.description == old(self).metadata.description,
            final(self).metadata.created_at == old(self).metadata.created_at,
            final(self).artifacts == old(self).artifacts,
            final(self).dependencies == old(self).dependencies,
    {
        self.metadata.updated_at = now_seconds();
    }

    /// The IDs of all artifacts, in order.
    pub fn all_artifact_ids(&self) -> (r: Vec<&str>)
        ensures
            r@.len() == self.artifacts@.len(),
            forall|i: int| 0 <= i < self.artifacts@.len() ==> #[trigger] r@[i]@ == self.artifacts@[i].id@,
    {
        key_strs(&self.artifacts)
    }

    /// The first artifact with the given ID.
    pub fn find_artifact(&self, id: &str) -> (r: Option<&BuildArtifact>)
        ensures
            match r {
                Some(a) => exists|i: int| is_first_key(self.artifacts@, id@, i) && self.artifacts@[i] == *a,
                None => !has_key(self.artifacts@, id@),
            },
    {
        let key = to_owned_string(id);
        match position_of(&self.artifacts, &key) {
            Some(i) => Some(&self.artifacts[i]),
            None => None,
        }
    }

    /// The first artifact with the given ID, for modification.
    pub fn find_artifact_mut(&mut self, id: &str) -> (r: Option<&mut BuildArtifact>)
        ensures
            match r {
                Some(a) => exists|i: int| {
                    &&& is_first_key(old(self).artifacts@, id@, i)
                    &&& *a == old(self).artifacts@[i]
                    &&& final(self).artifacts@ == old(self).artifacts@.update(i, *final(a))
                },
                None => !has_key(old(self).artifacts@, id@) && *final(self) == *old(self),
            },
            final(self).version == old(self).version,
            final(self).kind == old(self).kind,
            final(self).metadata == old(self).metadata,
            final(self).dependencies == old(self).dependencies,
    {
        let key = to_owned_string(id);
        match position_of(&self.artifacts, &key) {
            Some(i) => Some(&mut self.artifacts[i]),
            None => None,
        }
    }

    /// The name of the first artifact with the given ID.
    pub fn get_artifact_name(&self, id: &str) -> (r: Option<&str>)
        ensures
            match r {
                Some(n) => exists|i: int| is_first_key(self.artifacts@, id@, i) && n@ == self.artifacts@[i].name@,
                None => !has_key(self.artifacts@, id@),
            },
    {
        match self.find_artifact(id) {
            Some(a) => Some(a.name.as_str()),
            None => None,
        }
    }
}

/// The kind tag of a build model.
#[derive(Debug, Clone, Copy, PartialEq, Eq, Structural)]
pub enum BuildDiagramKind {
    BuildModel,
}

/// Title, description and timestamps (seconds since the Unix epoch).
#[derive(Debug)]
pub struct BuildMetadata {
    pub title: String,
    pub description: Option<String>,
    pub created_at: i64,
    pub updated_at: i64,
}

/// A build artifact (binary, library, image, ...).
#[derive(Debug)]
pub struct BuildArtifact {
    pub id: String,
    pub name: String,
    pub description: Option<String>,
    pub build_tool: Option<BuildTool>,
    pub output_type: OutputType,
    pub source_packages: Vec<String>,
    pub build_file: Option<String>,
    pub profile: Option<BuildProfile>,
    pub build_args: Option<String>,
}

impl Keyed for BuildArtifact {
    open spec fn key(&self) -> Seq<char> {
        self.id@
    }

    fn key_text(&self) -> (r: &String) {
        &self.id
    }
}

/// What a build produces.
#[derive(Debug, Clone, Copy, PartialEq, Eq, Structural)]
pub enum OutputType {
    Binary,
    Library,
    DockerImage,
    Archive,
    Bundle,
}

impl Default for OutputType {
    fn default() -> (r: Self)
        ensures
            r == OutputType::Binary,
    {
        OutputType::Binary
    }
}

/// The tool that builds an artifact.
#[derive(Debug, Clone, PartialEq, Eq)]
pub enum BuildTool {
    Cargo,
    Maven,
    Gradle,
    Npm,
    Pip,
    Make,
    Cmake,
    GoBuild,
    Dotnet,
    Bazel,
    Custom(String),
}

/// Build profile.
#[derive(Debug, Clone, Copy, PartialEq, Eq, Structural)]
pub enum BuildProfile {
    Debug,
    Release,
}

impl Default for BuildProfile {
    fn default() -> (r: Self)
        ensures
            r == BuildProfile::Debug,
    {
        BuildProfile::Debug
    }
}

/// Artifact-to-artifact dependency.
#[derive(Debug)]
pub struct ArtifactDependency {
    pub from: String,
    pub to: String,
}

} // verus!

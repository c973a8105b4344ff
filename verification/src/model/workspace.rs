use vstd::prelude::*;
use crate::utils::clock::now_seconds;
use crate::model::c4::context::ContextDiagram;
use crate::model::code::CodeModel;
use crate::model::build::BuildModel;
use crate::model::delivery::DeliveryModel;
use crate::model::deployment::DeploymentModel;
use crate::model::logic::concept::LogicConceptDiagram;
use crate::model::logic::concept_model::LogicArchitectureConceptModel;
use crate::model::runtime::RuntimeView;

verus! {

/// A workspace holding any of the diagrams and models.
#[derive(Debug)]
pub struct Workspace {
    pub version: String,
    pub metadata: WorkspaceMetadata,
    pub context_diagram: Option<ContextDiagram>,
    pub logic_architecture_concept_model: Option<LogicArchitectureConceptModel>,
    pub logic_view: Option<LogicConceptDiagram>,
    pub runtime_view: Option<RuntimeView>,
    pub code_model: Option<CodeModel>,
    pub build_model: Option<BuildModel>,
    pub delivery_model: Option<DeliveryModel>,
    pub deployment_model: Option<DeploymentModel>,
}

impl Workspace {
    /// A new workspace without diagrams.
    pub fn new(title: &str) -> (w: Self)
        ensures
            w.metadata.created_at >= 0,
            w.metadata.updated_at >= 0,
            w.version@ == "1.0"@,
            w.metadata.title@ == title@,
            w.metadata.description is None,
            w.context_diagram is None,
            w.logic_architecture_concept_model is None,
            w.logic_view is None,
            w.runtime_view is None,
            w.code_model is None,
            w.build_model is None,
            w.delivery_model is None,
            w.deployment_model is None,
    {
        Workspace {
            version: String::from_str("1.0"),
            metadata: WorkspaceMetadata {
                title: String::from_str(title),
                description: None,
                created_at: now_seconds(),
                updated_at: now_seconds(),
            },
            context_diagram: None,
            logic_architecture_concept_model: None,
            logic_view: None,
            runtime_view: None,
            code_model: None,
            build_model: None,
            delivery_model: None,
            deployment_model: None,
        }
    }

    /// A new workspace, titled like the context diagram, holding only it.
    pub fn holding_context_diagram(d: ContextDiagram) -> (w: Self)
        ensures
            w.metadata.created_at >= 0,
            w.metadata.updated_at >= 0,
            w.version@ == "1.0"@,
            w.metadata.title@ == d.metadata.title@,
            w.metadata.description is None,
            w.context_diagram == Some(d),
            w.logic_architecture_concept_model is None,
            w.logic_view is None,
            w.runtime_view is None,
            w.code_model is None,
            w.build_model is None,
            w.delivery_model is None,
            w.deployment_model is None,
    {
        let mut w = Workspace::new(d.metadata.title.as_str());
        w.context_diagram = Some(d);
        w
    }

    /// A new workspace, titled like the logic view, holding only it.
    pub fn holding_logic_view(d: LogicConceptDiagram) -> (w: Self)
        ensures
            w.metadata.created_at >= 0,
            w.metadata.updated_at >= 0,
            w.version@ == "1.0"@,
            w.metadata.title@ == d.metadata.title@,
            w.metadata.description is None,
            w.context_diagram is None,
            w.logic_architecture_concept_model is None,
            w.logic_view == Some(d),
            w.runtime_view is None,
            w.code_model is None,
            w.build_model is None,
            w.delivery_model is None,
            w.deployment_model is None,
    {
        let mut w = Workspace::new(d.metadata.title.as_str());
        w.logic_view = Some(d);
        w
    }

    /// A new workspace, titled like the concept model, holding only it.
    pub fn holding_concept_model(m: LogicArchitectureConceptModel) -> (w: Self)
        ensures
            w.metadata.created_at >= 0,
            w.metadata.updated_at >= 0,
            w.version@ == "1.0"@,
            w.metadata.title@ == m.metadata.title@,
            w.metadata.description is None,
            w.context_diagram is None,
            w.logic_architecture_concept_model == Some(m),
            w.logic_view is None,
            w.runtime_view is None,
            w.code_model is None,
            w.build_model is None,
            w.delivery_model is None,
            w.deployment_model is None,
    {
        let mut w = Workspace::new(m.metadata.title.as_str());
        w.logic_architecture_concept_model = Some(m);
        w
    }

    /// A new workspace, titled like the runtime view, holding only it.
    pub fn holding_runtime_view(v: RuntimeView) -> (w: Self)
        ensures
            w.metadata.created_at >= 0,
            w.metadata.updated_at >= 0,
            w.version@ == "1.0"@,
            w.metadata.title@ == v.metadata.title@,
            w.metadata.description is None,
            w.context_diagram is None,
            w.logic_architecture_concept_model is None,
            w.logic_view is None,
            w.runtime_view == Some(v),
            w.code_model is None,
            w.build_model is None,
            w.delivery_model is None,
            w.deployment_model is None,
    {
        let mut w = Workspace::new(v.metadata.title.as_str());
        w.runtime_view = Some(v);
        w
    }

    /// Updates the modification time; nothing else changes.
    pub fn touch(&mut self)
        ensures
            final(self).metadata.updated_at >= 0,
            final(self).version == old(self).version,
            final(self).metadata.title == old(self).metadata.title,
            final(self).metadata.description == old(self).metadata.description,
            final(self).metadata.created_at == old(self).metadata.created_at,
            final(self).context_diagram == old(self).context_diagram,
            final(self).logic_architecture_concept_model == old(self).logic_architecture_concept_model,
            final(self).logic_view == old(self).logic_view,
            final(self).runtime_view == old(self).runtime_view,
            final(self).code_model == old(self).code_model,
            final(self).build_model == old(self).build_model,
            final(self).delivery_model == old(self).delivery_model,
            final(self).deployment_model == old(self).deployment_model,
    {
        self.metadata.updated_at = now_seconds();
    }

    /// Whether a context diagram is present.
    pub fn has_context_diagram(&self) -> (r: bool)
        ensures
            r == self.context_diagram is Some,
    {
        self.context_diagram.is_some()
    }

    /// Whether a concept model is present.
    pub fn has_logic_architecture_concept_model(&self) -> (r: bool)
        ensures
            r == self.logic_architecture_concept_model is Some,
    {
        self.logic_architecture_concept_model.is_some()
    }

    /// Whether a logic view is present.
    pub fn has_logic_view(&self) -> (r: bool)
        ensures
            r == self.logic_view is Some,
    {
        self.logic_view.is_some()
    }

    /// Whether a runtime view is present.
    pub fn has_runtime_view(&self) -> (r: bool)
        ensures
            r == self.runtime_view is Some,
    {
        self.runtime_view.is_some()
    }

    /// Whether a code model is present.
    pub fn has_code_model(&self) -> (r: bool)
        ensures
            r == self.code_model is Some,
    {
        self.code_model.is_some()
    }

    /// Whether a build model is present.
    pub fn has_build_model(&self) -> (r: bool)
        ensures
            r == self.build_model is Some,
    {
        self.build_model.is_some()
    }

    /// Whether a delivery model is present.
    pub fn has_delivery_model(&self) -> (r: bool)
        ensures
            r == self.delivery_model is Some,
    {
        self.delivery_model.is_some()
    }

    /// Whether a deployment model is present.
    pub fn has_deployment_model(&self) -> (r: bool)
        ensures
            r == self.deployment_model is Some,
    {
        self.deployment_model.is_some()
    }

    /// The concept model, if present.
    pub fn get_concept_model(&self) -> (r: Option<&LogicArchitectureConceptModel>)
        ensures
            match r {
                Some(m) => self.logic_architecture_concept_model == Some(*m),
                None => self.logic_architecture_concept_model is None,
            },
    {
        match &self.logic_architecture_concept_model {
            Some(m) => Some(m),
            None => None,
        }
    }
}

/// Title, description and timestamps (seconds since the Unix epoch).
#[derive(Debug)]
pub struct WorkspaceMetadata {
    pub title: String,
    pub description: Option<String>,
    pub created_at: i64,
    pub updated_at: i64,
}

} // verus!

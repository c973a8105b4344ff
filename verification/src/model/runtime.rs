pub mod runtime_view;
pub use runtime_view::{RuntimeView, DiagramKind, Metadata, Scenario, Participant, ParticipantType, Block, Step, StepType, Group, GroupType, GroupBranch, Note, NotePosition, Divider};

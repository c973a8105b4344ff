use vstd::prelude::*;
use crate::cli::args::{RuntimeAddCommand, RuntimeRemoveCommand};
use crate::cli::commands::context_model::{fresh_workspace, given_or_id};
use crate::model::runtime::runtime_view::{RuntimeView, DiagramKind, max_order_blocks};
use crate::model::workspace::Workspace;
use crate::store::runtime_operations::{
    RuntimeOperations, the_scenario, add_scenario_post, add_participant_post, add_step_post, add_group_post,
    add_note_post, add_divider_post, remove_scenario_post, remove_participant_post, remove_step_post,
    remove_group_post, remove_note_post, remove_divider_post,
};
use crate::validator::workspace::{static_ids, collect_static_ids, lists};
use crate::model::logic::concept::str_views;
use crate::utils::error::{AppError, ErrorKind, Result, fails_with};
use crate::utils::keyed::has_key;
use crate::utils::text::{opt_view, string_views, concat3, as_opt_str, to_owned_string};

verus! {

/// `w1` is `w0` with the runtime view `v` and a new modification time.
pub open spec fn with_runtime_view(w0: Workspace, w1: Workspace, v: RuntimeView) -> bool {
    &&& w1.runtime_view == Some(v)
    &&& w1.version == w0.version
    &&& w1.metadata.title == w0.metadata.title
    &&& w1.metadata.description == w0.metadata.description
    &&& w1.metadata.created_at == w0.metadata.created_at
    &&& w1.metadata.updated_at >= 0
    &&& w1.context_diagram == w0.context_diagram
    &&& w1.logic_architecture_concept_model == w0.logic_architecture_concept_model
    &&& w1.logic_view == w0.logic_view
    &&& w1.code_model == w0.code_model
    &&& w1.build_model == w0.build_model
    &&& w1.delivery_model == w0.delivery_model
    &&& w1.deployment_model == w0.deployment_model
}

/// A new runtime view as `RuntimeView::new(title)` makes it.
pub open spec fn fresh_view(v: RuntimeView, title: Seq<char>) -> bool {
    &&& v.version@ == "1.0"@
    &&& v.kind == DiagramKind::RuntimeView
    &&& v.metadata.title@ == title
    &&& v.metadata.created_at >= 0
    &&& v.metadata.updated_at >= 0
    &&& v.metadata.description is None
    &&& v.scenarios@.len() == 0
}

/// The error message for a participant that names no element of the static models.
pub open spec fn unknown_element_message(id: Seq<char>) -> Seq<char> {
    "元素 '"@ + id + "' 在 context_diagram 和 logic_view 中均未找到"@
}

/// The error message for a workspace without a runtime view.
pub open spec fn runtime_not_found_message() -> Seq<char> {
    "runtime_view not found in workspace"@
}

/// What an add command does to a runtime view (see the operations).
pub open spec fn add_post(v0: RuntimeView, v1: RuntimeView, cmd: RuntimeAddCommand, r: Result<()>) -> bool {
    match cmd {
        RuntimeAddCommand::Scenario { id, name, desc } =>
            add_scenario_post(v0, v1, id@, given_or_id(name, id), opt_view(desc), r),
        RuntimeAddCommand::Participant { scenario_id, element_id, participant_type, alias, color } =>
            add_participant_post(v0, v1, scenario_id@, element_id@, participant_type, opt_view(alias), opt_view(color), r),
        RuntimeAddCommand::Step { scenario_id, from, to, message, step_type, protocol, color, activate, group, branch } =>
            add_step_post(v0, v1, scenario_id@, from@, to@, message@, step_type, opt_view(protocol), opt_view(color),
                activate, opt_view(group), opt_view(branch), r),
        RuntimeAddCommand::Group { scenario_id, group_type, label, branches, group, branch } =>
            add_group_post(v0, v1, scenario_id@, group_type, label@, string_views(branches@), opt_view(group),
                opt_view(branch), r),
        RuntimeAddCommand::Note { scenario_id, position, target, text } =>
            add_note_post(v0, v1, scenario_id@, position, target@, text@, r),
        RuntimeAddCommand::Divider { scenario_id, label, after_order } =>
            add_divider_post(v0, v1, scenario_id@, label@, after_order, r),
    }
}

/// What a remove command does to a runtime view (see the operations).
pub open spec fn remove_post(v0: RuntimeView, v1: RuntimeView, cmd: RuntimeRemoveCommand, r: Result<()>) -> bool {
    match cmd {
        RuntimeRemoveCommand::Scenario { id } => remove_scenario_post(v0, v1, id@, r),
        RuntimeRemoveCommand::Participant { scenario_id, element_id } =>
            remove_participant_post(v0, v1, scenario_id@, element_id@, r),
        RuntimeRemoveCommand::Step { scenario_id, order, group, branch } =>
            remove_step_post(v0, v1, scenario_id@, order, opt_view(group), opt_view(branch), r),
        RuntimeRemoveCommand::Group { scenario_id, label, group, branch } =>
            remove_group_post(v0, v1, scenario_id@, label@, opt_view(group), opt_view(branch), r),
        RuntimeRemoveCommand::Note { scenario_id, index } => remove_note_post(v0, v1, scenario_id@, index, r),
        RuntimeRemoveCommand::Divider { scenario_id, index } => remove_divider_post(v0, v1, scenario_id@, index, r),
    }
}

/// A step can still be numbered: its scenario's largest order is below the
/// largest `u32` (or the scenario does not exist).
pub open spec fn step_numberable(v: RuntimeView, cmd: RuntimeAddCommand) -> bool {
    cmd matches RuntimeAddCommand::Step { scenario_id, .. } ==> (has_key(v.scenarios@, scenario_id@)
        ==> max_order_blocks(the_scenario(v, scenario_id@).blocks@) < u32::MAX)
}

/// The outcome of applying an add command to view `v0` of workspace `w0`.
pub open spec fn add_edit_outcome(w0: Workspace, v0: RuntimeView, cmd: RuntimeAddCommand, r: Result<Workspace>) -> bool {
    match r {
        Ok(w1) => exists|v1: RuntimeView| add_post(v0, v1, cmd, Ok(())) && with_runtime_view(w0, w1, v1),
        Err(e) => exists|v1: RuntimeView| add_post(v0, v1, cmd, Err(e)),
    }
}

/// The outcome of a command on the view of workspace `w0`, which must have one.
pub open spec fn add_to_existing_outcome(w0: Workspace, cmd: RuntimeAddCommand, r: Result<Workspace>) -> bool {
    match w0.runtime_view {
        Some(v0) => add_edit_outcome(w0, v0, cmd, r),
        None => fails_with(r, ErrorKind::ElementNotFound, runtime_not_found_message()),
    }
}

/// A new scenario added to workspace `w0`: the one read from the file, or a
/// new one titled by the scenario's ID; its runtime view is created, titled
/// the same way, when missing.
pub open spec fn scenario_outcome(w: Option<Workspace>, w0: Workspace, cmd: RuntimeAddCommand, r: Result<Workspace>) -> bool {
    cmd matches RuntimeAddCommand::Scenario { id, .. } && {
        &&& match w {
            Some(x) => w0 == x,
            None => fresh_workspace(w0, id@),
        }
        &&& match w0.runtime_view {
            Some(v0) => add_edit_outcome(w0, v0, cmd, r),
            None => exists|v0: RuntimeView| fresh_view(v0, id@) && add_edit_outcome(w0, v0, cmd, r),
        }
    }
}

/// The outcome of an add command on the workspace read from the file (`None`
/// when there is none, which only a new scenario may start). A new scenario
/// gets a new workspace and runtime view, titled by its ID, where they are
/// missing; a participant must name an element of the context diagram or the
/// logic view, which is checked first.
pub open spec fn add_outcome(w: Option<Workspace>, cmd: RuntimeAddCommand, r: Result<Workspace>) -> bool {
    match cmd {
        RuntimeAddCommand::Scenario { .. } => exists|w0: Workspace| #[trigger] scenario_outcome(w, w0, cmd, r),
        RuntimeAddCommand::Participant { element_id, .. } => match w {
            Some(w0) => if static_ids(w0).contains(element_id@) {
                add_to_existing_outcome(w0, cmd, r)
            } else {
                fails_with(r, ErrorKind::ElementNotFound, unknown_element_message(element_id@))
            },
            None => false,
        },
        _ => match w {
            Some(w0) => add_to_existing_outcome(w0, cmd, r),
            None => false,
        },
    }
}

/// The outcome of a remove command on a workspace.
pub open spec fn remove_outcome(w0: Workspace, cmd: RuntimeRemoveCommand, r: Result<Workspace>) -> bool {
    match w0.runtime_view {
        None => fails_with(r, ErrorKind::ElementNotFound, runtime_not_found_message()),
        Some(v0) => match r {
            Ok(w1) => exists|v1: RuntimeView| remove_post(v0, v1, cmd, Ok(())) && with_runtime_view(w0, w1, v1),
            Err(e) => exists|v1: RuntimeView| remove_post(v0, v1, cmd, Err(e)),
        },
    }
}

/// Checks that a participant's element exists in the context diagram or the
/// logic view.
pub fn validate_element_exists_in_static_models(workspace: &Workspace, element_id: &str) -> (r: Result<()>)
    ensures
        r is Ok <==> static_ids(*workspace).contains(element_id@),
        r is Err ==> fails_with(r, ErrorKind::ElementNotFound, unknown_element_message(element_id@)),
{
    let ids = collect_static_ids(workspace);
    if lists(&ids, &to_owned_string(element_id)) {
        Ok(())
    } else {
        Err(AppError::ElementNotFound(concat3("元素 '", element_id, "' 在 context_diagram 和 logic_view 中均未找到")))
    }
}

/// Applies an add command to a runtime view.
pub fn apply_to_view(view: &mut RuntimeView, cmd: RuntimeAddCommand) -> (r: Result<()>)
    requires
        step_numberable(*old(view), cmd),
    ensures
        add_post(*old(view), *final(view), cmd, r),
{
    match cmd {
        RuntimeAddCommand::Scenario { id, name, desc } =>
            RuntimeOperations::add_scenario(view, id.as_str(), as_opt_str(&name), as_opt_str(&desc)),
        RuntimeAddCommand::Participant { scenario_id, element_id, participant_type, alias, color } =>
            RuntimeOperations::add_participant(view, scenario_id.as_str(), element_id.as_str(), participant_type,
                as_opt_str(&alias), as_opt_str(&color)),
        RuntimeAddCommand::Step { scenario_id, from, to, message, step_type, protocol, color, activate, group, branch } =>
            RuntimeOperations::add_step(view, scenario_id.as_str(), from.as_str(), to.as_str(), message.as_str(),
                step_type, as_opt_str(&protocol), as_opt_str(&color), activate, as_opt_str(&group), as_opt_str(&branch)),
        RuntimeAddCommand::Group { scenario_id, group_type, label, branches, group, branch } =>
            RuntimeOperations::add_group(view, scenario_id.as_str(), group_type, label.as_str(), branches,
                as_opt_str(&group), as_opt_str(&branch)),
        RuntimeAddCommand::Note { scenario_id, position, target, text } =>
            RuntimeOperations::add_note(view, scenario_id.as_str(), position, target.as_str(), text.as_str()),
        RuntimeAddCommand::Divider { scenario_id, label, after_order } =>
            RuntimeOperations::add_divider(view, scenario_id.as_str(), label.as_str(), after_order),
    }
}

/// Applies a remove command to a runtime view.
pub fn remove_from_view(view: &mut RuntimeView, cmd: RuntimeRemoveCommand) -> (r: Result<()>)
    ensures
        remove_post(*old(view), *final(view), cmd, r),
{
    match cmd {
        RuntimeRemoveCommand::Scenario { id } => RuntimeOperations::remove_scenario(view, id.as_str()),
        RuntimeRemoveCommand::Participant { scenario_id, element_id } =>
            RuntimeOperations::remove_participant(view, scenario_id.as_str(), element_id.as_str()),
        RuntimeRemoveCommand::Step { scenario_id, order, group, branch } =>
            RuntimeOperations::remove_step(view, scenario_id.as_str(), order, as_opt_str(&group), as_opt_str(&branch)),
        RuntimeRemoveCommand::Group { scenario_id, label, group, branch } =>
            RuntimeOperations::remove_group(view, scenario_id.as_str(), label.as_str(), as_opt_str(&group),
                as_opt_str(&branch)),
        RuntimeRemoveCommand::Note { scenario_id, index } =>
            RuntimeOperations::remove_note(view, scenario_id.as_str(), index),
        RuntimeRemoveCommand::Divider { scenario_id, index } =>
            RuntimeOperations::remove_divider(view, scenario_id.as_str(), index),
    }
}

fn store_view(workspace: Workspace, view: RuntimeView) -> (w: Workspace)
    ensures
        with_runtime_view(workspace, w, view),
{
    let mut w = workspace;
    w.runtime_view = Some(view);
    w.touch();
    w
}

fn edit_view(workspace: Workspace, view: RuntimeView, cmd: RuntimeAddCommand) -> (r: Result<Workspace>)
    requires
        step_numberable(view, cmd),
    ensures
        add_edit_outcome(workspace, view, cmd, r),
{
    let mut v = view;
    let ghost c = cmd;
    match apply_to_view(&mut v, cmd) {
        Ok(()) => {
            let w = store_view(workspace, v);
            assert(add_post(view, v, c, Ok(())) && with_runtime_view(workspace, w, v));
            Ok(w)
        },
        Err(e) => {
            assert(add_post(view, v, c, Err(e)));
            Err(e)
        },
    }
}

/// Edits the runtime view of a workspace, which must have one.
fn edit_existing(workspace: Workspace, cmd: RuntimeAddCommand) -> (r: Result<Workspace>)
    requires
        workspace.runtime_view matches Some(v) ==> step_numberable(v, cmd),
    ensures
        add_to_existing_outcome(workspace, cmd, r),
{
    let ghost w_in = workspace;
    let mut w = workspace;
    match w.runtime_view.take() {
        None => Err(AppError::ElementNotFound(String::from_str("runtime_view not found in workspace"))),
        Some(v) => {
            let ghost c = cmd;
            let r = edit_view(w, v, cmd);
            proof {
                if r is Ok {
                    let w1 = r->Ok_0;
                    let v1 = choose|v1: RuntimeView| add_post(v, v1, c, Ok(())) && with_runtime_view(w, w1, v1);
                    assert(add_post(v, v1, c, Ok(())) && with_runtime_view(w_in, w1, v1));
                }
            }
            r
        },
    }
}

/// Applies an add command to the workspace read from the file (`None` when
/// there is none, which only a new scenario may start), and gives back the
/// workspace to write.
pub fn apply_add(workspace: Option<Workspace>, cmd: RuntimeAddCommand) -> (r: Result<Workspace>)
    requires
        workspace is None ==> cmd is Scenario,
        workspace matches Some(w) && w.runtime_view matches Some(v) ==> step_numberable(v, cmd),
    ensures
        add_outcome(workspace, cmd, r),
{
    match cmd {
        RuntimeAddCommand::Scenario { id, name, desc } => {
            let ghost wi = workspace;
            let w = match workspace {
                Some(w) => w,
                None => Workspace::new(id.as_str()),
            };
            let ghost w0 = w;
            let ghost c = RuntimeAddCommand::Scenario { id, name, desc };
            let ghost base = match wi {
                Some(x) => w0 == x,
                None => fresh_workspace(w0, id@),
            };
            assert(base);
            if w.runtime_view.is_some() {
                let r = edit_existing(w, RuntimeAddCommand::Scenario { id, name, desc });
                assert(base && add_to_existing_outcome(w0, c, r));
                assert(scenario_outcome(wi, w0, c, r));
                r
            } else {
                let v = RuntimeView::new(id.as_str());
                let ghost v0 = v;
                let r = edit_view(w, v, RuntimeAddCommand::Scenario { id, name, desc });
                assert(fresh_view(v0, id@) && add_edit_outcome(w0, v0, c, r));
                assert(base && (exists|v0: RuntimeView| fresh_view(v0, id@) && add_edit_outcome(w0, v0, c, r)));
                assert(scenario_outcome(wi, w0, c, r));
                r
            }
        },
        RuntimeAddCommand::Participant { scenario_id, element_id, participant_type, alias, color } => {
            let w = workspace.unwrap();
            match validate_element_exists_in_static_models(&w, element_id.as_str()) {
                Err(e) => Err(e),
                Ok(()) => edit_existing(w, RuntimeAddCommand::Participant {
                    scenario_id,
                    element_id,
                    participant_type,
                    alias,
                    color,
                }),
            }
        },
        _ => edit_existing(workspace.unwrap(), cmd),
    }
}

/// Applies a remove command to a workspace, and gives back the workspace to write.
pub fn apply_remove(workspace: Workspace, cmd: RuntimeRemoveCommand) -> (r: Result<Workspace>)
    ensures
        remove_outcome(workspace, cmd, r),
{
    let mut w = workspace;
    match w.runtime_view.take() {
        None => Err(AppError::ElementNotFound(String::from_str("runtime_view not found in workspace"))),
        Some(v0) => {
            let mut v = v0;
            let ghost c = cmd;
            match remove_from_view(&mut v, cmd) {
                Ok(()) => {
                    let w1 = store_view(w, v);
                    assert(remove_post(v0, v, c, Ok(())) && with_runtime_view(workspace, w1, v));
                    Ok(w1)
                },
                Err(e) => {
                    assert(remove_post(v0, v, c, Err(e)));
                    Err(e)
                },
            }
        },
    }
}

} // verus!

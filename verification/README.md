# sys_design

Architecture modelling as code: a workspace of models (context, concept,
logic view, runtime, code, build, delivery, deployment) is edited, validated
and drawn as PlantUML. The library is written in Verus. Its functions carry
contracts that Verus proves, except a few small wrappers whose contracts are
trusted: the clock (`chrono`), the ID pattern (`regex`), and the `std` calls
for upper-casing, quoting and appending text.

## Layout

- `src/model/` – the models and their lookups (`Keyed` collections, views over
  their IDs and names).
- `src/store/` – the editing operations, each stated as a relation between the
  model before and after (`*_post` spec functions), with the invariants they keep
  (references that resolve, IDs that stay distinct) and round-trip laws.
- `src/validator/` – the validation rules; each validator's findings are a spec
  function of the model.
- `src/generator/plantuml/` – the diagrams; each generator's text is a spec
  function of the model, and every diagram is framed by `@startuml`/`@enduml`.
- `src/cli/` – what the commands decide: which model an edit touches, what is
  created on demand, the checks that span models (`commands/`), and the lines
  that `list`, `show` and `validate` print (`listing/`, `report.rs`).
- `src/utils/` – text helpers, errors, keyed lookups and the few calls into
  `std`, `chrono` and `regex` whose contracts are trusted.
- `app/` – the command-line program: argument parsing (clap), reading and
  writing the YAML file (serde), colours, and printing.
- `tests/` – tests of the library through its public interface.

## Notes on behaviour

- The logic view holds subsystems, components, modules (nested to any depth),
  interfaces, provide relations, containments and dependencies. Its
  validation checks IDs, conformance to the concept model's containment
  rules, unused element types and elements that no containment holds.
- In a logic view diagram, the dependency lines of the modules drawn come in
  the order in which the drawn elements were collected (the root, its
  children, then interfaces); the set of lines does not depend on that order.
  The full diagram draws what the containments reach from the system, in as
  many rounds as there are containments.
- `logic-model add component ID --subsystem SUB` adds the component to the
  first subsystem with ID `SUB`; it fails when no subsystem has that ID.
- Every successful edit renews the modification time of the model it edits
  and of the workspace from the clock; a failed edit changes nothing.
- A new concept model starts with an empty hierarchy: it has no levels, so it
  draws no level and its validation reports that the hierarchy needs a level.
- Context diagrams are drawn with plain PlantUML elements (`..>` and `---`),
  not with the C4 macros (`Rel(`, `System(`, `LAYOUT_WITH_LEGEND`).

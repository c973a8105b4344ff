use sys_design::store::BuildOperations;
use sys_design::model::build::{BuildModel, BuildTool, OutputType, BuildProfile};


fn create_test_model() -> BuildModel {
    BuildModel::new("Test Build Model")
}

#[test]
fn test_add_artifact() {
    let mut model = create_test_model();
    BuildOperations::add_artifact(
        &mut model,
        "CORE_BIN",
        Some("Core Binary"),
        Some("Main executable"),
        Some(BuildTool::Cargo),
        Some(OutputType::Binary),
        vec!["CORE_LIB".to_string()],
        Some("Cargo.toml"),
        Some(BuildProfile::Release),
        None,
    )
    .unwrap();
    assert_eq!(model.artifacts.len(), 1);
    assert_eq!(model.artifacts[0].id, "CORE_BIN");
    assert_eq!(model.artifacts[0].name, "Core Binary");
    assert_eq!(model.artifacts[0].source_packages, vec!["CORE_LIB"]);
}

#[test]
fn test_add_duplicate_artifact() {
    let mut model = create_test_model();
    BuildOperations::add_artifact(&mut model, "ART_A", None, None, None, None, vec![], None, None, None).unwrap();
    let result = BuildOperations::add_artifact(&mut model, "ART_A", None, None, None, None, vec![], None, None, None);
    assert!(result.is_err());
}

#[test]
fn test_remove_artifact() {
    let mut model = create_test_model();
    BuildOperations::add_artifact(&mut model, "ART_A", None, None, None, None, vec![], None, None, None).unwrap();
    BuildOperations::add_artifact(&mut model, "ART_B", None, None, None, None, vec![], None, None, None).unwrap();
    BuildOperations::add_dependency(&mut model, "ART_A", "ART_B").unwrap();

    BuildOperations::remove_artifact(&mut model, "ART_A").unwrap();
    assert_eq!(model.artifacts.len(), 1);
    // Dependencies referencing ART_A should be removed
    assert!(model.dependencies.is_empty());
}

#[test]
fn build_operations_test_add_dependency() {
    let mut model = create_test_model();
    BuildOperations::add_artifact(&mut model, "ART_A", None, None, None, None, vec![], None, None, None).unwrap();
    BuildOperations::add_artifact(&mut model, "ART_B", None, None, None, None, vec![], None, None, None).unwrap();
    BuildOperations::add_dependency(&mut model, "ART_A", "ART_B").unwrap();
    assert_eq!(model.dependencies.len(), 1);
}

#[test]
fn build_operations_test_add_dependency_invalid_from() {
    let mut model = create_test_model();
    BuildOperations::add_artifact(&mut model, "ART_B", None, None, None, None, vec![], None, None, None).unwrap();
    let result = BuildOperations::add_dependency(&mut model, "ART_A", "ART_B");
    assert!(result.is_err());
}

#[test]
fn build_operations_test_remove_dependency() {
    let mut model = create_test_model();
    BuildOperations::add_artifact(&mut model, "ART_A", None, None, None, None, vec![], None, None, None).unwrap();
    BuildOperations::add_artifact(&mut model, "ART_B", None, None, None, None, vec![], None, None, None).unwrap();
    BuildOperations::add_dependency(&mut model, "ART_A", "ART_B").unwrap();
    BuildOperations::remove_dependency(&mut model, "ART_A", "ART_B").unwrap();
    assert!(model.dependencies.is_empty());
}

#[test]
fn test_list_empty_artifacts() {
    let model = create_test_model();
    assert!(model.artifacts.is_empty());
    assert!(model.all_artifact_ids().is_empty());
}

#[test]
fn test_add_then_remove_artifact_restores_model() {
    let mut model = create_test_model();
    BuildOperations::add_artifact(&mut model, "A", None, None, None, None, vec![], None, None, None).unwrap();
    BuildOperations::add_artifact(&mut model, "B", None, None, None, None, vec![], None, None, None).unwrap();
    BuildOperations::add_dependency(&mut model, "B", "A").unwrap();
    BuildOperations::add_artifact(&mut model, "C", None, None, Some(BuildTool::Cargo), None, vec![], None, None, None).unwrap();
    BuildOperations::remove_artifact(&mut model, "C").unwrap();
    let ids: Vec<&str> = model.artifacts.iter().map(|a| a.id.as_str()).collect();
    assert_eq!(ids, vec!["A", "B"]);
    assert_eq!(model.dependencies.len(), 1);
    assert_eq!(model.dependencies[0].from, "B");
}

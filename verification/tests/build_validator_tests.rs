use sys_design::validator::result::Severity;
use sys_design::validator::build_model::validate;
use sys_design::model::build::{BuildModel, BuildArtifact, BuildTool, OutputType, ArtifactDependency};


fn create_test_model() -> BuildModel {
    let mut model = BuildModel::new("Test");
    model.artifacts.push(BuildArtifact {
        id: "ART_A".to_string(),
        name: "Artifact A".to_string(),
        description: None,
        build_tool: Some(BuildTool::Cargo),
        output_type: OutputType::Binary,
        source_packages: vec![],
        build_file: None,
        profile: None,
        build_args: None,
    });
    model.artifacts.push(BuildArtifact {
        id: "ART_B".to_string(),
        name: "Artifact B".to_string(),
        description: None,
        build_tool: None,
        output_type: OutputType::Library,
        source_packages: vec![],
        build_file: None,
        profile: None,
        build_args: None,
    });
    model.dependencies.push(ArtifactDependency {
        from: "ART_A".to_string(),
        to: "ART_B".to_string(),
    });
    model
}

#[test]
fn test_valid_build_model() {
    let model = create_test_model();
    let result = validate(&model);
    assert!(result.is_valid);
    assert!(result.errors.is_empty());
}

#[test]
fn test_bm001_empty_id() {
    let mut model = BuildModel::new("Test");
    model.artifacts.push(BuildArtifact {
        id: "".to_string(),
        name: "No ID".to_string(),
        description: None,
        build_tool: None,
        output_type: OutputType::Binary,
        source_packages: vec![],
        build_file: None,
        profile: None,
        build_args: None,
    });
    let result = validate(&model);
    assert!(!result.is_valid);
    assert!(result.errors.iter().any(|e| e.code == "BM001" && e.severity == Severity::Error));
}

#[test]
fn test_bm001_empty_name() {
    let mut model = BuildModel::new("Test");
    model.artifacts.push(BuildArtifact {
        id: "ART".to_string(),
        name: "".to_string(),
        description: None,
        build_tool: None,
        output_type: OutputType::Binary,
        source_packages: vec![],
        build_file: None,
        profile: None,
        build_args: None,
    });
    let result = validate(&model);
    assert!(!result.is_valid);
    assert!(result.errors.iter().any(|e| e.code == "BM001" && e.severity == Severity::Error));
}

#[test]
fn test_bm002_duplicate_id() {
    let mut model = BuildModel::new("Test");
    model.artifacts.push(BuildArtifact {
        id: "ART".to_string(),
        name: "First".to_string(),
        description: None,
        build_tool: None,
        output_type: OutputType::Binary,
        source_packages: vec![],
        build_file: None,
        profile: None,
        build_args: None,
    });
    model.artifacts.push(BuildArtifact {
        id: "ART".to_string(),
        name: "Second".to_string(),
        description: None,
        build_tool: None,
        output_type: OutputType::Binary,
        source_packages: vec![],
        build_file: None,
        profile: None,
        build_args: None,
    });
    let result = validate(&model);
    assert!(!result.is_valid);
    assert!(result.errors.iter().any(|e| e.code == "BM002"));
}

#[test]
fn test_bm003_naming() {
    let mut model = BuildModel::new("Test");
    model.artifacts.push(BuildArtifact {
        id: "bad-name".to_string(),
        name: "Bad Name".to_string(),
        description: None,
        build_tool: None,
        output_type: OutputType::Binary,
        source_packages: vec![],
        build_file: None,
        profile: None,
        build_args: None,
    });
    let result = validate(&model);
    assert!(result.is_valid); // Warning only
    assert!(result.errors.iter().any(|e| e.code == "BM003" && e.severity == Severity::Warning));
}

#[test]
fn test_bm004_invalid_dep() {
    let mut model = BuildModel::new("Test");
    model.artifacts.push(BuildArtifact {
        id: "ART_A".to_string(),
        name: "A".to_string(),
        description: None,
        build_tool: None,
        output_type: OutputType::Binary,
        source_packages: vec![],
        build_file: None,
        profile: None,
        build_args: None,
    });
    model.dependencies.push(ArtifactDependency {
        from: "ART_A".to_string(),
        to: "ART_NONEXISTENT".to_string(),
    });
    let result = validate(&model);
    assert!(!result.is_valid);
    assert!(result.errors.iter().any(|e| e.code == "BM004"));
}

#[test]
fn test_bm005_min_artifacts() {
    let model = BuildModel::new("Test");
    let result = validate(&model);
    assert!(result.is_valid); // Warning only
    assert!(result.errors.iter().any(|e| e.code == "BM005" && e.severity == Severity::Warning));
}

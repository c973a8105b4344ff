use sys_design::cli::args::LogicListElement;
use sys_design::cli::listing::logic::{list_logic, show_logic};
use sys_design::cli::report::Line;
use sys_design::model::logic::concept::LogicConceptDiagram;
use sys_design::store::LogicOperations;
use sys_design::utils::error::AppError;

fn render(lines: &[Line]) -> Vec<String> {
    lines.iter().map(|l| l.spans.iter().map(|s| s.text.as_str()).collect::<String>()).collect()
}

fn sample() -> LogicConceptDiagram {
    let mut d = LogicConceptDiagram::new("SYS", "Sys");
    LogicOperations::add_component(&mut d, "C", Some("Comp"), None).unwrap();
    LogicOperations::add_module(&mut d, "C", "M", Some("Mod"), None).unwrap();
    LogicOperations::add_nested_module(&mut d, "C", "M", "N", None, None).unwrap();
    LogicOperations::add_interface(&mut d, "C", "N", "ITF_N", Some("Itf"), None).unwrap();
    LogicOperations::add_dependency(&mut d, "C", "N", "ITF_N").unwrap();
    LogicOperations::expose_interface(&mut d, "C", "ITF_N").unwrap();
    d
}

#[test]
fn logic_listing_modules_and_dependencies() {
    let d = sample();
    assert_eq!(
        render(&list_logic(&d, LogicListElement::Modules)),
        vec!["Modules:", "  - M (Mod) [C.M]", "    - N (N) [C.M.N]"]
    );
    assert_eq!(render(&list_logic(&d, LogicListElement::Dependencies)), vec!["Dependencies:", "  - N -> ITF_N"]);
    assert_eq!(render(&list_logic(&d, LogicListElement::Interfaces)), vec!["Interfaces:", "  - ITF_N (Itf)"]);
    assert_eq!(
        render(&list_logic(&d, LogicListElement::Components)),
        vec!["Components (in system):", "  - C (Comp)", "    Modules: M"]
    );
    assert_eq!(render(&list_logic(&d, LogicListElement::Subsystems)), vec!["Subsystems:", "  (none)"]);
    assert_eq!(render(&list_logic(&d, LogicListElement::System)), vec!["System: SYS", "  Name: SYS"]);
}

#[test]
fn logic_listing_show() {
    let d = sample();
    assert_eq!(
        render(&show_logic(&d, "C").unwrap()),
        vec![
            "Component: C",
            "  Name: Comp",
            "  Modules:",
            "    - M (Mod)",
            "      - N (N)",
            "        Interfaces: ITF_N",
            "        Dependencies: ITF_N",
            "  Exposed interfaces: ITF_N",
        ]
    );
    assert_eq!(render(&show_logic(&d, "ITF_N").unwrap()), vec!["Interface: ITF_N", "  Name: Itf"]);
    assert_eq!(
        render(&show_logic(&d, "SYS").unwrap()),
        vec!["System: SYS", "  Name: SYS", "  Subsystems: 0", "  Components: 1"]
    );
    match show_logic(&d, "NOPE") {
        Err(AppError::ElementNotFound(m)) => assert_eq!(m, "NOPE"),
        _ => panic!("expected an error"),
    }
}

use projectlens::domain::rpa_analyzer::pad::PadAnalyzer;
use projectlens::domain::rpa_analyzer::uipath::UiPathAnalyzer;
use projectlens::domain::rpa_analyzer::{all_analyzers, analyzer_for_tool, detect_tool, RpaAnalyzer};
use projectlens::domain::scanner::{detect_macro, detect_rpa};

#[test]
fn uipath_workflow_is_detected_and_parsed() {
    let content = "<Activity xmlns:ui=\"UiPath.Core\"><ui:If/><While/><ui:InvokeWorkflowFile/></Activity>";
    let a = UiPathAnalyzer;
    assert!(a.detect("flows/Main.xaml", content));
    let c = a.parse("flows\\Main.xaml", content).unwrap();
    assert_eq!(c.component_path, "flows/Main.xaml");
    assert_eq!(c.tool, "uipath");
    assert_eq!(c.flow_name, "Main");
    assert_eq!(c.flow_kind, "workflow");
    let names: Vec<&str> = c.steps.iter().map(|s| s.name.as_str()).collect();
    assert_eq!(names, vec!["If", "While", "InvokeWorkflowFile"]);
    assert_eq!(c.branch_or_loop_count, 2);
    assert_eq!(c.dependencies.len(), 1);
}

#[test]
fn uipath_project_file_needs_markers() {
    let a = UiPathAnalyzer;
    assert!(a.detect("Project.JSON", "{\"studioVersion\":\"1\"}"));
    assert!(!a.detect("project.json", "{\"name\":\"x\"}"));
    assert!(a.detect("project.json", "{\"dependencies\":{},\"projectId\":\"p\"}"));
    let c = a.parse("project.json", "{}").unwrap();
    assert_eq!(c.flow_kind, "project");
}

#[test]
fn pad_flow_needs_action_notation() {
    let a = PadAnalyzer;
    assert!(a.detect("flows/x.robin", "Display.ShowMessage Title: 'x'"));
    assert!(!a.detect("flows/x.robin", "nothing here"));
    assert!(!a.detect("flows/x.txt", "Display.ShowMessage"));
}

#[test]
fn first_detecting_analyzer_wins() {
    let analyzers = all_analyzers();
    let found = detect_tool(&analyzers, "a.xaml", "System.Activities").unwrap();
    assert_eq!(found.tool_name(), "uipath");
    assert!(detect_tool(&analyzers, "a.txt", "plain").is_none());
    assert_eq!(detect_rpa("a.xaml", "System.Activities").as_deref(), Some("uipath"));
    assert_eq!(detect_rpa("a.md", "text"), None);
}

#[test]
fn macro_detection_needs_vba_project_entry() {
    let entries = vec!["[Content_Types].xml".to_string(), "xl/vbaProject.bin".to_string()];
    assert_eq!(detect_macro("book.xlsm", &entries).as_deref(), Some("excel_vba"));
    assert_eq!(detect_macro("book.xlsm", &entries[..1]), None);
}

#[test]
fn analyzer_is_found_by_tool_name() {
    let analyzers = all_analyzers();
    assert_eq!(analyzer_for_tool(&analyzers, "uipath").map(|a| a.tool_name()), Some("uipath"));
    assert_eq!(analyzer_for_tool(&analyzers, "pad").map(|a| a.tool_name()), Some("pad"));
    assert!(analyzer_for_tool(&analyzers, "blueprism").is_none());
}

use felix::tools::manager::ToolManager;
use felix::tools::{docx, markdown, pptx};

#[test]
fn tool_extensions() {
    for e in ["md", "markdown", "mdown", "mkd"] {
        assert!(markdown::can_handle(e));
    }
    assert!(!markdown::can_handle("MD"));
    assert!(docx::can_handle("docx"));
    assert!(!docx::can_handle("doc"));
    assert!(pptx::can_handle("pptx"));
    assert!(!pptx::can_handle("ppt"));
}

#[test]
fn markdown_renders_text_as_is() {
    assert_eq!(markdown::render("# Title\n\n*x*"), "# Title\n\n*x*");
}

#[test]
fn enable_then_enabled_disable_then_not() {
    let mut m = ToolManager::new();
    assert!(!m.is_enabled("pdf"));
    m.enable("pdf");
    assert!(m.is_enabled("pdf"));
    m.enable("markdown");
    m.enable("pdf");
    assert!(m.is_enabled("markdown"));
    m.disable("pdf");
    assert!(!m.is_enabled("pdf"));
    assert!(m.is_enabled("markdown"));
    m.disable("docx");
    assert!(m.is_enabled("markdown"));
}

#[test]
fn enabling_twice_lists_once() {
    let mut m = ToolManager::new();
    m.enable("pdf");
    m.enable("pdf");
    m.disable("pdf");
    assert!(!m.is_enabled("pdf"));
}

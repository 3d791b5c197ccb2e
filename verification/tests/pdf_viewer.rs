use felix::tools::pdf::can_handle;

#[test]
fn test_page_size() {
    let size = (0.0, 0.0);
    assert_eq!(size.0, 0.0);
}

#[test]
fn pdf_tool_handles_pdf_only() {
    assert!(can_handle("pdf"));
    assert!(!can_handle("PDF"));
    assert!(!can_handle("docx"));
}

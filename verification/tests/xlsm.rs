use projectlens::domain::scanner::detect_macro_in;
use std::io::{Cursor, Write};
use projectlens::domain::vba_analyzer::xlsm::{
    decompress_module_stream, module_kind, read_dir_stream_reference_names, read_project_stream_kinds, XlsmAnalyzer,
};

fn compress_literals(data: &[u8]) -> Vec<u8> {
    let mut body = Vec::new();
    for group in data.chunks(8) {
        body.push(0x00u8);
        body.extend_from_slice(group);
    }
    let header = ((body.len() + 2 - 3) as u16 & 0x0FFF) | 0x8000;
    let mut out = vec![0x01u8];
    out.extend_from_slice(&header.to_le_bytes());
    out.extend_from_slice(&body);
    out
}

#[test]
fn module_stream_is_found_after_performance_cache() {
    let source = b"Attribute VB_Name = \"Module1\"\r\nSub Main()\r\nEnd Sub\r\n";
    let mut raw = vec![0xCCu8, 0x61, 0x00];
    raw.extend_from_slice(&compress_literals(source));
    assert_eq!(decompress_module_stream(&raw).unwrap(), String::from_utf8_lossy(source));
    assert_eq!(decompress_module_stream(&compress_literals(b"no marker here")), None);
}

#[test]
fn project_stream_declares_module_kinds() {
    let text = "ID=\"{X}\"\r\nDocument=ThisWorkbook/&H00000000\r\nModule=Module1\r\nClass=Class1\r\nBaseClass=UserForm1\r\nName=\"VBAProject\"\r\n";
    let kinds = read_project_stream_kinds(text);
    assert_eq!(module_kind(&kinds, "ThisWorkbook"), "document");
    assert_eq!(module_kind(&kinds, "Module1"), "standard");
    assert_eq!(module_kind(&kinds, "Class1"), "class");
    assert_eq!(module_kind(&kinds, "UserForm1"), "form");
    assert_eq!(module_kind(&kinds, "Unknown"), "standard");
}

#[test]
fn reference_names_from_dir_stream() {
    let mut dir = Vec::new();
    dir.extend_from_slice(&0x0016u16.to_le_bytes());
    dir.extend_from_slice(&(4u32).to_le_bytes());
    dir.extend_from_slice(b"stdo");
    dir.extend_from_slice(&[0u8; 4]);
    let names = read_dir_stream_reference_names(&compress_literals(&dir));
    assert_eq!(names, vec!["stdo".to_string()]);
    assert!(read_dir_stream_reference_names(&[0x02]).is_empty());
}

#[test]
fn extract_builds_component_and_combined_source() {
    let source = b"Attribute VB_Name = \"Module1\"\nSub A()\nEnd Sub";
    let streams = vec![
        ("dir".to_string(), vec![0u8]),
        ("Module1".to_string(), compress_literals(source)),
        ("_VBA_PROJECT".to_string(), vec![1u8, 2]),
    ];
    let (component, combined) = XlsmAnalyzer.extract("books\\Book1.xlsm", &streams, "Module=Module1\n", &[0x02]);
    assert_eq!(component.component_path, "books/Book1.xlsm");
    assert_eq!(component.workbook_name, "Book1.xlsm");
    assert_eq!(component.modules.len(), 1);
    assert_eq!(component.modules[0].name, "Module1");
    assert_eq!(component.modules[0].kind, "standard");
    assert_eq!(component.modules[0].loc, 3);
    assert!(component.external_references.is_empty());
    assert_eq!(combined, format!("'--- Module: Module1 (standard) ---\n{}\n\n", String::from_utf8_lossy(source)));
}

fn workbook_bytes(module_source: &[u8]) -> Vec<u8> {
    let mut cfb = cfb::CompoundFile::create(Cursor::new(Vec::new())).unwrap();
    cfb.create_storage("/VBA").unwrap();
    cfb.create_stream("/VBA/Module1").unwrap().write_all(&compress_literals(module_source)).unwrap();
    cfb.create_stream("/VBA/dir").unwrap().write_all(&[0x02]).unwrap();
    cfb.create_stream("/PROJECT").unwrap().write_all(b"Class=Module1\r\n").unwrap();
    cfb.flush().unwrap();
    let bin = cfb.into_inner().into_inner();
    let mut zip = zip::ZipWriter::new(Cursor::new(Vec::new()));
    zip.start_file("[Content_Types].xml", zip::write::SimpleFileOptions::default()).unwrap();
    zip.write_all(b"<Types/>").unwrap();
    zip.start_file("xl/vbaProject.bin", zip::write::SimpleFileOptions::default()).unwrap();
    zip.write_all(&bin).unwrap();
    zip.finish().unwrap().into_inner()
}

#[test]
fn workbook_bytes_yield_the_vba_component() {
    let source = b"Attribute VB_Name = \"Module1\"\nSub A()\nEnd Sub";
    let book = workbook_bytes(source);
    let (component, combined) = XlsmAnalyzer.extract_workbook("Book1.xlsm", &book).unwrap();
    assert_eq!(component.workbook_name, "Book1.xlsm");
    assert_eq!(component.modules.len(), 1);
    assert_eq!(component.modules[0].name, "Module1");
    assert_eq!(component.modules[0].kind, "class");
    assert_eq!(combined, format!("'--- Module: Module1 (class) ---\n{}\n\n", String::from_utf8_lossy(source)));
    assert!(XlsmAnalyzer.extract_workbook("Book1.xlsm", b"not a zip").is_err());
}

#[test]
fn macro_is_detected_from_workbook_bytes() {
    let book = workbook_bytes(b"Attribute VB_Name = \"Module1\"");
    assert_eq!(detect_macro_in("Book1.xlsm", &book).as_deref(), Some("excel_vba"));
    assert_eq!(detect_macro_in("Book1.xlsm", b"plain text"), None);
}

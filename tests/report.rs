use tag_manager::config::{Config, PathChoice};
use tag_manager::error::FormatError;
use tag_manager::report::{
    findings_lines, joined, pad, scan_folder_with_tags, table_row, tags_text, ImageScan,
};
use tag_manager::tags::TagManager;

fn pair(k: &str, v: &str) -> (String, String) {
    (k.to_string(), v.to_string())
}

#[test]
fn findings_for_each_kind_of_file() {
    assert_eq!(findings_lines(&ImageScan::Png(Ok(vec![]))), vec!["  No metadata found."]);
    assert_eq!(
        findings_lines(&ImageScan::Png(Ok(vec![pair("a", "1"), pair("b", "2")]))),
        vec!["  Metadata:", "    a: 1", "    b: 2"]
    );
    assert_eq!(
        findings_lines(&ImageScan::Png(Err("bad".to_string()))),
        vec!["  Failed to read PNG metadata: bad"]
    );
    assert_eq!(
        findings_lines(&ImageScan::Jpg),
        vec!["  Metadata reading not implemented for JPG."]
    );
    assert_eq!(findings_lines(&ImageScan::Unsupported), vec!["  Unsupported file format."]);
}

#[test]
fn folder_listing_in_order() {
    let images = vec![
        ("a.png".to_string(), ImageScan::Png(Ok(vec![pair("k", "v")]))),
        ("b.jpg".to_string(), ImageScan::Jpg),
    ];
    let lines = scan_folder_with_tags(&images);
    assert_eq!(
        lines,
        vec![
            "Processing image: a.png",
            "  Metadata:",
            "    k: v",
            "Processing image: b.jpg",
            "  Metadata reading not implemented for JPG."
        ]
    );
    assert_eq!(TagManager::scan_images_with_tags(&images), lines);
    assert!(scan_folder_with_tags(&vec![]).is_empty());
}

#[test]
fn tag_column_texts() {
    assert_eq!(tags_text(&Some(vec![])), "No tags");
    assert_eq!(tags_text(&Some(vec![pair("a", "1")])), "a: 1");
    assert_eq!(tags_text(&Some(vec![pair("a", "1"), pair("b", "x y")])), "a: 1, b: x y");
    assert_eq!(tags_text(&None), "Error reading tags");
}

#[test]
fn table_rows_are_padded() {
    let row = table_row("img.png", "No tags");
    assert_eq!(row, format!("{:<30} {:<50}", "img.png", "No tags"));
    assert_eq!(row.len(), 81);
    let long = "n".repeat(40);
    assert_eq!(table_row(&long, "t"), format!("{:<30} {:<50}", long, "t"));
    let mut s = "é".to_string();
    pad(&mut s, 3);
    assert_eq!(s, "é  ");
    assert_eq!(joined("ab", "cd"), "abcd");
}

#[test]
fn error_messages_are_distinct() {
    let all = [
        FormatError::NotAPng,
        FormatError::MissingHeader,
        FormatError::CorruptImageData,
        FormatError::UnsupportedColorType,
        FormatError::KeyTooLong,
        FormatError::InvalidEncoding,
    ];
    for (i, a) in all.iter().enumerate() {
        for (j, b) in all.iter().enumerate() {
            assert_eq!(i == j, a.message() == b.message());
        }
    }
    assert_eq!(FormatError::NotAPng.message(), "not a valid PNG file");
}

#[test]
fn default_folder_settings() {
    let mut c = Config::default();
    assert_eq!(c.get_default_folder(), None);
    assert_eq!(c.folder_or_default(None), None);
    assert_eq!(c.choose_path(true, false), PathChoice::NotFound);
    c.set_default_folder("/pics".to_string());
    assert_eq!(c.get_default_folder(), Some("/pics".to_string()));
    assert_eq!(c.folder_or_default(None), Some("/pics".to_string()));
    assert_eq!(c.folder_or_default(Some("/x".to_string())), Some("/x".to_string()));
    assert_eq!(c.choose_path(true, true), PathChoice::InDefaultFolder);
    assert_eq!(c.choose_path(false, true), PathChoice::AsGiven);
    assert_eq!(Config::new(Some("d".to_string())).default_folder, Some("d".to_string()));
}

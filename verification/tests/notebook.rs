use onenote_parser::entry_path::sanitize_entry_path;
use onenote_parser::errors::{Error, ErrorKind};
use onenote_parser::guid::Guid;
use onenote_parser::notebook::{
    entry_is_recycle_bin, notebook_entries, require_toc,
    ordered_toc_entries, Color, FileIdentity, Notebook, Picture, Report, Section, SectionEntry,
    SectionGroup, Warning,
};
use onenote_parser::onestore::{FileBlob, FileDataStatus, OneStoreType};

#[test]
fn later_toc_snapshot_entries_override_earlier_ordering() {
    let entries = vec![
        (1, "Notes.one".to_owned()),
        (5, "Training".to_owned()),
        (10, "Datasets.one".to_owned()),
        (1, "Notes.one".to_owned()),
        (2, "Datasets.one".to_owned()),
        (3, "Training".to_owned()),
    ];

    assert_eq!(
        ordered_toc_entries(entries),
        ["Notes.one", "Datasets.one", "Training"]
    );
}

#[test]
fn toc_ties_keep_their_position_and_empty_tocs_stay_empty() {
    let entries = vec![
        (4, "B.one".to_owned()),
        (4, "A.one".to_owned()),
        (1, "C.one".to_owned()),
    ];
    assert_eq!(ordered_toc_entries(entries), ["C.one", "B.one", "A.one"]);
    assert!(ordered_toc_entries(Vec::new()).is_empty());
}

#[test]
fn exposes_lazy_picture_data_and_metadata() {
    let picture = Picture::new(
        FileBlob::from_source(b"picture".to_vec(), 0, 7),
        Some("png".to_owned()),
    );

    let bytes = picture.read();

    assert_eq!(bytes, b"picture");
    assert_eq!(picture.size(), 7);
    assert_eq!(picture.data_status(), FileDataStatus::Available);
    assert_eq!(picture.extension(), Some("png"));
}

#[test]
fn missing_and_invalid_pictures_are_empty() {
    let missing = Picture::new(FileBlob::missing(), None);
    assert_eq!(missing.size(), 0);
    assert_eq!(missing.data_status(), FileDataStatus::Missing);
    assert_eq!(missing.extension(), None);
    let invalid = Picture::new(FileBlob::invalid(), None);
    assert_eq!(invalid.data_status(), FileDataStatus::Invalid);
    assert!(invalid.read().is_empty());
}

#[test]
fn notebooks_sections_and_groups_expose_their_parts() {
    let identity = FileIdentity::new(Guid::from_u128(42));
    let section: Section<u8> = Section {
        file_identity: identity,
        display_name: "Notes".to_owned(),
        page_series: vec![1, 2],
        color: Some(Color {
            alpha: 255,
            r: 1,
            g: 2,
            b: 3,
        }),
        report: Report::new(),
    };
    assert_eq!(section.file_identity(), identity);
    assert_eq!(section.display_name(), "Notes");
    assert_eq!(section.page_series(), &[1, 2]);
    assert_eq!(section.color().unwrap().g, 2);
    assert!(section.report().warnings().is_empty());

    let group = SectionGroup {
        file_identity: identity,
        display_name: "Group".to_owned(),
        entries: vec![SectionEntry::Section(section)],
    };
    assert_eq!(group.display_name(), "Group");
    assert_eq!(group.entries().len(), 1);
    assert_eq!(group.file_identity(), identity);

    let mut report = Report::new();
    report.push_warning(Warning {
        page: None,
        message: "failed to import section Broken.one".to_owned(),
    });
    let notebook = Notebook {
        entries: vec![SectionEntry::SectionGroup(group)],
        color: None,
        report,
    };
    assert_eq!(notebook.entries().len(), 1);
    assert_eq!(notebook.color(), None);
    assert_eq!(notebook.report().warnings().len(), 1);
    assert_eq!(
        notebook.report().warnings()[0].message,
        "failed to import section Broken.one"
    );
}

#[test]
fn test_resolve_entry_path_rejects_traversal() {
    let err = sanitize_entry_path("../secret.one").unwrap_err();
    let err = err.to_string();
    assert!(err.contains("invalid path components"));
}

#[test]
fn test_resolve_entry_path_rejects_absolute() {
    for candidate in [r"C:\secret.one", "/etc/passwd", r"\windows\secret"] {
        let err = sanitize_entry_path(candidate).unwrap_err();
        let err = err.to_string();
        assert!(
            err.contains("relative path") || err.contains("invalid path components"),
            "unexpected error for {candidate:?}: {err}"
        );
    }
}

#[test]
fn test_resolve_entry_path_accepts_relative() {
    let resolved = sanitize_entry_path("Section 1.one").unwrap();
    assert_eq!(resolved, b"Section 1.one".to_vec());
}

#[test]
fn entry_paths_are_sanitized_and_must_name_something() {
    assert_eq!(
        sanitize_entry_path("./Group/Sec:tion.one").unwrap(),
        br"Group\Section.one".to_vec()
    );
    let err = sanitize_entry_path(".").unwrap_err();
    assert_eq!(err.to_string(), "section entry is empty");
}

#[test]
fn entry_names_lose_control_characters_and_are_cut_to_255_bytes() {
    assert_eq!(
        sanitize_entry_path("Se\u{1}ct\u{85}ion<1>.one").unwrap(),
        b"Section1.one".to_vec()
    );
    let long = "é".repeat(200);
    let cut = sanitize_entry_path(&long).unwrap();
    assert_eq!(cut.len(), 254);
    assert_eq!(cut, "é".repeat(127).into_bytes());
}

#[test]
fn a_failing_section_leaves_a_warning_and_the_rest_stays() {
    let group = |name: &str| {
        SectionEntry::<()>::SectionGroup(SectionGroup {
            file_identity: FileIdentity::new(Guid::from_u128(1)),
            display_name: name.to_owned(),
            entries: Vec::new(),
        })
    };
    let outcomes = vec![
        ("A".to_owned(), Ok(group("A"))),
        (
            "B.one".to_owned(),
            Err(Error::new(ErrorKind::UnexpectedEof)),
        ),
        ("C".to_owned(), Ok(group("C"))),
    ];
    let notebook = Notebook::from_outcomes(outcomes, Some(Color { alpha: 0, r: 1, g: 2, b: 3 }));
    let names: Vec<&str> = notebook
        .entries()
        .iter()
        .map(|e| match e {
            SectionEntry::SectionGroup(g) => g.display_name(),
            SectionEntry::Section(s) => s.display_name(),
        })
        .collect();
    assert_eq!(names, ["A", "C"]);
    let messages: Vec<&str> = notebook
        .report()
        .warnings()
        .iter()
        .map(|w| w.message.as_str())
        .collect();
    assert_eq!(
        messages,
        ["failed to import section B.one: unexpected end of input"]
    );
    assert_eq!(notebook.color(), Some(Color { alpha: 0, r: 1, g: 2, b: 3 }));

    let empty = Notebook::<()>::from_outcomes(Vec::new(), None);
    assert!(empty.entries().is_empty());
    assert!(empty.report().warnings().is_empty());
}

#[test]
fn a_file_identity_prints_hyphenated() {
    let guid = Guid::from_str("{1A5A319C-C26B-41AA-B9C5-9BD8C44E07D4}").unwrap();
    assert_eq!(
        FileIdentity::new(guid).to_string(),
        "1a5a319c-c26b-41aa-b9c5-9bd8c44e07d4"
    );
    for value in [0u128, 1, u128::MAX, 0x0123_4567_89AB_CDEF_FEDC_BA98_7654_3210] {
        assert_eq!(
            FileIdentity::new(Guid::from_u128(value)).to_string(),
            uuid::Uuid::from_u128(value).hyphenated().to_string()
        );
    }
}

#[test]
fn a_notebook_keeps_existing_entries_in_order_without_the_recycle_bin() {
    let toc = vec![
        (3, "Later.one".to_owned()),
        (1, "Gone.one".to_owned()),
        (2, "OneNote_RecycleBin".to_owned()),
        (1, "First.one".to_owned()),
        (9, "Later.one".to_owned()),
    ];
    let exists = vec![true, false, true, true, true];
    let names = notebook_entries(toc, exists);
    assert_eq!(names, ["First.one", "Later.one"]);
    assert!(notebook_entries(vec![], vec![]).is_empty());

    let err = require_toc(OneStoreType::Section, "Notes.one".to_owned()).unwrap_err();
    assert_eq!(err.kind, ErrorKind::NotATocFile { file: "Notes.one".to_owned() });
    assert_eq!(
        err.to_string(),
        "the file is not a notebook table of contents: Notes.one"
    );
    assert!(require_toc(OneStoreType::TableOfContents, "Open Notebook.onetoc2".to_owned()).is_ok());

    assert!(entry_is_recycle_bin("OneNote_RecycleBin"));
    assert!(entry_is_recycle_bin("Group\\OneNote_RecycleBin"));
    assert!(entry_is_recycle_bin("Group/OneNote_RecycleBin"));
    assert!(!entry_is_recycle_bin("MyOneNote_RecycleBin"));
    assert!(!entry_is_recycle_bin("OneNote_RecycleBin.one"));
}

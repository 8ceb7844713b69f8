use onenote_parser::errors::ErrorKind;
use onenote_parser::rich_text::{
    embedded_objects, extract_hyperlinks, fix_leading_vt_misalignment, paired_runs, text_runs,
    EmbeddedInkContainer, EmbeddedObjectKind, RunStyle, HYPERLINK_MARKER, INK_END_OF_LINE_BLOB,
    INK_SPACE_BLOB,
};

fn style(hyperlink: bool, hidden: bool) -> RunStyle {
    RunStyle { hyperlink, hidden }
}

#[test]
fn extracts_multiple_visible_hyperlink_ranges() {
    let first_marker = format!("{HYPERLINK_MARKER}https://example.test/one\"");
    let second_marker = format!("{HYPERLINK_MARKER}mailto:user@example.test\"");
    let text = format!("{first_marker}first and {second_marker}second");
    let first_marker_end = u32::try_from(first_marker.encode_utf16().count()).unwrap();
    let first_text_end = first_marker_end + 5;
    let plain_end = first_text_end + 5;
    let second_marker_end =
        plain_end + u32::try_from(second_marker.encode_utf16().count()).unwrap();
    let total = u32::try_from(text.encode_utf16().count()).unwrap();
    let indices = vec![
        first_marker_end,
        first_text_end,
        plain_end,
        second_marker_end,
    ];
    let styles = vec![
        style(true, true),
        style(true, false),
        style(false, false),
        style(true, true),
        style(true, false),
    ];

    let links = extract_hyperlinks(&text, &indices, &styles);

    assert_eq!(links.len(), 2);
    assert_eq!(links[0].target(), "https://example.test/one");
    assert_eq!(
        (links[0].start(), links[0].end()),
        (first_marker_end, first_text_end)
    );
    assert_eq!(links[1].target(), "mailto:user@example.test");
    assert_eq!(
        (links[1].start(), links[1].end()),
        (second_marker_end, total)
    );
}

#[test]
fn supports_markers_split_across_hidden_runs_and_unicode_display_text() {
    let marker = format!("{HYPERLINK_MARKER}onenote:#page-id={{abc}}\"");
    let text = format!("{marker}風景");
    let marker_end = u32::try_from(marker.encode_utf16().count()).unwrap();
    let total = u32::try_from(text.encode_utf16().count()).unwrap();
    let indices = vec![1, marker_end];
    let styles = vec![style(true, true), style(true, true), style(true, false)];

    let links = extract_hyperlinks(&text, &indices, &styles);

    assert_eq!(links.len(), 1);
    assert_eq!(links[0].target(), "onenote:#page-id={abc}");
    assert_eq!((links[0].start(), links[0].end()), (marker_end, total));
}

#[test]
fn ignores_malformed_and_unstyled_markers() {
    let malformed = format!("{HYPERLINK_MARKER}https://example.test");
    assert!(extract_hyperlinks(&malformed, &[], &[]).is_empty());

    let complete = format!("{HYPERLINK_MARKER}https://example.test\"label");
    assert!(extract_hyperlinks(&complete, &[], &[style(false, false)]).is_empty());
}

#[test]
fn links_count_utf16_units_of_astral_characters() {
    let text = format!("😀{HYPERLINK_MARKER}x\"link");
    let marker_start: u32 = 2;
    let marker_end = marker_start + u32::try_from(format!("{HYPERLINK_MARKER}x\"").encode_utf16().count()).unwrap();
    let styles = vec![style(false, false), style(true, true), style(true, false)];
    let links = extract_hyperlinks(&text, &[marker_start, marker_end], &styles);
    assert_eq!(links.len(), 1);
    assert_eq!(links[0].target(), "x");
    assert_eq!((links[0].start(), links[0].end()), (marker_end, marker_end + 4));
}

#[test]
fn runs_are_clamped_to_the_text_and_to_their_start() {
    let runs = text_runs(10, &[4, 2, 20], &[style(false, false); 4]);
    let bounds: Vec<(u32, u32)> = runs.iter().map(|r| (r.start, r.end)).collect();
    assert_eq!(bounds, vec![(0, 4), (4, 4), (4, 10), (10, 10)]);
}

#[test]
fn a_leading_vertical_tab_run_is_dropped() {
    let mut text = "\u{000B}Hello".to_owned();
    let mut indices = vec![1, 3, 6];
    let mut styles = vec!["tab", "a", "b", "phantom"];
    fix_leading_vt_misalignment(&mut text, &mut indices, &mut styles);
    assert_eq!(text, "Hello");
    assert_eq!(indices, vec![2, 5]);
    assert_eq!(styles, vec!["tab", "a", "b"]);

    let mut text = "\u{000B}Hi".to_owned();
    let mut indices = vec![1, 3];
    let mut styles = vec!["a", "b"];
    fix_leading_vt_misalignment(&mut text, &mut indices, &mut styles);
    assert_eq!(text, "Hi");
    assert_eq!(indices, vec![2]);
    assert_eq!(styles, vec!["a", "b"]);

    let mut text = "Hello".to_owned();
    let mut indices = vec![1, 3];
    let mut styles = vec!["a", "b", "c"];
    fix_leading_vt_misalignment(&mut text, &mut indices, &mut styles);
    assert_eq!(text, "Hello");
    assert_eq!(indices, vec![1, 3]);

    let mut text = "\u{000B}Hello".to_owned();
    let mut indices = vec![1, 3];
    let mut styles = vec!["a", "b", "c", "d"];
    fix_leading_vt_misalignment(&mut text, &mut indices, &mut styles);
    assert_eq!(text, "\u{000B}Hello");
    assert_eq!(styles.len(), 4);
}

#[test]
fn an_embedded_ink_container_exposes_its_ink_and_box() {
    let container = EmbeddedInkContainer {
        ink: "strokes".to_owned(),
        bounding_box: Some((1, 2, 30, 40)),
    };
    assert_eq!(container.ink(), "strokes");
    assert_eq!(container.bounding_box(), Some(&(1, 2, 30, 40)));
    let without_box: EmbeddedInkContainer<Vec<u8>, (i32, i32)> = EmbeddedInkContainer {
        ink: vec![7],
        bounding_box: None,
    };
    assert_eq!(without_box.ink(), &vec![7]);
    assert!(without_box.bounding_box().is_none());
}

#[test]
fn extracted_links_lie_inside_the_text_after_their_marker() {
    let marker = format!("{HYPERLINK_MARKER}https://a.test/\u{1F600}\"");
    let text = format!("x{marker}link\u{1F600} tail");
    let marker_end = u32::try_from(format!("x{marker}").encode_utf16().count()).unwrap();
    let total = u32::try_from(text.encode_utf16().count()).unwrap();
    let indices = vec![1, marker_end, marker_end + 6];
    let styles = vec![
        style(false, false),
        style(true, true),
        style(true, false),
        style(false, false),
    ];
    let links = extract_hyperlinks(&text, &indices, &styles);
    assert_eq!(links.len(), 1);
    let link = &links[0];
    assert!(link.start() < link.end() && link.end() <= total);
    assert!(link.start() >= marker_end);
    assert!(!link.target().is_empty() && !link.target().contains('"'));
    assert!(text.contains(&format!("{HYPERLINK_MARKER}{}\"", link.target())));
    assert_eq!((link.start(), link.end()), (marker_end, marker_end + 6));
}

fn object_id(value: u32) -> onenote_parser::exguid::ExGuid {
    onenote_parser::exguid::ExGuid::from_guid(onenote_parser::guid::Guid::from_u128(7), value)
}

#[test]
fn ink_spaces_and_line_breaks_leave_their_references_to_later_objects() {
    let objects = embedded_objects(
        &[Some(INK_SPACE_BLOB), None, Some(INK_END_OF_LINE_BLOB), None],
        &[object_id(1), object_id(2)],
        &[true, true],
    )
    .unwrap();
    assert_eq!(
        objects,
        vec![
            EmbeddedObjectKind::InkSpace,
            EmbeddedObjectKind::Ink { object_ref: object_id(1) },
            EmbeddedObjectKind::InkLineBreak,
            EmbeddedObjectKind::Ink { object_ref: object_id(2) },
        ]
    );

    let objects = embedded_objects(
        &[Some(INK_SPACE_BLOB), None, None],
        &[object_id(9), object_id(1)],
        &[false, true],
    )
    .unwrap();
    assert_eq!(
        objects,
        vec![EmbeddedObjectKind::InkSpace, EmbeddedObjectKind::Ink { object_ref: object_id(1) }]
    );
}

#[test]
fn an_unknown_embedded_object_type_is_refused() {
    let err = embedded_objects(&[None, Some(0x2a)], &[], &[]).unwrap_err();
    assert_eq!(err.kind, ErrorKind::UnknownEmbeddedObjectType { object_type: 0x2a });
    assert_eq!(err.to_string(), "unknown embedded object type: 2a");
    assert!(embedded_objects(&[None], &[], &[]).unwrap().is_empty());
}

#[test]
fn runs_pair_with_styles_as_far_as_both_go() {
    assert_eq!(paired_runs(3, &[true, false, true, true]), vec![0, 2]);
    assert_eq!(paired_runs(5, &[false, true]), vec![1]);
    assert!(paired_runs(0, &[true]).is_empty());
}

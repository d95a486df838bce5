use parrot::ui::document::Document;
use parrot::ui::geometry::{Pos, Region, Size};
use parrot::ui::markers::{Marker, Markers};

#[test]
fn delete_region() {
    let text = "abcdefg
1234567
abcdefg
1234567
abcdefg";
    let mut doc = Document::new(text);

    let region = Region::new(Pos::new(1, 1), Size::new(2, 3));
    doc.delete(region);

    let expected = "abcdefg
14567
adefg
14567
abcdefg";

    let actual = doc.text();
    assert_eq!(expected, actual);
}

#[test]
fn insert_offsets_marker() {
    static NEWLINES: usize = 4;
    let text = "// @zero
hello
// @one
world
// @two
!
";
    let mut doc = Document::new(text);

    println!("{:#?}", &doc.markers);

    let row = doc.lookup_marker("one").map(|m| m.row as i32).unwrap();
    doc.insert_str(Pos::new(0, row), &"\n".repeat(NEWLINES));

    println!("{}", doc.text());
    println!("{:#?}", &doc.markers);

    let zero = doc.lookup_marker("zero").map(|m| m.row as i32).unwrap();
    let one = doc.lookup_marker("one").map(|m| m.row as i32).unwrap() as usize;
    let two = doc.lookup_marker("two").map(|m| m.row as i32).unwrap() as usize;

    assert_eq!(zero, 0);
    assert_eq!(one, 1 + NEWLINES);
    assert_eq!(two, 2 + NEWLINES);
}

#[test]
fn new_document_keeps_the_text_without_marker_lines() {
    let doc = Document::new("a\n// @m\nb\n");
    assert_eq!(doc.text(), "a\nb\n");
    assert_eq!(doc.lookup_marker("m").map(|m| m.row), Some(1));
    assert!(doc.lookup_marker("n").is_none());
}

#[test]
fn insert_at_row_and_column() {
    let mut doc = Document::new("abc\ndef\n");
    doc.insert_str(Pos::new(0, 1), ">");
    assert_eq!(doc.text(), "abc\n>def\n");
    doc.insert_str(Pos::new(2, 0), "-");
    assert_eq!(doc.text(), "ab-c\n>def\n");
    // behind the end of a line is the end of the line
    doc.insert_str(Pos::new(99, 0), "!");
    assert_eq!(doc.text(), "ab-c!\n>def\n");
    // a row that the text does not have is the end of the text
    doc.insert_str(Pos::new(0, 99), "end");
    assert_eq!(doc.text(), "ab-c!\n>def\nend");
}

#[test]
fn insert_counts_display_widths() {
    let mut doc = Document::new("🐇🐇x");
    // the column two is reached behind the first rabbit
    doc.insert_str(Pos::new(2, 0), "|");
    assert_eq!(doc.text(), "🐇|🐇x");
    // the column three is reached behind the bar
    doc.insert_str(Pos::new(3, 0), "!");
    assert_eq!(doc.text(), "🐇|!🐇x");
}

#[test]
fn insert_without_line_feed_leaves_the_markers() {
    let mut doc = Document::new("// @a\nx\n// @b\ny\n");
    doc.insert_str(Pos::new(0, 0), "zz");
    assert_eq!(doc.lookup_marker("a").map(|m| m.row), Some(0));
    assert_eq!(doc.lookup_marker("b").map(|m| m.row), Some(1));
}

#[test]
fn delete_one_cell() {
    let mut doc = Document::new("abc\ndef");
    doc.delete(Region::new(Pos::new(0, 0), Size::new(1, 1)));
    assert_eq!(doc.text(), "bc\ndef");
    doc.delete(Region::new(Pos::new(1, 0), Size::new(1, 1)));
    assert_eq!(doc.text(), "b\ndef");
    // a line feed is never cut
    doc.delete(Region::new(Pos::new(1, 0), Size::new(1, 1)));
    assert_eq!(doc.text(), "b\ndef");
}

#[test]
fn delete_without_rows_changes_nothing() {
    let mut doc = Document::new("abc\ndef\n");
    doc.delete(Region::new(Pos::new(0, 0), Size::new(3, 0)));
    assert_eq!(doc.text(), "abc\ndef\n");
}

#[test]
fn delete_stops_at_the_end_of_the_line() {
    let mut doc = Document::new("abc\ndef\n");
    doc.delete(Region::new(Pos::new(1, 0), Size::new(10, 2)));
    assert_eq!(doc.text(), "a\nd\n");
}

#[test]
fn delete_where_the_text_ends_first_cuts_nothing() {
    let mut doc = Document::new("abc");
    doc.delete(Region::new(Pos::new(1, 0), Size::new(5, 1)));
    assert_eq!(doc.text(), "abc");
}

#[test]
fn find_in_the_row_of_the_cursor() {
    let doc = Document::new("hello world\nsecond world line\n");
    assert_eq!(doc.find(Pos::new(0, 0), "world"), Some(6));
    assert_eq!(doc.find(Pos::new(5, 1), "world"), Some(7));
    assert_eq!(doc.find(Pos::new(0, 0), "second"), None);
    assert_eq!(doc.find(Pos::new(0, 1), "line"), Some(13));
    assert_eq!(doc.find(Pos::new(0, 0), ""), Some(0));
    assert_eq!(doc.find(Pos::new(0, 5), "x"), None);
    // a match does not reach over the end of the line
    assert_eq!(doc.find(Pos::new(0, 0), "world\n"), None);
}

#[test]
fn find_counts_columns() {
    let doc = Document::new("🐇🐇ab");
    assert_eq!(doc.find(Pos::new(0, 0), "ab"), Some(4));
    assert_eq!(doc.find(Pos::new(0, 0), "🐇a"), Some(2));
}

#[test]
fn add_markers_merges_at_the_row() {
    let mut doc = Document::new("// @a\nx\n// @b\ny\n");
    doc.add_markers(
        1,
        Markers::from(vec![Marker::new(0, "new".to_string())]),
    );
    let rows: Vec<(usize, String)> = doc
        .markers
        .into_vec()
        .into_iter()
        .map(|m| (m.row, m.name().clone()))
        .collect();
    assert_eq!(
        rows,
        vec![
            (0, "a".to_string()),
            (1, "new".to_string()),
            (1, "b".to_string())
        ]
    );
}

#[test]
fn clear_empties_text_and_markers() {
    let mut doc = Document::new("// @a\nx\n");
    doc.clear();
    assert_eq!(doc.text(), "");
    assert!(doc.lookup_marker("a").is_none());
}

#[test]
fn offsets_of_a_cut() {
    let doc = Document::new("abcdef\nxyz");
    assert_eq!(doc.offsets(Pos::new(1, 0), 3), (1, 3));
    assert_eq!(doc.offsets(Pos::new(0, 1), 2), (7, 8));
    // the line feed ends the cut
    assert_eq!(doc.offsets(Pos::new(4, 0), 9), (4, 6));
    // the text ends first
    assert_eq!(doc.offsets(Pos::new(1, 1), 9), (8, 8));
    assert_eq!(doc.offsets(Pos::new(0, 0), 0), (0, 0));
}

#[test]
fn regions() {
    let region = Region::new(Pos::new(1, 2), Size::new(3, 4));
    assert_eq!(region.from, Pos::new(1, 2));
    assert_eq!(region.to, Pos::new(4, 6));
    assert!(region.contains(Pos::new(1, 2)));
    assert!(region.contains(Pos::new(3, 5)));
    assert!(!region.contains(Pos::new(4, 5)));
    assert!(!region.contains(Pos::new(3, 6)));
    assert!(!region.contains(Pos::new(0, 2)));
    let far = Region::new(Pos::new(i32::MAX, i32::MAX - 1), Size::new(2, 2));
    assert_eq!(far.to, Pos::new(i32::MAX, i32::MAX));
    assert_eq!(Pos::zero(), Pos::new(0, 0));
    assert_eq!(Size::zero(), Size::new(0, 0));
}

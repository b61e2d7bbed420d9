use proassist::segment::{segment, segment_counted, Slide, PALETTE_SIZE};

fn texts(slide: &Slide) -> Vec<String> {
    slide.items.iter().map(|i| i.text.clone()).collect()
}

fn subs(slide: &Slide) -> Vec<bool> {
    slide.items.iter().map(|i| i.is_sub_item).collect()
}

#[test]
fn heading_with_points_builds_up() {
    let slides = segment("Heading\n\tPoint A\n\tPoint B");
    assert_eq!(slides.len(), 3);
    assert_eq!(texts(&slides[0]), vec!["Heading"]);
    assert_eq!(texts(&slides[1]), vec!["Heading", "Point A"]);
    assert_eq!(texts(&slides[2]), vec!["Heading", "Point B"]);
    assert_eq!(subs(&slides[1]), vec![false, true]);
    assert_eq!(subs(&slides[0]), vec![false]);
    let colors: Vec<usize> = slides.iter().map(|s| s.color).collect();
    assert_eq!(colors, vec![0, 1, 2]);
}

#[test]
fn bare_lines_merge_into_first_colour() {
    let slides = segment("Line1\nLine2\n\nLine3");
    assert_eq!(slides.len(), 2);
    assert_eq!(texts(&slides[0]), vec!["Line1", "Line2"]);
    assert_eq!(texts(&slides[1]), vec!["Line3"]);
    assert_eq!(subs(&slides[0]), vec![false, false]);
    assert_eq!(slides[0].color, 0);
    assert_eq!(slides[1].color, 0);
    let (_, used) = segment_counted("Line1\nLine2\n\nLine3");
    assert_eq!(used, 0);
}

#[test]
fn orphan_line_advances_colour() {
    let (slides, used) = segment_counted("\tOrphan");
    assert_eq!(slides.len(), 1);
    assert_eq!(texts(&slides[0]), vec!["Orphan"]);
    assert_eq!(subs(&slides[0]), vec![false]);
    assert_eq!(slides[0].color, 0);
    assert_eq!(used, 1);
}

#[test]
fn orphan_then_heading_takes_next_colours() {
    let slides = segment("\tOrphan\nHead\n\tKid");
    let colors: Vec<usize> = slides.iter().map(|s| s.color).collect();
    assert_eq!(colors, vec![0, 1, 2]);
    assert_eq!(texts(&slides[2]), vec!["Head", "Kid"]);
}

#[test]
fn empty_and_blank_text_give_no_slides() {
    assert_eq!(segment("").len(), 0);
    assert_eq!(segment("\n   \n\t\n").len(), 0);
    assert_eq!(segment_counted("  \n").1, 0);
}

#[test]
fn heading_with_three_children_gives_four_slides() {
    let (slides, used) = segment_counted("Title\n\tOne\n\tTwo\n\tThree");
    assert_eq!(slides.len(), 4);
    assert_eq!(texts(&slides[3]), vec!["Title", "Three"]);
    assert_eq!(used, 4);
}

#[test]
fn four_spaces_indent_like_a_tab() {
    let slides = segment("Title\n    Child  ");
    assert_eq!(slides.len(), 2);
    assert_eq!(texts(&slides[1]), vec!["Title", "Child"]);
    // three spaces are no indent: the lines are bare and merge
    let bare = segment("Title\n   Child");
    assert_eq!(bare.len(), 1);
    assert_eq!(texts(&bare[0]), vec!["Title", "Child"]);
}

#[test]
fn colours_cycle_through_the_palette() {
    let mut text = String::from("Head");
    for k in 0..9 {
        text.push_str(&format!("\n\tItem {}", k));
    }
    let (slides, used) = segment_counted(&text);
    assert_eq!(slides.len(), 10);
    let colors: Vec<usize> = slides.iter().map(|s| s.color).collect();
    assert_eq!(colors, vec![0, 1, 2, 3, 4, 5, 6, 7, 0, 1]);
    assert_eq!(used, 10);
    assert!(colors.iter().all(|c| *c < PALETTE_SIZE));
}

#[test]
fn bare_run_stops_at_an_indented_line_which_is_an_orphan() {
    let (slides, used) = segment_counted("A\nB\n\tC");
    assert_eq!(slides.len(), 2);
    assert_eq!(texts(&slides[0]), vec!["A", "B"]);
    assert_eq!(slides[0].color, 0);
    assert_eq!(texts(&slides[1]), vec!["C"]);
    assert_eq!(slides[1].color, 0);
    assert_eq!(used, 1);
}

#[test]
fn bare_line_then_heading() {
    let slides = segment("Alone\n\nHead\n\tKid");
    assert_eq!(slides.len(), 3);
    assert_eq!(texts(&slides[0]), vec!["Alone"]);
    assert_eq!(slides[0].color, 0);
    assert_eq!(slides[1].color, 0);
    assert_eq!(slides[2].color, 1);
}

#[test]
fn blank_line_ends_the_children() {
    let slides = segment("Head\n\tKid\n\n\tLate");
    assert_eq!(slides.len(), 3);
    assert_eq!(texts(&slides[2]), vec!["Late"]);
    assert_eq!(slides[2].color, 2);
}

#[test]
fn unicode_white_space_is_trimmed() {
    let slides = segment("\u{00A0}Psalm 23\u{3000}\r\n\tThe Lord\u{2003}");
    assert_eq!(slides.len(), 2);
    assert_eq!(texts(&slides[0]), vec!["Psalm 23"]);
    assert_eq!(texts(&slides[1]), vec!["Psalm 23", "The Lord"]);
}

#[test]
fn segmentation_is_repeatable() {
    let text = "Heading\n\tPoint A\nBare\nMore\n\tOrphan\n\n    Child";
    let a = segment(text);
    let _ = segment("something else\n\tentirely");
    let b = segment(text);
    assert_eq!(a.len(), b.len());
    for (x, y) in a.iter().zip(b.iter()) {
        assert_eq!(texts(x), texts(y));
        assert_eq!(subs(x), subs(y));
        assert_eq!(x.color, y.color);
    }
}

use martty::selection::{
    cell_width, composer_avail, composer_cell_at, composer_hit, hit_tagged, slice_by_cells, trim_end_string, word_span, ChatView, InputSel, Rect, SelPoint,
    Selection,
};

fn view(lines: &[&str], top: usize) -> ChatView {
    let mut v = ChatView::empty();
    v.area = Rect { x: 2, y: 1, width: 20, height: 5 };
    v.top = top;
    v.lines = lines.iter().map(|l| (*l).to_owned()).collect();
    v.owners = lines.iter().enumerate().map(|(i, _)| if i == 1 { Some(7) } else { None }).collect();
    v.total = top + lines.len();
    v
}

fn p(line: usize, col: usize) -> SelPoint {
    SelPoint { line, col }
}

#[test]
fn a_selection_orders_its_ends() {
    let back = Selection { anchor: p(3, 4), head: p(1, 9) };
    assert_eq!(back.ordered(), (p(1, 9), p(3, 4)));
    let same_line = Selection { anchor: p(2, 5), head: p(2, 1) };
    assert_eq!(same_line.ordered(), (p(2, 1), p(2, 5)));
    assert!(Selection { anchor: p(1, 1), head: p(1, 1) }.is_caret());
    assert!(!same_line.is_caret());
    let input = InputSel { anchor: (2, 0), head: (1, 5) };
    assert_eq!(input.ordered(), ((1, 5), (2, 0)));
}

#[test]
fn cells_of_wide_characters_count_twice() {
    assert_eq!(cell_width('a'), 1);
    assert_eq!(cell_width('界'), 2);
    assert_eq!(cell_width('\u{7}'), 1);
    assert_eq!(slice_by_cells("ab界cd", 1, 3), "b界");
    assert_eq!(slice_by_cells("ab界cd", 3, 4), "界");
    assert_eq!(slice_by_cells("abc", 5, 9), "");
}

#[test]
fn a_double_click_picks_the_word_under_the_pointer() {
    assert_eq!(word_span("hello big world", 7), Some((6, 3, "big".to_owned())));
    assert_eq!(word_span("hello big world", 5), None);
    assert_eq!(word_span("hello", 9), None);
    assert_eq!(word_span("界界 x", 1), Some((0, 4, "界界".to_owned())));
}

#[test]
fn hits_map_screen_cells_to_layout_lines() {
    let v = view(&["one", "two", "three"], 10);
    assert_eq!(v.chat_hit(2, 1), Some(p(10, 0)));
    assert_eq!(v.chat_hit(5, 2), Some(p(11, 3)));
    assert_eq!(v.chat_hit(5, 5), Some(p(12, 3)), "rows below the content clamp to its last line");
    assert_eq!(v.chat_hit(1, 1), None);
    assert_eq!(v.chat_hit(22, 1), None);
    assert_eq!(v.chat_clamp(0, 0), p(10, 0));
    assert_eq!(v.chat_clamp(100, 100), p(12, 19));
    assert_eq!(v.line_text(11), Some("two"));
    assert_eq!(v.line_text(9), None);
    assert_eq!(v.line_owner(11), Some(7));
    assert_eq!(v.line_owner(10), None);
}

#[test]
fn copying_a_selection_takes_the_covered_cells() {
    let v = view(&["first line  ", "second", "third one"], 10);
    let sel = Selection { anchor: p(12, 4), head: p(10, 6) };
    assert_eq!(v.selection_text(sel), "line\nsecond\nthird");
    let above = Selection { anchor: p(1, 0), head: p(2, 0) };
    assert_eq!(v.selection_text(above), "");
    let from_above = Selection { anchor: p(5, 3), head: p(10, 4) };
    assert_eq!(v.selection_text(from_above), "first");
}

#[test]
fn tagged_rects_report_the_first_hit() {
    let rects = vec![
        (Rect { x: 0, y: 0, width: 4, height: 1 }, 1usize),
        (Rect { x: 2, y: 0, width: 4, height: 1 }, 2usize),
    ];
    assert_eq!(hit_tagged(&rects, 3, 0), Some(1));
    assert_eq!(hit_tagged(&rects, 5, 0), Some(2));
    assert_eq!(hit_tagged(&rects, 6, 0), None);
    assert!(Rect { x: 65530, y: 0, width: 10, height: 1 }.contains(65534, 0));
}

#[test]
fn trailing_whitespace_is_trimmed() {
    assert_eq!(trim_end_string("a b \t\n"), "a b");
}

#[test]
fn the_composer_well_sits_after_the_prompt() {
    let area = Rect { x: 10, y: 5, width: 20, height: 3 };
    assert_eq!(composer_avail(&area), 18);
    assert!(composer_hit(&area, 10, 5));
    assert!(!composer_hit(&area, 30, 5));
    assert!(!composer_hit(&Rect { x: 0, y: 0, width: 0, height: 3 }, 0, 0));
    // the prompt's two cells are skipped, and points are clamped into the well
    assert_eq!(composer_cell_at(&area, 0, 12, 5), (0, 0));
    assert_eq!(composer_cell_at(&area, 0, 15, 6), (1, 3));
    assert_eq!(composer_cell_at(&area, 4, 99, 99), (6, 17));
    assert_eq!(composer_cell_at(&area, 0, 0, 0), (0, 0));
    assert_eq!(composer_avail(&Rect { x: 0, y: 0, width: 1, height: 1 }), 1);
}

#[test]
fn the_double_clicked_word_covers_the_column() {
    for col in 0..12 {
        if let Some((start, width, word)) = word_span("ab 世界 cd", col) {
            assert!(start <= col && col < start + width, "col {col}");
            assert!(!word.is_empty());
        }
    }
}

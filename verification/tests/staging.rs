use martty::staging::{
    session_picker_row, short_id, split_draft_into_staged_blocks, token_spans_in, token_to_cut, trim_staged_blocks,
    unique_session_list_match, Attachment, LocalSession, ResumeMatchError, SessionListItem, StagedBlock,
};

fn att(token: &str, name: &str) -> Attachment {
    Attachment {
        token: token.to_owned(),
        name: name.to_owned(),
        media_type: "image/png".to_owned(),
        data: vec![1, 2, 3],
        path: None,
    }
}

fn texts(blocks: &[StagedBlock]) -> Vec<String> {
    blocks
        .iter()
        .map(|b| match b {
            StagedBlock::Text(t) => format!("T:{t}"),
            StagedBlock::Image(a) => format!("I:{}", a.name),
        })
        .collect()
}

fn item(id: &str) -> SessionListItem {
    SessionListItem { id: id.to_owned(), title: None, updated_at: None }
}

#[test]
fn token_spans_are_character_ranges_in_start_order() {
    let atts = vec![att("[image 2]", "b"), att("[image 1]", "a"), att("[image 9]", "missing")];
    let spans = token_spans_in("é [image 1] x [image 2]", &atts);
    assert_eq!(spans, vec![(2, 11, 1), (14, 23, 0)]);
}

#[test]
fn short_ids_keep_eight_characters() {
    assert_eq!(short_id("0123456789abcdef"), "01234567");
    assert_eq!(short_id("abc"), "abc");
}

#[test]
fn a_unique_prefix_resumes_its_session() {
    let sessions = vec![item("abc123"), item("abd999"), item("abc")];
    assert_eq!(unique_session_list_match(&sessions, "abd").ok().as_deref(), Some("abd999"));
    // an exact id wins among several prefix matches
    assert_eq!(unique_session_list_match(&sessions, "abc").ok().as_deref(), Some("abc"));
}

#[test]
fn a_prefix_matching_nothing_or_many_is_refused() {
    let sessions = vec![item("abc123"), item("abc456")];
    match unique_session_list_match(&sessions, "zz") {
        Err(e @ ResumeMatchError::NoMatch { .. }) => {
            assert_eq!(e.message(), "no session matches “zz” — /resume lists them")
        }
        _ => panic!("expected no match"),
    }
    match unique_session_list_match(&sessions, "abc") {
        Err(e @ ResumeMatchError::Ambiguous { count: 2, .. }) => {
            assert_eq!(e.message(), "“abc” is ambiguous (2 matches) — /resume lists them")
        }
        _ => panic!("expected ambiguity"),
    }
}

#[test]
fn staged_blocks_lose_blank_edges_and_empty_texts() {
    let mut blocks = vec![
        StagedBlock::Text("  ".to_owned()),
        StagedBlock::Text("  hi ".to_owned()),
        StagedBlock::Image(att("[image 1]", "a")),
        StagedBlock::Text("".to_owned()),
        StagedBlock::Text(" bye  ".to_owned()),
        StagedBlock::Text("\n".to_owned()),
    ];
    trim_staged_blocks(&mut blocks);
    assert_eq!(texts(&blocks), vec!["T:hi", "I:a", "T:bye"]);
}

#[test]
fn trimming_staged_blocks_twice_changes_nothing() {
    let mut blocks = vec![
        StagedBlock::Text(" a ".to_owned()),
        StagedBlock::Image(att("[image 1]", "x")),
        StagedBlock::Text(" b ".to_owned()),
    ];
    trim_staged_blocks(&mut blocks);
    let once = texts(&blocks);
    trim_staged_blocks(&mut blocks);
    assert_eq!(texts(&blocks), once);
}

#[test]
fn a_draft_alternates_text_and_images_in_reading_order() {
    let atts = vec![att("[image 1]", "one"), att("[image 2]", "two")];
    let blocks = split_draft_into_staged_blocks("look [image 2] then [image 1]  ", atts);
    assert_eq!(texts(&blocks), vec!["T:look", "I:two", "T: then ", "I:one"]);
}

#[test]
fn a_draft_without_chips_is_one_trimmed_text() {
    let blocks = split_draft_into_staged_blocks("  hello  ", Vec::new());
    assert_eq!(texts(&blocks), vec!["T:hello"]);
    assert!(split_draft_into_staged_blocks("   ", Vec::new()).is_empty());
}

#[test]
fn resume_rows_carry_the_title_or_the_id() {
    let row = session_picker_row("0123456789", Some("  My task "), None, Some("2024-05-06T10:00:00Z"));
    assert_eq!(row.id, "0123456789");
    assert_eq!(row.label, "My task");
    assert_eq!(row.meta, "01234567 · 2024-05-06");
    let bare = session_picker_row("ab", Some("   "), None, None);
    assert_eq!(bare.label, "ab");
    assert_eq!(bare.meta, "ab       · ?");
    let short_date = session_picker_row("ab", None, None, Some("2024"));
    assert_eq!(short_date.meta, "ab       · ?");
}

#[test]
fn local_resume_rows_carry_age_and_turns() {
    let local = LocalSession { preview: "first prompt".to_owned(), age: "3h".to_owned(), turns: 1 };
    let row = session_picker_row("abcdefghij", None, Some(&local), None);
    assert_eq!(row.label, "first prompt");
    assert_eq!(row.meta, "abcdefgh · 3h · 1 turn");
    let many = LocalSession { preview: String::new(), age: "2d".to_owned(), turns: 12 };
    let row = session_picker_row("abcdefghij", None, Some(&many), None);
    assert_eq!(row.label, "abcdefgh");
    assert_eq!(row.meta, "abcdefgh · 2d · 12 turns");
}

#[test]
fn a_deletion_into_a_chip_cuts_the_whole_chip() {
    let atts = vec![att("[image 1]", "a.png"), att("[image 2]", "b.png")];
    let spans = token_spans_in("x [image 1] y [image 2]", &atts);
    assert_eq!(spans, vec![(2, 11, 0), (14, 23, 1)]);
    assert_eq!(token_to_cut(&spans, 11, true), Some((2, 11, 0)));
    assert_eq!(token_to_cut(&spans, 11, false), None);
    assert_eq!(token_to_cut(&spans, 14, false), Some((14, 23, 1)));
    assert_eq!(token_to_cut(&spans, 0, true), None);
    assert_eq!(token_to_cut(&spans, 2, true), None);
}

#[test]
fn only_present_chips_become_images_in_draft_order() {
    let atts = vec![att("[image 1]", "one"), att("[image 2]", "two"), att("[image 3]", "three")];
    let blocks = split_draft_into_staged_blocks("[image 3][image 1] x [image 3]", atts);
    assert_eq!(texts(&blocks), vec!["I:three", "I:one", "T:x [image 3]"]);
    assert!(blocks.iter().all(|b| !matches!(b, StagedBlock::Text(t) if t.is_empty())));
}

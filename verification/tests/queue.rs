use martty::history::Recall;
use martty::queue::{prompt_summary, queue_position, queue_previews, remove_queued, QueuedPrompt};
use martty::staging::{Attachment, StagedBlock};

fn text(t: &str) -> StagedBlock {
    StagedBlock::Text(t.to_owned())
}

fn image(name: &str) -> StagedBlock {
    StagedBlock::Image(Attachment {
        token: "[image #1]".to_owned(),
        name: name.to_owned(),
        media_type: "image/png".to_owned(),
        data: vec![1, 2, 3],
        path: None,
    })
}

fn prompt(id: u64, t: &str) -> QueuedPrompt {
    QueuedPrompt { id, blocks: vec![text(t)] }
}

#[test]
fn a_summary_squeezes_whitespace_and_names_images() {
    assert_eq!(prompt_summary(&vec![text("  fix\tthe\n\nbug  "), image("shot.png"), text("now")]), "fix the bug ▣ shot.png now");
    assert_eq!(prompt_summary(&vec![text("   "), text("")]), "empty prompt");
    assert_eq!(prompt_summary(&Vec::new()), "empty prompt");
}

fn queue(n: u64) -> Vec<QueuedPrompt> {
    (1..=n).map(|i| prompt(i * 10, &format!("prompt {i}"))).collect()
}

#[test]
fn the_shelf_shows_everything_that_fits() {
    let rows = queue_previews(&queue(3), 5, None, None);
    assert_eq!(rows.iter().map(|r| r.ordinal).collect::<Vec<_>>(), vec![1, 2, 3]);
    assert_eq!(rows[1].summary, "prompt 2");
    assert_eq!(rows[2].id, 30);
    assert!(rows.iter().all(|r| !r.selected && !r.editing));
    assert_eq!(queue_previews(&queue(7), 0, None, None).len(), 7, "no limit shows the whole queue");
}

#[test]
fn the_window_follows_the_selected_or_edited_prompt() {
    let q = queue(8);
    let rows = queue_previews(&q, 3, None, None);
    assert_eq!(rows.iter().map(|r| r.ordinal).collect::<Vec<_>>(), vec![1, 2, 3]);

    let rows = queue_previews(&q, 3, Some(5), None);
    assert_eq!(rows.iter().map(|r| r.ordinal).collect::<Vec<_>>(), vec![4, 5, 6]);
    assert!(rows[2].selected);

    let rows = queue_previews(&q, 3, Some(7), None);
    assert_eq!(rows.iter().map(|r| r.ordinal).collect::<Vec<_>>(), vec![6, 7, 8]);

    let rows = queue_previews(&q, 3, None, Some(50));
    assert_eq!(rows.iter().map(|r| r.ordinal).collect::<Vec<_>>(), vec![3, 4, 5]);
    assert!(rows[2].editing);
    assert!(!rows[2].selected);
}

#[test]
fn removing_a_prompt_keeps_the_others_in_order() {
    let mut q = queue(4);
    assert_eq!(queue_position(&q, 30), Some(2));
    assert_eq!(remove_queued(&mut q, 30), Some(2));
    assert_eq!(q.iter().map(|p| p.id).collect::<Vec<_>>(), vec![10, 20, 40]);
    assert_eq!(remove_queued(&mut q, 30), None, "a prompt that already left changes nothing");
    assert_eq!(q.len(), 3);
    assert_eq!(queue_position(&q, 99), None);
}

fn recall(history: &[&str], buffer: &str) -> Recall {
    Recall {
        history: history.iter().map(|s| s.to_string()).collect(),
        pos: None,
        stash: String::new(),
        buffer: buffer.to_owned(),
    }
}

#[test]
fn recall_walks_back_and_returns_to_the_draft() {
    let mut r = recall(&["first", "second"], "");
    r.history_prev();
    assert_eq!((r.pos, r.buffer.as_str()), (Some(1), "second"));
    r.history_prev();
    assert_eq!((r.pos, r.buffer.as_str()), (Some(0), "first"));
    r.history_prev();
    assert_eq!((r.pos, r.buffer.as_str()), (Some(0), "first"), "the oldest prompt stops the walk");
    r.history_next();
    assert_eq!((r.pos, r.buffer.as_str()), (Some(1), "second"));
    r.history_next();
    assert_eq!((r.pos, r.buffer.as_str()), (None, ""));
    r.history_next();
    assert_eq!((r.pos, r.buffer.as_str()), (None, ""), "down without recall does nothing");
}

#[test]
fn up_from_a_draft_waits_unless_asked_to_put_it_aside() {
    let mut r = recall(&["sent"], "draft");
    r.history_prev();
    assert_eq!((r.pos, r.buffer.as_str()), (None, "draft"), "a typed prompt is not replaced");
    r.history_prev_from_draft();
    assert_eq!((r.pos, r.buffer.as_str(), r.stash.as_str()), (Some(0), "sent", "draft"));
    r.history_next();
    assert_eq!((r.pos, r.buffer.as_str(), r.stash.as_str()), (None, "draft", ""));

    let mut empty = recall(&[], "x");
    empty.history_prev_from_draft();
    assert_eq!((empty.pos, empty.buffer.as_str()), (None, "x"), "no history, nothing to recall");
}

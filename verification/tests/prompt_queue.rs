use martty::menu::{BuiltinCommand, MenuSources, PluginCommand, SkillInfo};
use martty::options::ArgumentSources;
use martty::prompt_queue::{
    send_now_plan, sending_images_note, submit_route, Dispatch, EditOutcome, HeadNow, PromptQueue, QueueEdit, SelectorOpen,
    QueueFingerprint, SendNow, SubmitRoute,
};
use martty::staging::StagedBlock;

fn s(v: &str) -> String {
    v.to_owned()
}

fn sources() -> MenuSources {
    MenuSources {
        builtins: vec![
            BuiltinCommand { name: s("model"), usage: s("/model"), desc: s("pick") },
            BuiltinCommand { name: s("help"), usage: s("/help"), desc: s("help") },
        ],
        plugin_commands: vec![PluginCommand { name: s("deploy"), description: s("ship"), input: None }],
        skills: vec![
            SkillInfo { name: s("review"), description: s("review"), input_hint: None, client_command: false },
            SkillInfo { name: s("compact"), description: s("compact"), input_hint: None, client_command: true },
            SkillInfo { name: s("help"), description: s("shadowed"), input_hint: None, client_command: false },
        ],
        theme_sections: (s("Mode"), s("Palettes")),
        arguments: ArgumentSources {
            current_model: s("m"),
            models: Vec::new(),
            host_models: None,
            presets: Vec::new(),
            harnesses: Vec::new(),
            efforts: Vec::new(),
            permissions: Vec::new(),
            theme_toggle: (s("t"), s("d")),
            palettes: Vec::new(),
            ui_plugins: Vec::new(),
            auth_methods: Vec::new(),
        },
    }
}

#[test]
fn submitting_routes_commands_shells_and_prompts() {
    let src = sources();
    assert!(matches!(submit_route("  /model  gpt ", false, &src), SubmitRoute::Slash { name, arg } if name == "model" && arg == "gpt"));
    assert!(matches!(submit_route("/help", false, &src), SubmitRoute::Slash { name, arg } if name == "help" && arg.is_empty()));
    assert!(matches!(submit_route("/deploy prod", false, &src), SubmitRoute::PluginCommand { name, args } if name == "deploy" && args == "prod"));
    assert!(matches!(submit_route("/compact", false, &src), SubmitRoute::PluginCommand { name, .. } if name == "compact"));
    assert!(matches!(submit_route(" /review 42 ", false, &src), SubmitRoute::SkillPrompt(t) if t == "/review 42"));
    assert!(matches!(submit_route("/nope x", false, &src), SubmitRoute::Slash { name, .. } if name == "nope"));
    assert!(matches!(submit_route("! ls -la ", false, &src), SubmitRoute::Shell(c) if c == "ls -la"));
    assert!(matches!(submit_route("!   ", false, &src), SubmitRoute::Nothing));
    assert!(matches!(submit_route("/model", true, &src), SubmitRoute::ImagesBlockCommand));
    assert!(matches!(submit_route("look", true, &src), SubmitRoute::Staged));
    assert!(matches!(submit_route("", true, &src), SubmitRoute::Staged));
    assert!(matches!(submit_route("   ", false, &src), SubmitRoute::Nothing));
    assert!(matches!(submit_route(" hello ", false, &src), SubmitRoute::Text(t) if t == "hello"));
}

fn text(t: &str) -> Vec<StagedBlock> {
    vec![StagedBlock::Text(t.to_owned())]
}

fn first_text(blocks: &[StagedBlock]) -> String {
    match &blocks[0] {
        StagedBlock::Text(t) => t.clone(),
        StagedBlock::Image(a) => a.name.clone(),
    }
}

#[test]
fn the_queue_sends_the_oldest_prompt_first() {
    let mut q = PromptQueue::new();
    assert_eq!(q.enqueue(text("one")), 1);
    assert_eq!(q.enqueue(text("two")), 2);
    assert!(matches!(q.take_next(false), Dispatch::Unbound));
    assert_eq!(q.prompts.len(), 2);
    match q.take_next(true) {
        Dispatch::Send(p) => {
            assert_eq!(p.id, 1);
            assert_eq!(first_text(&p.blocks), "one");
        },
        _ => panic!("the oldest prompt goes first"),
    }
    q.selection = Some(0);
    assert!(matches!(q.take_next(true), Dispatch::Paused));
    q.selection = None;
    assert!(matches!(q.take_next(true), Dispatch::Send(p) if p.id == 2));
    assert!(matches!(q.take_next(true), Dispatch::Empty));
}

#[test]
fn sending_the_head_now_steers_a_running_turn() {
    let mut q = PromptQueue::new();
    q.enqueue(text("one"));
    q.enqueue(text("two"));
    assert!(matches!(q.take_head_now(false, true, true), HeadNow::Unbound));
    assert!(matches!(q.take_head_now(true, false, true), HeadNow::Nothing), "a draft in the composer wins");
    let head = match q.take_head_now(true, true, true) {
        HeadNow::Steer(p) => p,
        _ => panic!("a running turn is steered"),
    };
    assert_eq!(head.id, 1);
    assert!(matches!(q.take_head_now(true, true, false), HeadNow::Prompt(p) if p.id == 2));
    q.requeue_front(head);
    assert_eq!(q.prompts[0].id, 1);
}

#[test]
fn prompt_ids_count_up_and_wrap_past_the_largest_to_one() {
    let mut q = PromptQueue::new();
    q.next_id = u64::MAX;
    assert_eq!(q.take_id(), u64::MAX);
    assert_eq!(q.next_id, 1);
}

#[test]
fn editing_a_queued_prompt() {
    let mut q = PromptQueue::new();
    assert_eq!(q.open_selector(true), SelectorOpen::NothingQueued);
    q.enqueue(text("one"));
    q.enqueue(text("two"));
    assert_eq!(q.open_selector(false), SelectorOpen::DraftInTheWay);
    assert_eq!(q.open_selector(true), SelectorOpen::Opened);
    assert_eq!(q.selection, Some(1));
    assert_eq!(q.open_selector(true), SelectorOpen::Busy);
    assert_eq!(q.begin_edit_at(0), Some(1));
    assert_eq!(q.selection, None);
    assert_eq!(q.edit, Some(QueueEdit { prompt_id: 1, delete_confirm: false }));
    assert_eq!(q.save_edit(None), EditOutcome::EmptyDraft);
    assert!(q.edit.is_some());
    assert_eq!(q.save_edit(Some(text("uno"))), EditOutcome::Updated(0));
    assert_eq!(first_text(&q.prompts[0].blocks), "uno");
    assert_eq!(q.prompts[0].id, 1);
    assert_eq!(q.edit, None);
    assert_eq!(q.save_edit(Some(text("x"))), EditOutcome::NotEditing);
    assert_eq!(q.begin_edit_at(5), None);
}

#[test]
fn deleting_a_queued_prompt_takes_a_confirmation() {
    let mut q = PromptQueue::new();
    q.enqueue(text("one"));
    q.enqueue(text("two"));
    q.begin_edit_at(1);
    q.arm_delete();
    assert_eq!(q.edit, Some(QueueEdit { prompt_id: 2, delete_confirm: true }));
    assert!(!q.cancel_edit(), "Esc backs out of the confirmation only");
    assert_eq!(q.edit, Some(QueueEdit { prompt_id: 2, delete_confirm: false }));
    q.arm_delete();
    assert_eq!(q.save_edit(Some(text("ignored"))), EditOutcome::Deleted(1));
    assert_eq!(q.prompts.len(), 1);
    q.begin_edit_at(0);
    assert!(matches!(q.take_next(true), Dispatch::Paused), "an open edit holds the queue");
    assert!(q.cancel_edit());
    q.begin_edit_at(0);
    q.prompts.clear();
    assert_eq!(q.delete_edit(), EditOutcome::Gone);
    assert_eq!(q.edit, None);
}

#[test]
fn send_now_steers_while_a_turn_runs() {
    assert_eq!(send_now_plan("  hi  ", false, true), SendNow::Text { text: "hi".to_string(), steer: true });
    assert_eq!(send_now_plan("hi", false, false), SendNow::Text { text: "hi".to_string(), steer: false });
    assert_eq!(send_now_plan("   ", false, true), SendNow::Empty);
}

#[test]
fn send_now_keeps_images_off_commands() {
    assert_eq!(send_now_plan(" /model", true, false), SendNow::ImagesWithCommand);
    assert_eq!(send_now_plan("!ls", true, true), SendNow::ImagesWithCommand);
    assert_eq!(send_now_plan("look [image 1]", true, true), SendNow::Staged { steer: true });
    assert_eq!(send_now_plan("", true, false), SendNow::Staged { steer: false });
}

#[test]
fn the_image_note_counts_images() {
    assert_eq!(sending_images_note(1, false), "sending image");
    assert_eq!(sending_images_note(3, false), "sending 3 images");
    assert_eq!(sending_images_note(2, true), "正在发送 2 张图片");
}

#[test]
fn the_shelf_fingerprint_tracks_order_selection_and_edit() {
    let mut q = PromptQueue::new();
    q.enqueue(text("one"));
    q.enqueue(text("two"));
    assert_eq!(
        q.fingerprint(),
        QueueFingerprint { ids: vec![1, 2], selected: None, editing: None, confirming_delete: false }
    );
    q.selection = Some(1);
    q.edit = Some(QueueEdit { prompt_id: 2, delete_confirm: true });
    assert_eq!(
        q.fingerprint(),
        QueueFingerprint { ids: vec![1, 2], selected: Some(2), editing: Some(2), confirming_delete: true }
    );
    q.selection = Some(5);
    assert_eq!(q.fingerprint().selected, None);
}

#[test]
fn agent_text_waits_while_busy_or_unbound() {
    let mut q = PromptQueue::new();
    match q.agent_text("hello".to_owned(), false, false, 0, true) {
        martty::prompt_queue::AgentText::Send(t) => assert_eq!(t, "hello"),
        martty::prompt_queue::AgentText::Queued(_) => panic!("an idle bound tab sends at once"),
    }
    assert!(q.prompts.is_empty());
    let first = match q.agent_text("later".to_owned(), true, false, 0, true) {
        martty::prompt_queue::AgentText::Queued(id) => id,
        martty::prompt_queue::AgentText::Send(_) => panic!("a running turn queues"),
    };
    assert_eq!(q.prompts.len(), 1);
    assert_eq!(q.prompts[0].id, first);
    assert!(matches!(&q.prompts[0].blocks[..], [StagedBlock::Text(t)] if t == "later"));
    assert!(matches!(q.agent_text("x".to_owned(), false, false, 0, false), martty::prompt_queue::AgentText::Queued(_)));
    assert!(matches!(q.agent_text("y".to_owned(), false, true, 0, true), martty::prompt_queue::AgentText::Queued(_)));
    assert!(matches!(q.agent_text("z".to_owned(), false, false, 2, true), martty::prompt_queue::AgentText::Queued(_)));
    assert_eq!(q.prompts.len(), 4);
}

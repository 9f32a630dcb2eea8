use martty::slash_catalog::{
    agent_modes, media_type_for, model_presets, normalize_permission, permission_label, permission_picker_items,
    permission_presets, slash_commands, CatalogPreset,
};

#[test]
fn permission_spellings_name_the_stock_presets() {
    assert_eq!(normalize_permission("  RO "), Some("read-only"));
    assert_eq!(normalize_permission("sandbox"), Some("workspace-write"));
    assert_eq!(normalize_permission("YOLO"), Some("danger-full-access"));
    assert_eq!(normalize_permission("custom"), None);
}

#[test]
fn permission_labels_title_case_kebab_ids() {
    assert_eq!(permission_label("danger-full-access"), "Full access");
    assert_eq!(permission_label("workspace-write"), "Workspace Write");
    assert_eq!(permission_label("read2-only"), "Read2 Only");
    assert_eq!(permission_label("Custom_Id"), "Custom_Id");
    assert_eq!(permission_label("a--b"), "a--b");
    assert_eq!(permission_label(""), "");
}

#[test]
fn the_permission_picker_marks_the_current_preset() {
    let modes = vec![
        CatalogPreset { id: "read-only".to_owned(), name: "RO".to_owned(), description: "safe".to_owned(), broken: false },
        CatalogPreset { id: "workspace-write".to_owned(), name: "WW".to_owned(), description: "edit".to_owned(), broken: false },
    ];
    let reported = permission_picker_items(&modes, Some("read-only"), "read-only");
    assert_eq!(reported[0].meta, "safe · current");
    assert_eq!(reported[1].meta, "edit");
    let defaulted = permission_picker_items(&modes, None, "workspace-write");
    assert_eq!(defaulted[0].meta, "safe");
    assert_eq!(defaulted[1].meta, "edit · default");
    assert_eq!(defaulted[1].label, "Workspace Write");
}

#[test]
fn attachment_media_types_follow_the_extension() {
    assert_eq!(media_type_for("a/b.PNG"), Some("image/png"));
    assert_eq!(media_type_for("x.jpeg"), Some("image/jpeg"));
    assert_eq!(media_type_for("x.tar.gif"), Some("image/gif"));
    assert_eq!(media_type_for("x.webp"), Some("image/webp"));
    assert_eq!(media_type_for("notes.txt"), None);
    assert_eq!(media_type_for("png"), Some("image/png"));
}

#[test]
fn the_stock_tables() {
    assert_eq!(model_presets()[0], "deepseek-v4-flash");
    assert_eq!(agent_modes()[3], ("cordis", "Creator mode", "standard + runtime inspection and preset authoring"));
    assert_eq!(permission_presets().iter().map(|p| p.0).collect::<Vec<_>>(), vec!["read-only", "workspace-write", "danger-full-access"]);
    let commands = slash_commands();
    assert_eq!(commands.len(), 24);
    assert_eq!(commands[0].name, "agent");
}

#[test]
fn every_accepted_spelling_lands_on_a_preset_that_reads_as_itself() {
    let ids: Vec<&str> = permission_presets().iter().map(|p| p.0).collect();
    for spelling in [" RO ", "write", "Yolo", "sandbox", "full-access", "readonly"] {
        let p = normalize_permission(spelling).unwrap();
        assert!(ids.contains(&p));
        assert_eq!(normalize_permission(p), Some(p));
    }
    assert_eq!(normalize_permission("nope"), None);
}

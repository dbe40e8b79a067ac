use simplebar::hyprland::{
    after_last_colon, clamp_workspace_id, normalize_workspaces, workspace_button, RawWorkspace,
    Workspace, Workspaces, WorkspacesData, ACTIVE_BORDER_COLOR,
};

fn raw(id: i32, name: &str, monitor_id: usize, windows: u16) -> RawWorkspace {
    RawWorkspace { id, name: name.to_string(), monitor_id, windows }
}

#[test]
fn negative_workspace_identifiers_are_clamped_to_slot_zero() {
    assert_eq!(clamp_workspace_id(-1), 0);
    assert_eq!(clamp_workspace_id(-99), 0);
    assert_eq!(clamp_workspace_id(0), 0);
    assert_eq!(clamp_workspace_id(7), 7);
}

#[test]
fn switching_to_a_negative_identifier_lands_on_slot_zero() {
    let mut data = WorkspacesData::init(3, &vec![1, 2]);
    // The compositor reports a special workspace with identifier -1: the
    // command is clamped to slot 0 before the slot array is indexed.
    data.on_workspace_added(-1);
    assert!(data.workspaces[0].visible);
    data.on_workspace_deleted(-1);
    assert!(!data.workspaces[0].visible);
}

#[test]
fn init_builds_the_eleven_fixed_slots() {
    let data = WorkspacesData::init(2, &vec![1, 3, -5]);
    assert_eq!(data.workspaces.len(), 11);
    assert_eq!(data.active, 2);
    assert_eq!(data.workspaces[0].name, "S");
    for k in 1..11 {
        assert_eq!(data.workspaces[k].name, k.to_string());
        assert_eq!(data.workspaces[k].id, k as i32);
    }
    assert!(data.workspaces[1].visible);
    assert!(data.workspaces[3].visible);
    assert!(data.workspaces[0].visible); // -5 clamped onto slot 0
    assert!(!data.workspaces[2].visible);
    assert!(data.workspaces[2].active);
    assert!(!data.workspaces[1].active);
}

#[test]
fn workspace_change_moves_the_active_flag_and_reveals_the_slot() {
    let mut data = WorkspacesData::init(1, &vec![1]);
    data.on_workspace_changed(4);
    assert_eq!(data.active, 4);
    assert!(!data.workspaces[1].active);
    assert!(data.workspaces[4].active);
    assert!(data.workspaces[4].visible);
}

#[test]
fn workspace_buttons_highlight_the_active_slot() {
    let active = Workspace { id: 3, name: "3".to_string(), active: true, visible: true };
    let b = workspace_button(active);
    assert_eq!(b.label, "3");
    assert_eq!(b.size, 28);
    assert_eq!(b.border, 2);
    assert_eq!(b.rounded, 10);
    assert_eq!(b.border_color, Some(ACTIVE_BORDER_COLOR));
    assert_eq!(b.switch_to, 3);

    let idle = Workspace { id: 5, name: "5".to_string(), active: false, visible: true };
    assert_eq!(workspace_button(idle).border_color, None);
}

#[test]
fn widget_applies_snapshots_and_lists_only_visible_slots() {
    let mut w = Workspaces::new();
    assert!(w.workspaces.is_empty());
    let data = WorkspacesData::init(1, &vec![1, 4]);
    w.update(&data);
    assert_eq!(w.active, 1);
    assert_eq!(w.workspaces.len(), 11);
    let visible = w.visible_workspaces();
    let ids: Vec<i32> = visible.iter().map(|v| v.id).collect();
    assert_eq!(ids, vec![1, 4]);
}

#[test]
fn special_workspace_names_keep_only_the_part_after_the_last_colon() {
    assert_eq!(after_last_colon("special:magic"), "magic");
    assert_eq!(after_last_colon("plain"), "plain");
    assert_eq!(after_last_colon("a:b:c"), "c");
    assert_eq!(after_last_colon(":x"), "x");
    assert_eq!(after_last_colon("x:"), "");
    assert_eq!(after_last_colon(""), "");
}

#[test]
fn normalization_fills_gaps_with_placeholders() {
    let out = normalize_workspaces(
        vec![raw(3, "three", 0, 2), raw(1, "one", 0, 1)],
        Some(3),
        &vec![],
    );
    assert_eq!(out.len(), 3);
    assert_eq!(out[0].id, 1);
    assert_eq!(out[0].name, "one");
    assert!(!out[0].active);
    assert_eq!(out[0].windows, 1);
    assert_eq!(out[0].monitor_id, Some(0));
    // The gap at 2 became a placeholder.
    assert_eq!(out[1].id, 2);
    assert_eq!(out[1].name, "2");
    assert_eq!(out[1].monitor_id, None);
    assert!(!out[1].active);
    assert_eq!(out[1].windows, 0);
    assert_eq!(out[2].id, 3);
    assert!(out[2].active);
}

#[test]
fn normalization_puts_specials_first_with_trimmed_names() {
    let out = normalize_workspaces(
        vec![raw(2, "two", 1, 0), raw(-99, "special:scratch", 0, 3)],
        Some(2),
        &vec![-99],
    );
    assert_eq!(out.len(), 3);
    assert_eq!(out[0].id, -99);
    assert_eq!(out[0].name, "scratch");
    assert!(out[0].active); // a monitor shows this special workspace
    assert_eq!(out[0].windows, 3);
    assert_eq!(out[1].id, 1);
    assert_eq!(out[1].name, "1");
    assert_eq!(out[2].id, 2);
    assert_eq!(out[2].name, "two");
    assert!(out[2].active);
}

#[test]
fn normalization_of_an_empty_dump_is_empty() {
    let out = normalize_workspaces(vec![], None, &vec![]);
    assert!(out.is_empty());
}

#[test]
fn inactive_special_workspaces_stay_inactive() {
    let out = normalize_workspaces(vec![raw(-2, "special", 0, 0)], None, &vec![-3]);
    assert_eq!(out.len(), 1);
    assert_eq!(out[0].id, -2);
    assert_eq!(out[0].name, "special");
    assert!(!out[0].active);
}

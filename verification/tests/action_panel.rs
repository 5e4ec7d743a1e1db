use zeshicast::action_panel::{
    action_panel_displays,
    action_confirmation_detail, secondary_action_confirmation_detail,
    action_panel_display_items, action_panel_display_rows, filter_action_panel_items,
    secondary_action_risk, ActionPanelDisplayItem, ActionPanelItem, ActionPanelItemKind,
    ActionPanelSection, ActionRisk, DisplayedActionPanelRow, SecondaryActionKind,
};

fn action_panel_item(
    title: &str,
    section: ActionPanelSection,
    kind: ActionPanelItemKind,
) -> ActionPanelItem {
    ActionPanelItem {
        display: ActionPanelDisplayItem {
            title: title.to_string(),
            icon_name: "system-run-symbolic".to_string(),
            is_section_header: false,
            is_destructive: section.is_danger(),
        },
        section,
        kind,
    }
}

fn assert_row_kind(rows: &[DisplayedActionPanelRow], index: usize, expected: ActionPanelItemKind) {
    match rows.get(index) {
        Some(DisplayedActionPanelRow::Action(item)) => assert_eq!(item.kind, expected),
        Some(DisplayedActionPanelRow::Header(section)) => {
            panic!("expected action row at {index}, got {section:?} header")
        }
        None => panic!("expected action row at {index}, got no row"),
    }
}

#[test]
fn action_panel_row_index_ignores_section_headers() {
    let rows = action_panel_display_rows(&[
        action_panel_item(
            "Run",
            ActionPanelSection::Primary,
            ActionPanelItemKind::Secondary(SecondaryActionKind::Run),
        ),
        action_panel_item(
            "Copy Value",
            ActionPanelSection::Primary,
            ActionPanelItemKind::Secondary(SecondaryActionKind::CopyValue),
        ),
        action_panel_item("Set Alias", ActionPanelSection::Manage, ActionPanelItemKind::SetAlias),
        action_panel_item(
            "Clear Clipboard History",
            ActionPanelSection::Danger,
            ActionPanelItemKind::Secondary(SecondaryActionKind::ClearClipboardHistory),
        ),
    ]);

    assert!(matches!(
        rows.first(),
        Some(DisplayedActionPanelRow::Header(ActionPanelSection::Primary))
    ));
    assert_row_kind(&rows, 1, ActionPanelItemKind::Secondary(SecondaryActionKind::Run));
    assert_row_kind(&rows, 2, ActionPanelItemKind::Secondary(SecondaryActionKind::CopyValue));
    assert!(matches!(
        rows.get(3),
        Some(DisplayedActionPanelRow::Header(ActionPanelSection::Manage))
    ));
    assert_row_kind(&rows, 4, ActionPanelItemKind::SetAlias);
    assert!(matches!(
        rows.get(5),
        Some(DisplayedActionPanelRow::Header(ActionPanelSection::Danger))
    ));
    assert_row_kind(
        &rows,
        6,
        ActionPanelItemKind::Secondary(SecondaryActionKind::ClearClipboardHistory),
    );
}

#[test]
fn action_panel_filter_preserves_row_mapping() {
    let filtered = vec![action_panel_item(
        "Copy Value",
        ActionPanelSection::Primary,
        ActionPanelItemKind::Secondary(SecondaryActionKind::CopyValue),
    )];
    let rows = action_panel_display_rows(&filtered);
    let displays = action_panel_display_items(&rows);

    assert_eq!(displays.len(), 2);
    assert!(displays[0].is_section_header);
    assert_eq!(displays[0].title, "Primary");
    assert_eq!(displays[1].title, "Copy Value");
    assert_row_kind(&rows, 1, ActionPanelItemKind::Secondary(SecondaryActionKind::CopyValue));
}

#[test]
fn clipboard_clear_secondary_action_is_marked_clipboard_clear() {
    // The risk of a plain clipboard "Copy" action.
    let action_risk = ActionRisk::Normal;
    assert_eq!(
        secondary_action_risk(action_risk, SecondaryActionKind::ClearClipboardHistory),
        ActionRisk::ClipboardClear
    );
    assert!(secondary_action_risk(action_risk, SecondaryActionKind::ClearClipboardHistory)
        .requires_confirmation());
}

#[test]
fn secondary_run_inherits_action_risk() {
    assert_eq!(
        secondary_action_risk(ActionRisk::SystemPower, SecondaryActionKind::Run),
        ActionRisk::SystemPower
    );
}

#[test]
fn other_secondary_actions_are_harmless() {
    assert_eq!(
        secondary_action_risk(ActionRisk::Shell, SecondaryActionKind::CopyValue),
        ActionRisk::Normal
    );
    assert_eq!(
        secondary_action_risk(ActionRisk::Normal, SecondaryActionKind::DeleteClipboardItem),
        ActionRisk::Destructive
    );
    assert!(!ActionRisk::Normal.requires_confirmation());
}

#[test]
fn filter_is_case_insensitive_and_trims() {
    let items = vec![
        action_panel_item("Copy Value", ActionPanelSection::Primary, ActionPanelItemKind::SetAlias),
        action_panel_item("Pin", ActionPanelSection::Manage, ActionPanelItemKind::SetAlias),
        action_panel_item("ÉDIT", ActionPanelSection::Manage, ActionPanelItemKind::SetAlias),
    ];
    let f = filter_action_panel_items("  COPY ", &items);
    assert_eq!(f.len(), 1);
    assert_eq!(f[0].display.title, "Copy Value");
    assert_eq!(filter_action_panel_items("", &items).len(), 3);
    assert_eq!(filter_action_panel_items("édit", &items).len(), 1);
    assert_eq!(filter_action_panel_items("zzz", &items).len(), 0);
}

#[test]
fn empty_sections_have_no_header() {
    let items = vec![
        action_panel_item("A", ActionPanelSection::Danger, ActionPanelItemKind::SetAlias),
        action_panel_item("B", ActionPanelSection::Clipboard, ActionPanelItemKind::SetAlias),
    ];
    let displays = action_panel_display_items(&action_panel_display_rows(&items));
    let titles: Vec<&str> = displays.iter().map(|d| d.title.as_str()).collect();
    assert_eq!(titles, vec!["Clipboard", "B", "Danger", "A"]);
    assert!(displays[3].is_destructive);
    assert!(displays[0].icon_name.is_empty());
}

#[test]
fn confirmation_detail_shows_value_when_it_differs() {
    assert_eq!(action_confirmation_detail("System", "Reboot", "Reboot"), "System: Reboot");
    assert_eq!(
        action_confirmation_detail("Shell", "List files", "ls -la"),
        "Shell: List files\nls -la"
    );
    assert_eq!(
        secondary_action_confirmation_detail(SecondaryActionKind::DeleteClipboardItem, "Clipboard", "x", "secret"),
        "Delete clipboard item:\nsecret"
    );
    assert_eq!(
        secondary_action_confirmation_detail(SecondaryActionKind::ClearClipboardHistory, "Clipboard", "", ""),
        "This clears all local clipboard history stored by Zeshicast."
    );
    assert_eq!(
        secondary_action_confirmation_detail(SecondaryActionKind::Run, "Shell", "List files", "ls"),
        "Shell: List files\nls"
    );
}

#[test]
fn display_items_put_each_section_behind_its_heading() {
    let shown = action_panel_displays(&[
        action_panel_item(
            "Clear Clipboard History",
            ActionPanelSection::Danger,
            ActionPanelItemKind::Secondary(SecondaryActionKind::ClearClipboardHistory),
        ),
        action_panel_item(
            "Run",
            ActionPanelSection::Primary,
            ActionPanelItemKind::Secondary(SecondaryActionKind::Run),
        ),
    ]);
    assert_eq!(shown.len(), 4);
    assert!(shown[0].is_section_header);
    assert_eq!(shown[0].title, "Primary");
    assert_eq!(shown[1].title, "Run");
    assert!(!shown[1].is_section_header);
    assert!(shown[2].is_section_header);
    assert_eq!(shown[2].title, "Danger");
    assert_eq!(shown[3].title, "Clear Clipboard History");
    assert!(shown[3].is_destructive);
}

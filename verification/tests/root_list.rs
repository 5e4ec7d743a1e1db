use zeshicast::root_list::{grouped_root_rows, root_action_section, RootRow, RootSection};

#[test]
fn sections_follow_pins_recent_use_and_category() {
    let recent = vec!["firefox".to_string()];
    assert_eq!(root_action_section(true, "Firefox", &recent, "App"), RootSection::Favourites);
    assert_eq!(root_action_section(false, "Firefox", &recent, "App"), RootSection::Recent);
    assert_eq!(root_action_section(false, "Files", &recent, "App"), RootSection::Applications);
    assert_eq!(root_action_section(false, "Volume", &recent, "Audio"), RootSection::CommandCenter);
    assert_eq!(root_action_section(false, "Lock", &recent, "Zeshicast"), RootSection::CommandCenter);
    assert_eq!(root_action_section(false, "hello", &recent, "Snippet"), RootSection::Library);
    assert_eq!(RootSection::CommandCenter.title(), "Command Center");
}

#[test]
fn rows_are_grouped_in_section_order() {
    let sections = [
        RootSection::Library,
        RootSection::Favourites,
        RootSection::Library,
        RootSection::Applications,
    ];
    assert_eq!(
        grouped_root_rows(&sections),
        vec![
            RootRow::Header(RootSection::Favourites),
            RootRow::Item(1),
            RootRow::Header(RootSection::Applications),
            RootRow::Item(3),
            RootRow::Header(RootSection::Library),
            RootRow::Item(0),
            RootRow::Item(2),
        ]
    );
    assert!(grouped_root_rows(&[]).is_empty());
}

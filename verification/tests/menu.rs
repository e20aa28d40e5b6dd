use list_picker::menu::{menu_action, MenuAction};

#[test]
fn menu_numbers() {
    assert_eq!(menu_action(1), MenuAction::Select);
    assert_eq!(menu_action(2), MenuAction::Reload);
    assert_eq!(menu_action(3), MenuAction::Quit);
}

#[test]
fn other_numbers_show_the_menu_again() {
    assert_eq!(menu_action(0), MenuAction::Ignore);
    assert_eq!(menu_action(4), MenuAction::Ignore);
    assert_eq!(menu_action(usize::MAX), MenuAction::Ignore);
}

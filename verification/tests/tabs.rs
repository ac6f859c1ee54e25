use ttyamat::{
    ApplicationShortcut, CloseTabOutcome, ShortcutEffect, TabEvent, TabId, TabList,
};

fn titles(list: &TabList<u32>) -> Vec<String> {
    list.tabs().iter().map(|tab| tab.title.clone()).collect()
}

fn ids(list: &TabList<u32>) -> Vec<u64> {
    list.tabs().iter().map(|tab| tab.id.0).collect()
}

fn list_of(count: u32) -> TabList<u32> {
    let mut list = TabList::new();
    for session in 0..count {
        list.create_tab(session);
    }
    list
}

#[test]
fn new_list_is_empty() {
    let list: TabList<u32> = TabList::new();
    assert!(list.tabs().is_empty());
    assert_eq!(list.active_tab(), TabId(1));
    assert_eq!(list.hovered_tab(), None);
    assert_eq!(list.next_tab_id(), TabId(1));
}

#[test]
fn created_tabs_get_fresh_ids_and_fallback_titles() {
    let mut list = TabList::new();
    list.set_hovered(TabId(7), true);
    assert_eq!(list.create_tab(10u32), TabId(1));
    assert_eq!(list.create_tab(11u32), TabId(2));
    assert_eq!(ids(&list), vec![1, 2]);
    assert_eq!(titles(&list), vec!["Tab 1".to_string(), "Tab 2".to_string()]);
    assert_eq!(list.tabs()[1].fallback_title, "Tab 2");
    assert_eq!(list.tabs()[1].session, 11);
    assert_eq!(list.active_tab(), TabId(2));
    assert_eq!(list.hovered_tab(), None);
    assert_eq!(list.next_tab_id(), TabId(3));
}

#[test]
fn fallback_title_spells_large_ids() {
    let mut list = list_of(12);
    list.create_tab(99);
    assert_eq!(list.tabs()[12].title, "Tab 13");
    assert_eq!(list.tabs()[9].title, "Tab 10");
}

#[test]
fn closing_the_active_tab_activates_its_right_neighbour() {
    let mut list = list_of(3);
    list.select_tab(TabId(2));
    assert_eq!(list.close_tab(TabId(2)), CloseTabOutcome::Closed);
    assert_eq!(ids(&list), vec![1, 3]);
    assert_eq!(list.active_tab(), TabId(3));
}

#[test]
fn closing_the_rightmost_active_tab_activates_the_new_rightmost() {
    let mut list = list_of(3);
    assert_eq!(list.close_tab(TabId(3)), CloseTabOutcome::Closed);
    assert_eq!(ids(&list), vec![1, 2]);
    assert_eq!(list.active_tab(), TabId(2));
}

#[test]
fn closing_another_tab_keeps_the_active_one() {
    let mut list = list_of(3);
    list.set_hovered(TabId(1), true);
    assert_eq!(list.close_tab(TabId(1)), CloseTabOutcome::Closed);
    assert_eq!(list.active_tab(), TabId(3));
    assert_eq!(list.hovered_tab(), None);
}

#[test]
fn closing_the_last_tab_closes_the_window_instead() {
    let mut list = list_of(1);
    assert_eq!(list.close_tab(TabId(1)), CloseTabOutcome::CloseWindow);
    assert_eq!(ids(&list), vec![1]);
}

#[test]
fn closing_an_unknown_tab_changes_nothing() {
    let mut list = list_of(2);
    assert_eq!(list.close_tab(TabId(9)), CloseTabOutcome::NotFound);
    assert_eq!(ids(&list), vec![1, 2]);
    assert_eq!(list.active_tab(), TabId(2));
}

#[test]
fn ids_are_not_reused_after_closing() {
    let mut list = list_of(2);
    list.close_tab(TabId(2));
    assert_eq!(list.create_tab(5), TabId(3));
}

#[test]
fn next_and_previous_wrap_around() {
    let mut list = list_of(3);
    list.select_next_tab();
    assert_eq!(list.active_tab(), TabId(1));
    list.select_previous_tab();
    assert_eq!(list.active_tab(), TabId(3));
    list.select_previous_tab();
    assert_eq!(list.active_tab(), TabId(2));
}

#[test]
fn next_then_previous_returns_to_the_same_tab() {
    let mut list = list_of(4);
    list.select_tab(TabId(2));
    list.select_next_tab();
    assert_eq!(list.active_tab(), TabId(3));
    list.select_previous_tab();
    assert_eq!(list.active_tab(), TabId(2));
}

#[test]
fn selection_without_tabs_changes_nothing() {
    let mut list: TabList<u32> = TabList::new();
    list.select_next_tab();
    list.select_previous_tab();
    assert_eq!(list.active_tab(), TabId(1));
}

#[test]
fn selecting_an_unknown_tab_changes_nothing() {
    let mut list = list_of(2);
    list.select_tab(TabId(5));
    assert_eq!(list.active_tab(), TabId(2));
    list.select_tab(TabId(1));
    assert_eq!(list.active_tab(), TabId(1));
}

#[test]
fn hover_is_cleared_only_by_leaving_the_hovered_tab() {
    let mut list = list_of(2);
    list.set_hovered(TabId(1), true);
    list.set_hovered(TabId(2), false);
    assert_eq!(list.hovered_tab(), Some(TabId(1)));
    list.set_hovered(TabId(1), false);
    assert_eq!(list.hovered_tab(), None);
}

#[test]
fn title_changes_and_resets_to_the_fallback() {
    let mut list = list_of(2);
    list.set_title(TabId(1), Some("vim".to_string()));
    assert_eq!(titles(&list), vec!["vim".to_string(), "Tab 2".to_string()]);
    list.set_title(TabId(1), None);
    assert_eq!(titles(&list), vec!["Tab 1".to_string(), "Tab 2".to_string()]);
    list.set_title(TabId(8), Some("ignored".to_string()));
    assert_eq!(titles(&list), vec!["Tab 1".to_string(), "Tab 2".to_string()]);
}

#[test]
fn terminal_events_update_or_close_tabs() {
    let mut list = list_of(2);
    assert_eq!(list.handle_terminal_event(TabId(1), TabEvent::Bell), None);
    assert_eq!(list.handle_terminal_event(TabId(1), TabEvent::Wakeup), None);
    assert_eq!(
        list.handle_terminal_event(TabId(2), TabEvent::TitleChanged(Some("htop".to_string()))),
        None
    );
    assert_eq!(titles(&list), vec!["Tab 1".to_string(), "htop".to_string()]);
    assert_eq!(
        list.handle_terminal_event(TabId(2), TabEvent::ChildExited),
        Some(CloseTabOutcome::Closed)
    );
    assert_eq!(
        list.handle_terminal_event(TabId(1), TabEvent::ExitRequested),
        Some(CloseTabOutcome::CloseWindow)
    );
    assert_eq!(ids(&list), vec![1]);
}

#[test]
fn shortcuts_act_on_the_tab_list() {
    let mut list = list_of(3);
    assert_eq!(list.execute_shortcut(ApplicationShortcut::New), ShortcutEffect::OpenTab);
    assert_eq!(ids(&list), vec![1, 2, 3]);
    assert_eq!(list.execute_shortcut(ApplicationShortcut::SelectNext), ShortcutEffect::Selected);
    assert_eq!(list.active_tab(), TabId(1));
    assert_eq!(list.execute_shortcut(ApplicationShortcut::SelectPrevious), ShortcutEffect::Selected);
    assert_eq!(list.active_tab(), TabId(3));
    assert_eq!(
        list.execute_shortcut(ApplicationShortcut::CloseActive),
        ShortcutEffect::TabClosed(CloseTabOutcome::Closed)
    );
    assert_eq!(ids(&list), vec![1, 2]);
    assert_eq!(list.active_tab(), TabId(2));
}

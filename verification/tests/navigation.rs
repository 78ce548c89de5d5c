use zellij_bookmarks::navigation::{Mode, Navigation};

#[test]
fn the_tabs_go_round_in_both_directions() {
    assert_eq!(Mode::Bookmarks.next(), Mode::Labels);
    assert_eq!(Mode::Labels.next(), Mode::Usage);
    assert_eq!(Mode::Usage.next(), Mode::Bookmarks);
    assert_eq!(Mode::Bookmarks.prev(), Mode::Usage);
    assert_eq!(Mode::Labels.prev(), Mode::Bookmarks);
    assert_eq!(Mode::Usage.prev(), Mode::Labels);
}

#[test]
fn going_on_and_back_ends_where_it_began() {
    for mode in Mode::iter() {
        assert_eq!(mode.next().prev(), mode);
        assert_eq!(mode.prev().next(), mode);
        assert_eq!(mode.next().next().next(), mode);
    }
}

#[test]
fn the_tabs_are_numbered_from_one_to_three() {
    assert_eq!(Mode::iter(), vec![Mode::Bookmarks, Mode::Labels, Mode::Usage]);
    assert_eq!(Mode::Bookmarks.to_number(), 1);
    assert_eq!(Mode::Labels.to_number(), 2);
    assert_eq!(Mode::Usage.to_number(), 3);
    assert_eq!(Mode::try_from(0), None);
    assert_eq!(Mode::try_from(1), Some(Mode::Bookmarks));
    assert_eq!(Mode::try_from(2), Some(Mode::Labels));
    assert_eq!(Mode::try_from(3), Some(Mode::Usage));
    assert_eq!(Mode::try_from(4), None);
    assert_eq!(Mode::try_from(u32::MAX), None);
    assert_eq!(Mode::default(), Mode::Bookmarks);
}

#[test]
fn a_tab_is_shown_by_its_name() {
    assert_eq!(Mode::Bookmarks.to_string(), "Bookmarks");
    assert_eq!(Mode::Labels.to_string(), "Labels");
    assert_eq!(Mode::Usage.to_string(), "Usage");
}

use heat::calendar::find_next_saturday;
use heat::heatmap::{build_heatmap, heatmap_at, Cell};
use heat::habit::Habit;
use heat::ui::{card_height, truncate_name};

// Day 20744 is Sunday 2026-10-18; day 0 is Thursday 1970-01-01.
const SUNDAY: i32 = 20_744;

#[test]
fn next_saturday_from_each_weekday() {
    assert_eq!(find_next_saturday(SUNDAY), 20_750);
    assert_eq!(find_next_saturday(SUNDAY + 1), 20_750);
    assert_eq!(find_next_saturday(SUNDAY + 5), 20_750);
    assert_eq!(find_next_saturday(SUNDAY + 6), 20_750);
    assert_eq!(find_next_saturday(0), 2);
    assert_eq!(find_next_saturday(-1), 2);
}

#[test]
fn week_count_with_labels() {
    let h = heatmap_at(&vec![], SUNDAY, 21, true);
    assert_eq!(h.weeks, 9);
    assert_eq!(h.left_padding, 1);
    assert_eq!(h.cells.len(), 7);
    assert!(h.cells.iter().all(|r| r.len() == 9));
}

#[test]
fn week_count_without_labels() {
    let h = heatmap_at(&vec![], SUNDAY, 21, false);
    assert_eq!(h.weeks, 10);
    assert_eq!(h.left_padding, 1);
    let h = heatmap_at(&vec![], SUNDAY, 20, false);
    assert_eq!(h.weeks, 9);
    assert_eq!(h.left_padding, 1);
}

#[test]
fn narrow_width_still_one_week() {
    for w in 0..5u16 {
        assert_eq!(heatmap_at(&vec![], SUNDAY, w, true).weeks, 1);
        assert_eq!(heatmap_at(&vec![], SUNDAY, w, false).weeks, 1);
    }
    assert_eq!(heatmap_at(&vec![], SUNDAY, 0, true).left_padding, 0);
}

#[test]
fn cells_follow_the_calendar() {
    // Nine weeks ending Saturday 20750 start on Sunday 20688.
    let days = vec![SUNDAY, 20_688, 20_743, 20_700];
    let h = heatmap_at(&days, SUNDAY, 21, true);
    assert_eq!(h.cells[0][8], Cell::Completed); // today
    assert_eq!(h.cells[1][8], Cell::Future);
    assert_eq!(h.cells[6][8], Cell::Future);
    assert_eq!(h.cells[6][7], Cell::Completed); // 20743, Saturday
    assert_eq!(h.cells[0][0], Cell::Completed); // 20688
    assert_eq!(h.cells[5][1], Cell::Completed); // 20700 = 20688 + 7 + 5
    assert_eq!(h.cells[1][0], Cell::NotCompleted);
    let total_completed: usize = h
        .cells
        .iter()
        .map(|r| r.iter().filter(|c| **c == Cell::Completed).count())
        .sum();
    assert_eq!(total_completed, 4);
}

#[test]
fn saturday_today_has_no_future_cells() {
    let h = heatmap_at(&vec![], SUNDAY + 6, 11, true);
    assert_eq!(h.weeks, 4);
    assert!(h.cells.iter().all(|r| r.iter().all(|c| *c == Cell::NotCompleted)));
}

#[test]
fn heatmap_is_deterministic() {
    let days = vec![20_700, 20_744, 20_701];
    let reordered = vec![20_701, 20_700, 20_744, 20_700];
    let a = heatmap_at(&days, SUNDAY, 30, false);
    let b = heatmap_at(&reordered, SUNDAY, 30, false);
    assert_eq!(a.weeks, b.weeks);
    assert_eq!(a.left_padding, b.left_padding);
    assert_eq!(a.cells, b.cells);
    let c = heatmap_at(&days, SUNDAY, 30, false);
    assert_eq!(a.cells, c.cells);
}

#[test]
fn build_heatmap_uses_today() {
    let mut h = Habit::new("Run".to_string());
    h.toggle_today();
    let map = build_heatmap(&h, 21, true);
    assert_eq!(map.weeks, 9);
    let completed: usize = map
        .cells
        .iter()
        .map(|r| r.iter().filter(|c| **c == Cell::Completed).count())
        .sum();
    assert_eq!(completed, 1);
    assert!(map.cells.iter().all(|r| r.len() == 9));
}

#[test]
fn card_heights() {
    assert_eq!(card_height(true), 10);
    assert_eq!(card_height(false), 9);
}

#[test]
fn truncate_names() {
    assert_eq!(truncate_name("Read", 10), "Read");
    assert_eq!(truncate_name("Meditation", 10), "Meditation");
    assert_eq!(truncate_name("Meditation daily", 10), "Meditat...");
    assert_eq!(truncate_name("Meditation", 3), "Med");
    assert_eq!(truncate_name("Meditation", 0), "");
    assert_eq!(truncate_name("Läufé über", 6), "Läu...");
}

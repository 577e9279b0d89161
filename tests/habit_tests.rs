use heat::habit::{AppData, Habit};
use uuid::Uuid;

fn habit(days: &[i32]) -> Habit {
    Habit::from_stored(Uuid::nil(), "Read".to_string(), 20_000, days.to_vec())
}

#[test]
fn from_stored_keeps_each_day_once() {
    let h = habit(&[5, 3, 5, 7, 3]);
    assert_eq!(h.completions, vec![5, 3, 7]);
    assert_eq!(h.name, "Read");
    assert_eq!(h.created_at, 20_000);
}

#[test]
fn new_habit_is_empty_and_named() {
    let h = Habit::new("Run".to_string());
    assert_eq!(h.name, "Run");
    assert!(h.completions.is_empty());
    assert!(h.created_at > 19_000);
}

#[test]
fn new_habits_get_distinct_ids() {
    let a = Habit::new("A".to_string());
    let b = Habit::new("B".to_string());
    assert_ne!(a.id, b.id);
}

#[test]
fn app_data_starts_empty() {
    assert!(AppData::new().habits.is_empty());
}

#[test]
fn toggle_day_adds_then_removes() {
    let mut h = habit(&[1, 2]);
    h.toggle_day(10);
    assert_eq!(h.completions, vec![1, 2, 10]);
    h.toggle_day(1);
    assert_eq!(h.completions, vec![2, 10]);
}

#[test]
fn toggle_twice_restores_completions() {
    let mut h = habit(&[4, 9, 12]);
    h.toggle_day(9);
    h.toggle_day(9);
    let mut days = h.completions.clone();
    days.sort();
    assert_eq!(days, vec![4, 9, 12]);
    h.toggle_day(30);
    h.toggle_day(30);
    assert_eq!(h.completions.len(), 3);
    assert!(!h.completions.contains(&30));
}

#[test]
fn toggle_today_flips_today() {
    let mut h = habit(&[]);
    h.toggle_today();
    assert_eq!(h.completions.len(), 1);
    h.toggle_today();
    assert!(h.completions.is_empty());
}

#[test]
fn current_streak_ending_today() {
    let h = habit(&[100, 98, 99, 97, 95]);
    assert_eq!(h.current_streak_at(100), 4);
}

#[test]
fn current_streak_ending_yesterday() {
    let h = habit(&[99, 98]);
    assert_eq!(h.current_streak_at(100), 2);
}

#[test]
fn current_streak_broken() {
    let h = habit(&[98, 97]);
    assert_eq!(h.current_streak_at(100), 0);
    assert_eq!(habit(&[]).current_streak_at(100), 0);
}

#[test]
fn current_streak_single_day() {
    assert_eq!(habit(&[100]).current_streak_at(100), 1);
}

#[test]
fn longest_streak_of_unsorted_days() {
    let h = habit(&[10, 3, 11, 1, 2, 12, 13, 20]);
    assert_eq!(h.longest_streak(), 4);
}

#[test]
fn longest_streak_edge_cases() {
    assert_eq!(habit(&[]).longest_streak(), 0);
    assert_eq!(habit(&[7]).longest_streak(), 1);
    assert_eq!(habit(&[1, 3, 5]).longest_streak(), 1);
    let with_repeat = Habit {
        id: Uuid::nil(),
        name: "x".to_string(),
        created_at: 0,
        completions: vec![1, 2, 2, 3],
    };
    assert_eq!(with_repeat.longest_streak(), 3);
}

#[test]
fn completion_percentage_young_habit() {
    // Created 9 days before day 1000: a window of 10 days, 4 completed.
    let h = Habit::from_stored(Uuid::nil(), "x".to_string(), 991, vec![991, 995, 999, 1000, 980]);
    assert_eq!(h.completion_percentage_at(1000), 40);
}

#[test]
fn completion_percentage_old_habit() {
    // A window of 91 days (910..=1000); 45 completed gives 49 percent.
    let days: Vec<i32> = (0..45).map(|k| 1000 - 2 * k).collect();
    let h = Habit::from_stored(Uuid::nil(), "x".to_string(), 0, days);
    assert_eq!(h.completion_percentage_at(1000), 49);
}

#[test]
fn completion_percentage_full_and_empty() {
    let all: Vec<i32> = (910..=1000).collect();
    let h = Habit::from_stored(Uuid::nil(), "x".to_string(), 0, all);
    assert_eq!(h.completion_percentage_at(1000), 100);
    assert_eq!(habit(&[]).completion_percentage_at(20_010), 0);
}

#[test]
fn completion_percentage_created_in_future() {
    let h = Habit::from_stored(Uuid::nil(), "x".to_string(), 2000, vec![]);
    assert_eq!(h.completion_percentage_at(1000), 0);
}

#[test]
fn streaks_and_percentage_today() {
    let h = habit(&[]);
    assert_eq!(h.current_streak(), 0);
    assert_eq!(h.completion_percentage(), 0);
}

use concurrency_basics::counting::count_line;
use concurrency_basics::counting::count_lines;
use concurrency_basics::counting::moved_line;
use concurrency_basics::counting::FIRST;
use concurrency_basics::counting::MOVED_TEXT;
use concurrency_basics::counting::SECOND;
use concurrency_basics::counting::STEPS;
use concurrency_basics::counting::STEP_PAUSE_MILLIS;

#[test]
fn counting_workers_take_ten_steps_of_ten_milliseconds() {
    assert_eq!(STEPS, 10);
    assert_eq!(STEP_PAUSE_MILLIS, 10);
}

#[test]
fn counting_workers_are_called_first_and_second() {
    assert_eq!(FIRST, "First");
    assert_eq!(SECOND, "Second");
}

#[test]
fn count_line_names_the_worker_and_the_step() {
    assert_eq!(count_line(FIRST, 0), "First thread i: 0");
    assert_eq!(count_line(FIRST, 9), "First thread i: 9");
    assert_eq!(count_line(SECOND, 3), "Second thread i: 3");
}

#[test]
fn count_line_takes_any_label_and_any_step() {
    assert_eq!(count_line("", 0), " thread i: 0");
    assert_eq!(count_line("Third", 12), "Third thread i: 12");
    assert_eq!(count_line("Third", -4), "Third thread i: -4");
    assert_eq!(count_line("Third", i32::MIN), "Third thread i: -2147483648");
}

#[test]
fn count_line_agrees_with_the_standard_formatting() {
    for i in 0..10 {
        assert_eq!(count_line("First", i), format!("First thread i: {i}"));
        assert_eq!(count_line("Second", i), format!("Second thread i: {i}"));
    }
}

#[test]
fn count_lines_of_the_first_worker() {
    let expected: Vec<String> = vec![
        "First thread i: 0".to_string(),
        "First thread i: 1".to_string(),
        "First thread i: 2".to_string(),
        "First thread i: 3".to_string(),
        "First thread i: 4".to_string(),
        "First thread i: 5".to_string(),
        "First thread i: 6".to_string(),
        "First thread i: 7".to_string(),
        "First thread i: 8".to_string(),
        "First thread i: 9".to_string(),
    ];
    assert_eq!(count_lines(FIRST), expected);
}

#[test]
fn count_lines_has_one_line_for_each_step_in_order() {
    let lines = count_lines(SECOND);
    assert_eq!(lines.len(), STEPS as usize);
    for (step, line) in lines.iter().enumerate() {
        assert_eq!(*line, count_line(SECOND, step as i32));
    }
}

#[test]
fn moved_line_shows_the_moved_text() {
    assert_eq!(MOVED_TEXT, "moved string");
    assert_eq!(moved_line(MOVED_TEXT), "my_str: moved string");
    assert_eq!(moved_line(""), "my_str: ");
}

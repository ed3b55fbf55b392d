use concurrency_basics::messages::first_sender_messages;
use concurrency_basics::messages::received_line;
use concurrency_basics::messages::second_sender_messages;
use concurrency_basics::messages::SEND_PAUSE_MILLIS;

#[test]
fn first_sender_sends_one_greeting() {
    assert_eq!(first_sender_messages(), vec!["hello"]);
}

#[test]
fn second_sender_sends_three_words_in_order() {
    assert_eq!(second_sender_messages(), vec!["channels", "are", "fun"]);
}

#[test]
fn second_sender_rests_three_hundred_milliseconds() {
    assert_eq!(SEND_PAUSE_MILLIS, 300);
}

#[test]
fn received_line_shows_the_message() {
    assert_eq!(received_line("hello"), "val: hello");
    assert_eq!(received_line(""), "val: ");
}

#[test]
fn received_lines_of_one_possible_arrival_order() {
    let mut arrived: Vec<&str> = Vec::new();
    let first = first_sender_messages();
    let second = second_sender_messages();
    arrived.push(second[0]);
    arrived.push(first[0]);
    arrived.push(second[1]);
    arrived.push(second[2]);
    let lines: Vec<String> = arrived.iter().map(|value| received_line(value)).collect();
    assert_eq!(lines, vec!["val: channels", "val: hello", "val: are", "val: fun"]);
}

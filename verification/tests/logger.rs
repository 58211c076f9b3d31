use rusty_trace::logger::Logger;

fn latest(logger: &Logger) -> String {
    let mut seen = String::new();
    logger.with_latest(|message| seen.push_str(message));
    seen
}

#[test]
fn logger_starts_empty() {
    assert_eq!(latest(&Logger::new()), "");
    assert_eq!(latest(&Logger::default()), "");
}

#[test]
fn logger_keeps_the_latest_message() {
    let mut logger = Logger::new();
    logger.log(String::from("first"));
    assert_eq!(latest(&logger), "first");
    logger.log(String::from("second"));
    assert_eq!(latest(&logger), "second");
}

#[test]
fn logger_hands_the_message_out_once() {
    let mut logger = Logger::new();
    logger.log(String::from("done"));
    let mut calls = 0;
    logger.with_latest(|_| calls += 1);
    assert_eq!(calls, 1);
}

use juc::logging::level::LogLevel;
use juc::logging::log::Log;
use juc::logging::logger::Logger;

fn sample_logs() -> Vec<Log> {
    vec![
        Log::info("This is an info log".to_string()),
        Log::new(
            LogLevel::Error,
            "This is an error log".to_string(),
            "This message is for this error log".to_string(),
        ),
        Log::new(
            LogLevel::Warning,
            "This is a warning log".to_string(),
            "This message is for this warning log".to_string(),
        ),
        Log::new(
            LogLevel::Error,
            "This is an error log with an hint".to_string(),
            "This message is for this error log".to_string(),
        )
        .add_hint("This hint is for this error log".to_string()),
        Log::new(
            LogLevel::Error,
            "This is an error log with a cause and an hint".to_string(),
            "This message is for this error log".to_string(),
        )
        .add_cause("This cause is for this error log".to_string())
        .add_hint("This hint is for this error log".to_string()),
        Log::info("This is another info log".to_string()),
    ]
}

#[test]
fn lib_test() {
    let mut logger = Logger::new();

    for log in sample_logs() {
        logger.add_log(log);
    }

    let report = logger.interpret(true);
    println!("{}", report.output);
    assert!(report.fatal);
}

#[test]
fn logger_test() {
    let mut logger = Logger::new();

    for log in sample_logs() {
        logger.add_log(log);
    }

    let report = logger.interpret(true);
    assert!(report.fatal);
    assert_eq!(
        report.output,
        "\x1b[1;34mInfo: This is an info log\x1b[0m\x1b[0m\n\
         \x1b[1;31mError: This is an error log\x1b[0m\n |\n | This message is for this error log\n\x1b[0m\n\
         \x1b[1;33mWarning: This is a warning log\x1b[0m\n |\n | This message is for this warning log\n\x1b[0m\n\
         \x1b[1;31mError: This is an error log with an hint\x1b[0m\n |\n | This message is for this error log\n |\n\x1b[1;34m | ? This hint is for this error log\n\x1b[0m\n\
         \x1b[1;31mError: This is an error log with a cause and an hint\x1b[0m\n--> This cause is for this error log\n |\n | This message is for this error log\n |\n\x1b[1;34m | ? This hint is for this error log\n\x1b[0m\n\
         \x1b[1;34mInfo: This is another info log\x1b[0m\x1b[0m\n"
    );
}

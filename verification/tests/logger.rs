use xrpl_packet_interceptor::logger::{execution_log_header, log_dir, log_file_path, log_line};

#[test]
fn log_paths() {
    assert_eq!(log_dir("2024-01-01_10-00-00"), "./logs/2024-01-01_10-00-00");
    assert_eq!(
        log_file_path("2024-01-01_10-00-00", "execution", "csv"),
        "./logs/2024-01-01_10-00-00/execution.csv"
    );
}

#[test]
fn log_lines() {
    assert_eq!(execution_log_header(), "time,sent_data,from_port,to_port,received_data,action");
    assert_eq!(log_line("2024-01-01 10:00:00.000", "Test message"), "2024-01-01 10:00:00.000,Test message");
}

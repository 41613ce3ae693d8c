use monazite::crash::InitError;
use monazite::net::retry_delay_ms;
use monazite::printing::sanitize_filename;

#[test]
fn retry_schedule_is_three_attempts() {
    assert_eq!(retry_delay_ms(0), Some(0));
    assert_eq!(retry_delay_ms(1), Some(50));
    assert_eq!(retry_delay_ms(2), Some(100));
    assert_eq!(retry_delay_ms(3), None);
    assert_eq!(retry_delay_ms(10), None);
}

#[test]
fn filenames_lose_separators_and_gain_pdf() {
    assert_eq!(sanitize_filename("a/b\\c"), "a_b_c.pdf");
    assert_eq!(sanitize_filename("report.pdf"), "report.pdf");
    assert_eq!(sanitize_filename(""), ".pdf");
}

#[test]
fn crash_init_error_describes_itself() {
    assert_eq!(InitError.message(), "init failed");
}

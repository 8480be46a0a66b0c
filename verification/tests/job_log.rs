use solver_pilot::job::{
    detect_job_error, detect_job_finished, format_duration, is_benchmark_file, parse_progress,
    tail_text,
};

#[test]
fn test_parse_progress() {
    let logs = "
[1/22] Config: N5_FF1_Tauto
  Grille: 5x5
[2/22] Config: N5_FF2_Tauto
  R\u{e9}solu en 1.2s
[3/22] Config: N7_FF1_Tauto
";
    assert_eq!(parse_progress(logs), Some((3, 22)));
}

#[test]
fn test_detect_finished() {
    let logs = "R\u{c9}SUM\u{c9} BENCHMARK\nTermin\u{e9} avec succ\u{e8}s";
    assert!(detect_job_finished(logs));

    let logs2 = "[5/10] En cours...";
    assert!(!detect_job_finished(logs2));
}

#[test]
fn test_format_duration() {
    assert_eq!(format_duration(45), "45s");
    assert_eq!(format_duration(125), "2m 5s");
    assert_eq!(format_duration(3725), "1h 2m");
}

#[test]
fn format_duration_at_the_edges() {
    assert_eq!(format_duration(0), "0s");
    assert_eq!(format_duration(59), "59s");
    assert_eq!(format_duration(60), "1m 0s");
    assert_eq!(format_duration(3599), "59m 59s");
    assert_eq!(format_duration(3600), "1h 0m");
    assert_eq!(format_duration(u64::MAX), "5124095576030431h 0m");
}

#[test]
fn progress_takes_the_last_token() {
    assert_eq!(parse_progress("[1/22]\n[2/22]\n[3/22]"), Some((3, 22)));
    assert_eq!(parse_progress("[1/22] [4/22]"), Some((4, 22)));
    assert_eq!(parse_progress("[7/9]\nno token here\n"), Some((7, 9)));
    assert_eq!(parse_progress("[7/9]\r\n[8/9]\r\n"), Some((8, 9)));
}

#[test]
fn progress_passes_over_what_is_no_token() {
    assert_eq!(parse_progress(""), None);
    assert_eq!(parse_progress("no brackets"), None);
    assert_eq!(parse_progress("[a/b]"), None);
    assert_eq!(parse_progress("[1/2"), None);
    assert_eq!(parse_progress("[12]"), None);
    assert_eq!(parse_progress("[3/10]\n[x/y]"), Some((3, 10)));
    assert_eq!(parse_progress("[3/10]\n[4/"), Some((3, 10)));
    assert_eq!(parse_progress("[+3/+10]"), Some((3, 10)));
    assert_eq!(parse_progress("[-3/10]"), None);
    assert_eq!(parse_progress("[ 3/10]"), None);
    assert_eq!(parse_progress("[4294967295/4294967295]"), Some((u32::MAX, u32::MAX)));
    assert_eq!(parse_progress("[4294967296/5]"), None);
    assert_eq!(parse_progress("[1/2/3]"), None);
    assert_eq!(parse_progress("[[5/6]"), Some((5, 6)));
}

#[test]
fn finish_marks() {
    assert!(detect_job_finished("x\nR\u{e9}sultats dans: out/"));
    assert!(detect_job_finished("wrote benchmark_results.csv"));
    assert!(detect_job_finished("Total: 12"));
    assert!(!detect_job_finished(""));
    assert!(!detect_job_finished("total: 12"));
}

#[test]
fn error_is_the_last_five_lines() {
    let logs = "l1\nl2\nTraceback (most recent call last):\nl4\nl5\nl6\nValueError: bad\n";
    assert_eq!(
        detect_job_error(logs),
        Some("Traceback (most recent call last):\nl4\nl5\nl6\nValueError: bad".to_string())
    );
    assert_eq!(detect_job_error("a\nError: x"), Some("a\nError: x".to_string()));
    assert_eq!(detect_job_error("Exception: y"), Some("Exception: y".to_string()));
    assert_eq!(detect_job_error("all good\n[3/4]"), None);
    assert_eq!(detect_job_error(""), None);
}

#[test]
fn tail_of_a_log() {
    assert_eq!(tail_text("a\nb\nc", 2), "b\nc");
    assert_eq!(tail_text("a\r\nb\r\n", 5), "a\nb");
    assert_eq!(tail_text("a\nb", 0), "");
    assert_eq!(tail_text("", 3), "");
}

#[test]
fn benchmark_file_names() {
    assert!(is_benchmark_file("benchmark_a.py"));
    assert!(is_benchmark_file("benchmark_a.PY"));
    assert!(is_benchmark_file("benchmark_.py"));
    assert!(!is_benchmark_file("benchmark_a.pyc"));
    assert!(!is_benchmark_file("bench_a.py"));
    assert!(!is_benchmark_file("benchmark_py"));
}

use abc_game_engine::crash_logs::is_crash_log;
use abc_game_engine::crash_logs::is_empty_crash_log;
use abc_game_engine::crash_logs::old_crash_logs;
use abc_game_engine::crash_logs::MAX_LOG_COUNT;

fn log_name(n: usize) -> Vec<u8> {
    format!("error-2024-01-01-00-00-{:02}.log", n).into_bytes()
}

#[test]
fn test_crash_log_names() {
    assert!(is_crash_log(b"error-2024-05-01-12-00-00.log"));
    assert!(is_crash_log(b"error-.log"));
    assert!(!is_crash_log(b"error.log"));
    assert!(!is_crash_log(b"my-error-1.log"));
    assert!(!is_crash_log(b"error-1.txt"));
    assert!(!is_crash_log(b"error-1.log.bak"));
    assert!(!is_crash_log(b""));
}

#[test]
fn test_empty_crash_logs() {
    assert!(is_empty_crash_log(b"error-1.log", 0));
    assert!(!is_empty_crash_log(b"error-1.log", 12));
    assert!(!is_empty_crash_log(b"notes.txt", 0));
}

#[test]
fn test_few_logs_are_all_kept() {
    let names: Vec<Vec<u8>> = (0..MAX_LOG_COUNT).map(log_name).collect();
    assert!(old_crash_logs(names).is_empty());
    assert!(old_crash_logs(Vec::new()).is_empty());
}

#[test]
fn test_oldest_logs_are_removed() {
    // Given out of order, with files that are no crash logs among them.
    let mut names: Vec<Vec<u8>> = Vec::new();
    for n in (0..25).rev() {
        names.push(log_name(n));
        if n % 5 == 0 {
            names.push(b"readme.txt".to_vec());
        }
    }
    let old = old_crash_logs(names);
    let expected: Vec<Vec<u8>> = (0..5).map(log_name).collect();
    assert_eq!(old, expected);
}

#[test]
fn test_shorter_name_comes_first() {
    let mut names: Vec<Vec<u8>> = (0..MAX_LOG_COUNT).map(|n| format!("error-b{:02}.log", n).into_bytes()).collect();
    names.push(b"error-a.log".to_vec());
    names.push(b"error-a1.log".to_vec());
    let old = old_crash_logs(names);
    assert_eq!(old, vec![b"error-a.log".to_vec(), b"error-a1.log".to_vec()]);
}

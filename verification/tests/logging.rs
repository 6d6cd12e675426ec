use vector_screen::logging::{rotated_path, should_rotate, MAX_LOG_SIZE};

#[test]
fn logging_rotation_rule() {
    assert_eq!(MAX_LOG_SIZE, 10 * 1024 * 1024);
    assert!(!should_rotate(MAX_LOG_SIZE));
    assert!(should_rotate(MAX_LOG_SIZE + 1));
    assert_eq!(rotated_path("/tmp/vector-screen.log"), "/tmp/vector-screen.log.1");
}

use aifo_coder::errors::{
    display_for_fork_error, exit_code_for_fork_error, exit_code_for_io_error,
    exit_code_for_toolchain_error, ForkError, IoErrorInfo, IoErrorKind, ToolchainError,
};

fn info(kind: IoErrorKind, message: &str) -> IoErrorInfo {
    IoErrorInfo { kind, message: message.to_string() }
}

#[test]
fn io_error_kinds_map_to_exit_codes() {
    assert_eq!(exit_code_for_io_error(&info(IoErrorKind::NotFound, "missing")), 127);
    assert_eq!(exit_code_for_io_error(&info(IoErrorKind::Other, "denied")), 1);
}

#[test]
fn wrapped_io_errors_keep_kind_and_message() {
    let e = ForkError::from_io(info(IoErrorKind::NotFound, "no such file"));
    assert_eq!(exit_code_for_fork_error(&e), 127);
    assert_eq!(display_for_fork_error(&e), "no such file");
    let e = ForkError::from_io(info(IoErrorKind::Other, "permission denied"));
    assert_eq!(exit_code_for_fork_error(&e), 1);
    assert_eq!(display_for_fork_error(&e), "permission denied");
    let t = ToolchainError::from_io(info(IoErrorKind::NotFound, "docker"));
    assert_eq!(exit_code_for_toolchain_error(&t), 127);
    let t = ToolchainError::Message("boom".to_string());
    assert_eq!(exit_code_for_toolchain_error(&t), 1);
    assert_eq!(display_for_fork_error(&ForkError::Message("m".to_string())), "m");
}

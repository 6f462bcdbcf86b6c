use omnihook::OmnihookError;

#[test]
fn error_descriptions() {
    assert_eq!(OmnihookError::ConfigError("x".to_string()).to_string(), "Configuration error: x");
    assert_eq!(OmnihookError::NotifyFailed("x".to_string()).to_string(), "Notification failed: x");
    assert_eq!(OmnihookError::InternalError("x".to_string()).to_string(), "Internal error: x");
    assert_eq!(OmnihookError::SigningError("x".to_string()).to_string(), "Signing error: x");
    assert_eq!(
        OmnihookError::SerializationError("x".to_string()).to_string(),
        "Serialization error: x"
    );
}

#[test]
fn request_error_description() {
    let inner = std::io::Error::new(std::io::ErrorKind::Other, "connection refused");
    let e = OmnihookError::RequestError(reqwest_middleware::Error::middleware(inner));
    assert_eq!(e.to_string(), "Request error: connection refused");
}

use agw::error::{AgwError, ErrorKind};

#[test]
fn every_kind_has_its_prefix() {
    let cases = [
        (
            AgwError::Connection("refused".to_string()),
            ErrorKind::Connection,
            "Connection error: refused",
        ),
        (
            AgwError::Authentication("denied".to_string()),
            ErrorKind::Authentication,
            "Authentication failed: denied",
        ),
        (
            AgwError::InvalidConfig("bad".to_string()),
            ErrorKind::InvalidConfig,
            "Invalid configuration: bad",
        ),
        (
            AgwError::RespProtocol("odd".to_string()),
            ErrorKind::RespProtocol,
            "RESP protocol error: odd",
        ),
        (
            AgwError::Worker("stuck".to_string()),
            ErrorKind::Worker,
            "Worker error: stuck",
        ),
        (
            AgwError::Executor("spawn".to_string()),
            ErrorKind::Executor,
            "Executor error: spawn",
        ),
        (
            AgwError::Io("closed".to_string()),
            ErrorKind::Io,
            "IO error: closed",
        ),
        (
            AgwError::Redis("moved".to_string()),
            ErrorKind::Redis,
            "Redis error: moved",
        ),
    ];
    for (error, kind, shown) in cases {
        assert_eq!(error.kind(), kind);
        assert_eq!(error.to_string(), shown);
        assert!(shown.ends_with(error.message()));
    }
}

#[test]
fn message_is_the_detail_alone() {
    assert_eq!(AgwError::Worker(String::new()).message(), "");
    assert_eq!(AgwError::Worker(String::new()).to_string(), "Worker error: ");
    assert_eq!(AgwError::Io("a: b".to_string()).message(), "a: b");
}

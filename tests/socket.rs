use vyasoai_daemon::socket::{socket_dir, socket_path, UnixFlavor};

#[test]
fn macos_socket_lives_under_application_support() {
    assert_eq!(
        socket_path(UnixFlavor::MacOs, Some("/Users/ann"), None),
        "/Users/ann/Library/Application Support/VyasoAI/vyasoai.sock"
    );
    assert_eq!(
        socket_dir(UnixFlavor::MacOs, None, None),
        "./Library/Application Support/VyasoAI"
    );
    assert_eq!(
        socket_path(UnixFlavor::MacOs, Some("/Users/ann/"), None),
        "/Users/ann/Library/Application Support/VyasoAI/vyasoai.sock"
    );
}

#[test]
fn linux_socket_lives_in_the_runtime_dir() {
    assert_eq!(socket_path(UnixFlavor::Linux, Some("/home/u"), Some("/run/user/1000")), "/run/user/1000/vyasoai.sock");
    assert_eq!(socket_path(UnixFlavor::Linux, None, None), "/tmp/vyasoai.sock");
}

#[test]
fn other_unix_socket_lives_in_tmp() {
    assert_eq!(socket_path(UnixFlavor::Other, Some("/home/u"), Some("/run")), "/tmp/vyasoai.sock");
}

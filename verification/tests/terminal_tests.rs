use trycli::terminal::{
    resize_message, classify_input, TerminalInput, read_menu_choice, provision_plan, auto_type_command,
    builder_container_name, viewer_container_name, shell_env, SpawnViewQuery,
};

#[test]
fn resize_round_trip() {
    for (c, r) in [(80u16, 24u16), (0, 0), (65535, 1), (120, 40)] {
        let m = resize_message(c, r);
        assert_eq!(m, format!("RESIZE:{}:{}", c, r));
        assert!(matches!(classify_input(&m), TerminalInput::Resize(a, b) if a == c && b == r));
    }
}

#[test]
fn terminal_input_kinds() {
    assert!(matches!(classify_input("ls -la\n"), TerminalInput::Forward));
    assert!(matches!(classify_input("RESIZE:80"), TerminalInput::Ignore));
    assert!(matches!(classify_input("RESIZE:80:24:1"), TerminalInput::Ignore));
    assert!(matches!(classify_input("RESIZE:80:x"), TerminalInput::Ignore));
    assert!(matches!(classify_input("RESIZE:70000:24"), TerminalInput::Ignore));
    assert!(matches!(classify_input("RESIZE:+80:24"), TerminalInput::Resize(80, 24)));
    assert!(matches!(classify_input("resize:80:24"), TerminalInput::Forward));
}

#[test]
fn menu_answers() {
    assert_eq!(read_menu_choice(" 1\r\n"), Some(1));
    assert_eq!(read_menu_choice("2"), Some(2));
    assert_eq!(read_menu_choice("3 "), Some(3));
    assert_eq!(read_menu_choice("4"), None);
    assert_eq!(read_menu_choice("12"), None);
    assert_eq!(read_menu_choice(""), None);
}

#[test]
fn provisioning_plans() {
    assert_eq!(provision_plan(2, 1), ("alpine:latest", "apk add --no-cache bash", "/bin/bash"));
    assert_eq!(provision_plan(2, 3), ("alpine:latest", "apk add --no-cache fish", "/usr/bin/fish"));
    assert_eq!(
        provision_plan(1, 2),
        ("ubuntu:22.04", "export DEBIAN_FRONTEND=noninteractive; apt-get update && apt-get install -y zsh", "/usr/bin/zsh")
    );
    assert_eq!(
        provision_plan(3, 3),
        ("debian:bookworm-slim", "export DEBIAN_FRONTEND=noninteractive; apt-get update && apt-get install -y fish", "/usr/bin/fish")
    );
    assert_eq!(provision_plan(1, 1), ("ubuntu:22.04", "true", "/bin/bash"));
    assert_eq!(provision_plan(9, 9), ("debian:bookworm-slim", "true", "/bin/bash"));
}

#[test]
fn setup_command_text() {
    let cmd = auto_type_command("apk add --no-cache zsh", "/bin/zsh");
    assert!(cmd.starts_with("stty -echo; mkdir -p /etc/apt/apt.conf.d && "));
    assert!(cmd.ends_with("apk add --no-cache zsh && printf '\\033[2J\\033[3J\\033[H' && exec /bin/zsh\n"));
}

#[test]
fn container_names_and_env() {
    assert_eq!(builder_container_name("ab12"), "trycli-studio-session-ab12");
    assert_eq!(viewer_container_name("ab12"), "trycli-studio-viewer-ab12");
    assert_eq!(shell_env("/bin/bash"), "SHELL=/bin/bash");
}

#[test]
fn spawn_query_names_viewed_project() {
    let q = SpawnViewQuery { username: Some("alice".to_string()), slug: Some("demo".to_string()) };
    assert_eq!(q.viewed_project(), Some(("alice".to_string(), "demo".to_string())));
    let q = SpawnViewQuery { username: Some("alice".to_string()), slug: None };
    assert_eq!(q.viewed_project(), None);
}

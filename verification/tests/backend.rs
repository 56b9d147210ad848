use aerowm::backend::{backend_arg, choose_backend, Backend};

fn args(v: &[&str]) -> Vec<String> {
    v.iter().map(|s| s.to_string()).collect()
}

#[test]
fn requested_backend_wins() {
    assert_eq!(choose_backend(Some("udev"), true), Backend::Udev);
    assert_eq!(choose_backend(Some("winit"), false), Backend::Winit);
}

#[test]
fn default_backend_depends_on_nesting() {
    assert_eq!(choose_backend(None, true), Backend::Winit);
    assert_eq!(choose_backend(None, false), Backend::Udev);
    assert_eq!(choose_backend(Some("drm"), false), Backend::Udev);
    assert_eq!(choose_backend(Some("drm"), true), Backend::Winit);
}

#[test]
fn backend_flag_value() {
    assert_eq!(backend_arg(&args(&["aerowm", "--backend", "winit"])), Some("winit".to_string()));
    assert_eq!(backend_arg(&args(&["aerowm", "--backend"])), None);
    assert_eq!(backend_arg(&args(&["aerowm"])), None);
    assert_eq!(
        backend_arg(&args(&["aerowm", "--backend", "udev", "--backend", "winit"])),
        Some("udev".to_string())
    );
    assert_eq!(backend_arg(&args(&["--backend", "--backend", "x"])), Some("--backend".to_string()));
}

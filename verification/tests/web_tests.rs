use oxidact::web::{
    clear_web_input_values, fallback_body_style, login_message, set_web_input_value, signup_message, tab_link_style,
    web_action, web_input_value, WebAction, WebInputValues, WebPreviewOptions, WebPreviewTab,
};

#[test]
fn actions() {
    assert_eq!(web_action("navigate:cadastro"), WebAction::Navigate("?screen=cadastro".to_string()));
    assert_eq!(web_action("navigate:"), WebAction::Navigate("?screen=".to_string()));
    assert_eq!(web_action("handle_login"), WebAction::Login);
    assert_eq!(web_action("handle_signup"), WebAction::Signup);
    assert_eq!(web_action("handle_logout"), WebAction::Ignore);
}

#[test]
fn console_messages() {
    assert_eq!(login_message("a@b.c", "segredo"), "handle_login => email=a@b.c, senha_chars=7");
    assert_eq!(login_message("", ""), "handle_login => email=, senha_chars=0");
    assert_eq!(signup_message("Ana", "a@b.c", "çãé123456789"), "handle_signup => nome=Ana, email=a@b.c, senha_chars=12");
}

#[test]
fn tab_and_fallback_styles() {
    let tab = WebPreviewTab { label: "L", href: "?screen=login", active: true, active_color: "#2563eb" };
    assert_eq!(
        tab_link_style(&tab),
        "text-decoration:none;color:#fff;background:#2563eb;padding:8px 12px;border-radius:999px;font-weight:600;font-size:13px;"
    );
    let idle = WebPreviewTab { active: false, ..tab };
    assert!(tab_link_style(&idle).contains("background:#1f2937;"));
    let tabs = [idle];
    let opts = WebPreviewOptions { tabs: &tabs, show_tree: true };
    assert_eq!(opts.tabs.len(), 1);
    assert_eq!(fallback_body_style("flex: 1; bg: #0b1220"), "margin:0;background:#0b1220;color:#e5e7eb;font-family:monospace;");
    assert_eq!(fallback_body_style("flex: 1"), "margin:0;background:#111111;color:#e5e7eb;font-family:monospace;");
}

#[test]
fn input_values_store() {
    let mut v = WebInputValues::new();
    assert_eq!(web_input_value(&v, "k"), None);
    set_web_input_value(&mut v, "k", "1");
    set_web_input_value(&mut v, "j", "2");
    assert_eq!(web_input_value(&v, "k").as_deref(), Some("1"));
    set_web_input_value(&mut v, "k", "3");
    assert_eq!(web_input_value(&v, "k").as_deref(), Some("3"));
    assert_eq!(web_input_value(&v, "j").as_deref(), Some("2"));
    clear_web_input_values(&mut v);
    assert_eq!(web_input_value(&v, "k"), None);
    assert_eq!(web_input_value(&v, "j"), None);
}

#[test]
fn latest_set_or_clear_decides_what_is_read() {
    let mut values = WebInputValues::new();
    set_web_input_value(&mut values, "a", "1");
    set_web_input_value(&mut values, "b", "2");
    set_web_input_value(&mut values, "a", "3");
    assert_eq!(web_input_value(&values, "a"), Some("3".to_string()));
    assert_eq!(web_input_value(&values, "b"), Some("2".to_string()));
    clear_web_input_values(&mut values);
    set_web_input_value(&mut values, "a", "4");
    assert_eq!(web_input_value(&values, "a"), Some("4".to_string()));
    assert_eq!(web_input_value(&values, "b"), None);
}

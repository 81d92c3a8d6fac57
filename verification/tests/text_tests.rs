use nowhere_actors::command::{parse_command, Command};
use nowhere_actors::common::{
    default_ollama_endpoint, default_openai_endpoint, LogConfig, LogFormat,
};
use nowhere_actors::stealth::{
    build_stealth_arguments, StealthProfile, StealthScripts, UserAgentManager, CANVAS_EVASIONS,
    CORE_EVASIONS, WEBGL_EVASIONS,
};
use nowhere_actors::text::{join_comma, u32_string};
use nowhere_actors::web::{build_pubdate_finder_html_prompt, snip_body, PUBDATE_PROMPT_HEAD};

#[test]
fn commands_parse_as_documented() {
    assert!(matches!(parse_command("/claim"), Command::Claim(None)));
    assert!(matches!(parse_command("/claim   "), Command::Claim(None)));
    match parse_command("/claim -") {
        Command::Claim(Some(text)) => assert_eq!(text, ""),
        _ => panic!("a lone dash clears the claim"),
    }
    match parse_command("/claim the sky is green") {
        Command::Claim(Some(text)) => assert_eq!(text, "the sky is green"),
        _ => panic!("claim text must be kept"),
    }
    match parse_command("  /claim   padded text  ") {
        Command::Claim(Some(text)) => assert_eq!(text, "padded text"),
        _ => panic!("claim text must be trimmed"),
    }
    assert!(matches!(parse_command("/help"), Command::Help));
    assert!(matches!(parse_command("/quit"), Command::Quit));
    assert!(matches!(parse_command("/exit"), Command::Quit));
}

#[test]
fn non_commands_come_back_trimmed() {
    match parse_command("  hello there  ") {
        Command::Unknown(u) => assert_eq!(u, "hello there"),
        _ => panic!("plain text is no command"),
    }
    match parse_command("/claimx") {
        Command::Unknown(u) => assert_eq!(u, "/claimx"),
        _ => panic!("an unknown verb is unknown even with a known prefix"),
    }
    match parse_command("   ") {
        Command::Unknown(u) => assert_eq!(u, ""),
        _ => panic!("an all-space line is no command"),
    }
}

#[test]
fn decimal_rendering_is_exact() {
    assert_eq!(u32_string(0), "0");
    assert_eq!(u32_string(7), "7");
    assert_eq!(u32_string(42), "42");
    assert_eq!(u32_string(1080), "1080");
    assert_eq!(u32_string(u32::MAX), "4294967295");
}

#[test]
fn join_comma_separates_neighbours() {
    assert_eq!(join_comma(&vec![]), "");
    assert_eq!(join_comma(&vec!["en-US".to_string()]), "en-US");
    assert_eq!(join_comma(&vec!["en-US".to_string(), "en".to_string()]), "en-US,en");
}

#[test]
fn stealth_arguments_follow_the_profile() {
    let mut manager = UserAgentManager::new();
    let profile = manager.get_session_profile(&StealthProfile::Balanced);
    let args = build_stealth_arguments(&StealthProfile::Balanced, profile);
    assert_eq!(args.len(), 11);
    assert_eq!(args[0], "--disable-blink-features=AutomationControlled");
    assert_eq!(args[7], "--disable-web-security");
    assert!(args[8].starts_with("--user-agent=Mozilla/5.0"));
    assert!(args[9] == "--window-size=1920,1080" || args[9] == "--window-size=1440,900");
    assert_eq!(args[10], "--lang=en-US,en");

    let max_args = build_stealth_arguments(&StealthProfile::Maximum, profile);
    assert_eq!(max_args.len(), 12);
    assert_eq!(max_args[11], "--disable-gpu");
}

#[test]
fn session_profile_is_stable_across_calls() {
    let mut manager = UserAgentManager::new();
    let first_platform = manager.get_session_profile(&StealthProfile::Balanced).platform.clone();
    assert!(first_platform == "Win32" || first_platform == "MacIntel");
    for _ in 0..10 {
        let again = manager.get_session_profile(&StealthProfile::Maximum).platform.clone();
        assert_eq!(again, first_platform);
    }
}

#[test]
fn evasion_scripts_are_the_published_constants() {
    assert_eq!(StealthScripts::get_core_evasions(), CORE_EVASIONS);
    assert_eq!(StealthScripts::get_webgl_evasions(), WEBGL_EVASIONS);
    assert_eq!(StealthScripts::get_canvas_evasions(), CANVAS_EVASIONS);
    assert!(CORE_EVASIONS.contains("webdriver"));
    assert!(WEBGL_EVASIONS.contains("WebGLRenderingContext"));
    assert!(CANVAS_EVASIONS.contains("toDataURL"));
}

#[test]
fn default_endpoints_are_fixed() {
    assert_eq!(default_openai_endpoint(), "https://api.openai.com/v1");
    assert_eq!(default_ollama_endpoint(), "http://localhost:11434");
}

#[test]
fn log_config_defaults_are_fixed() {
    let cfg = LogConfig::default();
    assert_eq!(cfg.app_name, "nowhere");
    assert!(cfg.log_dir.is_none());
    assert!(!cfg.emit_stderr);
    assert!(matches!(cfg.format, LogFormat::Text));
    assert_eq!(cfg.default_filter, "info");
}

#[test]
fn short_bodies_pass_through_snipping() {
    assert_eq!(snip_body(b"hello"), "hello");
    assert_eq!(snip_body(b""), "");
}

#[test]
fn long_bodies_are_cut_with_an_ellipsis() {
    let body = vec![b'x'; 600];
    let snipped = snip_body(&body);
    assert_eq!(snipped.len(), 503);
    assert!(snipped.ends_with("..."));
    assert!(snipped.starts_with("xxx"));
}

#[test]
fn invalid_bytes_are_replaced_not_dropped() {
    let snipped = snip_body(&[b'a', 0xFF, b'b']);
    assert_eq!(snipped, "a\u{FFFD}b");
}

#[test]
fn pubdate_prompt_wraps_the_page_text() {
    let prompt = build_pubdate_finder_html_prompt("<html>page</html>");
    assert_eq!(prompt, format!("{}<html>page</html>", PUBDATE_PROMPT_HEAD));
    assert!(prompt.contains("published_at"));
}

use upctl_svc::config::{
    agent_memory_dir, claude_prompt_prefix, data_dir, gitea_api_base, gitea_auth_header, jwt_key,
    memory_dir_file, port, prompt_prefix_file, set_agent_memory_dir, set_claude_prompt_prefix,
};

const DEFAULT_PREFIX: &str = "不要进入plan mode，直接干活\n\n";

#[test]
fn the_port_has_a_default() {
    assert_eq!(port(None), 3005);
    assert_eq!(port(Some("8080")), 8080);
    assert_eq!(port(Some("+8080")), 8080);
    assert_eq!(port(Some("0")), 0);
    assert_eq!(port(Some("")), 3005);
    assert_eq!(port(Some("70000")), 3005);
    assert_eq!(port(Some("http")), 3005);
}

#[test]
fn addresses_and_directories_have_defaults() {
    assert_eq!(gitea_api_base(None), "https://ci.moicen.com/api/v1");
    assert_eq!(gitea_api_base(Some("http://g".to_string())), "http://g");
    assert_eq!(gitea_api_base(Some(String::new())), "");
    assert_eq!(data_dir(None), "./data");
    assert_eq!(data_dir(Some("/srv".to_string())), "/srv");
}

#[test]
fn secrets_are_passed_on() {
    assert_eq!(gitea_auth_header(Some("token t".to_string())), "token t");
    assert_eq!(jwt_key(Some("k提".to_string())), "k提".as_bytes().to_vec());
}

#[test]
fn the_stored_prefix_comes_first() {
    let var = || Some("from env".to_string());
    assert_eq!(claude_prompt_prefix(Some(" be brief \n"), var()), "be brief\n\n");
    assert_eq!(claude_prompt_prefix(Some(" \n"), var()), "from env");
    assert_eq!(claude_prompt_prefix(None, var()), "from env");
    assert_eq!(claude_prompt_prefix(None, None), DEFAULT_PREFIX);
    assert_eq!(claude_prompt_prefix(Some(""), None), DEFAULT_PREFIX);
}

#[test]
fn a_prefix_is_stored_trimmed() {
    let store = set_claude_prompt_prefix("\n be brief ", None);
    assert_eq!(store.content, "be brief");
    assert!(!store.remove);
    assert_eq!(store.in_use, "be brief\n\n");
}

#[test]
fn a_blank_prefix_clears_what_is_stored() {
    let store = set_claude_prompt_prefix(" \t", None);
    assert_eq!(store.content, "");
    assert!(store.remove);
    assert_eq!(store.in_use, DEFAULT_PREFIX);
    let store = set_claude_prompt_prefix("", Some("from env".to_string()));
    assert!(store.remove);
    assert_eq!(store.in_use, "from env");
}

#[test]
fn the_stored_memory_dir_comes_first() {
    let var = || Some("/env".to_string());
    assert_eq!(agent_memory_dir(Some(" /mem\n"), var()), "/mem");
    assert_eq!(agent_memory_dir(Some("  "), var()), "/env");
    assert_eq!(agent_memory_dir(None, var()), "/env");
    assert_eq!(agent_memory_dir(None, None), "");
}

#[test]
fn a_memory_dir_is_stored_trimmed() {
    let store = set_agent_memory_dir(" /mem ", Some("/env".to_string()));
    assert_eq!((store.content.as_str(), store.remove, store.in_use.as_str()), ("/mem", false, "/mem"));
    let store = set_agent_memory_dir(" ", Some("/env".to_string()));
    assert_eq!((store.content.as_str(), store.remove, store.in_use.as_str()), ("", true, "/env"));
    let store = set_agent_memory_dir("", None);
    assert_eq!((store.content.as_str(), store.remove, store.in_use.as_str()), ("", true, ""));
}

#[test]
fn each_setting_has_its_file() {
    assert_eq!(prompt_prefix_file(), "prompt_prefix.txt");
    assert_eq!(memory_dir_file(), "memory_dir.txt");
    for text in ["", " a "] {
        assert_eq!(set_claude_prompt_prefix(text, None).file, "prompt_prefix.txt");
        assert_eq!(set_agent_memory_dir(text, None).file, "memory_dir.txt");
    }
}

#[test]
fn what_was_stored_is_in_use() {
    for text in ["", "  ", " a ", "a\n\nb", "\u{3000}提\n"] {
        for var in [None, Some("env".to_string())] {
            let prefix = set_claude_prompt_prefix(text, var.clone());
            let kept = Some(prefix.content.as_str());
            assert_eq!(claude_prompt_prefix(kept, var.clone()), prefix.in_use);
            if prefix.remove {
                assert_eq!(claude_prompt_prefix(None, var.clone()), prefix.in_use);
            }
            let dir = set_agent_memory_dir(text, var.clone());
            let kept = Some(dir.content.as_str());
            assert_eq!(agent_memory_dir(kept, var.clone()), dir.in_use);
            if dir.remove {
                assert_eq!(agent_memory_dir(None, var), dir.in_use);
            }
        }
    }
}

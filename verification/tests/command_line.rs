use nota::cli::server::{
    config_error, created_line, onebot_persona, persona_listing, persona_name, require_personas,
};
use nota::cli::wizard::{
    default_model, default_provider, default_url, default_ws_url, id_list_text, is_maskable,
    keepable,
    kept_key, key_prompt, key_question, key_to_keep, mask_key, offered_model, onebot_from,
    parse_id_list, prompt_for_key, provider_url, summary, token_question, wizard_defaults,
    wizard_result, Config, Echo, Entered, Key, MaskedInput, Provider, RULE,
};
use nota::domain::agent::{find_tool, AgentRunner, AgentStep};
use nota::domain::llm::{
    build_tool_defs, escape_json, LlmItem, LlmResponse, MessageRole, ToolCall,
};
use nota::domain::tool::{DeclaredTool, PropertyDef, Tool, ToolParams, ToolRegistry};
use nota::number::{i64_text, parse_i64, u64_text};
use nota::onebot::config::{lists, OnebotConfig};
use nota::text::{comes_before, join, replace, split_once, starts_with, trimmed};

fn names(all: &[&str]) -> Vec<String> {
    all.iter().map(|n| n.to_string()).collect()
}

fn config(onebot: Option<OnebotConfig>) -> Config {
    Config {
        api_url: "https://a".to_string(),
        api_key: "key".to_string(),
        model: "m".to_string(),
        web_search: true,
        onebot,
    }
}

#[test]
fn id_lists_round_trip() {
    assert_eq!(parse_id_list("1, 2\t3\n-4,,x, +5"), vec![1, 2, 3, -4, 5]);
    assert!(parse_id_list("").is_empty());
    assert!(parse_id_list("9223372036854775808").is_empty());
    let ids = vec![i64::MIN, -1, 0, 42, i64::MAX];
    assert_eq!(parse_id_list(&id_list_text(&ids)), ids);
    assert_eq!(id_list_text(&vec![1, 2]), "1,2");
    assert_eq!(id_list_text(&vec![]), "");
}

#[test]
fn keys_are_masked() {
    assert_eq!(mask_key(""), "");
    assert_eq!(mask_key("12345678"), "********");
    assert_eq!(mask_key("123456789"), "1234****6789");
    assert_eq!(mask_key("sk-abcdefghijkl"), "sk-a****ijkl");
    assert!(is_maskable("sk-abcdefghijkl") && is_maskable("é") && is_maskable("abcdé6789"));
    assert!(!is_maskable("abcé56789") && !is_maskable("12345é789"));
    assert_eq!(key_question("API Key", Some("1234")), ("API Key [current: ****]".to_string(), true));
    assert_eq!(
        key_question("API Key", Some("sk-abcdefghijkl")).0,
        "API Key [current: sk-a****ijkl]"
    );
    assert_eq!(key_question("API Key", None), ("API Key".to_string(), false));
    assert_eq!(keepable(Some(String::new())), None);
    assert_eq!(keepable(Some("k".to_string())).as_deref(), Some("k"));
    assert_eq!(prompt_for_key(Some("k".to_string()), String::new()), "k");
    assert_eq!(prompt_for_key(Some("k".to_string()), "n".to_string()), "n");
    assert_eq!(prompt_for_key(None, String::new()), "");
}

#[test]
fn masked_input_shows_stars_only() {
    let mut input = MaskedInput::new();
    assert_eq!(input.press(Key::Backspace), Echo::Nothing);
    assert!(matches!(
        input.complete("API Key", false),
        Entered::Reject { error } if error == "error: API Key cannot be empty"
    ));
    assert!(matches!(
        input.complete("API Key", true),
        Entered::Accept { line, value } if line == "[empty]" && value.is_empty()
    ));
    assert_eq!(input.press(Key::Char('a')), Echo::Star);
    assert_eq!(input.press(Key::Char('密')), Echo::Star);
    assert_eq!(input.press(Key::Char('x')), Echo::Star);
    assert_eq!(input.press(Key::Backspace), Echo::Erase);
    assert_eq!(input.press(Key::Char('\t')), Echo::Nothing);
    assert_eq!(input.press(Key::Char('\x7f')), Echo::Nothing);
    assert_eq!(input.press(Key::Char('\x03')), Echo::Interrupt);
    assert_eq!(input.press(Key::Other), Echo::Nothing);
    assert_eq!(input.press(Key::Enter), Echo::Complete);
    assert_eq!(input.stars(), 2);
    assert!(matches!(
        input.complete("API Key", false),
        Entered::Accept { line, value } if line == "[hidden]" && value == "a密"
    ));
}

#[test]
fn defaults_come_from_the_existing_configuration() {
    let provider = |name: &str, url: Option<&str>| Provider {
        name: name.to_string(),
        url: url.map(str::to_string),
        default_model: None,
    };
    let providers = vec![provider("A", Some("https://a")), provider("B", Some("https://b"))];
    assert_eq!(default_provider(&providers, Some("https://b")), 1);
    assert_eq!(default_provider(&providers, Some("https://c")), 2);
    assert_eq!(default_provider(&providers, None), 2);
    assert_eq!(default_url(None), "https://api.openai.com/v1");
    assert_eq!(default_url(Some("u")), "u");
    assert_eq!(default_model(Some("x"), Some("y")), "x");
    assert_eq!(default_model(None, Some("y")), "y");
    assert_eq!(default_model(None, None), "gpt-4o");
    let existing = Some(config(None));
    assert_eq!(kept_key(&existing, "https://a").as_deref(), Some("key"));
    assert_eq!(kept_key(&existing, "https://b"), None);
    assert_eq!(kept_key(&None, "https://a"), None);
    assert_eq!(default_ws_url(&None), "ws://127.0.0.1:3001");
    let onebot = onebot_from(
        &None,
        "ws://x".to_string(),
        "t".to_string(),
        "bob".to_string(),
        "1,2",
        "3",
    );
    assert!(onebot.enabled);
    assert_eq!(onebot.mode, "ws");
    assert_eq!((onebot.access_token.as_str(), onebot.prefix.as_str()), ("t", ""));
    assert_eq!((onebot.friend_ids.clone(), onebot.group_ids.clone()), (vec![1, 2], vec![3]));
    assert!(lists(&onebot.friend_ids, 2));
    assert!(!lists(&onebot.friend_ids, 3));
    assert_eq!(default_ws_url(&Some(onebot)), "ws://x");
}

fn offered() -> Vec<Provider> {
    vec![
        Provider { name: "A".to_string(), url: Some("https://a".to_string()), default_model: None },
        Provider {
            name: "B".to_string(),
            url: Some("https://b".to_string()),
            default_model: Some("b-1".to_string()),
        },
    ]
}

fn full_config() -> Config {
    config(Some(OnebotConfig {
        enabled: true,
        mode: "ws".to_string(),
        ws_url: "ws://x".to_string(),
        access_token: "secret".to_string(),
        persona: "bob".to_string(),
        prefix: "/ai".to_string(),
        friend_ids: vec![1, -2],
        group_ids: vec![3],
    }))
}

#[test]
fn accepting_the_defaults_keeps_the_configuration() {
    let existing = Some(full_config());
    let defaults = wizard_defaults(&existing, &offered());
    assert_eq!(defaults.provider, 0);
    assert_eq!(defaults.friends, "1,-2");
    let kept = wizard_result(&existing, &offered(), defaults).unwrap();
    assert_eq!(format!("{kept:?}"), format!("{:?}", full_config()));

    let mut elsewhere = full_config();
    elsewhere.api_url = "https://c".to_string();
    let shown = format!("{elsewhere:?}");
    let existing = Some(elsewhere);
    let defaults = wizard_defaults(&existing, &offered());
    assert_eq!(defaults.provider, 2);
    let kept = wizard_result(&existing, &offered(), defaults).unwrap();
    assert_eq!(format!("{kept:?}"), shown);

    let mut off = full_config();
    off.onebot = Some(OnebotConfig::default());
    let existing = Some(off);
    let defaults = wizard_defaults(&existing, &offered());
    assert!(wizard_result(&existing, &offered(), defaults).unwrap().onebot.is_none());
}

#[test]
fn answers_replace_the_existing_values() {
    let existing = Some(full_config());
    let mut answers = wizard_defaults(&existing, &offered());
    answers.provider = 1;
    answers.api_key = "new".to_string();
    answers.model = offered_model(&existing, &offered(), 1);
    answers.access_token = "other".to_string();
    answers.groups = "7 8".to_string();
    let cfg = wizard_result(&existing, &offered(), answers).unwrap();
    assert_eq!((cfg.api_url.as_str(), cfg.api_key.as_str()), ("https://b", "new"));
    assert_eq!(cfg.model, "m");
    let onebot = cfg.onebot.unwrap();
    assert_eq!((onebot.access_token.as_str(), onebot.prefix.as_str()), ("other", "/ai"));
    assert_eq!(onebot.group_ids, vec![7, 8]);

    let mut answers = wizard_defaults(&existing, &offered());
    answers.save = false;
    assert_eq!(
        wizard_result(&existing, &offered(), answers).unwrap_err(),
        "Configuration cancelled by user"
    );
}

#[test]
fn wizards_begin_with_common_values() {
    let fresh = wizard_defaults(&None, &offered());
    assert_eq!(fresh.provider, 2);
    assert_eq!(fresh.api_url, "https://api.openai.com/v1");
    assert_eq!(fresh.model, "gpt-4o");
    assert!(fresh.web_search && !fresh.onebot && fresh.save);
    assert_eq!(fresh.ws_url, "ws://127.0.0.1:3001");
    assert_eq!(offered_model(&None, &offered(), 1), "b-1");
    assert_eq!(provider_url(&offered(), 1).as_deref(), Some("https://b"));
    assert_eq!(provider_url(&offered(), 2), None);
    assert_eq!(key_prompt(&offered(), 0), "A API Key");
    assert_eq!(key_prompt(&offered(), 2), "API Key");
    let existing = Some(full_config());
    assert_eq!(key_to_keep(&existing, &offered(), 0).as_deref(), Some("key"));
    assert_eq!(key_to_keep(&existing, &offered(), 1), None);
    assert_eq!(key_to_keep(&existing, &offered(), 2).as_deref(), Some("key"));
    assert_eq!(token_question(""), "OneBot access token (leave empty if none)");
    assert_eq!(token_question("secret"), "OneBot access token [current: ****]");
}

#[test]
fn summaries_hide_the_key() {
    let lines = summary(&config(None));
    assert_eq!(lines.len(), 9);
    assert_eq!(lines[0], RULE);
    assert_eq!(lines[4], "  API Key : ***");
    assert_eq!(lines[6], "  WebSearch: enabled");
    assert_eq!(lines[7], "  OneBot  : disabled");
    let onebot = onebot_from(&None, "ws://x".to_string(), String::new(), String::new(), "", "");
    let lines = summary(&config(Some(onebot)));
    assert_eq!(lines[7], "  OneBot  : enabled (ws -> ws://x)");
}

#[test]
fn servers_need_a_configuration_and_a_persona() {
    let err = config_error("no such file");
    assert!(err.contains("nota onboard"));
    assert!(err.contains("no such file"));
    assert!(require_personas(&names(&["bob"])).is_ok());
    assert!(require_personas(&vec![]).unwrap_err().starts_with("No personas found in ~/.nota/personas/."));
    assert_eq!(persona_listing(vec![]), names(&["No personas found."]));
    assert_eq!(persona_listing(names(&["b", "a"])), names(&["b", "a"]));
    assert_eq!(persona_name(" bob ").unwrap(), "bob");
    assert_eq!(persona_name("  ").unwrap_err(), "persona name cannot be empty");
    assert_eq!(created_line("bob"), "Persona 'bob' created");
}

#[test]
fn one_persona_answers_over_onebot() {
    let known = names(&["alice", "bob"]);
    let mut cfg = OnebotConfig::default();
    assert_eq!(onebot_persona(&cfg, &known).unwrap(), "alice");
    assert!(onebot_persona(&cfg, &vec![]).unwrap_err().contains("no persona exists"));
    cfg.persona = "bob".to_string();
    assert_eq!(onebot_persona(&cfg, &known).unwrap(), "bob");
    cfg.persona = "eve".to_string();
    assert!(onebot_persona(&cfg, &known).unwrap_err().contains("'eve' does not exist"));
    cfg.mode = "http".to_string();
    assert!(onebot_persona(&cfg, &known).unwrap_err().contains("'http' is not supported yet"));
}

// Model items and the agent loop ------------------------------------------

fn call(id: &str, name: &str) -> ToolCall {
    ToolCall { id: id.to_string(), name: name.to_string(), arguments: "{\"a\":1}".to_string() }
}

#[test]
fn items_are_shown_as_json() {
    let message = LlmItem::Message { role: MessageRole::User, content: "a\"b\\\n".to_string() };
    assert_eq!(message.raw_json(), "{\"role\":\"user\",\"content\":\"a\\\"b\\\\\\n\"}");
    let parsed: serde_json::Value = serde_json::from_str(&message.raw_json()).unwrap();
    assert_eq!(parsed["content"].as_str(), Some("a\"b\\\n"));
    assert_eq!(escape_json("plain"), "plain");
    assert_eq!(MessageRole::Assistant.as_str(), "assistant");
    for item in [
        LlmItem::FunctionCall(call("c", "f")),
        LlmItem::FunctionCallOutput { call_id: "c".to_string(), output: "o\t".to_string() },
    ] {
        let shown = item.raw_json();
        assert!(shown.contains('c'), "{shown}");
    }
}

#[test]
fn definitions_follow_the_registry() {
    let mut registry: ToolRegistry<DeclaredTool> = ToolRegistry::default();
    let params = ToolParams::none().taking("n", PropertyDef::integer("how many"));
    registry.register(DeclaredTool::new("b", "second", params)).unwrap();
    registry.register(DeclaredTool::new("a", "first", ToolParams::none())).unwrap();
    let defs = build_tool_defs(&registry);
    let shown: Vec<(&str, &str)> =
        defs.iter().map(|d| (d.name.as_str(), d.description.as_str())).collect();
    assert_eq!(shown, vec![("a", "first"), ("b", "second")]);
    assert_eq!(defs[1].parameters.properties[0].1.prop_type, "integer");
    assert_eq!(find_tool(&registry, &call("c", "a")).map(|t| t.name()), Ok("a"));
    let missing = find_tool(&registry, &call("c", "z"));
    assert!(missing.is_err());
}

fn says(content: Option<&str>, tool_calls: Vec<ToolCall>) -> LlmResponse {
    LlmResponse { content: content.map(str::to_string), tool_calls }
}

#[test]
fn agents_run_calls_and_return_what_is_new() {
    let start = vec![LlmItem::Message { role: MessageRole::User, content: "hi".to_string() }];
    let mut runner = AgentRunner::new(start);
    let step = runner.answered(says(None, vec![call("1", "f"), call("2", "g")]));
    assert!(matches!(step, AgentStep::Run(c) if c.id == "1"));
    assert!(matches!(runner.tool_done(Ok("x".to_string())), AgentStep::Run(c) if c.id == "2"));
    assert!(matches!(runner.tool_done(Err("bad".to_string())), AgentStep::Ask));
    let shown: Vec<String> = runner.conversation().iter().map(LlmItem::raw_json).collect();
    assert_eq!(shown.len(), 5);
    match runner.answered(says(Some("done"), vec![])) {
        AgentStep::Return(items) => {
            assert_eq!(items.len(), 5);
            assert!(matches!(&items[1], LlmItem::FunctionCallOutput { call_id, output }
                if call_id == "1" && output == "x"));
            assert!(matches!(&items[4], LlmItem::Message { role: MessageRole::Assistant, content }
                if content == "done"));
        }
        _ => panic!("expected the new items"),
    }
}

#[test]
fn agents_stop_after_too_many_rounds() {
    let mut runner = AgentRunner::new(vec![]);
    let mut rounds = 0;
    loop {
        rounds += 1;
        assert!(matches!(runner.answered(says(None, vec![call("1", "f")])), AgentStep::Run(_)));
        match runner.tool_done(Ok("x".to_string())) {
            AgentStep::Ask => {}
            AgentStep::Fail(_) => break,
            _ => panic!("unexpected step"),
        }
    }
    assert_eq!(rounds, 16);
}

// Texts and numbers -------------------------------------------------------

#[test]
fn integers_are_read_as_they_are_written() {
    for n in [0, 7, -7, i64::MAX, i64::MIN] {
        assert_eq!(i64_text(n), n.to_string());
        assert_eq!(parse_i64(&n.to_string()), Some(n));
    }
    assert_eq!(u64_text(u64::MAX), u64::MAX.to_string());
    for s in ["", "+", "-", "+7", "007", "-0", " 7", "7 ", "1e3", "9223372036854775808", "٣"] {
        assert_eq!(parse_i64(s), s.parse::<i64>().ok(), "{s}");
    }
}

#[test]
fn texts_behave_like_the_standard_ones() {
    for s in ["", "  a b \n", "\u{3000}x\u{85}", "\u{200b}"] {
        assert_eq!(trimmed(s), s.trim());
    }
    assert_eq!(replace("aaab", "aa", "b"), "aaab".replace("aa", "b"));
    assert_eq!(split_once("a:b:c", ':'), Some(("a".to_string(), "b:c".to_string())));
    assert_eq!(split_once("abc", ':'), None);
    assert_eq!(join(&names(&["a", "b"]), ", "), "a, b");
    assert!(starts_with("héllo", "hé"));
    for (a, b) in [("a", "b"), ("a", "aa"), ("é", "z"), ("", "a"), ("a", "a")] {
        assert_eq!(comes_before(a, b), a < b, "{a} {b}");
    }
}

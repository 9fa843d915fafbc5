use va_voice::activator::{
    contains_stop_word, decide, find_activation_word, normalize, parse_word_list, Activation,
    ActivatorConfig, ConfigError, Setting,
};

fn words(list: &[&str]) -> Vec<String> {
    list.iter().map(|w| w.to_string()).collect()
}

#[test]
fn forwards_command_for_any_activation_word() {
    let outcome = decide("assistant play music", &words(&["va", "assistant"]), &words(&["stop", "cancel"]));
    assert_eq!(outcome.status(), "accepted");
    let forwarded: Vec<String> = outcome.command().into_iter().collect();
    assert_eq!(forwarded.as_slice(), &["play music"]);
}

#[test]
fn ignores_empty_command_after_activation_word() {
    let outcome = decide("va", &words(&["va", "assistant"]), &words(&["stop", "cancel"]));
    assert_eq!(outcome.status(), "ignored");
    assert!(outcome.command().is_none());
}

#[test]
fn stops_on_stop_word_and_does_not_forward() {
    let outcome = decide("va cancel the alarm", &words(&["va", "assistant"]), &words(&["stop", "cancel"]));
    assert_eq!(outcome.status(), "stopped");
    assert!(outcome.command().is_none());
    assert!(matches!(outcome, Activation::Stopped));
}

#[test]
fn normalize_trims_and_lowercases() {
    assert_eq!(normalize("  Hello World \n"), "hello world");
    assert_eq!(normalize("   "), "");
}

#[test]
fn activation_word_needs_space_or_whole_text() {
    let list = words(&["va", "assistant"]);
    assert_eq!(find_activation_word("va play", &list), Some("va"));
    assert_eq!(find_activation_word("va", &list), Some("va"));
    assert_eq!(find_activation_word("vacation", &list), None);
    assert_eq!(find_activation_word("play va", &list), None);
    assert!(matches!(decide("Vacation mode", &list, &words(&["stop"])), Activation::Ignored));
    assert!(matches!(decide("", &list, &words(&["stop"])), Activation::Ignored));
}

#[test]
fn first_listed_activation_word_wins() {
    let list = words(&["hey", "hey you"]);
    assert_eq!(find_activation_word("hey you there", &list), Some("hey"));
    match decide("  HEY   you there  ", &list, &words(&["stop"])) {
        Activation::Forward(c) => assert_eq!(c, "you there"),
        other => panic!("unexpected {:?}", other),
    }
}

#[test]
fn stop_word_matches_whole_tokens_only() {
    let stops = words(&["stop", "cancel"]);
    assert!(contains_stop_word("please\tstop now", &stops));
    assert!(!contains_stop_word("unstoppable cancellation", &stops));
    assert!(!contains_stop_word("", &stops));
}

#[test]
fn word_list_is_trimmed_lowercased_and_filtered() {
    assert_eq!(parse_word_list(" Va, ASSISTANT ,,  "), vec!["va".to_string(), "assistant".to_string()]);
    assert!(parse_word_list("").is_empty());
}

#[test]
fn activator_config_validation() {
    let s = |v: &str| Some(v.to_string());
    let c = ActivatorConfig::from_values(s("Va, assistant"), s("stop,Cancel"), None, s(" http://next/hook ")).unwrap();
    assert_eq!(c.activation_words, vec!["va".to_string(), "assistant".to_string()]);
    assert_eq!(c.stop_words, vec!["stop".to_string(), "cancel".to_string()]);
    assert_eq!(c.bind_addr, "127.0.0.1:8090");
    assert_eq!(c.webhook_url, "http://next/hook");
    assert_eq!(
        ActivatorConfig::from_values(None, s("stop"), None, s("u")).err(),
        Some(ConfigError::Missing(Setting::ActivationWords))
    );
    assert_eq!(
        ActivatorConfig::from_values(s(" , "), s("stop"), None, s("u")).err(),
        Some(ConfigError::Empty(Setting::ActivationWords))
    );
    assert_eq!(
        ActivatorConfig::from_values(s("va"), None, None, s("u")).err(),
        Some(ConfigError::Missing(Setting::StopWords))
    );
    assert_eq!(
        ActivatorConfig::from_values(s("va"), s(","), None, s("u")).err(),
        Some(ConfigError::Empty(Setting::StopWords))
    );
    assert_eq!(
        ActivatorConfig::from_values(s("va"), s("stop"), None, None).err(),
        Some(ConfigError::Missing(Setting::WebhookUrl))
    );
    assert_eq!(
        ActivatorConfig::from_values(s("va"), s("stop"), s("0.0.0.0:9"), s("   ")).err(),
        Some(ConfigError::Empty(Setting::WebhookUrl))
    );
    let c = ActivatorConfig::from_values(s("va"), s("stop"), s("0.0.0.0:9"), s("u")).unwrap();
    assert_eq!(c.bind_addr, "0.0.0.0:9");
}

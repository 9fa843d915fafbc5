use va_voice::command::{
    ack_message, build_prompt, check_command, generate_url, CommandConfig, CommandError, CommandSetting,
    MAX_INPUT_LENGTH,
};
use va_voice::settings::{VoiceConfig, VoiceConfigError, VoiceSetting};
use va_voice::skills::{
    execute, ClockReading, CommandRequest, CommandResponse, ExecuteRequest, COMMAND_DATE_NOW,
    COMMAND_TIME_NOW,
};

fn clock() -> ClockReading {
    ClockReading {
        time: "09:05:07".to_string(),
        date: "2024-03-01".to_string(),
        rfc3339: "2024-03-01T09:05:07+01:00".to_string(),
    }
}

#[test]
fn command_is_trimmed_and_checked() {
    assert_eq!(check_command("  turn on lights \n"), Ok("turn on lights".to_string()));
    assert_eq!(check_command(" \t "), Err(CommandError::MissingText));
    let long = "a".repeat(MAX_INPUT_LENGTH + 1);
    assert_eq!(check_command(&long), Err(CommandError::TooLong));
    let limit = "a".repeat(MAX_INPUT_LENGTH);
    assert_eq!(check_command(&limit).map(|c| c.len()), Ok(MAX_INPUT_LENGTH));
}

#[test]
fn prompt_quotes_the_command() {
    let prompt = build_prompt("open the door");
    assert_eq!(
        prompt,
        "You are a command handler for a voice assistant. Return a short single sentence describing what the user asked about.\n\nExample:\nUser: \"turn on the living room lights\"\nAssistant: \"User asked about turning on the living room lights.\"\n\nUser: \"open the door\"\nAssistant:"
    );
    assert_eq!(ack_message("open the door"), "User asked about open the door");
}

#[test]
fn execute_answers_each_command() {
    match execute(&ExecuteRequest { command: CommandRequest::TimeNow }, clock()) {
        CommandResponse::TimeNow(t) => {
            assert_eq!(t.time, "09:05:07");
            assert_eq!(t.rfc3339, "2024-03-01T09:05:07+01:00");
        }
        other => panic!("unexpected {:?}", other),
    }
    match execute(&ExecuteRequest { command: CommandRequest::DateNow }, clock()) {
        CommandResponse::DateNow(d) => assert_eq!(d.date, "2024-03-01"),
        other => panic!("unexpected {:?}", other),
    }
    assert_eq!(CommandRequest::TimeNow.name(), "time.now");
    assert_eq!(CommandRequest::DateNow.name(), "date.now");
}

#[test]
fn generate_url_drops_trailing_slashes() {
    assert_eq!(generate_url("http://localhost:11434//"), "http://localhost:11434/api/generate");
    assert_eq!(generate_url("http://h"), "http://h/api/generate");
}

#[test]
fn command_config_defaults_and_blank_values() {
    let c = CommandConfig::from_values(None, None, None).unwrap();
    assert_eq!(c.bind_addr, "127.0.0.1:8092");
    assert_eq!(c.ollama_base_url, "http://localhost:11434");
    assert_eq!(c.ollama_model, "gemma3n");
    let c = CommandConfig::from_values(Some("0.0.0.0:1".to_string()), Some(" http://x/ ".to_string()), Some(" m ".to_string())).unwrap();
    assert_eq!(c.bind_addr, "0.0.0.0:1");
    assert_eq!(c.ollama_base_url, "http://x/");
    assert_eq!(c.ollama_model, "m");
    assert_eq!(
        CommandConfig::from_values(None, Some("  ".to_string()), None).err(),
        Some(CommandSetting::OllamaBaseUrl)
    );
    assert_eq!(
        CommandConfig::from_values(None, None, Some("".to_string())).err(),
        Some(CommandSetting::OllamaModel)
    );
}

#[test]
fn voice_config_queue_size() {
    let s = |v: &str| Some(v.to_string());
    let c = VoiceConfig::from_values(s("/m"), s("http://w"), None).unwrap();
    assert_eq!(c.queue_capacity, 128);
    assert_eq!(c.model_path, "/m");
    assert_eq!(c.webhook_url, "http://w");
    assert_eq!(VoiceConfig::from_values(s("/m"), s("http://w"), s("32")).unwrap().queue_capacity, 32);
    assert_eq!(VoiceConfig::from_values(s("/m"), s("http://w"), s("+7")).unwrap().queue_capacity, 7);
    for bad in ["0", "-3", "abc", "", "+", "99999999999999999999999"] {
        assert_eq!(
            VoiceConfig::from_values(s("/m"), s("http://w"), s(bad)).err(),
            Some(VoiceConfigError::NotPositive(VoiceSetting::QueueSize)),
            "{bad}"
        );
    }
    assert_eq!(
        VoiceConfig::from_values(None, s("http://w"), None).err(),
        Some(VoiceConfigError::Missing(VoiceSetting::ModelPath))
    );
    assert_eq!(
        VoiceConfig::from_values(s("/m"), None, None).err(),
        Some(VoiceConfigError::Missing(VoiceSetting::WebhookUrl))
    );
}

#[test]
fn command_names_match_wire_constants() {
    assert_eq!(COMMAND_TIME_NOW, "time.now");
    assert_eq!(COMMAND_DATE_NOW, "date.now");
    assert_eq!(CommandRequest::TimeNow.name(), COMMAND_TIME_NOW);
}

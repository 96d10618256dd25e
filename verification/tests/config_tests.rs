use engine_setup::config::{
    encode_config, parse_config, read_config_from, ApiKeysConfig, AppConfig, FeaturesConfig,
    GpuServerConfig,
};

fn config(host: &str, port: u16, use_ssl: bool, openai: &str, fal: &str) -> AppConfig {
    AppConfig {
        gpu_server: GpuServerConfig { host: host.to_string(), port, use_ssl },
        api_keys: ApiKeysConfig { openai: openai.to_string(), fal: fal.to_string() },
        features: FeaturesConfig {
            prompt_sanitizer: false,
            seed_generation: true,
            use_standalone_engine: false,
        },
    }
}

fn assert_config_eq(a: &AppConfig, b: &AppConfig) {
    assert_eq!(a.gpu_server.host, b.gpu_server.host);
    assert_eq!(a.gpu_server.port, b.gpu_server.port);
    assert_eq!(a.gpu_server.use_ssl, b.gpu_server.use_ssl);
    assert_eq!(a.api_keys.openai, b.api_keys.openai);
    assert_eq!(a.api_keys.fal, b.api_keys.fal);
    assert_eq!(a.features.prompt_sanitizer, b.features.prompt_sanitizer);
    assert_eq!(a.features.seed_generation, b.features.seed_generation);
    assert_eq!(a.features.use_standalone_engine, b.features.use_standalone_engine);
}

#[test]
fn default_config_has_documented_values() {
    let c = AppConfig::default();
    assert_eq!(c.gpu_server.host, "localhost");
    assert_eq!(c.gpu_server.port, 8082);
    assert!(!c.gpu_server.use_ssl);
    assert_eq!(c.api_keys.openai, "");
    assert_eq!(c.api_keys.fal, "");
    assert!(c.features.prompt_sanitizer);
    assert!(c.features.seed_generation);
    assert!(c.features.use_standalone_engine);
}

#[test]
fn default_config_encodes_to_expected_json() {
    let bytes = encode_config(&AppConfig::default());
    let expected = "{\n  \"gpu_server\": {\n    \"host\": \"localhost\",\n    \"port\": 8082,\n    \"use_ssl\": false\n  },\n  \"api_keys\": {\n    \"openai\": \"\",\n    \"fal\": \"\"\n  },\n  \"features\": {\n    \"prompt_sanitizer\": true,\n    \"seed_generation\": true,\n    \"use_standalone_engine\": true\n  }\n}";
    assert_eq!(String::from_utf8(bytes).unwrap(), expected);
}

#[test]
fn round_trip_plain_values() {
    let c = config("gpu.example.org", 443, true, "sk-something", "fal-key");
    let back = parse_config(&encode_config(&c)).unwrap();
    assert_config_eq(&c, &back);
}

#[test]
fn round_trip_default() {
    let c = AppConfig::default();
    let back = parse_config(&encode_config(&c)).unwrap();
    assert_config_eq(&c, &back);
}

#[test]
fn round_trip_strings_needing_escapes() {
    let c = config("host\"with\\quotes", 1, false, "line\nbreak\ttab", "ctrl\u{1}\r");
    let back = parse_config(&encode_config(&c)).unwrap();
    assert_config_eq(&c, &back);
}

#[test]
fn round_trip_non_ascii_strings() {
    let c = config("h\u{f6}st.\u{4f8b}.example", 65535, true, "\u{1f511} key", "\u{e9}\u{e8}");
    let back = parse_config(&encode_config(&c)).unwrap();
    assert_config_eq(&c, &back);
}

#[test]
fn parse_rejects_garbage() {
    assert!(parse_config(b"not json at all").is_err());
    assert!(parse_config(b"").is_err());
    assert!(parse_config(b"{}").is_err());
}

#[test]
fn parse_rejects_out_of_range_port() {
    let good = encode_config(&config("h", 8082, false, "", ""));
    let text = String::from_utf8(good).unwrap();
    let bad = text.replace("\"port\": 8082", "\"port\": 70000");
    assert!(parse_config(bad.as_bytes()).is_err());
}

#[test]
fn parse_accepts_trailing_whitespace() {
    let mut bytes = encode_config(&AppConfig::default());
    bytes.extend_from_slice(b"\n\n");
    let back = parse_config(&bytes).unwrap();
    assert_config_eq(&back, &AppConfig::default());
}

#[test]
fn parse_rejects_trailing_garbage() {
    let mut bytes = encode_config(&AppConfig::default());
    bytes.extend_from_slice(b"\nx");
    assert!(parse_config(&bytes).is_err());
}

#[test]
fn parse_accepts_compact_layout() {
    let text = "{\"gpu_server\":{\"host\":\"gpu.example.org\",\"port\":443,\"use_ssl\":true},\"api_keys\":{\"openai\":\"sk-something\",\"fal\":\"fal-key\"},\"features\":{\"prompt_sanitizer\":false,\"seed_generation\":true,\"use_standalone_engine\":false}}";
    let back = parse_config(text.as_bytes()).unwrap();
    let want = config("gpu.example.org", 443, true, "sk-something", "fal-key");
    assert_config_eq(&back, &want);
}

#[test]
fn parse_accepts_reordered_members() {
    let text = "{ \"features\": { \"use_standalone_engine\": false, \"prompt_sanitizer\": false,\n    \"seed_generation\": true },\n  \"gpu_server\": { \"use_ssl\": true, \"port\": 443, \"host\": \"gpu.example.org\" },\n  \"api_keys\": { \"fal\": \"fal-key\", \"openai\": \"sk-something\" } }\n";
    let back = parse_config(text.as_bytes()).unwrap();
    let want = config("gpu.example.org", 443, true, "sk-something", "fal-key");
    assert_config_eq(&back, &want);
}

#[test]
fn parse_rejects_repeated_and_missing_members() {
    let repeated = "{\"gpu_server\":{\"host\":\"h\",\"host\":\"h\",\"use_ssl\":true},\"api_keys\":{\"openai\":\"\",\"fal\":\"\"},\"features\":{\"prompt_sanitizer\":true,\"seed_generation\":true,\"use_standalone_engine\":true}}";
    assert!(parse_config(repeated.as_bytes()).is_err());
    let missing = "{\"gpu_server\":{\"host\":\"h\",\"port\":1,\"use_ssl\":true},\"features\":{\"prompt_sanitizer\":true,\"seed_generation\":true,\"use_standalone_engine\":true}}";
    assert!(parse_config(missing.as_bytes()).is_err());
}

#[test]
fn parse_error_carries_fixed_message() {
    match parse_config(b"nonsense") {
        Err(m) => assert_eq!(m, "Failed to parse config file"),
        Ok(_) => panic!("nonsense must not parse"),
    }
}

#[test]
fn missing_config_file_yields_default_and_bytes_to_write() {
    let r = read_config_from(None).unwrap();
    let (c, written) = r;
    assert_config_eq(&c, &AppConfig::default());
    let written = written.expect("a default file must be written");
    let back = parse_config(&written).unwrap();
    assert_config_eq(&back, &AppConfig::default());
}

#[test]
fn present_config_file_is_parsed_and_not_rewritten() {
    let c = config("gpu.example.org", 9000, false, "a", "b");
    let r = read_config_from(Some(encode_config(&c))).unwrap();
    assert_config_eq(&r.0, &c);
    assert!(r.1.is_none());
}

#[test]
fn unreadable_config_file_is_an_error() {
    assert!(read_config_from(Some(b"{broken".to_vec())).is_err());
}

use mochi::llama_server::{health_body_ok, health_url, models_url, ready_step, LlamaServerConfig, ReadyStep};

#[test]
fn url_matches_host_and_port() {
    let cfg = LlamaServerConfig {
        host: "0.0.0.0".to_owned(),
        port: 12345,
        ..LlamaServerConfig::new("/tmp/m.gguf".to_owned())
    };
    assert_eq!(cfg.url(), "http://0.0.0.0:12345");
}

#[test]
fn default_config_serves_locally() {
    let cfg = LlamaServerConfig::new("/tmp/m.gguf".to_owned());
    assert_eq!(cfg.url(), "http://127.0.0.1:8765");
    assert_eq!(cfg.context_size, 32768);
    assert_eq!(cfg.model, "/tmp/m.gguf");
    assert_eq!(cfg.binary, "llama-server");
    assert!(cfg.extra_args.is_empty());
}

#[test]
fn probe_urls_drop_trailing_slashes() {
    assert_eq!(health_url("http://h:1/"), "http://h:1/health");
    assert_eq!(health_url("http://h:1"), "http://h:1/health");
    assert_eq!(models_url("http://h:1"), "http://h:1/v1/models");
}

#[test]
fn health_body_and_ready_steps() {
    assert!(health_body_ok("{\"status\":\"ok\"}"));
    assert!(!health_body_ok("{\"status\":\"loading\"}"));
    assert_eq!(ready_step(true, 999, 1), ReadyStep::Ready);
    assert_eq!(ready_step(false, 5, 5), ReadyStep::TimedOut);
    assert_eq!(ready_step(false, 4, 5), ReadyStep::Retry);
}

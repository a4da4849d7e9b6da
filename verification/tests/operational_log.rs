//! The operational log.
use agent_locksmith::json::Json;
use agent_locksmith::operational_log_sink::{
    LogComponent, LogLevel, OperationalLogEmitter, OperationalLogEvent,
};

fn event(level: LogLevel, component: LogComponent, event: &str, message: &str) -> OperationalLogEvent {
    OperationalLogEvent {
        level,
        component,
        event: event.to_string(),
        message: message.to_string(),
        fields: None,
    }
}

#[test]
fn emit_drain_query_sees_the_row() {
    let mut emitter = OperationalLogEmitter::new(16);
    let mut e = event(
        LogLevel::Warn,
        LogComponent::Oauth,
        "oauth_refresh_degraded",
        "refresh failed; session marked degraded",
    );
    e.fields = Some(Json::object().with("registration", Json::text("codex")));
    emitter.emit(e);
    let seen = emitter.drain();
    assert_eq!(seen.len(), 1, "drained record must be queryable");
    assert_eq!(seen[0].component.as_str(), "oauth");
    assert_eq!(seen[0].event, "oauth_refresh_degraded");
    assert!(emitter.drain().is_empty());
}

#[test]
fn full_channel_drops_without_blocking() {
    // Nothing is drained, so the queue stays full.
    let mut emitter = OperationalLogEmitter::new(2);
    for i in 0..10 {
        emitter.emit(event(
            LogLevel::Info,
            LogComponent::Proxy,
            "burst",
            &format!("event {i}"),
        ));
    }
    assert!(
        emitter.dropped_count() >= 8,
        "records beyond capacity must be dropped, got {}",
        emitter.dropped_count()
    );
    let kept: Vec<String> = emitter.drain().into_iter().map(|e| e.message).collect();
    assert_eq!(kept, vec!["event 0", "event 1"]);
}

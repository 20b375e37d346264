use phenotype_event_bus::brokers::{BusError, NatsBus, RedisStreamsBus};

#[test]
fn nats_backend() {
    assert_eq!(NatsBus.backend(), "nats");
}

#[test]
fn redis_backend() {
    assert_eq!(RedisStreamsBus.backend(), "redis-streams");
}

#[test]
fn nats_publish_ok() {
    assert!(NatsBus.publish("test", &[]).is_ok());
}

#[test]
fn redis_publish_ok() {
    assert!(RedisStreamsBus.publish("test", &[]).is_ok());
}

#[test]
fn subscriptions_need_runtime_config() {
    match NatsBus.subscribe("test") {
        Err(BusError::Backend(message)) => {
            assert_eq!(message, "nats subscription requires runtime config")
        }
        other => panic!("unexpected: {other:?}"),
    }
    match RedisStreamsBus.subscribe("test") {
        Err(BusError::Backend(message)) => {
            assert_eq!(message, "redis subscription requires runtime config")
        }
        other => panic!("unexpected: {other:?}"),
    }
}

use herdr_plugin_renamer::context::{evaluate, Eligible, EventData, EventEnvelope};

fn event(status: &str) -> Option<EventEnvelope> {
    Some(EventEnvelope {
        data: EventData {
            pane_id: "w4B:p1".to_string(),
            agent_status: status.to_string(),
        },
    })
}

#[test]
fn working_is_eligible() {
    assert_eq!(
        evaluate(event("working")),
        Some(Eligible {
            pane_id: "w4B:p1".to_string()
        })
    );
}

#[test]
fn other_statuses_and_garbage_bail() {
    assert!(evaluate(event("idle")).is_none());
    assert!(evaluate(event("blocked")).is_none());
    assert!(evaluate(None).is_none());
}

#[test]
fn status_must_be_exactly_working() {
    assert!(evaluate(event("Working")).is_none());
    assert!(evaluate(event("working ")).is_none());
    assert!(evaluate(event("")).is_none());
}

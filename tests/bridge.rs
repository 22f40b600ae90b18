use chat_bridge::correlator::Correlator;
use chat_bridge::error::{CorrelationError, HubError};
use chat_bridge::hub::{BridgeEvent, ClientRegistry, Hub};
use chat_bridge::model::{BaseResponse, SendGroupMessageResponse};
use chat_bridge::supervisor::Supervisor;

fn s(x: &str) -> String {
    x.to_string()
}

fn event(origin: &str, id: &str) -> BridgeEvent {
    BridgeEvent::new(s(origin), s(id), s("chan"), s("hello"), 7)
}

#[test]
fn fan_out_skips_origin_and_full_sibling() {
    let mut hub = Hub::new();
    assert_eq!(hub.attach(s("a"), 4), Ok(()));
    assert_eq!(hub.attach(s("b"), 1), Ok(()));
    assert_eq!(hub.attach(s("c"), 4), Ok(()));
    hub.publish(&event("a", "m1"));
    assert_eq!(hub.pending(&s("a")), Some(0));
    assert_eq!(hub.pending(&s("b")), Some(1));
    assert_eq!(hub.pending(&s("c")), Some(1));
    hub.publish(&event("a", "m2"));
    assert_eq!(hub.pending(&s("b")), Some(1));
    assert_eq!(hub.pending(&s("c")), Some(2));
    let got = hub.receive(&s("c")).unwrap();
    assert_eq!(got.platform_message_id, "m1");
    assert_eq!(got.origin_adapter, "a");
    assert_eq!(got.payload, "hello");
}

#[test]
fn per_origin_order_is_kept() {
    let mut hub = Hub::new();
    hub.attach(s("a"), 8).unwrap();
    hub.attach(s("b"), 8).unwrap();
    hub.publish(&event("a", "first"));
    hub.publish(&event("b", "own"));
    hub.publish(&event("a", "second"));
    assert_eq!(hub.receive(&s("b")).unwrap().platform_message_id, "first");
    assert_eq!(hub.receive(&s("b")).unwrap().platform_message_id, "second");
    assert!(hub.receive(&s("b")).is_none());
    assert_eq!(hub.receive(&s("a")).unwrap().platform_message_id, "own");
}

#[test]
fn duplicate_adapter_name_is_refused() {
    let mut hub = Hub::new();
    hub.attach(s("qq"), 2).unwrap();
    assert_eq!(hub.attach(s("qq"), 2), Err(HubError::DuplicateName));
}

#[test]
fn detach_is_idempotent_and_stops_delivery() {
    let mut hub = Hub::new();
    hub.attach(s("a"), 2).unwrap();
    hub.attach(s("b"), 2).unwrap();
    hub.detach(&s("b"));
    hub.detach(&s("b"));
    assert_eq!(hub.pending(&s("b")), None);
    hub.publish(&event("a", "m"));
    assert!(hub.receive(&s("b")).is_none());
    assert_eq!(hub.attach(s("b"), 2), Ok(()));
}

#[test]
fn client_registry_lookup() {
    let mut reg: ClientRegistry<&str> = ClientRegistry::new();
    assert!(reg.insert(1, "one"));
    assert!(reg.insert(2, "two"));
    assert!(!reg.insert(1, "again"));
    assert_eq!(reg.lookup_client(1), Some(&"one"));
    assert_eq!(reg.lookup_client(2), Some(&"two"));
    assert_eq!(reg.lookup_client(3), None);
    assert_eq!(reg.account_ids(), vec![1, 2]);
}

#[test]
fn correlation_lifecycle() {
    let mut c = Correlator::new(16, 3600);
    assert_eq!(c.record(s("c1"), s("qq"), s("m1"), s("chan"), 100), Ok(()));
    assert_eq!(c.attach_result(&s("c1"), s("dc"), s("m2")), Ok(()));
    let rec = c.resolve(&s("c1")).unwrap();
    assert_eq!(rec.per_platform_ids, vec![(s("qq"), s("m1")), (s("dc"), s("m2"))]);
    assert_eq!(rec.conversation_key, "chan");
    assert!(c.resolve(&s("unknown")).is_none());
}

#[test]
fn correlation_errors() {
    let mut c = Correlator::new(16, 3600);
    c.record(s("c1"), s("qq"), s("m1"), s("chan"), 0).unwrap();
    assert_eq!(c.record(s("c1"), s("dc"), s("x"), s("chan"), 0), Err(CorrelationError::DuplicateCorrelation));
    assert_eq!(c.attach_result(&s("nope"), s("dc"), s("m2")), Err(CorrelationError::UnknownCorrelation));
}

#[test]
fn origin_is_never_recorded_twice() {
    let mut c = Correlator::new(4, 3600);
    c.record(s("c1"), s("qq"), s("m1"), s("chan"), 0).unwrap();
    c.attach_result(&s("c1"), s("qq"), s("other")).unwrap();
    c.attach_result(&s("c1"), s("dc"), s("m2")).unwrap();
    c.attach_result(&s("c1"), s("dc"), s("m3")).unwrap();
    let rec = c.resolve(&s("c1")).unwrap();
    assert_eq!(rec.per_platform_ids, vec![(s("qq"), s("m1")), (s("dc"), s("m2"))]);
}

#[test]
fn count_bound_evicts_oldest() {
    let mut c = Correlator::new(2, 3600);
    c.record(s("c1"), s("qq"), s("m1"), s("k"), 0).unwrap();
    c.record(s("c2"), s("qq"), s("m2"), s("k"), 1).unwrap();
    c.record(s("c3"), s("qq"), s("m3"), s("k"), 2).unwrap();
    assert!(c.resolve(&s("c1")).is_none());
    assert!(c.resolve(&s("c2")).is_some());
    assert!(c.resolve(&s("c3")).is_some());
    assert_eq!(c.attach_result(&s("c1"), s("dc"), s("x")), Err(CorrelationError::UnknownCorrelation));
}

#[test]
fn age_bound_evicts_expired() {
    let mut c = Correlator::new(8, 10);
    c.record(s("old"), s("qq"), s("m1"), s("k"), 0).unwrap();
    c.record(s("edge"), s("qq"), s("m2"), s("k"), 5).unwrap();
    c.record(s("new"), s("qq"), s("m3"), s("k"), 12).unwrap();
    c.evict_expired(15);
    assert!(c.resolve(&s("old")).is_none());
    assert!(c.resolve(&s("edge")).is_some());
    assert!(c.resolve(&s("new")).is_some());
}

#[test]
fn response_constructors() {
    let r = SendGroupMessageResponse::new(0, s("success"), 1234);
    assert_eq!((r.code, r.msg.as_str(), r.message_id), (0, "success", 1234));
    let b = BaseResponse::new(0, s("ok"), r.clone());
    assert_eq!(b.data, r);
}

#[test]
fn record_lookup_by_adapter() {
    let mut c = Correlator::new(4, 60);
    c.record(s("c1"), s("qq"), s("m1"), s("chan"), 0).unwrap();
    c.attach_result(&s("c1"), s("dc"), s("m2")).unwrap();
    let rec = c.resolve(&s("c1")).unwrap();
    assert_eq!(rec.platform_id(&s("qq")), Some(&s("m1")));
    assert_eq!(rec.platform_id(&s("dc")), Some(&s("m2")));
    assert_eq!(rec.platform_id(&s("cmd")), None);
}

#[test]
fn first_task_to_end_stops_the_run() {
    let mut sup = Supervisor::new(3);
    assert!(sup.is_running(0) && sup.is_running(1) && sup.is_running(2));
    assert_eq!(sup.outcome(), None);
    assert!(sup.on_exit(1, Some(s("gateway closed"))));
    assert!(!sup.is_running(1));
    assert!(!sup.on_exit(0, None));
    assert!(!sup.is_running(0));
    assert!(sup.is_running(2));
    assert_eq!(sup.outcome(), Some((1, Some(s("gateway closed")))));
}

#[test]
fn normal_end_is_kept_as_outcome() {
    let mut sup = Supervisor::new(2);
    assert!(sup.on_exit(0, None));
    assert!(!sup.on_exit(1, Some(s("late"))));
    assert_eq!(sup.outcome(), Some((0, None)));
}

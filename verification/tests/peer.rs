use crust::node::initialize_node;
use crust::peer::peer_url;
use crust::peer::request_unsuccessful;
use crust::peer::Method;
use crust::peer::PeerError;
use crust::peer::PeerRequest;
use crust::peer::Reply;
use crust::failure::RepairStep;

fn s(text: &str) -> String {
    text.to_string()
}

#[test]
fn url_names_host_port_and_path() {
    assert_eq!(peer_url("10.0.0.2", "successor/"), "http://10.0.0.2:8000/successor/");
    assert_eq!(peer_url("10.0.0.2", ""), "http://10.0.0.2:8000/");
}

#[test]
fn requests_have_their_paths() {
    assert_eq!(PeerRequest::Successor.path(), "successor/");
    assert_eq!(PeerRequest::ClosestPreceding { id: 17 }.path(), "successor/cpf/17/");
    assert_eq!(PeerRequest::Predecessor.path(), "predecessor/");
    assert_eq!(PeerRequest::FingerTable { n: s("10.0.0.1"), i: 2 }.path(), "fingertable/");
    assert_eq!(PeerRequest::Notify { n: s("10.0.0.1") }.path(), "notify/");
    assert_eq!(PeerRequest::Key { key: s("k") }.path(), "key/");
    assert_eq!(PeerRequest::Replica { key: s("k") }.path(), "replica/");
    assert_eq!(PeerRequest::HasKey { key: s("hello") }.path(), "key/hello");
    assert_eq!(
        PeerRequest::ClosestPreceding { id: 0 }.url("10.0.0.3"),
        "http://10.0.0.3:8000/successor/cpf/0/"
    );
}

#[test]
fn requests_have_their_methods() {
    assert_eq!(PeerRequest::Successor.method(), Method::Get);
    assert_eq!(PeerRequest::ClosestPreceding { id: 1 }.method(), Method::Get);
    assert_eq!(PeerRequest::Predecessor.method(), Method::Get);
    assert_eq!(PeerRequest::HasKey { key: s("k") }.method(), Method::Get);
    assert_eq!(PeerRequest::FingerTable { n: s("a"), i: 1 }.method(), Method::Patch);
    assert_eq!(PeerRequest::Notify { n: s("a") }.method(), Method::Patch);
    assert_eq!(PeerRequest::Key { key: s("k") }.method(), Method::Post);
    assert_eq!(PeerRequest::Replica { key: s("k") }.method(), Method::Post);
    assert_eq!(Method::Get.name(), "GET");
    assert_eq!(Method::Post.name(), "POST");
    assert_eq!(Method::Patch.name(), "PATCH");
    assert_eq!(Method::Delete.name(), "DELETE");
}

#[test]
fn requests_have_their_forms() {
    assert!(PeerRequest::Successor.form().is_empty());
    assert!(PeerRequest::HasKey { key: s("k") }.form().is_empty());
    assert_eq!(
        PeerRequest::FingerTable { n: s("10.0.0.1"), i: 4 }.form(),
        vec![(s("n"), s("10.0.0.1")), (s("i"), s("4"))]
    );
    assert_eq!(PeerRequest::Notify { n: s("10.0.0.1") }.form(), vec![(s("n"), s("10.0.0.1"))]);
    assert_eq!(PeerRequest::Key { key: s("a b") }.form(), vec![(s("key"), s("a b"))]);
    assert_eq!(PeerRequest::Replica { key: s("x") }.form(), vec![(s("key"), s("x"))]);
}

#[test]
fn status_200_gives_the_body() {
    let reply = Reply::Answer { status: 200, body: s("10.0.0.2") };
    assert!(reply.is_alive());
    assert_eq!(request_unsuccessful(Method::Get, reply).unwrap(), "10.0.0.2");
}

#[test]
fn other_status_is_an_error_with_the_body() {
    let reply = Reply::Answer { status: 500, body: s("boom") };
    assert!(reply.is_alive());
    match request_unsuccessful(Method::Patch, reply) {
        Err(PeerError::Rejected { status, message }) => {
            assert_eq!(status, 500);
            assert_eq!(message, "Received error from PATCH req: boom");
        }
        other => panic!("expected a rejection, got {:?}", other),
    }
    match request_unsuccessful(Method::Get, Reply::Answer { status: 404, body: s("") }) {
        Err(PeerError::Rejected { status, message }) => {
            assert_eq!(status, 404);
            assert_eq!(message, "Received error from GET req: ");
        }
        other => panic!("expected a rejection, got {:?}", other),
    }
}

#[test]
fn unreachable_peer_is_dead_and_an_error() {
    assert!(!Reply::Unreachable.is_alive());
    assert!(matches!(
        request_unsuccessful(Method::Post, Reply::Unreachable),
        Err(PeerError::Unreachable)
    ));
}

#[test]
fn every_failure_calls_for_a_repair() {
    let node = initialize_node(s("10.0.0.1"), Some(s("10.0.0.2")));
    let (result, repair) = node.receive(Method::Get, Reply::Answer { status: 200, body: s("x") });
    assert_eq!(result.unwrap(), "x");
    assert!(repair.is_none());
    let (result, repair) = node.receive(Method::Get, Reply::Unreachable);
    assert!(matches!(result, Err(PeerError::Unreachable)));
    match repair.expect("a repair is due").step() {
        RepairStep::Probe(addr) => assert_eq!(addr, "10.0.0.2"),
        _ => panic!("the repair begins with a probe of the successor"),
    }
    let (result, repair) = node.receive(Method::Post, Reply::Answer { status: 503, body: s("") });
    assert!(matches!(result, Err(PeerError::Rejected { status: 503, .. })));
    assert!(repair.is_some());
}

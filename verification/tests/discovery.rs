//! Broker lookup.
use std::sync::Arc;

use pulsar::error::{ConnectionError, ServiceDiscoveryError};
use pulsar::service_discovery::{
    convert_lookup_response, partition_address, BrokerAddress, CommandLookupTopicResponse,
    CommandPartitionedTopicMetadataResponse, Lookup, LookupAction, LookupEvent, LookupResponse,
    ServiceDiscovery, LOOKUP_CONNECT, LOOKUP_FAILED, LOOKUP_REDIRECT,
};

fn response(kind: i32, url: &str) -> CommandLookupTopicResponse {
    CommandLookupTopicResponse {
        broker_service_url: Some(url.to_string()),
        broker_service_url_tls: None,
        response: Some(kind),
        authoritative: None,
        error: None,
        message: None,
        proxy_through_service_url: None,
    }
}

fn discovery() -> ServiceDiscovery<&'static str> {
    ServiceDiscovery::with_manager(Arc::new("manager"))
}

fn start(proxied: bool) -> Lookup<u8> {
    let (lookup, action) =
        discovery().lookup_topic("topic", Some((proxied, 1u8)), "base".to_string()).ok().unwrap();
    assert!(is_query(&action, false));
    lookup
}

fn is_query(action: &LookupAction, expected: bool) -> bool {
    match action {
        LookupAction::Query { topic, authoritative } => {
            topic == "topic" && *authoritative == expected
        }
        _ => false,
    }
}

fn answer(lookup: &mut Lookup<u8>, response: CommandLookupTopicResponse) -> LookupAction {
    assert!(response.is_explained());
    lookup.step(LookupEvent::Response(Ok(response)))
}

fn address(url: &str, broker_url: &str, proxy: bool) -> BrokerAddress {
    BrokerAddress { url: url.to_string(), broker_url: broker_url.to_string(), proxy }
}

fn finish(mut lookup: Lookup<u8>, action: LookupAction, expected: BrokerAddress) {
    match action {
        LookupAction::Verify(found) => assert_eq!(found, expected),
        _ => panic!("an address was expected"),
    }
    match lookup.step(LookupEvent::Verified(Ok(()))) {
        LookupAction::Return(Ok(found)) => assert_eq!(found, expected),
        _ => panic!("an address was expected"),
    }
    match lookup.step(LookupEvent::Verified(Err(ConnectionError::Disconnected))) {
        LookupAction::Return(Err(e)) => {
            assert_eq!(e, ServiceDiscoveryError::Connection(ConnectionError::Disconnected))
        }
        _ => panic!("an error was expected"),
    }
}

#[test]
fn discovery_keeps_its_manager() {
    let manager = Arc::new("manager");
    let discovery = ServiceDiscovery::with_manager(manager.clone());
    assert!(Arc::ptr_eq(discovery.manager(), &manager));
    assert!(Arc::ptr_eq(discovery.clone().manager(), &manager));
}

#[test]
fn responses_are_taken_apart() {
    let full = CommandLookupTopicResponse {
        broker_service_url_tls: Some("tls".to_string()),
        authoritative: Some(true),
        proxy_through_service_url: Some(true),
        ..response(LOOKUP_REDIRECT, "plain")
    };
    assert_eq!(
        convert_lookup_response(&full),
        Ok(LookupResponse {
            broker_url: "plain".to_string(),
            broker_url_tls: Some("tls".to_string()),
            proxy: true,
            redirect: true,
            authoritative: true,
        })
    );
    assert_eq!(
        convert_lookup_response(&response(LOOKUP_CONNECT, "plain")),
        Ok(LookupResponse {
            broker_url: "plain".to_string(),
            broker_url_tls: None,
            proxy: false,
            redirect: false,
            authoritative: false,
        })
    );
}

#[test]
fn refused_lookups_say_why() {
    let with_text = CommandLookupTopicResponse {
        message: Some("no such topic".to_string()),
        error: Some(3),
        ..response(LOOKUP_FAILED, "plain")
    };
    assert_eq!(
        convert_lookup_response(&with_text),
        Err(ServiceDiscoveryError::Query("no such topic".to_string()))
    );
    let with_code = CommandLookupTopicResponse {
        error: Some(-12),
        ..response(LOOKUP_FAILED, "plain")
    };
    assert_eq!(
        convert_lookup_response(&with_code),
        Err(ServiceDiscoveryError::Query("server error: -12".to_string()))
    );
    let without_kind = CommandLookupTopicResponse {
        response: None,
        error: Some(5),
        ..response(LOOKUP_CONNECT, "plain")
    };
    assert_eq!(
        convert_lookup_response(&without_kind),
        Err(ServiceDiscoveryError::Query("server error: 5".to_string()))
    );
    assert!(!response(LOOKUP_FAILED, "plain").is_explained());
}

#[test]
fn responses_without_a_broker_find_nothing() {
    let nowhere = CommandLookupTopicResponse {
        broker_service_url: None,
        broker_service_url_tls: Some("tls".to_string()),
        ..response(LOOKUP_CONNECT, "")
    };
    assert_eq!(convert_lookup_response(&nowhere), Err(ServiceDiscoveryError::NotFound));
    let mut lookup = start(false);
    assert!(matches!(
        answer(&mut lookup, nowhere),
        LookupAction::Return(Err(ServiceDiscoveryError::NotFound))
    ));
}

#[test]
fn lookup_finds_the_broker_itself() {
    let mut lookup = start(false);
    assert_eq!(*lookup.conn(), 1);
    let action = answer(&mut lookup, response(LOOKUP_CONNECT, "broker"));
    finish(lookup, action, address("broker", "broker", false));
}

#[test]
fn lookup_prefers_tls() {
    let mut lookup = start(false);
    let action = answer(
        &mut lookup,
        CommandLookupTopicResponse {
            broker_service_url_tls: Some("secure".to_string()),
            ..response(LOOKUP_CONNECT, "broker")
        },
    );
    finish(lookup, action, address("secure", "secure", false));
}

#[test]
fn lookup_through_a_proxy_uses_the_base_url() {
    let mut lookup = start(true);
    let action = answer(&mut lookup, response(LOOKUP_CONNECT, "broker"));
    finish(lookup, action, address("base", "broker", true));
    let mut lookup = start(false);
    let action = answer(
        &mut lookup,
        CommandLookupTopicResponse {
            proxy_through_service_url: Some(true),
            ..response(LOOKUP_CONNECT, "broker")
        },
    );
    finish(lookup, action, address("base", "broker", true));
}

#[test]
fn lookup_follows_redirects() {
    let mut lookup = start(true);
    let action = answer(
        &mut lookup,
        CommandLookupTopicResponse {
            authoritative: Some(true),
            ..response(LOOKUP_REDIRECT, "next")
        },
    );
    match action {
        LookupAction::Connect(url) => assert_eq!(url, "next"),
        _ => panic!("a redirect was expected"),
    }
    let action = lookup.step(LookupEvent::Connected(Some((false, 2))));
    assert!(is_query(&action, true));
    assert_eq!(*lookup.conn(), 2);
    // the next broker was reached directly, and its answer is not authoritative
    let action = answer(&mut lookup, response(LOOKUP_REDIRECT, "third"));
    assert!(matches!(action, LookupAction::Connect(_)));
    let action = lookup.step(LookupEvent::Connected(Some((false, 3))));
    assert!(is_query(&action, false));
    let action = answer(&mut lookup, response(LOOKUP_CONNECT, "last"));
    finish(lookup, action, address("last", "last", false));
}

#[test]
fn lookup_ends_where_no_broker_is_reached() {
    let mut lookup = start(false);
    answer(&mut lookup, response(LOOKUP_REDIRECT, "next"));
    match lookup.step(LookupEvent::Connected(None)) {
        LookupAction::Return(Err(e)) => {
            assert_eq!(e, ServiceDiscoveryError::Query("unknown broker URL".to_string()))
        }
        _ => panic!("an error was expected"),
    }
    match lookup.step(LookupEvent::Response(Err(ConnectionError::Disconnected))) {
        LookupAction::Return(Err(e)) => {
            assert_eq!(e, ServiceDiscoveryError::Connection(ConnectionError::Disconnected))
        }
        _ => panic!("an error was expected"),
    }
    let none: Option<(bool, u8)> = None;
    assert_eq!(
        discovery().lookup_topic("topic", none, "base".to_string()).err().unwrap(),
        ServiceDiscoveryError::Query("unknown broker URL".to_string())
    );
}

#[test]
fn partitions_are_counted() {
    let counted = CommandPartitionedTopicMetadataResponse {
        partitions: Some(4),
        error: Some(1),
        message: Some("ignored".to_string()),
    };
    assert_eq!(discovery().lookup_partitioned_topic_number(Ok(counted)), Ok(4));
    let text = CommandPartitionedTopicMetadataResponse {
        partitions: None,
        error: Some(1),
        message: Some("not allowed".to_string()),
    };
    assert_eq!(
        discovery().lookup_partitioned_topic_number(Ok(text)),
        Err(ServiceDiscoveryError::Query("not allowed".to_string()))
    );
    let code = CommandPartitionedTopicMetadataResponse {
        partitions: None,
        error: Some(6),
        message: None,
    };
    assert_eq!(
        discovery().lookup_partitioned_topic_number(Ok(code)),
        Err(ServiceDiscoveryError::Query("server error: Some(6)".to_string()))
    );
    let nothing =
        CommandPartitionedTopicMetadataResponse { partitions: None, error: None, message: None };
    assert_eq!(
        discovery().lookup_partitioned_topic_number(Ok(nothing)),
        Err(ServiceDiscoveryError::Query("server error: None".to_string()))
    );
    assert_eq!(
        discovery().lookup_partitioned_topic_number(Err(ConnectionError::Disconnected)),
        Err(ServiceDiscoveryError::Connection(ConnectionError::Disconnected))
    );
}

#[test]
fn partitions_are_named() {
    assert_eq!(
        discovery().lookup_partitioned_topic("a/b", Ok(11)).unwrap()[8..],
        ["a/b-partition-8", "a/b-partition-9", "a/b-partition-10"]
    );
    assert_eq!(
        discovery().lookup_partitioned_topic("a/b".to_string(), Ok(0)),
        Ok(Vec::<String>::new())
    );
    assert_eq!(
        discovery().lookup_partitioned_topic("a", Err(ServiceDiscoveryError::NotFound)),
        Err(ServiceDiscoveryError::NotFound)
    );
}

#[test]
fn partitions_come_with_their_addresses() {
    assert_eq!(
        partition_address("p".to_string(), Ok(address("u", "b", false))),
        Ok(("p".to_string(), address("u", "b", false)))
    );
    assert_eq!(
        partition_address("p".to_string(), Err(ServiceDiscoveryError::NotFound)),
        Err(ServiceDiscoveryError::NotFound)
    );
}

use bytes::Bytes;
use url::Url;
use xactserver::cli::{
    accept_node_url, accept_pg_url, is_dummy, parse_node_addresses, parse_pg_address, ArgError,
    NodeAddress, ParsedUrl,
};
use xactserver::local_log::{
    replicate, LocalLogManager, ReplicationEvent, ReplicationStep, XactLog,
};
use xactserver::node::{Nodes, OutOfRange};
use xactserver::proto::{vote_message, DbError, LogEntry, VoteMessage};
use xactserver::remote_logs::{
    next_action, RemoteLogsManager, SubscriptionAction, SubscriptionEvent,
};
use xactserver::text::{equal, split};
use xactserver::{NodeId, RollbackReason, Vote};

fn url(scheme: &str, text: &str) -> Result<ParsedUrl, String> {
    Ok(ParsedUrl { scheme: scheme.to_string(), text: text.to_string() })
}

#[test]
fn database_address() {
    assert_eq!(
        parse_pg_address("postgresql://cloud_admin@localhost:55433/postgres"),
        Ok("postgresql://cloud_admin@localhost:55433/postgres".to_string())
    );
    let error = parse_pg_address("http://localhost").unwrap_err();
    assert_eq!(error, ArgError::PgScheme { scheme: "http".to_string() });
    assert_eq!(
        error.to_string(),
        "invalid scheme 'http' in '--connect-pg'. Must be 'postgresql'"
    );
    let error = parse_pg_address("localhost/").unwrap_err();
    assert_eq!(
        error.to_string(),
        "unable to parse postgres url in '--connect-pg': relative URL without a base"
    );
    assert_eq!(accept_pg_url(url("postgresql", "x")), Ok("x".to_string()));
    assert_eq!(
        accept_pg_url(Err("bad".to_string())),
        Err(ArgError::PgUrl { error: "bad".to_string() })
    );
}

#[test]
fn node_addresses() {
    assert_eq!(
        parse_node_addresses("http://Localhost:23000,DUMMY,https://[::1]:1"),
        Ok(vec![
            NodeAddress::Url("http://localhost:23000/".to_string()),
            NodeAddress::Dummy,
            NodeAddress::Url("https://[::1]:1/".to_string()),
        ])
    );
    let urls: Vec<String> = parse_node_addresses("http://a,dummy")
        .unwrap()
        .iter()
        .map(|address| address.url())
        .collect();
    assert_eq!(urls, ["http://a/", "http://0.0.0.0/"]);
    assert_eq!(Url::parse("http://0.0.0.0").unwrap().to_string(), urls[1]);
    let error = parse_node_addresses("http://a,ftp://b,?").unwrap_err();
    assert_eq!(error, ArgError::NodeScheme { scheme: "ftp".to_string() });
    assert_eq!(
        error.to_string(),
        "invalid scheme 'ftp' in '--nodes'. Must be either http or https"
    );
    let error = parse_node_addresses("http://a,").unwrap_err();
    assert_eq!(
        error.to_string(),
        "invalid value '' in '--nodes': relative URL without a base"
    );
    assert!(parse_node_addresses("").is_err());
}

#[test]
fn node_address_rules() {
    assert!(is_dummy("dummy"));
    assert!(!is_dummy("Dummy"));
    assert!(!is_dummy("dummy "));
    assert_eq!(
        accept_node_url("x", url("https", "https://x/")),
        Ok(NodeAddress::Url("https://x/".to_string()))
    );
    assert_eq!(
        accept_node_url("x", url("httpx", "httpx://x/")),
        Err(ArgError::NodeScheme { scheme: "httpx".to_string() })
    );
    assert_eq!(
        accept_node_url("x", Err("bad".to_string())),
        Err(ArgError::NodeUrl { addr: "x".to_string(), error: "bad".to_string() })
    );
}

#[test]
fn text_is_split() {
    for text in ["", ",", "a", "a,b", ",a,,b,", "\u{e9},x"] {
        let expected: Vec<&str> = text.split(',').collect();
        assert_eq!(split(text, ','), expected);
        assert_eq!(split(text, ',').join(","), text);
    }
    assert!(equal("\u{e9}a", "\u{e9}a"));
    assert!(!equal("a", "ab"));
    assert!(!equal("ab", "aB"));
}

#[test]
fn nodes_by_number() {
    let nodes = Nodes { conn_pools: vec!["a", "b"] };
    assert_eq!(nodes.size(), 2);
    assert_eq!(nodes.get(NodeId(0)), Ok(&"a"));
    assert_eq!(nodes.get(NodeId(1)), Ok(&"b"));
    let error = nodes.get(NodeId(2)).unwrap_err();
    assert_eq!(error, OutOfRange { id: NodeId(2), size: 2 });
    assert_eq!(error.to_string(), "Node id 2 is out of range (1 - 2)");
}

#[test]
fn log_of_transactions() {
    let mut log = XactLog::new();
    assert_eq!(log.tail(), None);
    log.append(vec![1]);
    log.append(vec![2, 3]);
    assert_eq!(log.tail(), Some(&vec![2, 3]));
    assert_eq!(log.log, [vec![1], vec![2, 3]]);

    let manager = LocalLogManager::new("127.0.0.1:9000");
    assert_eq!(manager.addr, "127.0.0.1:9000");
    assert_eq!(manager.xact_log, XactLog::new());
    assert_eq!(RemoteLogsManager::new(vec!["a", "b"]).peers, ["a", "b"]);
}

#[test]
fn subscribers_get_all_new_entries() {
    let mut log = XactLog::new();
    let send = |next: usize, data: &[u8]| {
        (next, ReplicationStep::Send(LogEntry { data: data.to_vec() }))
    };
    assert_eq!(replicate(&log, 0, ReplicationEvent::Appended), (0, ReplicationStep::Wait));

    // Entries that come between two wake-ups are all sent, in their order.
    log.append(vec![1]);
    log.append(vec![2, 3]);
    assert_eq!(replicate(&log, 0, ReplicationEvent::Appended), send(1, &[1]));
    assert_eq!(replicate(&log, 1, ReplicationEvent::Sent(true)), send(2, &[2, 3]));

    // So is one that comes while the subscriber is served.
    log.append(vec![4]);
    assert_eq!(replicate(&log, 2, ReplicationEvent::Sent(true)), send(3, &[4]));
    assert_eq!(replicate(&log, 3, ReplicationEvent::Sent(true)), (3, ReplicationStep::Wait));
    assert_eq!(replicate(&log, 3, ReplicationEvent::Appended), (3, ReplicationStep::Wait));

    for event in [
        ReplicationEvent::Sent(false),
        ReplicationEvent::LogClosed,
        ReplicationEvent::SubscriberClosed,
    ] {
        assert_eq!(replicate(&log, 1, event), (1, ReplicationStep::Stop));
    }
}

#[test]
fn votes_and_messages() {
    let err = DbError {
        code: b"23505".to_vec(),
        severity: "ERROR".to_string(),
        message: "m".to_string(),
        detail: "d".to_string(),
        hint: "h".to_string(),
    };
    let message = VoteMessage {
        from: 4,
        xact_id: 1,
        rollback_reason: Some(vote_message::RollbackReason::Db(err.clone())),
    };
    let reason = RollbackReason::Db(err);
    assert_eq!(Vote::from(message), Vote::no(NodeId(4), reason.clone()));
    let message = VoteMessage { from: 4, xact_id: 1, rollback_reason: None };
    assert_eq!(Vote::from(message), Vote::yes(NodeId(4)));
    let back = RollbackReason::from(vote_message::RollbackReason::from(&reason));
    assert_eq!(back, reason);
    let words = RollbackReason::Other("w".to_string());
    let back = RollbackReason::from(vote_message::RollbackReason::from(&words));
    assert_eq!(back, words);
}

#[test]
fn subscriptions_start_anew() {
    assert_eq!(next_action(SubscriptionEvent::Slept), SubscriptionAction::Connect);
    assert_eq!(next_action(SubscriptionEvent::Connected(true)), SubscriptionAction::Subscribe);
    assert_eq!(next_action(SubscriptionEvent::Subscribed(true)), SubscriptionAction::Receive);
    let entry = LogEntry { data: vec![1, 2, 3] };
    assert_eq!(
        next_action(SubscriptionEvent::Received(Some(entry))),
        SubscriptionAction::Take(Bytes::from(vec![1, 2, 3]))
    );
    for event in [
        SubscriptionEvent::Connected(false),
        SubscriptionEvent::Subscribed(false),
        SubscriptionEvent::Received(None),
    ] {
        assert_eq!(next_action(event), SubscriptionAction::Sleep);
    }
}

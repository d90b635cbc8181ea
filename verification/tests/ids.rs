use std::str::FromStr;
use xactserver::id::NodeIdParseError;
use xactserver::{NodeId, XactId, DEFAULT_NODE_PORT};

#[test]
fn xact_id_parts() {
    let id = XactId::new(7, NodeId(3));
    assert_eq!(id, XactId(7 * 4294967296 + 3));
    assert_eq!(id.counter(), 7);
    assert_eq!(id.node_id(), NodeId(3));
    let largest = XactId::new(u32::MAX, NodeId(u32::MAX));
    assert_eq!(u64::from(largest), u64::MAX);
    assert_eq!(largest.counter(), u32::MAX);
    assert_eq!(largest.node_id(), NodeId(u32::MAX));
    assert_eq!(XactId::from(0), XactId::invalid());
}

#[test]
fn xact_id_text() {
    let id = XactId::new(120, NodeId(45));
    assert_eq!(id.to_string(), "(120,45)");
    assert_eq!(id.debug_string(), "XactId(120, NodeId(45))");
    assert_eq!(format!("{:?}", id), "XactId(120, NodeId(45))");
    assert_eq!(format!("[{:?}]", Some(id)), "[Some(XactId(120, NodeId(45)))]");
    assert_eq!(XactId(100).to_string(), "(0,100)");
    assert_eq!(XactId(u64::MAX).to_string(), "(4294967295,4294967295)");
}

#[test]
fn xact_ids_of_different_origin_differ() {
    let a = XactId::new(1, NodeId(11));
    let b = XactId::new(11, NodeId(1));
    assert_ne!(a, b);
    assert_ne!(a.to_string(), b.to_string());
    assert!(a < b);
    assert!(XactId::new(1, NodeId(1)) < a);
}

#[test]
fn node_id_conversions() {
    assert_eq!(u32::from(NodeId(9)), 9);
    assert_eq!(usize::from(NodeId(9)), 9);
    assert_eq!(NodeId::from(9u32), NodeId(9));
    assert_eq!(NodeId::from(9usize), NodeId(9));
    assert_eq!(NodeId::BIT_LENGTH, 32);
    assert_eq!(DEFAULT_NODE_PORT, 23000);
}

#[test]
fn node_id_text() {
    for n in [0, 1, 9, 10, 4711, u32::MAX] {
        let text = NodeId(n).to_string();
        assert_eq!(text, format!("{}", n));
        assert_eq!(NodeId::from_str(&text), Ok(NodeId(n)));
    }
    assert_eq!(NodeId::from_str("+7"), Ok(NodeId(7)));
    assert_eq!(NodeId::from_str("007"), Ok(NodeId(7)));
    for text in ["", "+", "-1", " 1", "1 ", "a", "4294967296", "99999999999999999999", "1+"] {
        assert_eq!(NodeId::from_str(text), Err(NodeIdParseError), "{:?}", text);
        assert!(text.parse::<u32>().is_err());
    }
}

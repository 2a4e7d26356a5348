use loopmaster::network::addresses::{
    is_rfc1918, keep_reachable, local_ipv4_addresses, show_address, Ipv4,
};
use loopmaster::network::identity::{
    default_device_name, NodeIdentity, NodeMeta, CAPS_VBAN_AUDIO, CAPS_WEBRTC_MONITOR, TXT_NAME,
    TXT_NODE_ID,
};
use loopmaster::network::nodes::{
    NetworkDiscovery, NetworkEvent, NodeInfo, NodeProjector, ServiceNotice, ServiceRecord,
};

fn ip(a: u8, b: u8, c: u8, d: u8) -> Ipv4 {
    Ipv4 { a, b, c, d }
}

#[test]
fn generates_unique_node_ids() {
    let a = NodeIdentity::generate(None).unwrap();
    let b = NodeIdentity::generate(None).unwrap();
    assert_ne!(a.node_id, b.node_id);
    assert_eq!(a.node_id.len(), 36);
    assert!(a.node_id.chars().filter(|c| *c == '-').count() == 4);
}

#[test]
fn an_identity_is_made_of_the_bytes_drawn() {
    let drawn = NodeIdentity::with_drawn_id(Some(vec![0xff; 16]), Some("Studio-PC".into()));
    let identity = drawn.unwrap();
    assert_eq!(identity.node_id, "ffffffff-ffff-4fff-bfff-ffffffffffff");
    assert_eq!(identity.device_name, "Studio-PC");
    assert!(NodeIdentity::with_drawn_id(None, None).is_none());
}

#[test]
fn instance_name_uses_short_node_id() {
    let identity = NodeIdentity {
        node_id: "a1b2c3d4-e5f6-4a7b-8c9d-0123456789ab".to_owned(),
        device_name: "Studio-PC".to_owned(),
    };
    assert_eq!(identity.instance_name(), "LoopMaster-a1b2c3d4");
}

#[test]
fn txt_metadata_round_trips() {
    let meta = NodeMeta {
        node_id: "a1b2c3d4-e5f6-4a7b-8c9d-0123456789ab".to_owned(),
        name: "Studio-PC".to_owned(),
        version: "1.0.0".to_owned(),
        web_port: 8920,
        sample_rate: 48_000,
        channels: 2,
        caps: format!("{CAPS_VBAN_AUDIO},{CAPS_WEBRTC_MONITOR}"),
    };
    let txt = meta.to_txt();
    let props: Vec<(&str, &str)> = txt.iter().map(|(k, v)| (k.as_str(), v.as_str())).collect();
    let decoded = NodeMeta::from_txt_props(
        props.iter().find(|(k, _)| *k == TXT_NODE_ID).map(|(_, v)| *v),
        &props,
    )
    .unwrap();
    assert_eq!(decoded, meta);
}

#[test]
fn from_txt_props_missing_node_id_returns_none() {
    let props = vec![("name", "x")];
    assert!(NodeMeta::from_txt_props(None, &props).is_none());
}

#[test]
fn from_txt_props_defaults_missing_numerics() {
    let props = vec![(TXT_NODE_ID, "abc"), (TXT_NAME, "x")];
    let meta = NodeMeta::from_txt_props(Some("abc"), &props).unwrap();
    assert_eq!(meta.web_port, 0);
    assert_eq!(meta.sample_rate, 48_000);
    assert_eq!(meta.channels, 2);
}

#[test]
fn default_device_name_is_non_empty() {
    assert!(!default_device_name(None).is_empty());
    assert_eq!(default_device_name(Some("Studio-PC".into())), "Studio-PC");
}

fn node(id: &str, port: u16) -> NodeInfo {
    NodeInfo {
        node_id: id.to_owned(),
        name: "x".to_owned(),
        addresses: Vec::new(),
        port,
        sample_rate: 48_000,
        channels: 2,
        caps: String::new(),
    }
}

#[test]
fn node_info_defaults_are_sane() {
    let info = node("abc", 6980);
    assert_eq!(info.port, 6980);
    assert_eq!(info.sample_rate, 48_000);
    assert_eq!(info.channels, 2);
}

#[test]
fn local_ipv4_addresses_are_unique_and_valid() {
    let found = [
        ip(127, 0, 0, 1),
        ip(8, 8, 8, 8),
        ip(192, 168, 1, 10),
        ip(169, 254, 3, 4),
        ip(192, 168, 1, 10),
        ip(10, 0, 0, 2),
    ];
    let shown = local_ipv4_addresses(&found);
    for address in &shown {
        assert_eq!(address.split('.').map(|part| part.parse::<u8>().unwrap()).count(), 4);
    }
    let mut different = shown.clone();
    different.sort();
    different.dedup();
    assert_eq!(different.len(), shown.len());
    assert_eq!(shown.len(), 3);
    assert_eq!(shown[2], "8.8.8.8");
}

#[test]
fn addresses_on_private_nets_are_told() {
    assert!(is_rfc1918(ip(10, 1, 2, 3)));
    assert!(is_rfc1918(ip(172, 16, 0, 1)));
    assert!(is_rfc1918(ip(172, 31, 0, 1)));
    assert!(is_rfc1918(ip(192, 168, 0, 1)));
    assert!(!is_rfc1918(ip(172, 32, 0, 1)));
    assert_eq!(show_address(ip(192, 168, 0, 1)), "192.168.0.1");
    assert!(keep_reachable(&[ip(127, 0, 0, 1)]).is_empty());
}

#[test]
fn services_are_projected_to_nodes() {
    let mut projector = NodeProjector::new();
    let record = ServiceRecord {
        fullname: "LoopMaster-abc._loopmaster-vban._udp.local.".into(),
        node_id: Some("abc".into()),
        name: Some("Studio".into()),
        sample_rate: Some("44100".into()),
        channels: None,
        caps: None,
        addresses: vec![ip(192, 168, 1, 9)],
        port: 6980,
    };
    match projector.project(ServiceNotice::Resolved(record)) {
        Some(NetworkEvent::NodeResolved(node)) => {
            assert_eq!(node.node_id, "abc");
            assert_eq!(node.name, "Studio");
            assert_eq!(node.sample_rate, 44_100);
            assert_eq!(node.channels, 2);
        }
        other => panic!("{other:?}"),
    }
    assert_eq!(projector.project(ServiceNotice::Other), None);
    assert_eq!(
        projector.project(ServiceNotice::Removed(
            "LoopMaster-abc._loopmaster-vban._udp.local.".into()
        )),
        Some(NetworkEvent::NodeRemoved("abc".into()))
    );
    assert_eq!(projector.project(ServiceNotice::Removed("unknown".into())), None);
}

#[test]
fn the_directory_follows_the_events() {
    let discovery = NetworkDiscovery::new()
        .apply(&NetworkEvent::NodeResolved(node("abc", 6980)))
        .apply(&NetworkEvent::NodeResolved(node("def", 6980)))
        .apply(&NetworkEvent::NodeResolved(node("abc", 7000)))
        .apply(&NetworkEvent::NodeRemoved("def".into()));
    let nodes = discovery.snapshot();
    assert_eq!(nodes.len(), 1);
    assert_eq!(nodes[0].port, 7000);
    let discovery = discovery.start_advertiser(true);
    assert!(discovery.is_advertising());
    assert!(!discovery.stop_advertiser().is_advertising());
}

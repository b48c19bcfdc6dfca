use ag_unlocker::gate_host::{own_answer, LoopbackNotes};
use ag_unlocker::dns_client::question_type;
use ag_unlocker::interface::{EgressCache, Learned, EGRESS_RETRY, EGRESS_TTL};
use ag_unlocker::network::network_fingerprint;
use ag_unlocker::relay_log::{human_minutes, LISTEN_IP};
use ag_unlocker::time::{Moment, Span};
use ag_unlocker::version::{parse_version, RELAY_VERSION};
use ag_unlocker::warm::{ANSWER_TTL, WARM_EVERY};

const GATE_HOSTS: [&str; 2] = [
    "cloudcode-pa.googleapis.com",
    "daily-cloudcode-pa.googleapis.com",
];

fn build_query(name: &str, id: u16) -> Vec<u8> {
    let mut query = vec![];
    query.extend_from_slice(&id.to_be_bytes());
    query.extend_from_slice(&[0x01, 0x00, 0x00, 0x01, 0, 0, 0, 0, 0, 0]);
    for label in name.split('.') {
        query.push(label.len() as u8);
        query.extend_from_slice(label.as_bytes());
    }
    query.extend_from_slice(&[0, 0x00, 0x01, 0x00, 0x01]);
    query
}

fn after(secs: u64) -> Moment {
    Moment::after_origin(Span::from_secs(secs))
}

#[test]
fn a_gate_hosts_aaaa_and_https_questions_get_an_empty_answer() {
    for qtype in [28u8, 64, 65] {
        let mut q = build_query("daily-cloudcode-pa.googleapis.com", 9);
        let n = q.len();
        q[n - 3] = qtype;
        let r = own_answer(
            &q,
            "daily-cloudcode-pa.googleapis.com",
            &GATE_HOSTS,
            Some([127, 0, 0, 54]),
            30,
            &mut LoopbackNotes::new(),
            after(1),
        )
        .expect("answered")
        .reply;
        // No answer is counted, and nothing stands behind the question.
        assert_eq!(&r[6..8], &[0, 0], "qtype {qtype}");
        assert_eq!(r.len(), q.len(), "qtype {qtype}");
        assert_eq!(question_type(&r), Some(qtype as u16));
    }
    // Not a gate host: relayed as before.
    let mut q = build_query("storage.googleapis.com", 9);
    let n = q.len();
    q[n - 3] = 28;
    assert!(own_answer(
        &q,
        "storage.googleapis.com",
        &GATE_HOSTS,
        None,
        30,
        &mut LoopbackNotes::new(),
        after(1)
    )
    .is_none());
}

#[test]
fn the_network_fingerprint_is_never_the_unset_value_and_tells_networks_apart() {
    let a = network_fingerprint(27, Some(27), false);
    let b = network_fingerprint(27, Some(55), true);
    let c = network_fingerprint(27, Some(27), true);
    assert_ne!(a, 0);
    assert_ne!(network_fingerprint(0, None, false), 0);
    assert_ne!(a, b);
    assert_ne!(a, c);
    assert_eq!(a, network_fingerprint(27, Some(27), false));
}

#[test]
fn a_penalty_reads_in_minutes_or_hours() {
    assert_eq!(human_minutes(Span::from_secs(600)), "10 мин");
    assert_eq!(human_minutes(Span::from_secs(3600)), "1 ч");
    assert_eq!(human_minutes(Span::from_secs(6 * 3600)), "6 ч");
    assert_eq!(human_minutes(Span::from_secs(90 * 60)), "90 мин");
}

/// A relay that predates versioning leaves no file, and it must read as older
/// than this build rather than as "no relay" or as a parse error nobody handles.
#[test]
fn an_unreadable_version_is_the_oldest_one() {
    assert_eq!(parse_version(None), 0);
    assert_eq!(parse_version(Some("")), 0);
    assert_eq!(parse_version(Some("не число")), 0);
    assert_eq!(parse_version(Some(" 7 \r\n")), 7);
    assert!(parse_version(None) < RELAY_VERSION);
}

/// The warm loop has to refresh well inside the window the answer cache serves
/// from.
#[test]
fn warming_runs_more_often_than_an_answer_goes_stale() {
    assert!(WARM_EVERY < ANSWER_TTL);
}

#[test]
fn the_listener_address_is_loopback() {
    let parts: Vec<u8> = LISTEN_IP
        .split('.')
        .map(|p| p.parse().expect("valid address"))
        .collect();
    assert_eq!(parts.len(), 4);
    assert_eq!(parts[0], 127);
    // Not .1: something else on the machine may already own it.
    assert_ne!(parts, [127, 0, 0, 1]);
}

#[test]
fn a_detected_interface_is_cached_and_droppable() {
    let mut cache = EgressCache::new();
    cache.invalidate_interface();
    assert!(cache.entry.is_none());
    cache.entry = Some(Learned {
        index: 17,
        at: after(100),
        good_for: Span::from_secs(EGRESS_TTL),
    });
    // Served from the cache: no detection is asked for.
    assert_eq!(cache.isp_interface(after(100)), Some(17));
    cache.invalidate_interface();
    assert!(cache.entry.is_none());
}

/// An expired entry must not be served - that is what makes the short retry
/// after a failed detection actually retry.
#[test]
fn an_expired_entry_is_not_served() {
    // Learned long ago, and only ever good for a moment.
    let cache = EgressCache {
        entry: Some(Learned {
            index: 17,
            at: after(100).checked_sub(Span::from_secs(60)).unwrap(),
            good_for: Span::from_secs(EGRESS_RETRY),
        }),
    };
    let stale = cache
        .entry
        .map(|e| e.at.elapsed(after(100)).as_nanos() >= e.good_for.as_nanos());
    assert_eq!(stale, Some(true));
    assert_eq!(cache.isp_interface(after(100)), None);
}

/// A failed detection has to be forgotten quickly: at logon it usually just
/// means the network is not up yet.
#[test]
fn a_failed_detection_is_remembered_only_briefly() {
    assert!(EGRESS_RETRY < EGRESS_TTL);
    assert!(EGRESS_RETRY <= 60);
}

use ag_unlocker::dns_client::{question_name, question_type, synth_reply, worth_relaying};
use ag_unlocker::gate_host::{is_gate_host, own_answer, query_name, LoopbackNotes};
use ag_unlocker::time::{Moment, Span};

fn query(name: &str, qtype: u16) -> Vec<u8> {
    let mut q = vec![0x12, 0x34, 0x01, 0x00, 0, 1, 0, 0, 0, 0, 0, 0];
    for label in name.split('.') {
        q.push(label.len() as u8);
        q.extend_from_slice(label.as_bytes());
    }
    q.push(0);
    q.extend_from_slice(&qtype.to_be_bytes());
    q.extend_from_slice(&[0, 1]);
    q
}

#[test]
fn the_question_is_read_from_its_bytes() {
    let q = query("daily-cloudcode-pa.googleapis.com", 28);
    assert_eq!(
        question_name(&q).as_deref(),
        Some("daily-cloudcode-pa.googleapis.com")
    );
    assert_eq!(question_type(&q), Some(28));
    assert_eq!(query_name(&q), "daily-cloudcode-pa.googleapis.com");
    // Cut short anywhere, there is no whole question.
    for n in 0..q.len() {
        assert_eq!(question_type(&q[..n]), None);
    }
    assert_eq!(query_name(&q[..20]), "?");
    // A label that is a pointer, or not ASCII.
    let mut bad = q.clone();
    bad[12] = 0xc0;
    assert_eq!(question_name(&bad), None);
    assert_eq!(question_type(&bad), None);
    let mut bad = q.clone();
    bad[13] = 0xff;
    assert_eq!(question_name(&bad), None);
    assert!(worth_relaying(12) && !worth_relaying(11));
}

#[test]
fn a_reply_carries_one_address() {
    let mut q = query("a.b", 1);
    q.extend_from_slice(&[0, 0, 41]);
    let r = synth_reply(&q, Some([127, 0, 0, 54]), 0x0102_0304).unwrap();
    let expected: Vec<u8> = [
        &[0x12, 0x34, 0x81, 0x80, 0, 1, 0, 1, 0, 0, 0, 0][..],
        &[1, b'a', 1, b'b', 0, 0, 1, 0, 1],
        &[0xc0, 0x0c, 0, 1, 0, 1, 1, 2, 3, 4, 0, 4, 127, 0, 0, 54],
    ]
    .concat();
    assert_eq!(r, expected);
    assert_eq!(synth_reply(&q[..14], None, 30), None);
}

const HOSTS: [&str; 1] = ["cloudcode-pa.googleapis.com"];

fn at(secs: u64) -> Moment {
    Moment::after_origin(Span::from_secs(secs))
}

#[test]
fn a_gate_host_is_answered_with_our_own_address() {
    let door = Some([127, 0, 0, 54]);
    let mut notes = LoopbackNotes::new();
    let name = "Cloudcode-PA.googleapis.com";
    let q = query(name, 1);
    let a = own_answer(&q, name, &HOSTS, door, 30, &mut notes, at(5)).unwrap();
    assert_eq!(
        a.line.as_deref(),
        Some("loopback     Cloudcode-PA.googleapis.com [наш маршрут]")
    );
    assert_eq!(&a.reply[a.reply.len() - 4..], [127, 0, 0, 54]);
    assert_eq!(&a.reply[..2], [0x12, 0x34]);
    // Answered again at once, but not said again.
    let a = own_answer(&q, name, &HOSTS, door, 30, &mut notes, at(6)).unwrap();
    assert_eq!(a.line, None);
    // Not while the listener is down, and nothing but the types we know.
    assert!(own_answer(&q, name, &HOSTS, None, 30, &mut notes, at(7)).is_none());
    let q = query(name, 16);
    assert!(own_answer(&q, name, &HOSTS, door, 30, &mut notes, at(7)).is_none());
    let q = query(name, 65);
    let a = own_answer(&q, name, &HOSTS, None, 30, &mut notes, at(9000)).unwrap();
    assert_eq!(a.line, None);
    assert_eq!(a.reply.len(), q.len());
    assert!(is_gate_host(&HOSTS, "CLOUDCODE-pa.googleapis.com"));
    assert!(!is_gate_host(&HOSTS, "cloudcode-pa.googleapis.com."));
}

#[test]
fn a_host_is_noted_once_in_half_an_hour() {
    let mut notes = LoopbackNotes::new();
    assert_eq!(
        notes.note_loopback("Cloudcode", at(5)).as_deref(),
        Some("loopback     Cloudcode [наш маршрут]")
    );
    assert_eq!(notes.note_loopback("cloudcode", at(1804)), None);
    assert!(notes.note_loopback("daily", at(1804)).is_some());
    assert!(notes.note_loopback("cloudCODE", at(1805)).is_some());
    assert_eq!(notes.note_loopback("cloudcode", at(1806)), None);
}

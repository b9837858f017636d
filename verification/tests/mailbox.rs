use bytes::Bytes;
use simple_paxos::connection::Connection;
use simple_paxos::error::{DecodeError, PaxosError, TransportError};
use simple_paxos::issue::{Issue, IssueType};
use simple_paxos::mailbox::{Mail, MailBox};
use std::cell::RefCell;
use std::collections::VecDeque;
use std::rc::Rc;

#[derive(Clone)]
struct Wire {
    local: String,
    inbox: Rc<RefCell<VecDeque<(String, Bytes)>>>,
    sent: Rc<RefCell<Vec<(String, Vec<u8>)>>>,
    refused: Rc<RefCell<Vec<String>>>,
}

impl Wire {
    fn new(local: &str) -> Wire {
        Wire {
            local: local.to_string(),
            inbox: Rc::new(RefCell::new(VecDeque::new())),
            sent: Rc::new(RefCell::new(Vec::new())),
            refused: Rc::new(RefCell::new(Vec::new())),
        }
    }

    fn arrive(&self, remote: &str, payload: &[u8]) {
        self.inbox.borrow_mut().push_back((remote.to_string(), Bytes::copy_from_slice(payload)));
    }
}

impl Connection for Wire {
    fn address(&self) -> String {
        self.local.clone()
    }

    fn send(&self, address: String, data: Bytes) -> Result<(String, String, usize), TransportError> {
        if self.refused.borrow().contains(&address) {
            return Err(TransportError::Send);
        }
        self.sent.borrow_mut().push((address.clone(), data.to_vec()));
        Ok((self.local.clone(), address, data.len()))
    }

    fn recv(&self) -> Result<(String, String, Bytes), TransportError> {
        match self.inbox.borrow_mut().pop_front() {
            Some((remote, data)) => Ok((self.local.clone(), remote, data)),
            None => Err(TransportError::Receive),
        }
    }
}

fn list(addresses: &[&str]) -> Vec<String> {
    addresses.iter().map(|a| a.to_string()).collect()
}

fn mail(from: &str, to: &[&str], content: &str, id: u64, kind: IssueType) -> Mail {
    Mail::new(from.to_string(), list(to), Issue::new(content.to_string(), id, kind))
}

#[test]
fn mail_getters_return_what_new_was_given() {
    let m = mail("a:1", &["b:1", "c:1"], "x", 3, IssueType::Proposal);
    assert_eq!(m.sender(), "a:1");
    assert_eq!(m.sender_ref(), "a:1");
    assert_eq!(m.receivers(), list(&["b:1", "c:1"]));
    assert!(m.body() == Issue::new("x".to_string(), 3, IssueType::Proposal));
    assert!(*m.body_ref() == Issue::new("x".to_string(), 3, IssueType::Proposal));
}

#[test]
fn mail_from_a_datagram_has_one_recipient() {
    let m = Mail::try_from(("from:1".to_string(), "to:1".to_string(), Bytes::from("v|4|yes")))
        .ok()
        .unwrap();
    assert_eq!(m.sender(), "from:1");
    assert_eq!(m.receivers(), list(&["to:1"]));
    assert!(m.body() == Issue::new("yes".to_string(), 4, IssueType::Vote));
}

#[test]
fn mail_from_a_sender_a_list_and_a_payload() {
    let m = Mail::try_from(("from:1".to_string(), list(&["x:1", "y:1"]), Bytes::from("p|4|t")))
        .ok()
        .unwrap();
    assert_eq!(m.receivers(), list(&["x:1", "y:1"]));
    assert!(m.body() == Issue::new("t".to_string(), 4, IssueType::Proposal));
    let bad = Mail::try_from(("from:1".to_string(), list(&["x:1"]), Bytes::from("p|x|t")));
    assert_eq!(bad.err(), Some(DecodeError::InvalidId));
}

#[test]
fn new_mailbox_is_empty() {
    let mut mailbox = MailBox::new(Wire::new("me:1"));
    assert_eq!(mailbox.inbound_len(), 0);
    assert_eq!(mailbox.outbound_len(), 0);
    assert_eq!(mailbox.get_mail().err(), Some(PaxosError::EmptyMailBox));
    assert_eq!(mailbox.connection().address(), "me:1");
}

#[test]
fn flush_sends_one_datagram_per_recipient_in_order() {
    let wire = Wire::new("me:1");
    let mut mailbox = MailBox::new(wire.clone());
    assert!(mailbox.put_mail(mail("me:1", &["a:1", "b:1"], "x", 1, IssueType::Proposal)).is_ok());
    assert!(mailbox.put_mail(mail("me:1", &[], "lost", 2, IssueType::Proposal)).is_ok());
    assert!(mailbox.put_mail(mail("me:1", &["c:1"], "y", 3, IssueType::Vote)).is_ok());
    assert_eq!(mailbox.outbound_len(), 3);
    let report = mailbox.flush();
    assert_eq!(mailbox.outbound_len(), 0);
    let expected = vec![
        ("a:1".to_string(), b"p|1|x".to_vec()),
        ("b:1".to_string(), b"p|1|x".to_vec()),
        ("c:1".to_string(), b"v|3|y".to_vec()),
    ];
    assert_eq!(*wire.sent.borrow(), expected);
    let handed: Vec<(String, Vec<u8>)> =
        report.iter().map(|d| (d.to.clone(), d.payload.to_vec())).collect();
    assert_eq!(handed, expected);
    assert!(report.iter().all(|d| d.outcome == Ok(5)));
    assert!(mailbox.flush().is_empty());
    assert_eq!(wire.sent.borrow().len(), 3);
}

#[test]
fn flush_goes_on_after_a_failure_and_reports_it() {
    let wire = Wire::new("me:1");
    wire.refused.borrow_mut().push("b:1".to_string());
    let mut mailbox = MailBox::new(wire.clone());
    mailbox.put_mail(mail("me:1", &["a:1", "b:1", "c:1"], "x", 1, IssueType::Proposal)).unwrap();
    let report = mailbox.flush();
    assert_eq!(report.len(), 3);
    assert_eq!(report[0].outcome, Ok(5));
    assert_eq!(report[1].outcome, Err(TransportError::Send));
    assert_eq!(report[1].to, "b:1");
    assert_eq!(report[2].outcome, Ok(5));
    assert_eq!(
        *wire.sent.borrow(),
        vec![("a:1".to_string(), b"p|1|x".to_vec()), ("c:1".to_string(), b"p|1|x".to_vec())]
    );
    assert_eq!(mailbox.outbound_len(), 0);
}

#[test]
fn take_outbound_gives_the_datagrams_and_empties_the_queue() {
    let mut mailbox = MailBox::new(Wire::new("me:1"));
    mailbox.put_mail(mail("me:1", &["a:1", "b:1"], "x", 10, IssueType::Resolution)).unwrap();
    let plan = mailbox.take_outbound();
    let plan: Vec<(String, Vec<u8>)> =
        plan.iter().map(|d| (d.to.clone(), d.payload.to_vec())).collect();
    assert_eq!(
        plan,
        vec![("a:1".to_string(), b"r|10|x".to_vec()), ("b:1".to_string(), b"r|10|x".to_vec())]
    );
    assert_eq!(mailbox.outbound_len(), 0);
    assert!(mailbox.take_outbound().is_empty());
}

#[test]
fn fill_puts_a_mail_from_the_remote_to_the_local_endpoint() {
    let wire = Wire::new("me:1");
    wire.arrive("peer:9", b"p|5|hello");
    let mut mailbox = MailBox::new(wire.clone());
    assert_eq!(mailbox.fill_msg_box(), Ok(()));
    assert_eq!(mailbox.inbound_len(), 1);
    let m = mailbox.get_mail().ok().unwrap();
    assert_eq!(m.sender(), "peer:9");
    assert_eq!(m.receivers(), list(&["me:1"]));
    assert!(m.body() == Issue::new("hello".to_string(), 5, IssueType::Proposal));
    assert_eq!(mailbox.inbound_len(), 0);
}

#[test]
fn fill_drops_a_datagram_that_is_no_issue() {
    let wire = Wire::new("me:1");
    wire.arrive("peer:9", b"p|1|kept");
    wire.arrive("peer:9", b"xxx");
    wire.arrive("peer:9", b"v|2|after");
    let mut mailbox = MailBox::new(wire.clone());
    assert_eq!(mailbox.fill_msg_box(), Ok(()));
    assert_eq!(mailbox.inbound_len(), 1);
    assert_eq!(
        mailbox.fill_msg_box(),
        Err(PaxosError::DecodeFailure(DecodeError::Framing))
    );
    assert_eq!(mailbox.inbound_len(), 1);
    assert_eq!(mailbox.outbound_len(), 0);
    assert_eq!(mailbox.fill_msg_box(), Ok(()));
    assert_eq!(mailbox.inbound_len(), 2);
    assert_eq!(mailbox.get_mail().ok().unwrap().body().content(), "kept");
    assert_eq!(mailbox.get_mail().ok().unwrap().body().content(), "after");
}

#[test]
fn fill_reports_a_transport_failure_and_changes_nothing() {
    let mut mailbox = MailBox::new(Wire::new("me:1"));
    assert_eq!(
        mailbox.fill_msg_box(),
        Err(PaxosError::TransportFailure(TransportError::Receive))
    );
    assert_eq!(mailbox.inbound_len(), 0);
}

#[test]
fn accept_takes_an_issue_and_refuses_anything_else() {
    let mut mailbox = MailBox::new(Wire::new("me:1"));
    assert_eq!(
        mailbox.accept("me:1".to_string(), "peer:1".to_string(), Bytes::from("r|3|ok")),
        Ok(())
    );
    assert_eq!(
        mailbox.accept("me:1".to_string(), "peer:1".to_string(), Bytes::from(vec![0xffu8])),
        Err(DecodeError::InvalidUtf8)
    );
    assert_eq!(
        mailbox.accept("me:1".to_string(), "peer:1".to_string(), Bytes::from("q|3|ok")),
        Err(DecodeError::UnknownKind)
    );
    assert_eq!(mailbox.inbound_len(), 1);
}

#[test]
fn inbound_is_first_in_first_out() {
    let mut mailbox = MailBox::new(Wire::new("me:1"));
    for id in 1..=5u64 {
        let frame = format!("v|{}|x", id);
        mailbox.accept("me:1".to_string(), "peer:1".to_string(), Bytes::from(frame)).unwrap();
    }
    for id in 1..=5u64 {
        assert_eq!(mailbox.get_mail().ok().unwrap().body().id(), id);
    }
    assert_eq!(mailbox.get_mail().err(), Some(PaxosError::EmptyMailBox));
}

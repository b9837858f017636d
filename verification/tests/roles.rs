use bytes::Bytes;
use simple_paxos::address_book::AddressBook;
use simple_paxos::api::CmdType;
use simple_paxos::connection::Connection;
use simple_paxos::error::{BackendError, DecodeError, PaxosError, TransportError, Violation};
use simple_paxos::issue::{Issue, IssueType};
use simple_paxos::logbackend::{HeapLogBackend, LogBackend, LogModel, Queryable, Writable};
use simple_paxos::mailbox::Mail;
use simple_paxos::roles::master::{reply_text, text_of, Reply};
use simple_paxos::roles::{Master, Worker};
use std::cell::RefCell;
use std::collections::VecDeque;
use std::rc::Rc;

const MASTER: &str = "localhost:5001";

#[derive(Clone)]
struct Wire {
    local: String,
    inbox: Rc<RefCell<VecDeque<(String, Bytes)>>>,
    sent: Rc<RefCell<Vec<(String, Vec<u8>)>>>,
}

impl Wire {
    fn new(local: &str) -> Wire {
        Wire {
            local: local.to_string(),
            inbox: Rc::new(RefCell::new(VecDeque::new())),
            sent: Rc::new(RefCell::new(Vec::new())),
        }
    }

    fn arrive(&self, remote: &str, payload: &str) {
        self.inbox.borrow_mut().push_back((remote.to_string(), Bytes::from(payload.to_string())));
    }

    fn sent(&self) -> Vec<(String, String)> {
        self.sent
            .borrow()
            .iter()
            .map(|(to, data)| (to.clone(), String::from_utf8(data.clone()).unwrap()))
            .collect()
    }
}

impl Connection for Wire {
    fn address(&self) -> String {
        self.local.clone()
    }

    fn send(&self, address: String, data: Bytes) -> Result<(String, String, usize), TransportError> {
        self.sent.borrow_mut().push((address.clone(), data.to_vec()));
        Ok((self.local.clone(), address, data.len()))
    }

    fn recv(&self) -> Result<(String, String, Bytes), TransportError> {
        match self.inbox.borrow_mut().pop_front() {
            Some((remote, data)) => Ok((self.local.clone(), remote, data)),
            None => Err(TransportError::Receive),
        }
    }
}

struct Broken;

impl LogModel for Broken {}

impl Writable for Broken {
    fn write(&mut self, _id: u64, _data: Bytes) -> Result<(), BackendError> {
        Err(BackendError::Storage)
    }
}

impl Queryable for Broken {
    fn query(&self, _id: u64) -> Result<Bytes, BackendError> {
        Err(BackendError::Unsupported)
    }
}

impl LogBackend for Broken {}

fn list(addresses: &[&str]) -> Vec<String> {
    addresses.iter().map(|a| a.to_string()).collect()
}

fn workers(n: usize) -> Vec<String> {
    (0..n).map(|k| format!("localhost:{}", 5005 + k)).collect()
}

fn master(n: usize) -> (Master<Wire, HeapLogBackend>, Wire) {
    let wire = Wire::new(MASTER);
    let mut book = AddressBook::new();
    book.insert("worker".to_string(), workers(n));
    (Master::new(MASTER.to_string(), book, wire.clone(), HeapLogBackend::new()), wire)
}

fn worker(address: &str) -> (Worker<Wire>, Wire) {
    let wire = Wire::new(address);
    let mut book = AddressBook::new();
    book.insert("master".to_string(), list(&[MASTER]));
    (Worker::new(address.to_string(), book, wire.clone()), wire)
}

fn vote(m: &mut Master<Wire, HeapLogBackend>, from: &str, id: u64, content: &str) {
    let frame = format!("v|{}|{}", id, content);
    m.deliver(MASTER.to_string(), from.to_string(), Bytes::from(frame)).unwrap();
}

fn proposal_from(from: &str, id: u64, content: &str) -> Mail {
    Mail::new(
        from.to_string(),
        list(&["localhost:5005"]),
        Issue::new(content.to_string(), id, IssueType::Proposal),
    )
}

#[test]
fn single_node_majority() {
    let (mut m, m_wire) = master(1);
    let (mut w, w_wire) = worker("localhost:5005");

    assert_eq!(m.emmit_new_proposal("hello".to_string()), Ok(1));
    assert_eq!(m.flush().len(), 1);
    assert_eq!(m_wire.sent(), vec![("localhost:5005".to_string(), "p|1|hello".to_string())]);

    w_wire.arrive(MASTER, "p|1|hello");
    assert_eq!(w.invoke().ok().unwrap().len(), 1);
    assert_eq!(w_wire.sent(), vec![(MASTER.to_string(), "v|1|hello".to_string())]);

    m_wire.arrive("localhost:5005", "v|1|hello");
    assert_eq!(m.receive(), Ok(()));
    assert_eq!(m.process_vote(), Ok(1));

    assert_eq!(m.log_backend().query(1), Ok(Bytes::from("hello")));
    assert_eq!(m.log_backend().history(1), vec![Bytes::from("hello")]);
    assert_eq!(m.get_log(1), Ok("hello".to_string()));
}

#[test]
fn two_of_three_quorum() {
    let (mut m, m_wire) = master(3);
    let id = m.emmit_new_proposal("x".to_string()).unwrap();
    m.flush();
    assert_eq!(
        m_wire.sent(),
        vec![
            ("localhost:5005".to_string(), "p|1|x".to_string()),
            ("localhost:5006".to_string(), "p|1|x".to_string()),
            ("localhost:5007".to_string(), "p|1|x".to_string()),
        ]
    );
    assert!(m.is_open(id));

    vote(&mut m, "localhost:5005", id, "x");
    assert_eq!(m.process_vote(), Err(PaxosError::NotEnoughVotes { id, votes: 1 }));
    assert!(m.is_open(id));
    assert_eq!(m.votes(id), Some(1));
    assert_eq!(m.get_log(id), Err(PaxosError::BackendFailure(BackendError::NotFound)));

    vote(&mut m, "localhost:5006", id, "x");
    assert_eq!(m.process_vote(), Ok(id));
    assert!(!m.is_open(id));
    assert_eq!(m.votes(id), None);
    assert_eq!(m.get_log(id), Ok("x".to_string()));

    vote(&mut m, "localhost:5007", id, "x");
    assert_eq!(m.process_vote(), Err(PaxosError::UnknownProposal { id }));
    assert_eq!(m.log_backend().history(id), vec![Bytes::from("x")]);
    assert_eq!(m.log_backend().len(), 1);
}

#[test]
fn duplicate_submit() {
    let (mut m, _wire) = master(1);
    let first = m.emmit_new_proposal("a".to_string()).unwrap();
    let second = m.emmit_new_proposal("a".to_string()).unwrap();
    assert_eq!((first, second), (1, 2));
    assert!(m.is_open(1) && m.is_open(2));
    vote(&mut m, "localhost:5005", 1, "a");
    vote(&mut m, "localhost:5005", 2, "a");
    assert_eq!(m.process_vote(), Ok(1));
    assert_eq!(m.process_vote(), Ok(2));
    assert_eq!(m.get_log(1), Ok("a".to_string()));
    assert_eq!(m.get_log(2), Ok("a".to_string()));
    assert_eq!(m.log_backend().len(), 2);
}

#[test]
fn worker_anti_replay() {
    let (mut w, wire) = worker("localhost:5005");
    wire.arrive(MASTER, "p|7|seven");
    assert!(w.invoke().is_ok());
    assert_eq!(w.last_proposal_id(), 7);
    let sent_before = wire.sent().len();

    wire.arrive(MASTER, "p|7|seven");
    assert_eq!(w.invoke().err(), Some(PaxosError::ExpiredProposal { id: 7, last: 7 }));
    assert_eq!(wire.sent().len(), sent_before);
    assert_eq!(w.mail_box().outbound_len(), 0);
    assert_eq!(w.last_proposal_id(), 7);

    wire.arrive(MASTER, "p|8|eight");
    assert!(w.invoke().is_ok());
    assert_eq!(w.last_proposal_id(), 8);
    assert_eq!(wire.sent().last(), Some(&(MASTER.to_string(), "v|8|eight".to_string())));
}

#[test]
fn wrong_role_message() {
    let (mut w, wire) = worker("localhost:5005");
    wire.arrive(MASTER, "p|3|three");
    w.invoke().ok().unwrap();
    let sent_before = wire.sent();

    wire.arrive(MASTER, "v|9|nine");
    assert_eq!(
        w.invoke().err(),
        Some(PaxosError::ProtocolViolation(Violation::WrongKind))
    );
    assert_eq!(w.last_proposal_id(), 3);
    assert_eq!(w.mail_box().outbound_len(), 0);
    assert_eq!(w.mail_box().inbound_len(), 0);
    assert_eq!(wire.sent(), sent_before);
}

#[test]
fn codec_failure() {
    let (mut w, wire) = worker("localhost:5005");
    wire.arrive(MASTER, "xxx");
    wire.arrive(MASTER, "p|1|next");
    assert_eq!(w.receive(), Err(PaxosError::DecodeFailure(DecodeError::Framing)));
    assert_eq!(w.mail_box().inbound_len(), 0);
    assert_eq!(w.receive(), Ok(()));
    assert_eq!(w.mail_box().inbound_len(), 1);

    let (mut m, m_wire) = master(1);
    m_wire.arrive("localhost:5005", "xxx");
    assert_eq!(m.receive(), Err(PaxosError::DecodeFailure(DecodeError::Framing)));
    assert_eq!(m.mail_box().inbound_len(), 0);
    assert_eq!(
        m.deliver(MASTER.to_string(), "localhost:5005".to_string(), Bytes::from("xxx")),
        Err(PaxosError::DecodeFailure(DecodeError::Framing))
    );
    assert_eq!(m.mail_box().inbound_len(), 0);
}

#[test]
fn lib_test_1() {
    let mut addr_book = AddressBook::new();

    addr_book.insert("president".to_string(), vec!["localhost:5001".to_string()]);
    addr_book.insert("proposer".to_string(), vec!["localhost:5002".to_string()]);
    addr_book.insert("secretary".to_string(), vec!["localhost:5003".to_string()]);
    addr_book.insert(
        "senator".to_string(),
        vec![
            "localhost:5005".to_string(),
            "localhost:5006".to_string(),
            "localhost:5007".to_string(),
        ],
    );

    let wire = Wire::new("localhost:5001");
    let mut president =
        Master::new("localhost:5001".to_string(), addr_book, wire.clone(), HeapLogBackend::new());

    let proposer_emmit_issue = president.emmit_new_proposal("test-msg:A".to_string());
    assert!(proposer_emmit_issue.is_ok());
    assert_eq!(president.flush().len(), 3);
    assert_eq!(wire.sent()[0], ("localhost:5005".to_string(), "p|1|test-msg:A".to_string()));

    println!("{:?}", president.get_log(0));
    assert_eq!(president.get_log(0), Err(PaxosError::BackendFailure(BackendError::NotFound)));
}

#[test]
fn quorum_is_a_strict_majority() {
    for (senators, quorum) in [(0, 1), (1, 1), (2, 2), (3, 2), (4, 3), (5, 3), (6, 4), (7, 4)] {
        let (m, _wire) = master(senators);
        assert_eq!(m.senators(), senators);
        assert_eq!(m.quorum(), quorum);
    }
}

#[test]
fn one_vote_commits_among_one_senator() {
    let (mut m, _wire) = master(1);
    m.emmit_new_proposal("only".to_string()).unwrap();
    vote(&mut m, "localhost:5005", 1, "only");
    assert_eq!(m.process_vote(), Ok(1));
}

#[test]
fn one_vote_never_commits_among_two_senators() {
    let (mut m, _wire) = master(2);
    m.emmit_new_proposal("pair".to_string()).unwrap();
    vote(&mut m, "localhost:5005", 1, "pair");
    assert_eq!(m.process_vote(), Err(PaxosError::NotEnoughVotes { id: 1, votes: 1 }));
    assert_eq!(m.process_vote(), Err(PaxosError::EmptyMailBox));
    assert_eq!(m.get_log(1), Err(PaxosError::BackendFailure(BackendError::NotFound)));
    vote(&mut m, "localhost:5006", 1, "pair");
    assert_eq!(m.process_vote(), Ok(1));
}

#[test]
fn vote_before_its_proposal_is_unknown() {
    let (mut m, _wire) = master(1);
    vote(&mut m, "localhost:5005", 1, "early");
    assert_eq!(m.process_vote(), Err(PaxosError::UnknownProposal { id: 1 }));
    assert_eq!(m.emmit_new_proposal("early".to_string()), Ok(1));
    assert_eq!(m.get_log(1), Err(PaxosError::BackendFailure(BackendError::NotFound)));
}

#[test]
fn lost_proposal_never_commits_and_a_resubmit_may() {
    let (mut m, _wire) = master(3);
    assert_eq!(m.emmit_new_proposal("text".to_string()), Ok(1));
    vote(&mut m, "localhost:5005", 1, "text");
    assert_eq!(m.drain(), vec![Err(PaxosError::NotEnoughVotes { id: 1, votes: 1 })]);
    assert_eq!(m.get_log(1), Err(PaxosError::BackendFailure(BackendError::NotFound)));

    assert_eq!(m.emmit_new_proposal("text".to_string()), Ok(2));
    vote(&mut m, "localhost:5005", 2, "text");
    vote(&mut m, "localhost:5007", 2, "text");
    assert_eq!(
        m.drain(),
        vec![Err(PaxosError::NotEnoughVotes { id: 2, votes: 1 }), Ok(2)]
    );
    assert_eq!(m.get_log(2), Ok("text".to_string()));
    assert_eq!(m.get_log(1), Err(PaxosError::BackendFailure(BackendError::NotFound)));
    assert!(m.is_open(1));
}

#[test]
fn vote_with_another_text_counts_for_no_proposal() {
    let (mut m, _wire) = master(1);
    m.emmit_new_proposal("right".to_string()).unwrap();
    vote(&mut m, "localhost:5005", 1, "wrong");
    assert_eq!(m.process_vote(), Err(PaxosError::UnknownProposal { id: 1 }));
    assert!(m.is_open(1));
    assert_eq!(m.votes(1), Some(0));
}

#[test]
fn master_drops_what_is_no_vote_of_a_worker() {
    let (mut m, _wire) = master(3);
    m.emmit_new_proposal("x".to_string()).unwrap();
    m.deliver(MASTER.to_string(), "localhost:5005".to_string(), Bytes::from("p|1|x")).unwrap();
    m.deliver(MASTER.to_string(), "localhost:5005".to_string(), Bytes::from("r|1|x")).unwrap();
    m.deliver(MASTER.to_string(), "localhost:9999".to_string(), Bytes::from("v|1|x")).unwrap();
    m.deliver(MASTER.to_string(), MASTER.to_string(), Bytes::from("v|1|x")).unwrap();
    assert_eq!(
        m.drain(),
        vec![
            Err(PaxosError::ProtocolViolation(Violation::WrongKind)),
            Err(PaxosError::ProtocolViolation(Violation::WrongKind)),
            Err(PaxosError::ProtocolViolation(Violation::WrongSender)),
            Err(PaxosError::ProtocolViolation(Violation::WrongSender)),
        ]
    );
    assert_eq!(m.votes(1), Some(0));
    assert_eq!(m.mail_box().inbound_len(), 0);
}

#[test]
fn master_counter_starts_at_zero_and_goes_up_by_one() {
    let (mut m, _wire) = master(1);
    assert_eq!(m.last_id(), 0);
    for expected in 1..=5u64 {
        assert_eq!(m.emmit_new_proposal(format!("entry {}", expected)), Ok(expected));
        assert_eq!(m.last_id(), expected);
    }
    assert_eq!(m.mail_box().outbound_len(), 5);
}

#[test]
fn master_without_workers_queues_no_mail() {
    let wire = Wire::new(MASTER);
    let mut m =
        Master::new(MASTER.to_string(), AddressBook::new(), wire.clone(), HeapLogBackend::new());
    assert_eq!(m.emmit_new_proposal("alone".to_string()), Ok(1));
    assert_eq!(m.mail_box().outbound_len(), 0);
    assert!(m.is_open(1));
    assert_eq!(m.senators(), 0);
    assert_eq!(m.quorum(), 1);
}

#[test]
fn a_failing_backend_leaves_the_proposal_open_and_records_nothing() {
    let wire = Wire::new(MASTER);
    let mut book = AddressBook::new();
    book.insert("worker".to_string(), workers(1));
    let mut m = Master::new(MASTER.to_string(), book, wire, Broken);
    m.emmit_new_proposal("x".to_string()).unwrap();
    m.deliver(MASTER.to_string(), "localhost:5005".to_string(), Bytes::from("v|1|x")).unwrap();
    assert_eq!(m.process_vote(), Err(PaxosError::BackendFailure(BackendError::Storage)));
    assert!(m.is_open(1));
    assert_eq!(m.votes(1), Some(0));
    assert_eq!(m.get_log(1), Err(PaxosError::BackendFailure(BackendError::Unsupported)));
    m.deliver(MASTER.to_string(), "localhost:5005".to_string(), Bytes::from("v|1|x")).unwrap();
    assert_eq!(m.process_vote(), Err(PaxosError::BackendFailure(BackendError::Storage)));
    assert!(m.is_open(1));
}

#[test]
fn get_log_says_when_an_entry_is_no_text() {
    let wire = Wire::new(MASTER);
    let mut backend = HeapLogBackend::new();
    backend.write(4, Bytes::from(vec![0xffu8, 0xfe])).unwrap();
    backend.write(5, Bytes::from("old")).unwrap();
    backend.write(5, Bytes::from("new")).unwrap();
    let m = Master::new(MASTER.to_string(), AddressBook::new(), wire, backend);
    assert_eq!(m.get_log(4), Err(PaxosError::DecodeFailure(DecodeError::InvalidUtf8)));
    assert_eq!(m.get_log(5), Ok("new".to_string()));
}

#[test]
fn text_of_turns_what_was_found_into_an_answer() {
    assert_eq!(text_of(Ok(Bytes::from("caf\u{e9}"))), Ok("caf\u{e9}".to_string()));
    assert_eq!(
        text_of(Ok(Bytes::from(vec![0x80u8]))),
        Err(PaxosError::DecodeFailure(DecodeError::InvalidUtf8))
    );
    assert_eq!(
        text_of(Err(BackendError::NotFound)),
        Err(PaxosError::BackendFailure(BackendError::NotFound))
    );
}

#[test]
fn tick_carries_out_the_command_drains_and_flushes() {
    let (mut m, wire) = master(3);
    let report = m.tick(Some(CmdType::Log("x".to_string())));
    assert!(matches!(report.command, Some(Ok(Reply::Proposed(1)))));
    assert!(report.votes.is_empty());
    assert_eq!(report.deliveries.len(), 3);
    assert_eq!(wire.sent().len(), 3);

    vote(&mut m, "localhost:5005", 1, "x");
    vote(&mut m, "localhost:5006", 1, "x");
    vote(&mut m, "localhost:5007", 1, "x");
    let report = m.tick(None);
    assert!(report.command.is_none());
    assert_eq!(
        report.votes,
        vec![
            Err(PaxosError::NotEnoughVotes { id: 1, votes: 1 }),
            Ok(1),
            Err(PaxosError::UnknownProposal { id: 1 }),
        ]
    );
    assert!(report.deliveries.is_empty());
    assert_eq!(m.mail_box().inbound_len(), 0);

    let report = m.tick(Some(CmdType::Query(1)));
    match report.command {
        Some(Ok(Reply::Found(text))) => assert_eq!(text, "x"),
        _ => panic!("the entry was recorded"),
    }
    let report = m.tick(Some(CmdType::Query(2)));
    assert!(matches!(
        report.command,
        Some(Err(PaxosError::BackendFailure(BackendError::NotFound)))
    ));
}

#[test]
fn tick_answers_a_query_before_it_counts_the_votes_that_wait() {
    let (mut m, _wire) = master(1);
    m.emmit_new_proposal("x".to_string()).unwrap();
    vote(&mut m, "localhost:5005", 1, "x");
    let report = m.tick(Some(CmdType::Query(1)));
    assert!(matches!(
        report.command,
        Some(Err(PaxosError::BackendFailure(BackendError::NotFound)))
    ));
    assert_eq!(report.votes, vec![Ok(1)]);
    assert_eq!(m.get_log(1), Ok("x".to_string()));
}

#[test]
fn worker_process_follows_the_rules_in_order() {
    let (mut w, _wire) = worker("localhost:5005");
    let vote = w.process(&proposal_from(MASTER, 2, "two")).ok().unwrap();
    assert_eq!(vote.sender(), "localhost:5005");
    assert_eq!(vote.receivers(), list(&[MASTER]));
    assert!(vote.body() == Issue::new("two".to_string(), 2, IssueType::Vote));
    assert_eq!(w.last_proposal_id(), 2);

    assert_eq!(
        w.process(&proposal_from(MASTER, 1, "one")).err(),
        Some(PaxosError::ExpiredProposal { id: 1, last: 2 })
    );
    assert_eq!(
        w.process(&proposal_from("localhost:6000", 9, "nine")).err(),
        Some(PaxosError::ProtocolViolation(Violation::WrongSender))
    );
    assert_eq!(
        w.process(&proposal_from("localhost:6000", 1, "one")).err(),
        Some(PaxosError::ProtocolViolation(Violation::WrongSender))
    );
    let resolution = Mail::new(
        "localhost:6000".to_string(),
        list(&["localhost:5005"]),
        Issue::new("r".to_string(), 9, IssueType::Resolution),
    );
    assert_eq!(
        w.process(&resolution).err(),
        Some(PaxosError::ProtocolViolation(Violation::WrongKind))
    );
    assert_eq!(w.last_proposal_id(), 2);
}

#[test]
fn worker_votes_go_up_whatever_arrives() {
    let (mut w, wire) = worker("localhost:5005");
    for id in [3u64, 1, 3, 5, 4, 5, 9, 2, 10] {
        wire.arrive(MASTER, &format!("p|{}|x", id));
        let _ = w.invoke();
    }
    let voted: Vec<String> = wire.sent().into_iter().map(|(_, frame)| frame).collect();
    assert_eq!(voted, vec!["v|3|x", "v|5|x", "v|9|x", "v|10|x"]);
    assert_eq!(w.last_proposal_id(), 10);
}

#[test]
fn worker_vote_on_an_empty_mailbox_changes_nothing() {
    let (mut w, wire) = worker("localhost:5005");
    assert_eq!(w.vote(), Err(PaxosError::EmptyMailBox));
    assert_eq!(
        w.invoke().err(),
        Some(PaxosError::TransportFailure(TransportError::Receive))
    );
    assert_eq!(w.last_proposal_id(), 0);
    assert!(wire.sent().is_empty());
}

#[test]
fn worker_deliver_vote_and_flush_step_by_step() {
    let (mut w, wire) = worker("localhost:5005");
    assert_eq!(
        w.deliver("localhost:5005".to_string(), MASTER.to_string(), Bytes::from("p|1|a")),
        Ok(())
    );
    assert_eq!(w.vote(), Ok(()));
    assert_eq!(w.mail_box().outbound_len(), 1);
    assert!(wire.sent().is_empty());
    let report = w.flush();
    assert_eq!(report.len(), 1);
    assert_eq!(report[0].to, MASTER);
    assert_eq!(report[0].payload, Bytes::from("v|1|a"));
    assert_eq!(report[0].outcome, Ok(5));
    assert_eq!(wire.sent(), vec![(MASTER.to_string(), "v|1|a".to_string())]);
}

#[test]
fn tally_vote_hands_back_the_resolution_at_the_majority() {
    let (mut m, _wire) = master(2);
    m.emmit_new_proposal("x".to_string()).unwrap();
    let vote_of = |from: &str| {
        Mail::new(from.to_string(), list(&[MASTER]), Issue::new("x".to_string(), 1, IssueType::Vote))
    };
    assert_eq!(
        m.tally_vote(&vote_of("localhost:5005")).err(),
        Some(PaxosError::NotEnoughVotes { id: 1, votes: 1 })
    );
    assert_eq!(
        m.tally_vote(&vote_of("localhost:5005")).err(),
        Some(PaxosError::ProtocolViolation(Violation::RepeatedVote))
    );
    assert_eq!(m.votes(1), Some(1));
    let resolution = m.tally_vote(&vote_of("localhost:5006")).ok().unwrap();
    assert!(resolution == Issue::new("x".to_string(), 1, IssueType::Resolution));
    assert!(m.is_open(1));
    assert_eq!(m.votes(1), Some(1));
    assert_eq!(m.get_log(1), Err(PaxosError::BackendFailure(BackendError::NotFound)));
    assert_eq!(m.log_issue(&resolution), Ok(1));
    assert!(!m.is_open(1));
    assert_eq!(m.get_log(1), Ok("x".to_string()));
}

#[test]
fn log_issue_writes_resolutions_only() {
    let (mut m, _wire) = master(1);
    let proposal = Issue::new("x".to_string(), 1, IssueType::Proposal);
    let vote = Issue::new("x".to_string(), 1, IssueType::Vote);
    assert_eq!(
        m.log_issue(&proposal),
        Err(PaxosError::ProtocolViolation(Violation::WrongKind))
    );
    assert_eq!(m.log_issue(&vote), Err(PaxosError::ProtocolViolation(Violation::WrongKind)));
    assert_eq!(m.log_backend().len(), 0);
    assert_eq!(m.log_issue(&Issue::new("x".to_string(), 1, IssueType::Resolution)), Ok(1));
    assert_eq!(m.log_issue(&Issue::new("y".to_string(), 1, IssueType::Resolution)), Ok(1));
    assert_eq!(m.log_backend().history(1), vec![Bytes::from("x"), Bytes::from("y")]);
    assert_eq!(m.get_log(1), Ok("y".to_string()));
}

#[test]
fn a_second_vote_of_the_same_worker_is_not_counted() {
    let (mut m, _wire) = master(3);
    m.emmit_new_proposal("x".to_string()).unwrap();
    vote(&mut m, "localhost:5005", 1, "x");
    vote(&mut m, "localhost:5005", 1, "x");
    assert_eq!(
        m.drain(),
        vec![
            Err(PaxosError::NotEnoughVotes { id: 1, votes: 1 }),
            Err(PaxosError::ProtocolViolation(Violation::RepeatedVote)),
        ]
    );
    assert!(m.is_open(1));
    assert_eq!(m.votes(1), Some(1));
    assert_eq!(m.log_backend().len(), 0);
    assert_eq!(m.get_log(1), Err(PaxosError::BackendFailure(BackendError::NotFound)));
    vote(&mut m, "localhost:5007", 1, "x");
    assert_eq!(m.process_vote(), Ok(1));
    assert_eq!(m.log_backend().history(1), vec![Bytes::from("x")]);
}

#[test]
fn five_votes_of_two_workers_do_not_make_three() {
    let (mut m, _wire) = master(5);
    m.emmit_new_proposal("x".to_string()).unwrap();
    for from in ["localhost:5005", "localhost:5006", "localhost:5005", "localhost:5006", "localhost:5005"] {
        vote(&mut m, from, 1, "x");
    }
    let outcomes = m.drain();
    assert!(outcomes.iter().all(|o| o.is_err()));
    assert_eq!(m.votes(1), Some(2));
    vote(&mut m, "localhost:5009", 1, "x");
    assert_eq!(m.process_vote(), Ok(1));
}

#[test]
fn reply_text_is_the_entry_the_number_or_not_found() {
    assert_eq!(reply_text(Ok(Reply::Found("hello".to_string()))), "hello");
    assert_eq!(reply_text(Ok(Reply::Found("".to_string()))), "");
    assert_eq!(reply_text(Ok(Reply::Proposed(0))), "0");
    assert_eq!(reply_text(Ok(Reply::Proposed(1203))), "1203");
    assert_eq!(reply_text(Ok(Reply::Proposed(u64::MAX))), "18446744073709551615");
    assert_eq!(reply_text(Err(PaxosError::BackendFailure(BackendError::NotFound))), "not found");
    assert_eq!(reply_text(Err(PaxosError::BackendFailure(BackendError::Storage))), "not found");
    assert_eq!(reply_text(Err(PaxosError::IdsExhausted)), "not found");
}

#[test]
fn roles_keep_the_transport_they_were_made_on() {
    let (mut m, _wire) = master(1);
    assert_eq!(m.mail_box().connection().address(), MASTER);
    m.emmit_new_proposal("x".to_string()).unwrap();
    m.flush();
    assert_eq!(m.mail_box().connection().address(), MASTER);
    let (w, _wire) = worker("localhost:5005");
    assert_eq!(w.mail_box().connection().address(), "localhost:5005");
}

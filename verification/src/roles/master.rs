//! The master: it numbers proposals, sends them to the workers, counts their
//! votes, and records a proposal in the log once a majority has voted for it.

use crate::address_book::{is_worker, worker_name, workers, AddressBook, BookView};
use crate::api::{CmdType, CmdView};
use crate::buffer::octets;
use crate::connection::Connection;
use crate::error::{BackendError, DecodeError, PaxosError, Violation};
use crate::issue::{Issue, IssueType, IssueView};
use crate::logbackend::{append_version, latest_version, LogBackend, LogModel};
use crate::mailbox::{datagrams, handed, mail_spec, Delivery, Mail, MailBox, MailView};
use crate::text::{decimal_digits, decimal_string, holds_str, str_eq, string_from_utf8, texts};
use bytes::Bytes;
use std::collections::HashMap;
use vstd::prelude::*;
use vstd::slice::slice_to_vec;
use vstd::utf8::*;

verus! {

/// How many votes a proposal needs among `senators` voters: a strict
/// majority.
pub open spec fn quorum(senators: nat) -> nat {
    senators / 2 + 1
}

/// An open proposal as plain values: its text, and the senders of the votes
/// counted for it so far, each once, in the order in which they came.
pub struct TallyView {
    pub content: Seq<char>,
    pub voters: Seq<Seq<char>>,
}

/// A master as plain values.
#[verifier::ext_equal]
pub struct MasterView<C> {
    /// The transport that the master's mailbox is on.
    pub transport: C,
    /// The master's own endpoint.
    pub address: Seq<char>,
    /// The directory.
    pub book: BookView,
    /// The number of the last proposal.
    pub counter: u64,
    /// The open proposals, by number.
    pub tallies: Map<u64, TallyView>,
    /// Whether the log backend keeps the contracts of its operations: what
    /// `faithful` says of the backend's type.
    pub faithful: bool,
    /// Whether the log backend takes every write and answers every query:
    /// what `unfailing` says of the backend's type.
    pub unfailing: bool,
    /// What the log holds: for each id its versions, oldest first. With a
    /// backend that is not faithful, this is what the master has had it
    /// accept.
    pub log: Map<u64, Seq<Seq<u8>>>,
    /// The mails waiting to be read, oldest first.
    pub inbound: Seq<MailView>,
    /// The mails waiting to be sent, oldest first.
    pub outbound: Seq<MailView>,
}

/// What the master answers to a command, as plain values.
pub enum ReplyView {
    Proposed(u64),
    Found(Seq<char>),
}

/// The mail that carries proposal `id` to the workers.
pub open spec fn proposal_mail(book: BookView, address: Seq<char>, id: u64, content: Seq<char>) -> MailView {
    MailView {
        from: address,
        to: workers(book),
        body: IssueView { content, id, kind: IssueType::Proposal },
    }
}

/// The number that the next proposal gets, if there is one left.
pub open spec fn next_id(counter: u64) -> Option<u64> {
    if counter < u64::MAX {
        Some((counter + 1) as u64)
    } else {
        None
    }
}

/// The master once it has proposed `content`: the counter is one higher, the
/// proposal is open under the new number with no votes, and a mail to all
/// workers waits to be sent, if the directory lists workers at all. With no
/// number left nothing changes.
pub open spec fn proposed<C>(s: MasterView<C>, content: Seq<char>) -> MasterView<C> {
    match next_id(s.counter) {
        Some(id) => MasterView {
            counter: id,
            tallies: s.tallies.insert(id, TallyView { content, voters: Seq::empty() }),
            outbound: if worker_name(s.book) is Some {
                s.outbound.push(proposal_mail(s.book, s.address, id, content))
            } else {
                s.outbound
            },
            ..s
        },
        None => s,
    }
}

/// What the master makes of a mail from its inbound queue: the resolution to
/// record, if the mail is the vote that gives an open proposal its majority,
/// or why nothing is recorded.
///
/// A vote counts for the open proposal that has both its number and its
/// text, and it counts once for each worker: a vote of a worker whose vote
/// for the proposal was counted before is dropped.
pub open spec fn tally_step(book: BookView, tallies: Map<u64, TallyView>, mail: MailView) -> Result<
    IssueView,
    PaxosError,
> {
    let id = mail.body.id;
    if mail.body.kind != IssueType::Vote {
        Err(PaxosError::ProtocolViolation(Violation::WrongKind))
    } else if !is_worker(book, mail.from) {
        Err(PaxosError::ProtocolViolation(Violation::WrongSender))
    } else if !tallies.contains_key(id) || tallies[id].content != mail.body.content {
        Err(PaxosError::UnknownProposal { id })
    } else if tallies[id].voters.contains(mail.from) {
        Err(PaxosError::ProtocolViolation(Violation::RepeatedVote))
    } else if tallies[id].voters.len() + 1 < quorum(workers(book).len()) {
        Err(PaxosError::NotEnoughVotes { id, votes: (tallies[id].voters.len() + 1) as usize })
    } else {
        Ok(IssueView { content: mail.body.content, id, kind: IssueType::Resolution })
    }
}

/// The open proposals once the master has counted a mail: a vote that
/// leaves its proposal short of the majority adds its sender to the
/// proposal's voters. Nothing else changes them: the vote that gives the
/// majority leaves the proposal open until it is recorded.
pub open spec fn tallies_after(book: BookView, tallies: Map<u64, TallyView>, mail: MailView) -> Map<
    u64,
    TallyView,
> {
    let id = mail.body.id;
    match tally_step(book, tallies, mail) {
        Err(PaxosError::NotEnoughVotes { .. }) => tallies.insert(
            id,
            TallyView { content: tallies[id].content, voters: tallies[id].voters.push(mail.from) },
        ),
        _ => tallies,
    }
}

/// The master once it has counted `mail`.
pub open spec fn counted<C>(s: MasterView<C>, mail: MailView) -> MasterView<C> {
    MasterView { tallies: tallies_after(s.book, s.tallies, mail), ..s }
}

/// The master once `resolution` is recorded: the log holds its text as the
/// newest version of its number, and the proposal of that number is closed.
pub open spec fn recorded<C>(s: MasterView<C>, resolution: IssueView) -> MasterView<C> {
    MasterView {
        log: append_version(s.log, resolution.id, encode_utf8(resolution.content)),
        tallies: s.tallies.remove(resolution.id),
        ..s
    }
}

/// Whether `outcome` is what the master may report of its oldest mail: that
/// there is none; why the mail was dropped or what it still lacks; or, for
/// the vote that gives the majority, the number recorded. Only with a
/// backend that may fail can that vote end in the failure of the backend.
pub open spec fn vote_allowed<C>(s: MasterView<C>, outcome: Result<u64, PaxosError>) -> bool {
    if s.inbound.len() == 0 {
        outcome == Err::<u64, PaxosError>(PaxosError::EmptyMailBox)
    } else {
        match tally_step(s.book, s.tallies, s.inbound.first()) {
            Ok(resolution) => outcome == Ok::<u64, PaxosError>(resolution.id) || (!s.unfailing
                && outcome matches Err(PaxosError::BackendFailure(_))),
            Err(e) => outcome == Err::<u64, PaxosError>(e),
        }
    }
}

/// The master once it has dealt with its oldest mail and reported
/// `outcome`: the mail is gone and the vote is counted. Where the vote gives
/// the majority and the outcome is a success, the resolution is recorded and
/// the proposal closed; where the backend failed, the proposal stays open as
/// it was, so that a later vote can have it recorded.
pub open spec fn voted<C>(s: MasterView<C>, outcome: Result<u64, PaxosError>) -> MasterView<C> {
    if s.inbound.len() == 0 {
        s
    } else {
        let mail = s.inbound.first();
        let t = MasterView { inbound: s.inbound.drop_first(), ..counted(s, mail) };
        match tally_step(s.book, s.tallies, mail) {
            Ok(resolution) => if outcome is Ok {
                recorded(t, resolution)
            } else {
                t
            },
            Err(_) => t,
        }
    }
}

/// The master once it has dealt with one mail after the other and reported
/// `outcomes`.
pub open spec fn drained<C>(s: MasterView<C>, outcomes: Seq<Result<u64, PaxosError>>) -> MasterView<C>
    decreases outcomes.len(),
{
    if outcomes.len() == 0 {
        s
    } else {
        voted(drained(s, outcomes.drop_last()), outcomes.last())
    }
}

/// Whether each of `outcomes` is what the master may report of the mail it
/// dealt with at that point.
pub open spec fn drain_allowed<C>(s: MasterView<C>, outcomes: Seq<Result<u64, PaxosError>>) -> bool
    decreases outcomes.len(),
{
    outcomes.len() == 0 || (drain_allowed(s, outcomes.drop_last()) && vote_allowed(
        drained(s, outcomes.drop_last()),
        outcomes.last(),
    ))
}

/// What the master answers to a lookup, given what the backend found: the
/// entry as text, or the backend's failure, or that the entry is no text.
pub open spec fn log_text(found: Result<Seq<u8>, BackendError>) -> Result<Seq<char>, PaxosError> {
    match found {
        Ok(bytes) => if valid_utf8(bytes) {
            Ok(decode_utf8(bytes))
        } else {
            Err(PaxosError::DecodeFailure(DecodeError::InvalidUtf8))
        },
        Err(e) => Err(PaxosError::BackendFailure(e)),
    }
}

/// Whether `answer` is what a lookup of `id` may report of a log: the last
/// version written under `id`, as text; that it is no text; that there is
/// none; or another failure of the backend.
pub open spec fn lookup_allowed(
    log: Map<u64, Seq<Seq<u8>>>,
    id: u64,
    answer: Result<Seq<char>, PaxosError>,
) -> bool {
    match answer {
        Ok(text) => latest_version(log, id) == Some(encode_utf8(text)),
        Err(PaxosError::BackendFailure(BackendError::NotFound)) => latest_version(log, id) is None,
        Err(PaxosError::BackendFailure(_)) => true,
        Err(PaxosError::DecodeFailure(DecodeError::InvalidUtf8)) => latest_version(log, id) is Some
            && !valid_utf8(latest_version(log, id).unwrap()),
        Err(_) => false,
    }
}

/// What a lookup of `id` finds in a log that never fails: the last version
/// written under `id`, as text; that it is no text; or that there is none.
pub open spec fn lookup_exact(log: Map<u64, Seq<Seq<u8>>>, id: u64) -> Result<
    Seq<char>,
    PaxosError,
> {
    log_text(
        match latest_version(log, id) {
            Some(bytes) => Ok(bytes),
            None => Err(BackendError::NotFound),
        },
    )
}

/// Whether `answer` is what the master may answer to a lookup of `id`: what
/// the backend found, as text, or why there is none. With a faithful
/// backend that is what the log holds, and with one that never fails it is
/// exactly that.
pub open spec fn answer_allowed<C>(s: MasterView<C>, id: u64, answer: Result<Seq<char>, PaxosError>) -> bool {
    &&& answer matches Err(e) ==> e is BackendFailure || e == PaxosError::DecodeFailure(
        DecodeError::InvalidUtf8,
    )
    &&& s.faithful ==> lookup_allowed(s.log, id, answer)
    &&& s.faithful && s.unfailing ==> answer == lookup_exact(s.log, id)
}

/// The master once it has carried out a command.
pub open spec fn dispatched<C>(s: MasterView<C>, cmd: CmdView) -> MasterView<C> {
    match cmd {
        CmdView::Log(content) => proposed(s, content),
        CmdView::Query(_) => s,
    }
}

/// Whether `answer` is what the master may answer to a command: to a text,
/// the number it was proposed under, or that none is left; to a lookup, the
/// entry that the backend found, as text, or why there is none, which with
/// a faithful backend is what the log holds.
pub open spec fn reply_allowed<C>(s: MasterView<C>, cmd: CmdView, answer: Result<ReplyView, PaxosError>) -> bool {
    match cmd {
        CmdView::Log(_) => match next_id(s.counter) {
            Some(id) => answer == Ok::<ReplyView, PaxosError>(ReplyView::Proposed(id)),
            None => answer == Err::<ReplyView, PaxosError>(PaxosError::IdsExhausted),
        },
        CmdView::Query(id) => match answer {
            Ok(ReplyView::Found(text)) => answer_allowed(s, id, Ok(text)),
            Ok(_) => false,
            Err(e) => answer_allowed(s, id, Err(e)),
        },
    }
}

/// Turns what the backend found into the answer to a lookup.
pub fn text_of(found: Result<Bytes, BackendError>) -> (r: Result<String, PaxosError>)
    ensures
        r matches Ok(text) ==> log_text(
            match found {
                Ok(data) => Ok(octets(data)),
                Err(e) => Err(e),
            },
        ) == Ok::<Seq<char>, PaxosError>(text@),
        r matches Err(e) ==> log_text(
            match found {
                Ok(data) => Ok(octets(data)),
                Err(e) => Err(e),
            },
        ) == Err::<Seq<char>, PaxosError>(e),
{
    match found {
        Ok(data) => {
            let bytes: &[u8] = &data;
            match string_from_utf8(slice_to_vec(bytes)) {
                Some(text) => {
                    proof {
                        encode_utf8_decode_utf8(text@);
                    }
                    Ok(text)
                },
                None => Err(PaxosError::DecodeFailure(DecodeError::InvalidUtf8)),
            }
        },
        Err(e) => Err(PaxosError::BackendFailure(e)),
    }
}

/// An open proposal: its text, and who has voted for it.
struct Tally {
    content: String,
    voters: Vec<String>,
}

impl View for Tally {
    type V = TallyView;

    closed spec fn view(&self) -> TallyView {
        TallyView { content: self.content@, voters: texts(self.voters@) }
    }
}

/// What the master answers to a command.
pub enum Reply {
    /// The text was proposed under this number.
    Proposed(u64),
    /// The entry that was looked up.
    Found(String),
}

impl View for Reply {
    type V = ReplyView;

    open spec fn view(&self) -> ReplyView {
        match self {
            Reply::Proposed(id) => ReplyView::Proposed(*id),
            Reply::Found(text) => ReplyView::Found(text@),
        }
    }
}

/// An answer as plain values.
pub open spec fn answer_view(answer: Result<Reply, PaxosError>) -> Result<ReplyView, PaxosError> {
    match answer {
        Ok(reply) => Ok(reply@),
        Err(e) => Err(e),
    }
}

/// The text that answers a request: the entry that was found, the number
/// that a text was proposed under, in base 10, or `not found` for every
/// failure.
pub open spec fn reply_text_spec(answer: Result<ReplyView, PaxosError>) -> Seq<char> {
    match answer {
        Ok(ReplyView::Found(text)) => text,
        Ok(ReplyView::Proposed(id)) => decode_utf8(decimal_digits(id as nat)),
        Err(_) => "not found"@,
    }
}

/// Writes the master's answer to a command as the text that is sent back.
pub fn reply_text(answer: Result<Reply, PaxosError>) -> (r: String)
    ensures
        r@ == reply_text_spec(answer_view(answer)),
{
    match answer {
        Ok(Reply::Found(text)) => text,
        Ok(Reply::Proposed(id)) => {
            let text = decimal_string(id);
            proof {
                encode_utf8_decode_utf8(text@);
            }
            text
        },
        Err(_) => "not found".to_owned(),
    }
}

/// What one round of the master's loop did.
pub struct TickReport {
    /// The answer to the command, if there was one.
    pub command: Option<Result<Reply, PaxosError>>,
    /// What came of each mail that was waiting, oldest first: the number of
    /// the proposal that it let the master record, or why nothing was
    /// recorded.
    pub votes: Vec<Result<u64, PaxosError>>,
    /// What was handed to the transport, and what came of it.
    pub deliveries: Vec<Delivery>,
}

/// The coordinator of a cluster.
pub struct Master<C: Connection, L: LogBackend> {
    address: String,
    address_book: AddressBook,
    mail_box: MailBox<C>,
    vote_table: HashMap<u64, Tally>,
    counter: u64,
    logbackend: L,
    recorded: Ghost<Map<u64, Seq<Seq<u8>>>>,
}

impl<C: Connection, L: LogBackend> View for Master<C, L> {
    type V = MasterView<C>;

    closed spec fn view(&self) -> MasterView<C> {
        MasterView {
            transport: self.mail_box.transport(),
            address: self.address@,
            book: self.address_book@,
            counter: self.counter,
            tallies: Map::new(
                |id: u64| self.vote_table@.contains_key(id),
                |id: u64| self.vote_table@[id]@,
            ),
            faithful: L::faithful(),
            unfailing: L::unfailing(),
            log: if L::faithful() {
                self.logbackend.entries()
            } else {
                self.recorded@
            },
            inbound: self.mail_box.inbound(),
            outbound: self.mail_box.outbound(),
        }
    }
}

impl<C: Connection, L: LogBackend> Master<C, L> {
    /// A master at `address` that has proposed nothing yet.
    pub fn new(address: String, address_book: AddressBook, conn: C, log_backend: L) -> (r: Self)
        ensures
            r@ == (MasterView {
                transport: conn,
                address: address@,
                book: address_book@,
                counter: 0,
                tallies: Map::empty(),
                faithful: L::faithful(),
                unfailing: L::unfailing(),
                log: if L::faithful() {
                    log_backend.entries()
                } else {
                    Map::empty()
                },
                inbound: Seq::empty(),
                outbound: Seq::empty(),
            }),
    {
        let r = Master {
            address,
            address_book,
            mail_box: MailBox::new(conn),
            vote_table: HashMap::new(),
            counter: 0,
            logbackend: log_backend,
            recorded: Ghost(Map::empty()),
        };
        assert(r@.tallies =~= Map::<u64, TallyView>::empty());
        r
    }

    /// The number of the last proposal.
    pub fn last_id(&self) -> (r: u64)
        ensures
            r == self@.counter,
    {
        self.counter
    }

    /// How many voters the directory lists.
    pub fn senators(&self) -> (n: usize)
        ensures
            n == workers(self@.book).len(),
    {
        self.address_book.worker_count()
    }

    /// How many votes a proposal needs.
    pub fn quorum(&self) -> (n: usize)
        ensures
            n == quorum(workers(self@.book).len()),
    {
        self.address_book.worker_count() / 2 + 1
    }

    /// Whether proposal `id` is open.
    pub fn is_open(&self, id: u64) -> (r: bool)
        ensures
            r == self@.tallies.contains_key(id),
    {
        broadcast use vstd::std_specs::hash::group_hash_axioms;

        self.vote_table.contains_key(&id)
    }

    /// How many votes were counted for proposal `id`, if it is open.
    pub fn votes(&self, id: u64) -> (r: Option<usize>)
        ensures
            r is Some <==> self@.tallies.contains_key(id),
            r matches Some(n) ==> n == self@.tallies[id].voters.len(),
    {
        broadcast use vstd::std_specs::hash::group_hash_axioms;

        match self.vote_table.get(&id) {
            Some(tally) => Some(tally.voters.len()),
            None => None,
        }
    }

    /// The master's mailbox.
    pub fn mail_box(&self) -> (r: &MailBox<C>)
        ensures
            r.transport() == self@.transport,
            r.inbound() == self@.inbound,
            r.outbound() == self@.outbound,
    {
        &self.mail_box
    }

    /// The master's log backend.
    pub fn log_backend(&self) -> (r: &L)
        ensures
            self@.faithful ==> r.entries() == self@.log,
    {
        &self.logbackend
    }

    /// Proposes `msg_content` under a fresh number: opens the proposal and
    /// queues it for all workers. Returns the number.
    pub fn emmit_new_proposal(&mut self, msg_content: String) -> (r: Result<u64, PaxosError>)
        ensures
            final(self)@ == proposed(old(self)@, msg_content@),
            match next_id(old(self)@.counter) {
                Some(id) => r == Ok::<u64, PaxosError>(id),
                None => r == Err::<u64, PaxosError>(PaxosError::IdsExhausted),
            },
    {
        broadcast use vstd::std_specs::hash::group_hash_axioms;

        if self.counter == u64::MAX {
            return Err(PaxosError::IdsExhausted);
        }
        let ghost before = self@;
        let issue_id: u64 = self.counter + 1;
        let tally = Tally { content: msg_content.clone(), voters: Vec::new() };
        assert(tally@.voters =~= Seq::<Seq<char>>::empty());
        self.vote_table.insert(issue_id, tally);
        assert(self@.tallies =~= before.tallies.insert(
            issue_id,
            TallyView { content: msg_content@, voters: Seq::empty() },
        ));
        if self.address_book.worker_name().is_some() {
            let issue = Issue::new(msg_content, issue_id, IssueType::Proposal);
            let mail = Mail::new(self.address.clone(), self.address_book.workers(), issue);
            let _ = self.mail_box.put_mail(mail);
        }
        self.counter = issue_id;
        Ok(issue_id)
    }

    /// Counts a vote: returns the resolution to record, if the vote gives
    /// its proposal the majority, or says why nothing is to be recorded.
    ///
    /// A vote that leaves the proposal short of the majority is added to
    /// its voters. The vote that gives the majority is not: the proposal
    /// stays as it is until `log_issue` has recorded the resolution.
    pub fn tally_vote(&mut self, mail: &Mail) -> (r: Result<Issue, PaxosError>)
        ensures
            final(self)@ == counted(old(self)@, mail@),
            r matches Ok(resolution) ==> tally_step(old(self)@.book, old(self)@.tallies, mail@)
                == Ok::<IssueView, PaxosError>(resolution@),
            r matches Err(e) ==> tally_step(old(self)@.book, old(self)@.tallies, mail@) == Err::<
                IssueView,
                PaxosError,
            >(e),
    {
        broadcast use vstd::std_specs::hash::group_hash_axioms;

        let ghost before = self@.tallies;
        let issue: &Issue = mail.body_ref();
        match issue.issue_type() {
            IssueType::Vote => {},
            _ => {
                return Err(PaxosError::ProtocolViolation(Violation::WrongKind));
            },
        }
        if !self.address_book.is_worker(mail.sender_ref()) {
            return Err(PaxosError::ProtocolViolation(Violation::WrongSender));
        }
        let id: u64 = issue.id();
        let needed: usize = self.quorum();
        let (known, repeated, counted) = match self.vote_table.get(&id) {
            Some(tally) => (
                str_eq(tally.content.as_str(), issue.content_ref()),
                holds_str(&tally.voters, mail.sender_ref()),
                tally.voters.len(),
            ),
            None => (false, false, 0),
        };
        if !known {
            return Err(PaxosError::UnknownProposal { id });
        }
        if repeated {
            return Err(PaxosError::ProtocolViolation(Violation::RepeatedVote));
        }
        if counted >= needed - 1 {
            return Ok(Issue::new(issue.content(), id, IssueType::Resolution));
        }
        let mut tally = match self.vote_table.remove(&id) {
            Some(tally) => tally,
            None => {
                return Err(PaxosError::UnknownProposal { id });
            },
        };
        assert(tally@ == before[id]);
        let ghost voters = tally@.voters;
        tally.voters.push(mail.sender());
        assert(tally@.voters =~= voters.push(mail@.from));
        let votes: usize = tally.voters.len();
        self.vote_table.insert(id, tally);
        assert(self@.tallies =~= before.insert(
            id,
            TallyView { content: before[id].content, voters: voters.push(mail@.from) },
        ));
        Err(PaxosError::NotEnoughVotes { id, votes })
    }

    /// Records a resolution: writes its text to the log under its number
    /// and closes the proposal of that number. Returns the number.
    ///
    /// An issue of another kind is not written. Where the backend fails,
    /// nothing changes; a backend that never fails does not.
    pub fn log_issue(&mut self, resolution: &Issue) -> (r: Result<u64, PaxosError>)
        ensures
            old(self)@.faithful == L::faithful(),
            old(self)@.unfailing == L::unfailing(),
            resolution@.kind != IssueType::Resolution ==> r == Err::<u64, PaxosError>(
                PaxosError::ProtocolViolation(Violation::WrongKind),
            ),
            resolution@.kind == IssueType::Resolution ==> r == Ok::<u64, PaxosError>(
                resolution@.id,
            ) || (!old(self)@.unfailing && r matches Err(PaxosError::BackendFailure(_))),
            r is Ok ==> final(self)@ == recorded(old(self)@, resolution@),
            r is Err ==> final(self)@ == old(self)@,
    {
        broadcast use vstd::std_specs::hash::group_hash_axioms;

        match resolution.issue_type() {
            IssueType::Resolution => {},
            _ => {
                return Err(PaxosError::ProtocolViolation(Violation::WrongKind));
            },
        }
        let ghost before = self@.tallies;
        let data = Bytes::from(slice_to_vec(resolution.content_ref().as_bytes()));
        match self.logbackend.write(resolution.id(), data) {
            Ok(()) => {
                proof {
                    self.recorded@ = append_version(
                        self.recorded@,
                        resolution@.id,
                        encode_utf8(resolution@.content),
                    );
                }
                let _ = self.vote_table.remove(&resolution.id());
                assert(self@.tallies =~= before.remove(resolution@.id));
                Ok(resolution.id())
            },
            Err(e) => Err(PaxosError::BackendFailure(e)),
        }
    }

    /// Takes the oldest mail out of the inbound queue and, if it is a vote
    /// of a worker for an open proposal, counts it once; the vote that
    /// gives the majority has the proposal recorded in the log and closed.
    /// Returns the number of the proposal that was recorded.
    ///
    /// With a backend that never fails, the vote that gives the majority is
    /// always reported as recorded. Where the backend fails, the proposal
    /// stays open.
    pub fn process_vote(&mut self) -> (r: Result<u64, PaxosError>)
        ensures
            old(self)@.faithful == L::faithful(),
            old(self)@.unfailing == L::unfailing(),
            vote_allowed(old(self)@, r),
            final(self)@ == voted(old(self)@, r),
    {
        let mail = match self.mail_box.get_mail() {
            Ok(mail) => mail,
            Err(e) => {
                return Err(e);
            },
        };
        match self.tally_vote(&mail) {
            Ok(resolution) => self.log_issue(&resolution),
            Err(e) => Err(e),
        }
    }

    /// Deals with every mail of the inbound queue, oldest first, and says
    /// what came of each.
    pub fn drain(&mut self) -> (outcomes: Vec<Result<u64, PaxosError>>)
        ensures
            old(self)@.faithful == L::faithful(),
            old(self)@.unfailing == L::unfailing(),
            outcomes@.len() == old(self)@.inbound.len(),
            drain_allowed(old(self)@, outcomes@),
            final(self)@ == drained(old(self)@, outcomes@),
            final(self)@.inbound == Seq::<MailView>::empty(),
    {
        let mut outcomes: Vec<Result<u64, PaxosError>> = Vec::new();
        let ghost n = self@.inbound.len();
        while self.mail_box.inbound_len() > 0
            invariant
                n == old(self)@.inbound.len(),
                outcomes@.len() + self@.inbound.len() == n,
                drain_allowed(old(self)@, outcomes@),
                self@ == drained(old(self)@, outcomes@),
            decreases self@.inbound.len(),
        {
            let ghost so_far = outcomes@;
            let r = self.process_vote();
            outcomes.push(r);
            assert(outcomes@.drop_last() =~= so_far);
        }
        assert(self@.inbound =~= Seq::<MailView>::empty());
        outcomes
    }

    /// Looks up the entry kept under `id` in the log backend, as text.
    ///
    /// With a faithful backend the answer is the last version recorded
    /// under `id`, or why it cannot be had; with one that never fails it is
    /// that version wherever there is one.
    pub fn get_log(&self, id: u64) -> (r: Result<String, PaxosError>)
        ensures
            self@.faithful == L::faithful(),
            self@.unfailing == L::unfailing(),
            r matches Ok(text) ==> answer_allowed(self@, id, Ok(text@)),
            r matches Err(e) ==> answer_allowed(self@, id, Err(e)),
    {
        let found = self.logbackend.query(id);
        proof {
            if found is Ok && valid_utf8(octets(found->Ok_0)) {
                decode_utf8_encode_utf8(octets(found->Ok_0));
            }
        }
        text_of(found)
    }

    /// Carries out one command of the admin interface.
    pub fn dispatch(&mut self, cmd: CmdType) -> (r: Result<Reply, PaxosError>)
        ensures
            old(self)@.faithful == L::faithful(),
            old(self)@.unfailing == L::unfailing(),
            final(self)@ == dispatched(old(self)@, cmd@),
            reply_allowed(old(self)@, cmd@, answer_view(r)),
    {
        match cmd {
            CmdType::Log(content) => match self.emmit_new_proposal(content) {
                Ok(id) => Ok(Reply::Proposed(id)),
                Err(e) => Err(e),
            },
            CmdType::Query(id) => match self.get_log(id) {
                Ok(text) => Ok(Reply::Found(text)),
                Err(e) => Err(e),
            },
        }
    }

    /// Sends what waits in the outbound queue.
    pub fn flush(&mut self) -> (report: Vec<Delivery>)
        ensures
            handed(report@) == datagrams(old(self)@.outbound),
            final(self)@ == (MasterView { outbound: Seq::empty(), ..old(self)@ }),
    {
        self.mail_box.flush()
    }

    /// Waits for one datagram and puts it into the inbound queue.
    ///
    /// On success exactly one mail has joined the inbound queue. On failure
    /// nothing has changed.
    pub fn receive(&mut self) -> (r: Result<(), PaxosError>)
        ensures
            r is Ok ==> final(self)@.inbound.len() == old(self)@.inbound.len() + 1,
            r is Ok ==> final(self)@.inbound.drop_last() == old(self)@.inbound,
            r is Ok ==> final(self)@ == (MasterView { inbound: final(self)@.inbound, ..old(self)@ }),
            r matches Err(e) ==> final(self)@ == old(self)@ && (e is TransportFailure
                || e is DecodeFailure),
    {
        self.mail_box.fill_msg_box()
    }

    /// Takes in one datagram that the transport received at `local` from
    /// `remote`: if its payload is an issue, a mail from `remote` to `local`
    /// joins the inbound queue; if not, the datagram is dropped.
    pub fn deliver(&mut self, local: String, remote: String, payload: Bytes) -> (r: Result<
        (),
        PaxosError,
    >)
        ensures
            match mail_spec(remote@, seq![local@], octets(payload)) {
                Ok(mail) => r is Ok && final(self)@ == (MasterView {
                    inbound: old(self)@.inbound.push(mail),
                    ..old(self)@
                }),
                Err(e) => r == Err::<(), PaxosError>(PaxosError::DecodeFailure(e)) && final(self)@
                    == old(self)@,
            },
    {
        match self.mail_box.accept(local, remote, payload) {
            Ok(()) => Ok(()),
            Err(e) => Err(PaxosError::DecodeFailure(e)),
        }
    }

    /// One round of the master's loop: carries out the command, if there is
    /// one; deals with every mail that waits; and sends what is to be sent.
    pub fn tick(&mut self, cmd: Option<CmdType>) -> (report: TickReport)
        ensures
            old(self)@.faithful == L::faithful(),
            old(self)@.unfailing == L::unfailing(),
            ({
                let begun = match cmd {
                    Some(c) => dispatched(old(self)@, c@),
                    None => old(self)@,
                };
                &&& match cmd {
                    Some(c) => report.command is Some && reply_allowed(
                        old(self)@,
                        c@,
                        answer_view(report.command.unwrap()),
                    ),
                    None => report.command is None,
                }
                &&& report.votes@.len() == begun.inbound.len()
                &&& drain_allowed(begun, report.votes@)
                &&& handed(report.deliveries@) == datagrams(begun.outbound)
                &&& final(self)@ == (MasterView {
                    outbound: Seq::empty(),
                    ..drained(begun, report.votes@)
                })
            }),
    {
        let command = match cmd {
            Some(c) => Some(self.dispatch(c)),
            None => None,
        };
        let ghost begun = self@;
        let votes = self.drain();
        proof {
            lemma_drained_keeps_outbound(begun, votes@);
        }
        let deliveries = self.flush();
        TickReport { command, votes, deliveries }
    }
}

/// Dealing with mails leaves the address, the directory, the counter and the
/// outbound queue as they are.
pub proof fn lemma_drained_keeps_outbound<C>(s: MasterView<C>, outcomes: Seq<Result<u64, PaxosError>>)
    ensures
        drained(s, outcomes).outbound == s.outbound,
        drained(s, outcomes).address == s.address,
        drained(s, outcomes).book == s.book,
        drained(s, outcomes).counter == s.counter,
    decreases outcomes.len(),
{
    if outcomes.len() > 0 {
        lemma_drained_keeps_outbound(s, outcomes.drop_last());
    }
}

} // verus!

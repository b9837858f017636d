//! The worker: it votes for each proposal of the master that is newer than
//! the last one it voted for.

use crate::address_book::{is_master, masters, AddressBook, BookView};
use crate::buffer::octets;
use crate::connection::Connection;
use crate::error::{PaxosError, Violation};
use crate::issue::{Issue, IssueType, IssueView};
use crate::mailbox::{datagrams, handed, mail_spec, Delivery, Mail, MailBox, MailView};
use bytes::Bytes;
use vstd::prelude::*;

verus! {

/// A worker as plain values.
#[verifier::ext_equal]
pub struct WorkerView<C> {
    /// The transport that the worker's mailbox is on.
    pub transport: C,
    /// The worker's own endpoint.
    pub address: Seq<char>,
    /// The directory.
    pub book: BookView,
    /// The number of the last proposal voted for; 0 before the first vote.
    pub last: u64,
    /// The mails waiting to be read, oldest first.
    pub inbound: Seq<MailView>,
    /// The mails waiting to be sent, oldest first.
    pub outbound: Seq<MailView>,
}

/// The vote that answers a proposal: a mail to the master's endpoints with
/// the proposal's number and text.
pub open spec fn vote_for(book: BookView, address: Seq<char>, proposal: IssueView) -> MailView {
    MailView {
        from: address,
        to: masters(book),
        body: IssueView { content: proposal.content, id: proposal.id, kind: IssueType::Vote },
    }
}

/// What a worker at `address`, whose last vote was for `last`, does with a
/// mail: it answers a proposal of the master that is newer than `last` with
/// a vote, and drops everything else.
pub open spec fn worker_step(book: BookView, address: Seq<char>, last: u64, mail: MailView) -> Result<
    MailView,
    PaxosError,
> {
    if mail.body.kind != IssueType::Proposal {
        Err(PaxosError::ProtocolViolation(Violation::WrongKind))
    } else if !is_master(book, mail.from) {
        Err(PaxosError::ProtocolViolation(Violation::WrongSender))
    } else if mail.body.id <= last {
        Err(PaxosError::ExpiredProposal { id: mail.body.id, last })
    } else {
        Ok(vote_for(book, address, mail.body))
    }
}

/// The number of the last proposal voted for, once the worker has dealt with
/// a mail.
pub open spec fn last_after(book: BookView, address: Seq<char>, last: u64, mail: MailView) -> u64 {
    if worker_step(book, address, last, mail) is Ok {
        mail.body.id
    } else {
        last
    }
}

/// The worker once it has dealt with `mail`.
pub open spec fn processed<C>(s: WorkerView<C>, mail: MailView) -> WorkerView<C> {
    WorkerView { last: last_after(s.book, s.address, s.last, mail), ..s }
}

/// What the worker reports when it deals with its oldest mail.
pub open spec fn vote_outcome<C>(s: WorkerView<C>) -> Result<(), PaxosError> {
    if s.inbound.len() == 0 {
        Err(PaxosError::EmptyMailBox)
    } else {
        match worker_step(s.book, s.address, s.last, s.inbound.first()) {
            Ok(_) => Ok(()),
            Err(e) => Err(e),
        }
    }
}

/// The worker once it has dealt with its oldest mail: the mail is gone, and
/// the vote that answers it, if any, waits to be sent.
pub open spec fn answered<C>(s: WorkerView<C>) -> WorkerView<C> {
    if s.inbound.len() == 0 {
        s
    } else {
        let mail = s.inbound.first();
        WorkerView {
            inbound: s.inbound.drop_first(),
            outbound: match worker_step(s.book, s.address, s.last, mail) {
                Ok(vote) => s.outbound.push(vote),
                Err(_) => s.outbound,
            },
            ..processed(s, mail)
        }
    }
}

/// The numbers of the votes that a worker emits while it deals with `mails`
/// one after the other, in the order in which it emits them.
pub open spec fn votes_emitted(book: BookView, address: Seq<char>, last: u64, mails: Seq<MailView>) -> Seq<
    u64,
>
    decreases mails.len(),
{
    if mails.len() == 0 {
        Seq::empty()
    } else {
        let mail = mails.first();
        let rest = votes_emitted(
            book,
            address,
            last_after(book, address, last, mail),
            mails.drop_first(),
        );
        if worker_step(book, address, last, mail) is Ok {
            seq![mail.body.id] + rest
        } else {
            rest
        }
    }
}

/// Every vote that a worker emits carries a number above the one it voted
/// for last, and above that of every vote it emitted before: once it has
/// voted for a number, it never again votes for that number or a smaller one.
pub proof fn lemma_votes_increase(
    book: BookView,
    address: Seq<char>,
    last: u64,
    mails: Seq<MailView>,
)
    ensures
        forall|i: int|
            0 <= i < votes_emitted(book, address, last, mails).len() ==> last < #[trigger] votes_emitted(
                book,
                address,
                last,
                mails,
            )[i],
        forall|i: int, j: int|
            0 <= i < j < votes_emitted(book, address, last, mails).len() ==> votes_emitted(
                book,
                address,
                last,
                mails,
            )[i] < votes_emitted(book, address, last, mails)[j],
    decreases mails.len(),
{
    if mails.len() > 0 {
        let mail = mails.first();
        let next = last_after(book, address, last, mail);
        let rest = votes_emitted(book, address, next, mails.drop_first());
        let all = votes_emitted(book, address, last, mails);
        lemma_votes_increase(book, address, next, mails.drop_first());
        assert(last <= next);
        if worker_step(book, address, last, mail) is Ok {
            assert(all =~= seq![mail.body.id] + rest);
            assert forall|i: int| 0 <= i < all.len() implies last < #[trigger] all[i] by {
                if i > 0 {
                    assert(all[i] == rest[i - 1]);
                }
            }
            assert forall|i: int, j: int| 0 <= i < j < all.len() implies all[i] < all[j] by {
                assert(all[j] == rest[j - 1]);
                if i > 0 {
                    assert(all[i] == rest[i - 1]);
                }
            }
        } else {
            assert(all =~= rest);
        }
    }
}

/// The number of the last proposal voted for never goes back, and a worker
/// votes only for a number above it.
pub proof fn lemma_last_never_decreases<C>(s: WorkerView<C>, mail: MailView)
    ensures
        s.last <= processed(s, mail).last,
        worker_step(s.book, s.address, s.last, mail) matches Ok(vote) ==> s.last < vote.body.id
            && processed(s, mail).last == vote.body.id && vote.body.content == mail.body.content,
{
}

/// A node that votes.
pub struct Worker<C: Connection> {
    address: String,
    address_book: AddressBook,
    mail_box: MailBox<C>,
    last_proposal_id: u64,
}

impl<C: Connection> View for Worker<C> {
    type V = WorkerView<C>;

    closed spec fn view(&self) -> WorkerView<C> {
        WorkerView {
            transport: self.mail_box.transport(),
            address: self.address@,
            book: self.address_book@,
            last: self.last_proposal_id,
            inbound: self.mail_box.inbound(),
            outbound: self.mail_box.outbound(),
        }
    }
}

impl<C: Connection> Worker<C> {
    /// A worker at `address` that has not voted yet.
    pub fn new(address: String, address_book: AddressBook, conn: C) -> (r: Self)
        ensures
            r@ == (WorkerView {
                transport: conn,
                address: address@,
                book: address_book@,
                last: 0,
                inbound: Seq::empty(),
                outbound: Seq::empty(),
            }),
    {
        Worker { address, address_book, mail_box: MailBox::new(conn), last_proposal_id: 0 }
    }

    /// The number of the last proposal voted for.
    pub fn last_proposal_id(&self) -> (r: u64)
        ensures
            r == self@.last,
    {
        self.last_proposal_id
    }

    /// The worker's mailbox.
    pub fn mail_box(&self) -> (r: &MailBox<C>)
        ensures
            r.transport() == self@.transport,
            r.inbound() == self@.inbound,
            r.outbound() == self@.outbound,
    {
        &self.mail_box
    }

    /// Deals with one mail: returns the vote that answers it, and remembers
    /// the proposal's number, or says why the mail is dropped.
    pub fn process(&mut self, old_proposal: &Mail) -> (r: Result<Mail, PaxosError>)
        ensures
            final(self)@ == processed(old(self)@, old_proposal@),
            r matches Ok(vote) ==> worker_step(
                old(self)@.book,
                old(self)@.address,
                old(self)@.last,
                old_proposal@,
            ) == Ok::<MailView, PaxosError>(vote@),
            r matches Err(e) ==> worker_step(
                old(self)@.book,
                old(self)@.address,
                old(self)@.last,
                old_proposal@,
            ) == Err::<MailView, PaxosError>(e),
    {
        let issue: &Issue = old_proposal.body_ref();
        match issue.issue_type() {
            IssueType::Proposal => {},
            _ => {
                return Err(PaxosError::ProtocolViolation(Violation::WrongKind));
            },
        }
        if !self.address_book.is_master(old_proposal.sender_ref()) {
            return Err(PaxosError::ProtocolViolation(Violation::WrongSender));
        }
        if issue.id() <= self.last_proposal_id {
            return Err(
                PaxosError::ExpiredProposal { id: issue.id(), last: self.last_proposal_id },
            );
        }
        let vote = Mail::new(
            self.address.clone(),
            self.address_book.masters(),
            Issue::new(issue.content(), issue.id(), IssueType::Vote),
        );
        self.last_proposal_id = issue.id();
        Ok(vote)
    }

    /// Takes the oldest mail out of the inbound queue and deals with it: the
    /// vote that answers it joins the outbound queue.
    pub fn vote(&mut self) -> (r: Result<(), PaxosError>)
        ensures
            r == vote_outcome(old(self)@),
            final(self)@ == answered(old(self)@),
    {
        let mail = match self.mail_box.get_mail() {
            Ok(mail) => mail,
            Err(e) => {
                return Err(e);
            },
        };
        match self.process(&mail) {
            Ok(vote) => {
                let _ = self.mail_box.put_mail(vote);
                Ok(())
            },
            Err(e) => Err(e),
        }
    }

    /// Waits for one datagram and puts it into the inbound queue.
    ///
    /// On success exactly one mail, addressed to one recipient, has joined
    /// the inbound queue. On failure nothing has changed.
    pub fn receive(&mut self) -> (r: Result<(), PaxosError>)
        ensures
            r is Ok ==> final(self)@.inbound.len() == old(self)@.inbound.len() + 1,
            r is Ok ==> final(self)@.inbound.drop_last() == old(self)@.inbound,
            r is Ok ==> final(self)@.inbound.last().to.len() == 1,
            r is Ok ==> final(self)@ == (WorkerView { inbound: final(self)@.inbound, ..old(self)@ }),
            r matches Err(e) ==> final(self)@ == old(self)@ && (e is TransportFailure
                || e is DecodeFailure),
    {
        self.mail_box.fill_msg_box()
    }

    /// Takes in one datagram that the transport received at `local` from
    /// `remote`: if its payload is an issue, a mail from `remote` to `local`
    /// joins the inbound queue; if not, the datagram is dropped.
    pub fn deliver(&mut self, local: String, remote: String, payload: Bytes) -> (r: Result<
        (),
        PaxosError,
    >)
        ensures
            match mail_spec(remote@, seq![local@], octets(payload)) {
                Ok(mail) => r is Ok && final(self)@ == (WorkerView {
                    inbound: old(self)@.inbound.push(mail),
                    ..old(self)@
                }),
                Err(e) => r == Err::<(), PaxosError>(PaxosError::DecodeFailure(e)) && final(self)@
                    == old(self)@,
            },
    {
        match self.mail_box.accept(local, remote, payload) {
            Ok(()) => Ok(()),
            Err(e) => Err(PaxosError::DecodeFailure(e)),
        }
    }

    /// Sends what waits in the outbound queue.
    pub fn flush(&mut self) -> (report: Vec<Delivery>)
        ensures
            handed(report@) == datagrams(old(self)@.outbound),
            final(self)@ == (WorkerView { outbound: Seq::empty(), ..old(self)@ }),
    {
        self.mail_box.flush()
    }

    /// Serves one datagram: waits for it, deals with the oldest mail that
    /// waits, and sends what is to be sent.
    ///
    /// If no datagram can be had, or it is no issue, nothing changes and
    /// the failure is returned. Otherwise the worker deals with the oldest
    /// mail of the inbound queue, which is the new one if none was waiting.
    /// If that mail is dropped, the reason is returned and nothing is sent.
    /// If it is answered, all that waits in the outbound queue is handed to
    /// the transport, the new vote last, and the report says what came of it.
    pub fn invoke(&mut self) -> (r: Result<Vec<Delivery>, PaxosError>)
        ensures
            final(self)@.address == old(self)@.address,
            final(self)@.book == old(self)@.book,
            final(self)@.last >= old(self)@.last,
            final(self)@.inbound.len() == old(self)@.inbound.len(),
            r matches Err(e) && (e is TransportFailure || e is DecodeFailure) ==> final(self)@
                == old(self)@,
            r is Err ==> final(self)@.outbound == old(self)@.outbound,
            r matches Ok(report) ==> {
                &&& final(self)@.outbound == Seq::<MailView>::empty()
                &&& final(self)@.last > old(self)@.last
                &&& exists|proposal: MailView|
                    {
                        &&& worker_step(
                            old(self)@.book,
                            old(self)@.address,
                            old(self)@.last,
                            proposal,
                        ) is Ok
                        &&& proposal.body.id == final(self)@.last
                        &&& old(self)@.inbound.len() > 0 ==> proposal == old(self)@.inbound.first()
                        &&& #[trigger] datagrams(
                            old(self)@.outbound.push(
                                vote_for(old(self)@.book, old(self)@.address, proposal.body),
                            ),
                        ) == handed(report@)
                    }
            },
            old(self)@.inbound.len() > 0 && !(r matches Err(e) && (e is TransportFailure
                || e is DecodeFailure)) ==> {
                &&& final(self)@.last == last_after(
                    old(self)@.book,
                    old(self)@.address,
                    old(self)@.last,
                    old(self)@.inbound.first(),
                )
                &&& r is Ok <==> vote_outcome(old(self)@) is Ok
                &&& r matches Err(e) ==> vote_outcome(old(self)@) == Err::<(), PaxosError>(e)
            },
    {
        match self.receive() {
            Ok(()) => {},
            Err(e) => {
                return Err(e);
            },
        }
        let ghost taken = self@;
        let ghost proposal = taken.inbound.first();
        proof {
            if old(self)@.inbound.len() > 0 {
                assert(taken.inbound.drop_last()[0] == taken.inbound[0]);
            }
        }
        match self.vote() {
            Ok(()) => {},
            Err(e) => {
                return Err(e);
            },
        }
        let report = self.mail_box.flush();
        proof {
            assert(datagrams(
                old(self)@.outbound.push(vote_for(old(self)@.book, old(self)@.address, proposal.body)),
            ) == handed(report@));
        }
        Ok(report)
    }
}

} // verus!

//! Mail between roles, and the mailbox that a role owns.

use crate::buffer::octets;
use crate::connection::Connection;
use crate::error::{DecodeError, PaxosError, TransportError};
use crate::issue::{decode_spec, encode_spec, Issue, IssueView};
use crate::text::{clone_strings, texts};
use bytes::Bytes;
use std::collections::VecDeque;
use vstd::prelude::*;

verus! {

/// An envelope: who sends it, who is to get it, and the issue inside.
pub struct Mail {
    from: String,
    to: Vec<String>,
    body: Issue,
}

/// A mail as plain values.
pub struct MailView {
    pub from: Seq<char>,
    pub to: Seq<Seq<char>>,
    pub body: IssueView,
}

impl View for Mail {
    type V = MailView;

    closed spec fn view(&self) -> MailView {
        MailView { from: self.from@, to: texts(self.to@), body: self.body@ }
    }
}

impl Mail {
    /// A mail from `from` to the recipients `to`, with `content` inside.
    pub fn new(from: String, to: Vec<String>, content: Issue) -> (r: Mail)
        ensures
            r@ == (MailView { from: from@, to: texts(to@), body: content@ }),
    {
        Mail { from, to, body: content }
    }

    /// The issue inside.
    pub fn body(&self) -> (r: Issue)
        ensures
            r@ == self@.body,
    {
        self.body.clone()
    }

    /// The sender.
    pub fn sender(&self) -> (r: String)
        ensures
            r@ == self@.from,
    {
        self.from.clone()
    }

    /// The recipients, in order.
    pub fn receivers(&self) -> (r: Vec<String>)
        ensures
            texts(r@) == self@.to,
    {
        clone_strings(&self.to)
    }

    /// The issue inside, without copying it.
    pub fn body_ref(&self) -> (r: &Issue)
        ensures
            r@ == self@.body,
    {
        &self.body
    }

    /// The sender, without copying it.
    pub fn sender_ref(&self) -> (r: &str)
        ensures
            r@ == self@.from,
    {
        self.from.as_str()
    }
}

/// What a datagram with a sender, recipients and a payload is as a mail.
pub open spec fn mail_spec(from: Seq<char>, to: Seq<Seq<char>>, payload: Seq<u8>) -> Result<
    MailView,
    DecodeError,
> {
    match decode_spec(payload) {
        Ok(body) => Ok(MailView { from, to, body }),
        Err(e) => Err(e),
    }
}

impl TryFrom<(String, Vec<String>, Bytes)> for Mail {
    type Error = DecodeError;

    /// Reads a mail from a sender, its recipients and a payload.
    fn try_from(value: (String, Vec<String>, Bytes)) -> (r: Result<Mail, DecodeError>)
        ensures
            r matches Ok(mail) ==> mail_spec(value.0@, texts(value.1@), octets(value.2)) == Ok::<
                MailView,
                DecodeError,
            >(mail@),
            r matches Err(e) ==> mail_spec(value.0@, texts(value.1@), octets(value.2)) == Err::<
                MailView,
                DecodeError,
            >(e),
    {
        let (from, to, payload) = value;
        match Issue::try_from(payload) {
            Ok(body) => Ok(Mail { from, to, body }),
            Err(e) => Err(e),
        }
    }
}

/// What the conversion returns is stated over views, in its own contract;
/// no value is named for it here.
impl vstd::std_specs::convert::TryFromSpecImpl<(String, Vec<String>, Bytes)> for Mail {
    open spec fn obeys_try_from_spec() -> bool {
        false
    }

    open spec fn try_from_spec(v: (String, Vec<String>, Bytes)) -> Result<Self, Self::Error> {
        arbitrary()
    }
}

impl TryFrom<(String, String, Bytes)> for Mail {
    type Error = DecodeError;

    /// Reads a mail from a sender, its one recipient and a payload.
    fn try_from(value: (String, String, Bytes)) -> (r: Result<Mail, DecodeError>)
        ensures
            r matches Ok(mail) ==> mail_spec(value.0@, seq![value.1@], octets(value.2)) == Ok::<
                MailView,
                DecodeError,
            >(mail@),
            r matches Err(e) ==> mail_spec(value.0@, seq![value.1@], octets(value.2)) == Err::<
                MailView,
                DecodeError,
            >(e),
    {
        let (from, to, payload) = value;
        let mut list: Vec<String> = Vec::new();
        list.push(to);
        assert(texts(list@) =~= seq![value.1@]);
        Mail::try_from((from, list, payload))
    }
}

/// What the conversion returns is stated over views, in its own contract;
/// no value is named for it here.
impl vstd::std_specs::convert::TryFromSpecImpl<(String, String, Bytes)> for Mail {
    open spec fn obeys_try_from_spec() -> bool {
        false
    }

    open spec fn try_from_spec(v: (String, String, Bytes)) -> Result<Self, Self::Error> {
        arbitrary()
    }
}

/// One datagram to send: where to, and what.
pub struct Datagram {
    pub to: String,
    pub payload: Bytes,
}

/// One datagram that was handed to the transport, with what came of it: the
/// number of bytes sent, or the failure.
pub struct Delivery {
    pub to: String,
    pub payload: Bytes,
    pub outcome: Result<usize, TransportError>,
}

/// The datagrams that one mail stands for: its issue's frame, once for each
/// recipient, in the order of the recipients.
pub open spec fn fan_out(mail: MailView) -> Seq<(Seq<char>, Seq<u8>)> {
    mail.to.map_values(|address: Seq<char>| (address, encode_spec(mail.body)))
}

/// The datagrams that a queue of mails stands for, first mail first.
pub open spec fn datagrams(queue: Seq<MailView>) -> Seq<(Seq<char>, Seq<u8>)>
    decreases queue.len(),
{
    if queue.len() == 0 {
        Seq::empty()
    } else {
        datagrams(queue.drop_last()) + fan_out(queue.last())
    }
}

/// Datagrams as plain values.
pub open spec fn plan_view(plan: Seq<Datagram>) -> Seq<(Seq<char>, Seq<u8>)> {
    plan.map_values(|d: Datagram| (d.to@, octets(d.payload)))
}

/// What was handed to the transport, as plain values.
pub open spec fn handed(report: Seq<Delivery>) -> Seq<(Seq<char>, Seq<u8>)> {
    report.map_values(|d: Delivery| (d.to@, octets(d.payload)))
}

/// The inbound and outbound queues of a role, and the transport they are
/// filled from and flushed to.
pub struct MailBox<C: Connection> {
    send_list: VecDeque<Mail>,
    recv_list: VecDeque<Mail>,
    conn: C,
}

impl<C: Connection> MailBox<C> {
    /// The mails waiting to be sent, oldest first.
    pub closed spec fn outbound(&self) -> Seq<MailView> {
        self.send_list@.map_values(|m: Mail| m@)
    }

    /// The mails waiting to be read, oldest first.
    pub closed spec fn inbound(&self) -> Seq<MailView> {
        self.recv_list@.map_values(|m: Mail| m@)
    }

    /// The transport that the queues are filled from and flushed to.
    pub closed spec fn transport(&self) -> C {
        self.conn
    }

    /// A mailbox with empty queues on top of `conn`.
    pub fn new(conn: C) -> (r: Self)
        ensures
            r.transport() == conn,
            r.outbound() == Seq::<MailView>::empty(),
            r.inbound() == Seq::<MailView>::empty(),
    {
        let r = MailBox { send_list: VecDeque::new(), recv_list: VecDeque::new(), conn };
        assert(r.outbound() =~= Seq::<MailView>::empty());
        assert(r.inbound() =~= Seq::<MailView>::empty());
        r
    }

    /// The transport that the mailbox was made on.
    pub fn connection(&self) -> (r: &C)
        ensures
            *r == self.transport(),
    {
        &self.conn
    }

    /// How many mails wait to be read.
    pub fn inbound_len(&self) -> (n: usize)
        ensures
            n == self.inbound().len(),
    {
        self.recv_list.len()
    }

    /// How many mails wait to be sent.
    pub fn outbound_len(&self) -> (n: usize)
        ensures
            n == self.outbound().len(),
    {
        self.send_list.len()
    }

    /// Takes the oldest mail out of the inbound queue.
    pub fn get_mail(&mut self) -> (r: Result<Mail, PaxosError>)
        ensures
            final(self).transport() == old(self).transport(),
            final(self).outbound() == old(self).outbound(),
            old(self).inbound().len() == 0 ==> r == Err::<Mail, PaxosError>(
                PaxosError::EmptyMailBox,
            ) && final(self).inbound() == old(self).inbound(),
            old(self).inbound().len() > 0 ==> r is Ok && r.unwrap()@ == old(self).inbound().first()
                && final(self).inbound() == old(self).inbound().drop_first(),
    {
        let ghost before = self.inbound();
        match self.recv_list.pop_front() {
            Some(mail) => {
                assert(self.inbound() =~= before.drop_first());
                assert(mail@ == before[0]);
                Ok(mail)
            },
            None => Err(PaxosError::EmptyMailBox),
        }
    }

    /// Puts a mail at the end of the outbound queue.
    pub fn put_mail(&mut self, mail: Mail) -> (r: Result<(), PaxosError>)
        ensures
            final(self).transport() == old(self).transport(),
            r is Ok,
            final(self).outbound() == old(self).outbound().push(mail@),
            final(self).inbound() == old(self).inbound(),
    {
        let ghost before = self.outbound();
        self.send_list.push_back(mail);
        assert(self.outbound() =~= before.push(mail@));
        Ok(())
    }

    /// Empties the outbound queue into the datagrams that it stands for.
    pub fn take_outbound(&mut self) -> (plan: Vec<Datagram>)
        ensures
            final(self).transport() == old(self).transport(),
            plan_view(plan@) == datagrams(old(self).outbound()),
            final(self).outbound() == Seq::<MailView>::empty(),
            final(self).inbound() == old(self).inbound(),
    {
        let ghost queue = self.outbound();
        let ghost n = queue.len() as int;
        let mut plan: Vec<Datagram> = Vec::new();
        let ghost mut done: int = 0;
        assert(queue.subrange(0, 0) =~= Seq::<MailView>::empty());
        assert(plan_view(plan@) =~= datagrams(queue.subrange(0, 0)));
        assert(self.outbound() =~= queue.subrange(0, n));
        loop
            invariant
                n == queue.len(),
                0 <= done <= n,
                self.transport() == old(self).transport(),
                self.outbound() == queue.subrange(done, n),
                self.inbound() == old(self).inbound(),
                plan_view(plan@) == datagrams(queue.subrange(0, done)),
            ensures
                self.send_list@.len() == 0,
            decreases self.send_list@.len(),
        {
            let ghost left = self.outbound();
            let mail = match self.send_list.pop_front() {
                Some(mail) => mail,
                None => {
                    break ;
                },
            };
            proof {
                assert(left.len() > 0);
                assert(mail@ == left[0]);
                assert(left[0] == queue[done]);
                assert(self.outbound() =~= left.drop_first());
                assert(left.drop_first() =~= queue.subrange(done + 1, n));
                assert(queue.subrange(0, done + 1).drop_last() =~= queue.subrange(0, done));
                assert(queue.subrange(0, done + 1).last() == mail@);
            }
            let ghost sent = plan_view(plan@);
            let frame = Bytes::from(mail.body.encode());
            let mut k: usize = 0;
            while k < mail.to.len()
                invariant
                    k <= mail.to@.len(),
                    octets(frame) == encode_spec(mail@.body),
                    plan_view(plan@) == sent + fan_out(mail@).subrange(0, k as int),
                decreases mail.to@.len() - k,
            {
                let ghost so_far = plan_view(plan@);
                plan.push(Datagram { to: mail.to[k].clone(), payload: frame.clone() });
                assert(plan_view(plan@) =~= so_far.push(fan_out(mail@)[k as int]));
                assert(fan_out(mail@).subrange(0, k + 1) =~= fan_out(mail@).subrange(
                    0,
                    k as int,
                ).push(fan_out(mail@)[k as int]));
                k += 1;
            }
            proof {
                assert(fan_out(mail@).subrange(0, k as int) =~= fan_out(mail@));
                done = done + 1;
            }
        }
        proof {
            assert(self.send_list@.len() == 0);
            assert(self.outbound().len() == 0);
            assert(done == n);
            assert(queue.subrange(0, n) =~= queue);
            assert(self.outbound() =~= Seq::<MailView>::empty());
        }
        plan
    }

    /// Sends every mail of the outbound queue, oldest first, one datagram to
    /// each of its recipients, and says what came of each. A failure does not
    /// stop the others from being sent.
    pub fn flush(&mut self) -> (report: Vec<Delivery>)
        ensures
            final(self).transport() == old(self).transport(),
            handed(report@) == datagrams(old(self).outbound()),
            final(self).outbound() == Seq::<MailView>::empty(),
            final(self).inbound() == old(self).inbound(),
    {
        let plan = self.take_outbound();
        let mut report: Vec<Delivery> = Vec::new();
        let mut k: usize = 0;
        assert(handed(report@) =~= plan_view(plan@).subrange(0, 0));
        while k < plan.len()
            invariant
                k <= plan@.len(),
                handed(report@) == plan_view(plan@).subrange(0, k as int),
                self.outbound() == Seq::<MailView>::empty(),
                self.inbound() == old(self).inbound(),
            decreases plan@.len() - k,
        {
            let to = plan[k].to.clone();
            let payload = plan[k].payload.clone();
            let outcome = match self.conn.send(plan[k].to.clone(), plan[k].payload.clone()) {
                Ok(sent) => Ok(sent.2),
                Err(e) => Err(e),
            };
            let ghost so_far = handed(report@);
            report.push(Delivery { to, payload, outcome });
            assert(handed(report@) =~= so_far.push(plan_view(plan@)[k as int]));
            assert(plan_view(plan@).subrange(0, k + 1) =~= plan_view(plan@).subrange(
                0,
                k as int,
            ).push(plan_view(plan@)[k as int]));
            k += 1;
        }
        assert(plan_view(plan@).subrange(0, k as int) =~= plan_view(plan@));
        report
    }

    /// Takes in one datagram that the transport received at `local` from
    /// `remote`: if its payload is an issue, a mail from `remote` to `local`
    /// joins the inbound queue; if not, the datagram is dropped.
    pub fn accept(&mut self, local: String, remote: String, payload: Bytes) -> (r: Result<
        (),
        DecodeError,
    >)
        ensures
            final(self).transport() == old(self).transport(),
            final(self).outbound() == old(self).outbound(),
            match mail_spec(remote@, seq![local@], octets(payload)) {
                Ok(mail) => r is Ok && final(self).inbound() == old(self).inbound().push(mail),
                Err(e) => r == Err::<(), DecodeError>(e) && final(self).inbound() == old(
                    self,
                ).inbound(),
            },
    {
        let ghost before = self.inbound();
        match Mail::try_from((remote, local, payload)) {
            Ok(mail) => {
                self.recv_list.push_back(mail);
                assert(self.inbound() =~= before.push(mail@));
                Ok(())
            },
            Err(e) => Err(e),
        }
    }

    /// Waits for one datagram and takes it in.
    ///
    /// On success exactly one mail, addressed to one recipient, has joined
    /// the inbound queue. On failure nothing has changed.
    pub fn fill_msg_box(&mut self) -> (r: Result<(), PaxosError>)
        ensures
            final(self).transport() == old(self).transport(),
            final(self).outbound() == old(self).outbound(),
            r is Ok ==> final(self).inbound().len() == old(self).inbound().len() + 1
                && final(self).inbound().drop_last() == old(self).inbound()
                && final(self).inbound().last().to.len() == 1,
            r matches Err(e) ==> final(self).inbound() == old(self).inbound() && (e is TransportFailure
                || e is DecodeFailure),
    {
        let ghost before = self.inbound();
        match self.conn.recv() {
            Ok(datagram) => {
                let (local, remote, payload) = datagram;
                match self.accept(local, remote, payload) {
                    Ok(()) => {
                        assert(self.inbound().drop_last() =~= before);
                        Ok(())
                    },
                    Err(e) => Err(PaxosError::DecodeFailure(e)),
                }
            },
            Err(e) => Err(PaxosError::TransportFailure(e)),
        }
    }
}

} // verus!

//! What holds of a master over any run: of its counter, of its open
//! proposals, and of what it writes to the log.

use crate::address_book::{is_worker, workers, BookView};
use crate::error::{BackendError, PaxosError, Violation};
use crate::issue::{IssueType, IssueView};
use crate::logbackend::{latest_version, versions};
use crate::mailbox::MailView;
use crate::roles::master::{
    lookup_allowed, lookup_exact, next_id, proposed, quorum, recorded, tally_step, vote_allowed,
    voted, MasterView, TallyView,
};
use crate::text::lemma_encode_utf8_injective;
use vstd::prelude::*;
use vstd::utf8::{encode_utf8, encode_utf8_decode_utf8, encode_utf8_valid_utf8};

verus! {

/// A quorum is the smallest number of voters that is more than half of
/// them; it is never zero.
pub proof fn lemma_quorum_is_majority(senators: nat)
    ensures
        2 * quorum(senators) > senators,
        2 * (quorum(senators) - 1) <= senators,
        quorum(senators) >= 1,
{
}

/// Whether an open proposal fits the directory: it still lacks votes, and
/// has votes of workers only, one of each.
pub open spec fn tally_sound(book: BookView, tally: TallyView) -> bool {
    &&& tally.voters.len() < quorum(workers(book).len())
    &&& tally.voters.no_duplicates()
    &&& forall|k: int| 0 <= k < tally.voters.len() ==> is_worker(book, #[trigger] tally.voters[k])
}

/// Whether the open proposals fit the counter and the directory: each was
/// numbered by this master, still lacks votes, and has votes of workers
/// only, one of each.
pub open spec fn sound<C>(s: MasterView<C>) -> bool {
    forall|id: u64| #[trigger]
        s.tallies.contains_key(id) ==> id <= s.counter && tally_sound(s.book, s.tallies[id])
}

/// The votes of distinct workers stay so when one more worker votes.
pub proof fn lemma_one_more_voter(book: BookView, voters: Seq<Seq<char>>, voter: Seq<char>)
    requires
        voters.no_duplicates(),
        forall|k: int| 0 <= k < voters.len() ==> is_worker(book, #[trigger] voters[k]),
        !voters.contains(voter),
        is_worker(book, voter),
    ensures
        voters.push(voter).no_duplicates(),
        forall|k: int|
            0 <= k < voters.push(voter).len() ==> is_worker(book, #[trigger] voters.push(voter)[k]),
        voters.push(voter).to_set().len() == voters.len() + 1,
{
    let all = voters.push(voter);
    assert forall|i: int, j: int| 0 <= i < all.len() && 0 <= j < all.len() && i != j implies all[i]
        != all[j] by {
        if i < voters.len() && j < voters.len() {
            assert(all[i] == voters[i] && all[j] == voters[j]);
        } else if i < voters.len() {
            assert(voters.contains(voters[i]));
        } else {
            assert(voters.contains(voters[j]));
        }
    }
    assert forall|k: int| 0 <= k < all.len() implies is_worker(book, #[trigger] all[k]) by {
        if k < voters.len() {
            assert(all[k] == voters[k]);
        }
    }
    all.unique_seq_to_set();
}

/// One thing that happens to a master.
pub enum Step {
    /// A text is submitted, and the master proposes it.
    Submit(Seq<char>),
    /// A mail arrives in the inbound queue.
    Deliver(MailView),
    /// The master deals with its oldest mail and reports this outcome.
    Vote(Result<u64, PaxosError>),
}

/// The master after one step.
pub open spec fn stepped<C>(s: MasterView<C>, step: Step) -> MasterView<C> {
    match step {
        Step::Submit(content) => proposed(s, content),
        Step::Deliver(mail) => MasterView { inbound: s.inbound.push(mail), ..s },
        Step::Vote(outcome) => voted(s, outcome),
    }
}

/// The master after a run of steps.
pub open spec fn run<C>(s: MasterView<C>, steps: Seq<Step>) -> MasterView<C>
    decreases steps.len(),
{
    if steps.len() == 0 {
        s
    } else {
        run(stepped(s, steps.first()), steps.drop_first())
    }
}

/// The proposal that a step records: the one whose majority the vote gives,
/// where the outcome is a success.
pub open spec fn commit<C>(s: MasterView<C>, step: Step) -> Option<u64> {
    match step {
        Step::Vote(outcome) => if s.inbound.len() > 0 && tally_step(
            s.book,
            s.tallies,
            s.inbound.first(),
        ) is Ok && outcome is Ok {
            Some(s.inbound.first().body.id)
        } else {
            None
        },
        _ => None,
    }
}

/// The proposals that are recorded in a run, in that order.
pub open spec fn commits<C>(s: MasterView<C>, steps: Seq<Step>) -> Seq<u64>
    decreases steps.len(),
{
    if steps.len() == 0 {
        Seq::empty()
    } else {
        let rest = commits(stepped(s, steps.first()), steps.drop_first());
        match commit(s, steps.first()) {
            Some(id) => seq![id] + rest,
            None => rest,
        }
    }
}

/// Whether proposal `id` can still be recorded: it is open, or its number
/// is yet to be assigned.
pub open spec fn pending<C>(s: MasterView<C>, id: u64) -> bool {
    s.tallies.contains_key(id) || id > s.counter
}

/// A master that has proposed nothing is sound.
pub proof fn lemma_fresh_is_sound<C>(s: MasterView<C>)
    requires
        s.tallies == Map::<u64, TallyView>::empty(),
    ensures
        sound(s),
{
}

/// Every step keeps a sound master sound.
pub proof fn lemma_step_keeps_sound<C>(s: MasterView<C>, step: Step)
    requires
        sound(s),
    ensures
        sound(stepped(s, step)),
{
    let t = stepped(s, step);
    match step {
        Step::Submit(content) => {
            lemma_quorum_is_majority(workers(s.book).len());
            assert forall|id: u64| #[trigger] t.tallies.contains_key(id) implies id <= t.counter
                && tally_sound(t.book, t.tallies[id]) by {
                if next_id(s.counter) is Some && id != next_id(s.counter).unwrap() {
                    assert(s.tallies.contains_key(id));
                }
            }
        },
        Step::Deliver(mail) => {},
        Step::Vote(outcome) => {
            if s.inbound.len() > 0 {
                let mail = s.inbound.first();
                assert forall|id: u64| #[trigger] t.tallies.contains_key(id) implies id
                    <= t.counter && tally_sound(t.book, t.tallies[id]) by {
                    assert(s.tallies.contains_key(id));
                    if id == mail.body.id && t.tallies[id] != s.tallies[id] {
                        lemma_one_more_voter(s.book, s.tallies[id].voters, mail.from);
                    }
                }
            }
        },
    }
}

/// Every run keeps a sound master sound.
pub proof fn lemma_run_keeps_sound<C>(s: MasterView<C>, steps: Seq<Step>)
    requires
        sound(s),
    ensures
        sound(run(s, steps)),
    decreases steps.len(),
{
    if steps.len() > 0 {
        lemma_step_keeps_sound(s, steps.first());
        lemma_run_keeps_sound(stepped(s, steps.first()), steps.drop_first());
    }
}

/// The number that a proposal gets is above the counter: the counter
/// strictly increases whenever a number is assigned.
pub proof fn lemma_assigned_id_is_new<C>(s: MasterView<C>, content: Seq<char>)
    ensures
        next_id(s.counter) matches Some(id) ==> s.counter < id && proposed(s, content).counter
            == id,
        next_id(s.counter) is None ==> proposed(s, content) == s,
{
}

/// The counter never goes back.
pub proof fn lemma_counter_never_decreases<C>(s: MasterView<C>, steps: Seq<Step>)
    ensures
        s.counter <= run(s, steps).counter,
    decreases steps.len(),
{
    if steps.len() > 0 {
        lemma_counter_never_decreases(stepped(s, steps.first()), steps.drop_first());
    }
}

/// Submitting the same text twice gives two different numbers, and both
/// proposals are open afterwards, each with that text.
pub proof fn lemma_resubmit_gets_new_id<C>(s: MasterView<C>, content: Seq<char>)
    requires
        sound(s),
        next_id(s.counter) is Some,
        next_id(proposed(s, content).counter) is Some,
    ensures
        ({
            let first = next_id(s.counter).unwrap();
            let once = proposed(s, content);
            let second = next_id(once.counter).unwrap();
            let twice = proposed(once, content);
            &&& first < second
            &&& twice.tallies.contains_key(first)
            &&& twice.tallies.contains_key(second)
            &&& twice.tallies[first].content == content
            &&& twice.tallies[second].content == content
        }),
{
}

/// A vote for a number that the master has not assigned yet is dropped as
/// naming no open proposal.
pub proof fn lemma_early_vote_is_unknown<C>(s: MasterView<C>, mail: MailView)
    requires
        sound(s),
        mail.body.kind == IssueType::Vote,
        is_worker(s.book, mail.from),
        mail.body.id > s.counter,
    ensures
        tally_step(s.book, s.tallies, mail) == Err::<IssueView, PaxosError>(
            PaxosError::UnknownProposal { id: mail.body.id },
        ),
{
}

/// When a proposal reaches its majority, at least a quorum of workers has
/// voted for it: the senders of the votes counted, the last one included,
/// are workers, no two of them the same, and at least a quorum.
pub proof fn lemma_crossing_has_quorum<C>(s: MasterView<C>, mail: MailView)
    requires
        sound(s),
        tally_step(s.book, s.tallies, mail) is Ok,
    ensures
        ({
            let voters = s.tallies[mail.body.id].voters.push(mail.from);
            &&& voters.no_duplicates()
            &&& forall|k: int| 0 <= k < voters.len() ==> is_worker(s.book, #[trigger] voters[k])
            &&& voters.to_set().len() >= quorum(workers(s.book).len())
        }),
{
    assert(s.tallies.contains_key(mail.body.id));
    lemma_one_more_voter(s.book, s.tallies[mail.body.id].voters, mail.from);
}

/// A vote of a worker whose vote for the proposal was counted before
/// changes nothing but the inbound queue: it is not counted again, and
/// nothing is recorded.
pub proof fn lemma_repeated_vote_is_dropped<C>(s: MasterView<C>, outcome: Result<u64, PaxosError>)
    requires
        s.inbound.len() > 0,
        s.inbound.first().body.kind == IssueType::Vote,
        is_worker(s.book, s.inbound.first().from),
        s.tallies.contains_key(s.inbound.first().body.id),
        s.tallies[s.inbound.first().body.id].content == s.inbound.first().body.content,
        s.tallies[s.inbound.first().body.id].voters.contains(s.inbound.first().from),
    ensures
        vote_allowed(s, outcome) ==> outcome == Err::<u64, PaxosError>(
            PaxosError::ProtocolViolation(Violation::RepeatedVote),
        ),
        voted(s, outcome) == (MasterView { inbound: s.inbound.drop_first(), ..s }),
{
}

/// Where the backend fails at the vote that gives the majority, the
/// proposal stays open as it was and nothing is recorded.
pub proof fn lemma_failed_write_keeps_proposal<C>(s: MasterView<C>, outcome: Result<u64, PaxosError>)
    requires
        s.inbound.len() > 0,
        tally_step(s.book, s.tallies, s.inbound.first()) is Ok,
        outcome is Err,
    ensures
        voted(s, outcome) == (MasterView { inbound: s.inbound.drop_first(), ..s }),
{
}

/// With a backend that never fails, the vote that gives the majority is
/// reported as recorded, and a lookup of the proposal's number then finds
/// its text.
pub proof fn lemma_majority_is_recorded<C>(s: MasterView<C>, outcome: Result<u64, PaxosError>)
    requires
        s.faithful && s.unfailing,
        s.inbound.len() > 0,
        tally_step(s.book, s.tallies, s.inbound.first()) is Ok,
        vote_allowed(s, outcome),
    ensures
        outcome == Ok::<u64, PaxosError>(s.inbound.first().body.id),
        !voted(s, outcome).tallies.contains_key(s.inbound.first().body.id),
        lookup_exact(voted(s, outcome).log, s.inbound.first().body.id) == Ok::<
            Seq<char>,
            PaxosError,
        >(s.inbound.first().body.content),
{
    let content = s.inbound.first().body.content;
    encode_utf8_valid_utf8(content);
    encode_utf8_decode_utf8(content);
}

/// A vote that does not give the majority leaves the proposal open: with
/// fewer votes than a quorum nothing is recorded.
pub proof fn lemma_short_of_quorum_records_nothing<C>(s: MasterView<C>, outcome: Result<u64, PaxosError>)
    requires
        s.inbound.len() > 0,
        tally_step(s.book, s.tallies, s.inbound.first()) is Err,
    ensures
        voted(s, outcome).log == s.log,
{
}

/// Once a resolution is recorded, a lookup of its number finds its text,
/// unless the backend fails: it does not report that nothing was found, nor
/// that the entry is no text.
pub proof fn lemma_recorded_text_is_found<C>(
    s: MasterView<C>,
    resolution: IssueView,
    answer: Result<Seq<char>, PaxosError>,
)
    requires
        lookup_allowed(recorded(s, resolution).log, resolution.id, answer),
    ensures
        answer matches Ok(text) ==> text == resolution.content,
        answer matches Err(e) ==> e is BackendFailure && e != PaxosError::BackendFailure(
            BackendError::NotFound,
        ),
{
    let bytes = encode_utf8(resolution.content);
    assert(latest_version(recorded(s, resolution).log, resolution.id) == Some(bytes));
    encode_utf8_valid_utf8(resolution.content);
    if let Ok(text) = answer {
        lemma_encode_utf8_injective(text, resolution.content);
    }
}

/// In any run of a sound master, no proposal is recorded twice, and one
/// that is recorded was pending at the start.
pub proof fn lemma_one_commit_per_id<C>(s: MasterView<C>, steps: Seq<Step>)
    requires
        sound(s),
    ensures
        commits(s, steps).no_duplicates(),
        forall|i: int| 0 <= i < commits(s, steps).len() ==> pending(s, #[trigger] commits(s, steps)[i]),
    decreases steps.len(),
{
    if steps.len() > 0 {
        let step = steps.first();
        let t = stepped(s, step);
        let rest = commits(t, steps.drop_first());
        let all = commits(s, steps);
        lemma_step_keeps_sound(s, step);
        lemma_one_commit_per_id(t, steps.drop_first());
        assert forall|j: int| 0 <= j < rest.len() implies pending(s, #[trigger] rest[j]) by {
            assert(pending(t, rest[j]));
        }
        match commit(s, step) {
            Some(id) => {
                assert(all =~= seq![id] + rest);
                assert(s.tallies.contains_key(id));
                assert(!pending(t, id));
                assert forall|i: int| 0 <= i < all.len() implies pending(s, #[trigger] all[i]) by {
                    if i > 0 {
                        assert(all[i] == rest[i - 1]);
                    }
                }
                assert forall|i: int, j: int| 0 <= i < j < all.len() implies all[i] != all[j] by {
                    assert(all[j] == rest[j - 1]);
                    assert(pending(t, rest[j - 1]));
                    if i > 0 {
                        assert(all[i] == rest[i - 1]);
                    }
                }
            },
            None => {
                assert(all =~= rest);
            },
        }
    }
}

/// In any run of a sound master, the log keeps every version it had, in
/// order, and gains at most one version under each id; under an id that is
/// not pending it gains none. So a proposal is recorded at most once, and
/// what was recorded first under an id stays its first version.
pub proof fn lemma_recorded_at_most_once<C>(s: MasterView<C>, steps: Seq<Step>, id: u64)
    requires
        sound(s),
    ensures
        versions(s.log, id).is_prefix_of(versions(run(s, steps).log, id)),
        versions(run(s, steps).log, id).len() <= versions(s.log, id).len() + 1,
        !pending(s, id) ==> versions(run(s, steps).log, id) == versions(s.log, id),
    decreases steps.len(),
{
    if steps.len() > 0 {
        let step = steps.first();
        let t = stepped(s, step);
        let end = run(s, steps);
        lemma_step_keeps_sound(s, step);
        lemma_recorded_at_most_once(t, steps.drop_first(), id);
        assert(end == run(t, steps.drop_first()));
        if t.log == s.log {
            assert(pending(t, id) ==> pending(s, id));
        } else {
            let mail = s.inbound.first();
            if mail.body.id == id {
                assert(s.tallies.contains_key(id));
                assert(!pending(t, id));
                assert(versions(t.log, id) =~= versions(s.log, id).push(versions(t.log, id).last()));
            } else {
                assert(versions(t.log, id) == versions(s.log, id));
                assert(pending(t, id) ==> pending(s, id));
            }
        }
    } else {
        assert(versions(s.log, id).is_prefix_of(versions(s.log, id)));
    }
}

} // verus!

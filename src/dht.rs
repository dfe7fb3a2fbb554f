use vstd::prelude::*;

use crate::address::{decimal, decimal_string, lemma_decimal_injective};
use crate::thread::{
    copy_string, copy_strings, copy_thread, cursor_link, same_participants, links_view, membership_links, message_link, new_thread,
    spec_cursor_link, spec_membership_links, spec_message_link, spec_participants, spec_threads,
    strings_view, thread_results, GetThreadsResult, Link, LinkType, LinkView, Thread,
};

verus! {

/// A message record as the message module stores it: its address and its
/// body, which this module does not read.
#[derive(Clone, Debug)]
pub struct MessageWithAddress {
    pub address: String,
    pub content: String,
}

impl View for MessageWithAddress {
    type V = (Seq<char>, Seq<char>);

    open spec fn view(&self) -> (Seq<char>, Seq<char>) {
        (self.address@, self.content@)
    }
}

/// Copies a message record, keeping both fields.
pub fn copy_message(m: &MessageWithAddress) -> (r: MessageWithAddress)
    ensures
        r@ == m@,
{
    MessageWithAddress { address: copy_string(&m.address), content: copy_string(&m.content) }
}

/// Why a read from the store failed.
#[derive(Clone, Copy, Debug, PartialEq, Eq, Structural)]
pub enum ThreadError {
    /// No thread record is stored at the address.
    ThreadNotFound,
    /// A message linked to the thread is not stored.
    MessageNotFound,
}

/// A committed thread record and its content address.
#[derive(Debug)]
pub struct ThreadRecord {
    pub address: String,
    pub thread: Thread,
}

/// An append-only store shared by agents: thread records addressed by
/// content, the link index, and the message records that links point to.
/// Nothing in it is ever changed or removed; every write appends.
pub struct Dht {
    records: Vec<ThreadRecord>,
    links: Vec<Link>,
    messages: Vec<MessageWithAddress>,
}

/// The mathematical state of a store.
pub struct DhtView {
    /// Thread records as (address, participant list), in commit order.
    pub records: Seq<(Seq<char>, Seq<Seq<char>>)>,
    /// Every link ever written, in write order.
    pub links: Seq<LinkView>,
    /// Message records as (address, body), in commit order.
    pub messages: Seq<(Seq<char>, Seq<char>)>,
}

/// The store is well formed: the record committed `i`-th sits at the decimal
/// address of `i`, no two thread records hold the same participant list, and
/// no two message records share an address.
pub open spec fn dht_wf(v: DhtView) -> bool {
    &&& forall|i: int| 0 <= i < v.records.len() ==> (#[trigger] v.records[i]).0 == decimal(i as nat)
    &&& forall|i: int, j: int|
        0 <= i < v.records.len() && 0 <= j < v.records.len() && (#[trigger] v.records[i]).1
            == (#[trigger] v.records[j]).1 ==> i == j
    &&& forall|i: int, j: int|
        0 <= i < v.messages.len() && 0 <= j < v.messages.len() && (#[trigger] v.messages[i]).0
            == (#[trigger] v.messages[j]).0 ==> i == j
}

impl View for Dht {
    type V = DhtView;

    closed spec fn view(&self) -> DhtView {
        DhtView {
            records: self.records@.map_values(|r: ThreadRecord| (r.address@, r.thread@)),
            links: links_view(self.links@),
            messages: self.messages@.map_values(|m: MessageWithAddress| m@),
        }
    }
}

/// The thread stored at `address`, if any.
pub open spec fn spec_thread_at(v: DhtView, address: Seq<char>) -> Option<Seq<Seq<char>>> {
    if exists|i: int| 0 <= i < v.records.len() && (#[trigger] v.records[i]).0 == address {
        let i = choose|i: int| 0 <= i < v.records.len() && (#[trigger] v.records[i]).0 == address;
        Some(v.records[i].1)
    } else {
        None
    }
}

/// Whether a thread record with this participant list is stored.
pub open spec fn has_thread(v: DhtView, participants: Seq<Seq<char>>) -> bool {
    exists|i: int| 0 <= i < v.records.len() && (#[trigger] v.records[i]).1 == participants
}

/// The position of the stored thread record with this participant list.
pub open spec fn stored_index(v: DhtView, participants: Seq<Seq<char>>) -> int {
    choose|i: int| 0 <= i < v.records.len() && (#[trigger] v.records[i]).1 == participants
}

/// The state and the address that result from committing a thread record:
/// the address of the identical record already stored, with the state
/// unchanged; otherwise the record is added at the decimal address of its
/// position.
pub open spec fn spec_commit_thread(v: DhtView, participants: Seq<Seq<char>>) -> (DhtView, Seq<char>) {
    if has_thread(v, participants) {
        (v, v.records[stored_index(v, participants)].0)
    } else {
        let address = decimal(v.records.len());
        (DhtView { records: v.records.push((address, participants)), ..v }, address)
    }
}

/// The state and the address that result from `agent` creating a thread with
/// `participant_ids`: the record is committed, then one membership link per
/// participant is appended, also where the record was already stored.
pub open spec fn spec_create_thread(v: DhtView, agent: Seq<char>, participant_ids: Seq<Seq<char>>) -> (DhtView, Seq<char>) {
    let participants = spec_participants(participant_ids, agent);
    let (committed, address) = spec_commit_thread(v, participants);
    (DhtView { links: committed.links + spec_membership_links(participants, address), ..committed }, address)
}

/// In a well-formed store, the stored record with a participant list is the
/// only one with it.
pub proof fn lemma_stored_index_unique(v: DhtView, participants: Seq<Seq<char>>, n: int)
    requires
        dht_wf(v),
        0 <= n < v.records.len(),
        v.records[n].1 == participants,
    ensures
        has_thread(v, participants),
        stored_index(v, participants) == n,
{
    assert(v.records[n].1 == participants);
}

/// The state after `agent` records `message_address` as read in a thread:
/// one more membership link, nothing removed.
pub open spec fn spec_set_last_read(v: DhtView, agent: Seq<char>, thread_address: Seq<char>, message_address: Seq<char>) -> DhtView {
    DhtView { links: v.links.push(spec_cursor_link(agent, thread_address, message_address)), ..v }
}

/// Whether a link attaches a message to the thread at `thread_address`.
pub open spec fn is_message_of(l: LinkView, thread_address: Seq<char>) -> bool {
    l.source == thread_address && l.link_type == LinkType::ThreadMessage
}

/// The addresses of the messages linked to a thread, one per link, in link order.
pub open spec fn spec_message_targets(links: Seq<LinkView>, thread_address: Seq<char>) -> Seq<Seq<char>>
    decreases links.len(),
{
    if links.len() == 0 {
        Seq::empty()
    } else {
        let rest = spec_message_targets(links.drop_last(), thread_address);
        let l = links.last();
        if is_message_of(l, thread_address) {
            rest.push(l.target)
        } else {
            rest
        }
    }
}

/// Whether a message record is stored at `address`.
pub open spec fn has_message(v: DhtView, address: Seq<char>) -> bool {
    exists|i: int| 0 <= i < v.messages.len() && (#[trigger] v.messages[i]).0 == address
}

/// The messages of a thread: for each linked address the stored record, or
/// nothing at all when one of them is not stored.
pub open spec fn spec_thread_messages(v: DhtView, thread_address: Seq<char>) -> Option<Seq<(Seq<char>, Seq<char>)>> {
    let targets = spec_message_targets(v.links, thread_address);
    if forall|k: int| 0 <= k < targets.len() ==> has_message(v, #[trigger] targets[k]) {
        Some(targets.map_values(|a: Seq<char>|
            v.messages[choose|i: int| 0 <= i < v.messages.len() && (#[trigger] v.messages[i]).0 == a]))
    } else {
        None
    }
}

impl Dht {
    /// The well-formedness of this store.
    pub open spec fn wf(&self) -> bool {
        dht_wf(self@)
    }

    /// An empty store.
    pub fn new() -> (r: Dht)
        ensures
            r.wf(),
            r@.records.len() == 0,
            r@.links.len() == 0,
            r@.messages.len() == 0,
    {
        let r = Dht { records: Vec::new(), links: Vec::new(), messages: Vec::new() };
        proof {
            assert(r@.records =~= Seq::empty());
            assert(r@.links =~= Seq::empty());
            assert(r@.messages =~= Seq::empty());
        }
        r
    }

    fn find_message(&self, address: &String) -> (r: Option<usize>)
        ensures
            match r {
                Some(i) => i < self@.messages.len() && self@.messages[i as int].0 == address@,
                None => !has_message(self@, address@),
            },
    {
        let mut i: usize = 0;
        while i < self.messages.len()
            invariant
                i <= self.messages.len(),
                forall|j: int| 0 <= j < i ==> self@.messages[j].0 != address@,
            decreases self.messages.len() - i,
        {
            if self.messages[i].address == *address {
                return Some(i);
            }
            i += 1;
        }
        None
    }

    /// Commits a message record. The store is content addressed: where a
    /// record with the same address is already stored, nothing changes.
    /// Returns the record's address.
    pub fn commit_message(&mut self, message: MessageWithAddress) -> (r: String)
        requires
            old(self).wf(),
        ensures
            final(self).wf(),
            r@ == message.address@,
            final(self)@.records == old(self)@.records,
            final(self)@.links == old(self)@.links,
            final(self)@.messages == if has_message(old(self)@, message.address@) {
                old(self)@.messages
            } else {
                old(self)@.messages.push(message@)
            },
    {
        let address = copy_string(&message.address);
        match self.find_message(&message.address) {
            Some(_) => {},
            None => {
                self.messages.push(message);
                proof {
                    assert(self@.messages =~= old(self)@.messages.push(message@));
                    assert(self@.records =~= old(self)@.records);
                    assert(self@.links =~= old(self)@.links);
                }
            },
        }
        address
    }
}

/// Commits a thread record. The store is content addressed: where a record
/// with the same participant list is stored, its address is returned and
/// nothing is added; otherwise the record is added at the next address.
pub fn commit_thread(dht: &mut Dht, thread: Thread) -> (r: String)
    requires
        old(dht).wf(),
    ensures
        final(dht).wf(),
        (final(dht)@, r@) == spec_commit_thread(old(dht)@, thread@),
{
    let mut i: usize = 0;
    while i < dht.records.len()
        invariant
            dht.wf(),
            i <= dht.records.len(),
            forall|j: int| 0 <= j < i ==> dht@.records[j].1 != thread@,
        decreases dht.records.len() - i,
    {
        if same_participants(&dht.records[i].thread, &thread) {
            proof {
                assert(dht@.records[i as int].1 == thread@);
                lemma_stored_index_unique(dht@, thread@, i as int);
            }
            return copy_string(&dht.records[i].address);
        }
        i += 1;
    }
    let address = decimal_string(dht.records.len());
    let ghost content = thread@;
    let record = ThreadRecord { address: copy_string(&address), thread };
    dht.records.push(record);
    proof {
        assert(dht@.records =~= old(dht)@.records.push((address@, content)));
        assert(dht@.links =~= old(dht)@.links);
        assert(dht@.messages =~= old(dht)@.messages);
        assert forall|k: int| 0 <= k < dht@.records.len() implies (#[trigger] dht@.records[k]).0 == decimal(k as nat) by {
            if k < old(dht)@.records.len() {
                assert(dht@.records[k] == old(dht)@.records[k]);
            }
        }
    }
    address
}

/// Creates a thread as `agent`: the participant list is `participant_ids`
/// followed by `agent`; the record is committed (an identical record already
/// stored is reused), then every participant gets a membership link to it
/// tagged `"unread"`. Returns the thread's address.
pub fn create_thread(dht: &mut Dht, agent: &String, participant_ids: Vec<String>) -> (r: String)
    requires
        old(dht).wf(),
    ensures
        final(dht).wf(),
        (final(dht)@, r@) == spec_create_thread(old(dht)@, agent@, strings_view(participant_ids@)),
{
    let thread = new_thread(&participant_ids, agent);
    let ghost participants = thread@;
    let address = commit_thread(dht, copy_thread(&thread));
    let links = membership_links(&thread, &address);
    let ghost committed = dht@;
    let mut i: usize = 0;
    while i < links.len()
        invariant
            dht.wf(),
            i <= links.len(),
            dht@.records == committed.records,
            dht@.messages == committed.messages,
            dht@.links == committed.links + links_view(links@.subrange(0, i as int)),
            links_view(links@) == spec_membership_links(participants, address@),
        decreases links.len() - i,
    {
        let l = Link {
            source: copy_string(&links[i].source),
            target: copy_string(&links[i].target),
            link_type: links[i].link_type,
            tag: copy_string(&links[i].tag),
        };
        let ghost before = dht@;
        assert(l@ == links@[i as int]@);
        append_link(dht, l);
        i += 1;
        proof {
            assert(links_view(links@.subrange(0, i as int)) =~= links_view(links@.subrange(0, i - 1)).push(links@[i - 1]@));
            assert(dht@.links =~= committed.links + links_view(links@.subrange(0, i as int)));
        }
    }
    proof {
        assert(links@.subrange(0, links@.len() as int) =~= links@);
        let (v2, a2) = spec_create_thread(old(dht)@, agent@, strings_view(participant_ids@));
        assert(dht@.links =~= v2.links);
    }
    address
}

/// Appends one link to the store's link index.
fn append_link(dht: &mut Dht, link: Link)
    requires
        old(dht).wf(),
    ensures
        final(dht).wf(),
        final(dht)@ == (DhtView { links: old(dht)@.links.push(link@), ..old(dht)@ }),
{
    let ghost l = link@;
    dht.links.push(link);
    proof {
        assert(dht@.links =~= old(dht)@.links.push(l));
        assert(dht@.records =~= old(dht)@.records);
        assert(dht@.messages =~= old(dht)@.messages);
    }
}

/// The threads of `agent`: one entry per membership link of `agent`, in the
/// order the links were written, with the link's tag as last-read message
/// address (`"unread"` until a cursor is set). Links accumulated by cursor
/// updates each give their own entry.
pub fn get_threads(dht: &Dht, agent: &String) -> (r: Vec<GetThreadsResult>)
    ensures
        crate::thread::results_view(r@) == spec_threads(dht@.links, agent@),
{
    thread_results(&dht.links, agent)
}

/// Records `message_address` as the last message that `agent` read in the
/// thread at `thread_address`, by appending a membership link tagged with it.
/// Earlier links stay. Returns the thread address.
pub fn set_last_read_message(dht: &mut Dht, agent: &String, thread_address: &String, message_address: &String) -> (r: String)
    requires
        old(dht).wf(),
    ensures
        final(dht).wf(),
        final(dht)@ == spec_set_last_read(old(dht)@, agent@, thread_address@, message_address@),
        r@ == thread_address@,
{
    let link = cursor_link(agent, thread_address, message_address);
    append_link(dht, link);
    copy_string(thread_address)
}

/// Attaches the message at `message_address` to the thread at
/// `thread_address`, as the message module does when a message is posted.
pub fn link_message(dht: &mut Dht, thread_address: &String, message_address: &String)
    requires
        old(dht).wf(),
    ensures
        final(dht).wf(),
        final(dht)@ == (DhtView {
            links: old(dht)@.links.push(spec_message_link(thread_address@, message_address@)),
            ..old(dht)@
        }),
{
    let link = message_link(thread_address, message_address);
    append_link(dht, link);
}

/// The participant list of the thread stored at `thread_address`, in stored
/// order; `ThreadNotFound` where no thread is stored there.
pub fn get_thread_participants(dht: &Dht, thread_address: &String) -> (r: Result<Vec<String>, ThreadError>)
    requires
        dht.wf(),
    ensures
        match r {
            Ok(v) => spec_thread_at(dht@, thread_address@) == Some(strings_view(v@)),
            Err(e) => e == ThreadError::ThreadNotFound && spec_thread_at(dht@, thread_address@) is None,
        },
{
    let mut i: usize = 0;
    while i < dht.records.len()
        invariant
            dht.wf(),
            i <= dht.records.len(),
            forall|j: int| 0 <= j < i ==> dht@.records[j].0 != thread_address@,
        decreases dht.records.len() - i,
    {
        if dht.records[i].address == *thread_address {
            let v = copy_strings(&dht.records[i].thread.participants);
            proof {
                let k = choose|k: int| 0 <= k < dht@.records.len() && (#[trigger] dht@.records[k]).0 == thread_address@;
                assert(dht@.records[i as int].0 == thread_address@);
                lemma_decimal_injective(k as nat, i as nat);
            }
            return Ok(v);
        }
        i += 1;
    }
    Err(ThreadError::ThreadNotFound)
}

/// The records of every message linked to the thread at `thread_address`,
/// one per link, in link order; `MessageNotFound` as soon as one linked
/// message is not stored, in which case no record is returned.
pub fn get_thread_messages(dht: &Dht, thread_address: &String) -> (r: Result<Vec<MessageWithAddress>, ThreadError>)
    requires
        dht.wf(),
    ensures
        match r {
            Ok(v) => spec_thread_messages(dht@, thread_address@) == Some(v@.map_values(|m: MessageWithAddress| m@)),
            Err(e) => e == ThreadError::MessageNotFound && spec_thread_messages(dht@, thread_address@) is None,
        },
{
    let ghost targets = spec_message_targets(dht@.links, thread_address@);
    let ghost pick = |a: Seq<char>|
        dht@.messages[choose|i: int| 0 <= i < dht@.messages.len() && (#[trigger] dht@.messages[i]).0 == a];
    let mut out: Vec<MessageWithAddress> = Vec::new();
    let mut i: usize = 0;
    while i < dht.links.len()
        invariant
            dht.wf(),
            i <= dht.links.len(),
            targets == spec_message_targets(dht@.links, thread_address@),
            pick == (|a: Seq<char>|
                dht@.messages[choose|i: int| 0 <= i < dht@.messages.len() && (#[trigger] dht@.messages[i]).0 == a]),
            ({
                let seen = spec_message_targets(dht@.links.subrange(0, i as int), thread_address@);
                &&& forall|k: int| 0 <= k < seen.len() ==> has_message(dht@, #[trigger] seen[k])
                &&& out@.map_values(|m: MessageWithAddress| m@) == seen.map_values(pick)
            }),
        decreases dht.links.len() - i,
    {
        let ghost seen = spec_message_targets(dht@.links.subrange(0, i as int), thread_address@);
        proof {
            assert(dht@.links.subrange(0, i + 1).drop_last() =~= dht@.links.subrange(0, i as int));
            assert(dht@.links.subrange(0, i + 1).last() == dht@.links[i as int]);
        }
        let l = &dht.links[i];
        if l.link_type == LinkType::ThreadMessage && l.source == *thread_address {
            match dht.find_message(&l.target) {
                None => {
                    proof {
                        lemma_targets_prefix(dht@.links, thread_address@, i as int + 1);
                        let seen2 = spec_message_targets(dht@.links.subrange(0, i + 1), thread_address@);
                        assert(seen2.last() == l.target@);
                        assert(targets[seen2.len() - 1] == l.target@);
                    }
                    return Err(ThreadError::MessageNotFound);
                },
                Some(j) => {
                    let m = copy_message(&dht.messages[j]);
                    proof {
                        let c = choose|c: int| 0 <= c < dht@.messages.len() && (#[trigger] dht@.messages[c]).0 == l.target@;
                        assert(dht@.messages[j as int].0 == l.target@);
                        assert(c == j);
                        assert(m@ == pick(l.target@));
                    }
                    let ghost before = out@;
                    out.push(m);
                    proof {
                        let seen2 = spec_message_targets(dht@.links.subrange(0, i + 1), thread_address@);
                        assert(seen2 == seen.push(l.target@));
                        assert(out@ =~= before.push(m));
                        assert(out@.map_values(|m: MessageWithAddress| m@) =~= before.map_values(|m: MessageWithAddress| m@).push(m@));
                        assert(seen2.map_values(pick) =~= seen.map_values(pick).push(pick(l.target@)));
                        assert(out@.map_values(|m: MessageWithAddress| m@) =~= seen2.map_values(pick));
                    }
                },
            }
        }
        i += 1;
    }
    proof {
        assert(dht@.links.subrange(0, dht@.links.len() as int) =~= dht@.links);
        assert(targets.map_values(pick) =~= targets.map_values(|a: Seq<char>|
            dht@.messages[choose|i: int| 0 <= i < dht@.messages.len() && (#[trigger] dht@.messages[i]).0 == a]));
    }
    Ok(out)
}

/// The message targets of a prefix of the links are a prefix of those of all links.
pub proof fn lemma_targets_prefix(links: Seq<LinkView>, thread_address: Seq<char>, n: int)
    requires
        0 <= n <= links.len(),
    ensures
        spec_message_targets(links.subrange(0, n), thread_address).len() <= spec_message_targets(links, thread_address).len(),
        forall|k: int| 0 <= k < spec_message_targets(links.subrange(0, n), thread_address).len() ==>
            #[trigger] spec_message_targets(links.subrange(0, n), thread_address)[k] == spec_message_targets(links, thread_address)[k],
    decreases links.len() - n,
{
    if n < links.len() {
        lemma_targets_prefix(links, thread_address, n + 1);
        let s1 = links.subrange(0, n + 1);
        assert(s1.drop_last() =~= links.subrange(0, n));
        let t0 = spec_message_targets(links.subrange(0, n), thread_address);
        let t1 = spec_message_targets(s1, thread_address);
        assert(t1 == t0 || t1 == t0.push(s1.last().target));
        assert forall|k: int| 0 <= k < t0.len() implies #[trigger] t0[k] == spec_message_targets(links, thread_address)[k] by {
            assert(t0[k] == t1[k]);
        }
    } else {
        assert(links.subrange(0, n) =~= links);
    }
}

} // verus!

use vstd::prelude::*;

use crate::address::{decimal, lemma_decimal_injective};
use crate::dht::{
    dht_wf, has_message, has_thread, stored_index, spec_create_thread, spec_message_targets, spec_set_last_read, spec_thread_at,
    spec_thread_messages, DhtView,
};
use crate::thread::{is_membership_of, spec_message_link, spec_participants, spec_threads, LinkView, UNREAD_TAG};

verus! {

/// Every membership link of `agent` shows up in the agent's thread discovery,
/// with its target and tag.
pub proof fn lemma_threads_contains(links: Seq<LinkView>, agent: Seq<char>, k: int)
    requires
        0 <= k < links.len(),
        is_membership_of(links[k], agent),
    ensures
        spec_threads(links, agent).contains((links[k].target, links[k].tag)),
    decreases links.len(),
{
    let r = spec_threads(links, agent);
    if k == links.len() - 1 {
        assert(r.last() == (links[k].target, links[k].tag));
        assert(r[r.len() - 1] == (links[k].target, links[k].tag));
    } else {
        let rest = links.drop_last();
        assert(rest[k] == links[k]);
        lemma_threads_contains(rest, agent, k);
        let prev = spec_threads(rest, agent);
        let i = choose|i: int| 0 <= i < prev.len() && prev[i] == (links[k].target, links[k].tag);
        assert(r[i] == prev[i]);
    }
}

/// Reading back a freshly created thread gives the participants it was
/// created with, followed by the creator, whether the record was new or
/// already stored.
pub proof fn lemma_participants_round_trip(v: DhtView, agent: Seq<char>, participant_ids: Seq<Seq<char>>)
    requires
        dht_wf(v),
    ensures
        ({
            let (after, address) = spec_create_thread(v, agent, participant_ids);
            spec_thread_at(after, address) == Some(spec_participants(participant_ids, agent))
        }),
{
    let ps = spec_participants(participant_ids, agent);
    let (after, address) = spec_create_thread(v, agent, participant_ids);
    let n = if has_thread(v, ps) { stored_index(v, ps) } else { v.records.len() as int };
    assert(0 <= n < after.records.len() && after.records[n] == (address, ps));
    assert forall|k: int| 0 <= k < after.records.len() implies (#[trigger] after.records[k]).0 == decimal(k as nat) by {
        if k < v.records.len() {
            assert(after.records[k] == v.records[k]);
        }
    }
    assert forall|k: int| 0 <= k < after.records.len() && (#[trigger] after.records[k]).0 == address implies k == n by {
        assert(after.records[k].0 == decimal(k as nat));
        assert(after.records[n].0 == decimal(n as nat));
        lemma_decimal_injective(k as nat, n as nat);
    }
    lemma_thread_at_unique(after, address, n);
}

/// Where exactly one record sits at `address`, the lookup finds it.
proof fn lemma_thread_at_unique(v: DhtView, address: Seq<char>, n: int)
    requires
        0 <= n < v.records.len(),
        v.records[n].0 == address,
        forall|k: int| 0 <= k < v.records.len() && (#[trigger] v.records[k]).0 == address ==> k == n,
    ensures
        spec_thread_at(v, address) == Some(v.records[n].1),
{
}

/// After a thread is created, every participant, the creator included, finds
/// it among their threads with the `"unread"` tag.
pub proof fn lemma_participants_see_unread(v: DhtView, agent: Seq<char>, participant_ids: Seq<Seq<char>>, q: Seq<char>)
    requires
        spec_participants(participant_ids, agent).contains(q),
    ensures
        ({
            let (after, address) = spec_create_thread(v, agent, participant_ids);
            spec_threads(after.links, q).contains((address, UNREAD_TAG@))
        }),
{
    let (after, address) = spec_create_thread(v, agent, participant_ids);
    let ps = spec_participants(participant_ids, agent);
    let j = choose|j: int| 0 <= j < ps.len() && ps[j] == q;
    let k = v.links.len() + j;
    assert(after.links[k] == crate::thread::spec_membership_links(ps, address)[j]);
    lemma_threads_contains(after.links, q, k);
}

/// Setting a cursor adds exactly one discovery entry for the agent, pairing
/// the thread with the message; the earlier entries stay.
pub proof fn lemma_cursor_visible(v: DhtView, agent: Seq<char>, thread_address: Seq<char>, message_address: Seq<char>)
    ensures
        spec_threads(spec_set_last_read(v, agent, thread_address, message_address).links, agent)
            == spec_threads(v.links, agent).push((thread_address, message_address)),
        spec_threads(spec_set_last_read(v, agent, thread_address, message_address).links, agent)
            .contains((thread_address, message_address)),
{
    let after = spec_set_last_read(v, agent, thread_address, message_address);
    assert(after.links.drop_last() =~= v.links);
    let r = spec_threads(after.links, agent);
    assert(r[r.len() - 1] == (thread_address, message_address));
}

/// Linking a message to a thread adds its address to the thread's message
/// list, after those linked before.
pub proof fn lemma_message_link_listed(links: Seq<LinkView>, thread_address: Seq<char>, message_address: Seq<char>)
    ensures
        spec_message_targets(links.push(spec_message_link(thread_address, message_address)), thread_address)
            == spec_message_targets(links, thread_address).push(message_address),
{
    assert(links.push(spec_message_link(thread_address, message_address)).drop_last() =~= links);
}

/// A thread's message list holds, for each linked address and nothing else,
/// the record stored there, so its addresses form the set of linked
/// addresses; it is absent exactly when some linked message is not stored.
pub proof fn lemma_thread_messages_exact(v: DhtView, thread_address: Seq<char>)
    requires
        dht_wf(v),
    ensures
        ({
            let targets = spec_message_targets(v.links, thread_address);
            match spec_thread_messages(v, thread_address) {
                Some(ms) => {
                    &&& ms.len() == targets.len()
                    &&& forall|k: int| 0 <= k < ms.len() ==> (#[trigger] ms[k]).0 == targets[k] && v.messages.contains(ms[k])
                    &&& ms.map_values(|m: (Seq<char>, Seq<char>)| m.0).to_set() == targets.to_set()
                },
                None => exists|k: int| 0 <= k < targets.len() && !has_message(v, #[trigger] targets[k]),
            }
        }),
{
    let targets = spec_message_targets(v.links, thread_address);
    match spec_thread_messages(v, thread_address) {
        Some(ms) => {
            assert forall|k: int| 0 <= k < ms.len() implies (#[trigger] ms[k]).0 == targets[k] && v.messages.contains(ms[k]) by {
                assert(has_message(v, targets[k]));
                let i = choose|i: int| 0 <= i < v.messages.len() && (#[trigger] v.messages[i]).0 == targets[k];
                assert(ms[k] == v.messages[i]);
            }
            assert(ms.map_values(|m: (Seq<char>, Seq<char>)| m.0) =~= targets);
        },
        None => {},
    }
}

/// After the creator of a thread sets a cursor on it, the creator's thread
/// discovery lists the thread both with the `"unread"` tag of creation and
/// with the message of the cursor.
pub proof fn lemma_cursor_keeps_unread(v: DhtView, agent: Seq<char>, participant_ids: Seq<Seq<char>>, message_address: Seq<char>)
    ensures
        ({
            let (created, address) = spec_create_thread(v, agent, participant_ids);
            let after = spec_set_last_read(created, agent, address, message_address);
            &&& spec_threads(after.links, agent).contains((address, UNREAD_TAG@))
            &&& spec_threads(after.links, agent).contains((address, message_address))
        }),
{
    let (created, address) = spec_create_thread(v, agent, participant_ids);
    let ps = spec_participants(participant_ids, agent);
    assert(ps[ps.len() - 1] == agent);
    lemma_participants_see_unread(v, agent, participant_ids, agent);
    lemma_cursor_visible(created, agent, address, message_address);
    let before = spec_threads(created.links, agent);
    let i = choose|i: int| 0 <= i < before.len() && before[i] == (address, UNREAD_TAG@);
    assert(before.push((address, message_address))[i] == (address, UNREAD_TAG@));
}

} // verus!

use vstd::prelude::*;

verus! {

/// Entry type under which thread records are registered with the store.
pub const THREAD_ENTRY_TYPE: &'static str = "thread";

/// Link-type name of the thread-to-message links.
pub const MESSAGE_LINK_TYPE: &'static str = "message_link_thread";

/// Link-type name of the agent-to-thread membership links.
pub const AGENT_MESSAGE_THREAD_LINK_TYPE: &'static str = "agent_message_thread";

/// Tag that a membership link carries until its agent records a last-read message.
pub const UNREAD_TAG: &'static str = "unread";

/// A thread record: the ordered list of its participants' agent addresses.
#[derive(Clone, Debug)]
pub struct Thread {
    pub participants: Vec<String>,
}

/// One entry of thread discovery: a thread and the last-read tag of one
/// membership link to it.
#[derive(Clone, Debug)]
pub struct GetThreadsResult {
    pub address: String,
    pub last_read_message_address: String,
}

/// The two kinds of edge that this module writes to the link index.
#[derive(Clone, Copy, Debug, PartialEq, Eq, Structural)]
pub enum LinkType {
    /// agent -> thread; the tag holds the last-read message address or `"unread"`.
    AgentThread,
    /// thread -> message; the tag is unused.
    ThreadMessage,
}

impl LinkType {
    /// The link-type name under which the edge is registered with the store.
    pub fn name(&self) -> (r: &'static str)
        ensures
            r@ == match self {
                LinkType::AgentThread => AGENT_MESSAGE_THREAD_LINK_TYPE@,
                LinkType::ThreadMessage => MESSAGE_LINK_TYPE@,
            },
    {
        match self {
            LinkType::AgentThread => AGENT_MESSAGE_THREAD_LINK_TYPE,
            LinkType::ThreadMessage => MESSAGE_LINK_TYPE,
        }
    }
}

/// A directed, typed, tagged edge of the link index.
#[derive(Debug)]
pub struct Link {
    pub source: String,
    pub target: String,
    pub link_type: LinkType,
    pub tag: String,
}

/// Mathematical view of a link: addresses and tag as character sequences.
pub struct LinkView {
    pub source: Seq<char>,
    pub target: Seq<char>,
    pub link_type: LinkType,
    pub tag: Seq<char>,
}

impl View for Link {
    type V = LinkView;

    open spec fn view(&self) -> LinkView {
        LinkView { source: self.source@, target: self.target@, link_type: self.link_type, tag: self.tag@ }
    }
}

impl View for Thread {
    type V = Seq<Seq<char>>;

    open spec fn view(&self) -> Seq<Seq<char>> {
        self.participants@.map_values(|p: String| p@)
    }
}

impl View for GetThreadsResult {
    type V = (Seq<char>, Seq<char>);

    open spec fn view(&self) -> (Seq<char>, Seq<char>) {
        (self.address@, self.last_read_message_address@)
    }
}

/// The view of a vector of strings as a sequence of character sequences.
pub open spec fn strings_view(v: Seq<String>) -> Seq<Seq<char>> {
    v.map_values(|s: String| s@)
}

/// Copies a string, keeping its characters.
pub fn copy_string(s: &String) -> (r: String)
    ensures
        r@ == s@,
{
    s.clone()
}

/// Copies a vector of strings, keeping every element and the order.
pub fn copy_strings(v: &Vec<String>) -> (r: Vec<String>)
    ensures
        strings_view(r@) == strings_view(v@),
{
    let mut r: Vec<String> = Vec::new();
    let mut i: usize = 0;
    while i < v.len()
        invariant
            i <= v.len(),
            r@.len() == i,
            forall|j: int| 0 <= j < i ==> r@[j]@ == v@[j]@,
        decreases v.len() - i,
    {
        r.push(copy_string(&v[i]));
        i += 1;
    }
    proof {
        assert(strings_view(r@) =~= strings_view(v@));
    }
    r
}

/// Copies a thread record, keeping its participant list.
pub fn copy_thread(t: &Thread) -> (r: Thread)
    ensures
        r@ == t@,
{
    Thread { participants: copy_strings(&t.participants) }
}

/// Whether two threads hold the same participant list, element by element.
pub fn same_participants(a: &Thread, b: &Thread) -> (r: bool)
    ensures
        r == (a@ == b@),
{
    if a.participants.len() != b.participants.len() {
        assert(a@.len() != b@.len());
        return false;
    }
    let mut i: usize = 0;
    while i < a.participants.len()
        invariant
            i <= a.participants.len(),
            a.participants.len() == b.participants.len(),
            forall|j: int| 0 <= j < i ==> a.participants@[j]@ == b.participants@[j]@,
        decreases a.participants.len() - i,
    {
        if a.participants[i] != b.participants[i] {
            assert(a@[i as int] != b@[i as int]);
            return false;
        }
        i += 1;
    }
    assert(a@ =~= b@);
    true
}

/// The participant list of a thread created by `agent` with the given
/// participants: the given list in its order, then `agent`, with no
/// deduplication.
pub open spec fn spec_participants(participant_ids: Seq<Seq<char>>, agent: Seq<char>) -> Seq<Seq<char>> {
    participant_ids.push(agent)
}

/// Builds the thread record that `agent` creates for `participant_ids`.
pub fn new_thread(participant_ids: &Vec<String>, agent: &String) -> (t: Thread)
    ensures
        t@ == spec_participants(strings_view(participant_ids@), agent@),
{
    let mut participants = copy_strings(participant_ids);
    let me = copy_string(agent);
    participants.push(me);
    let t = Thread { participants };
    proof {
        assert(t@ =~= spec_participants(strings_view(participant_ids@), agent@));
    }
    t
}

/// The membership links that thread creation writes: one per participant, in
/// list order, from the participant to the thread, tagged `"unread"`.
pub open spec fn spec_membership_links(participants: Seq<Seq<char>>, thread_address: Seq<char>) -> Seq<LinkView> {
    participants.map_values(|p: Seq<char>| LinkView {
        source: p,
        target: thread_address,
        link_type: LinkType::AgentThread,
        tag: UNREAD_TAG@,
    })
}

/// Builds the membership links for a thread stored at `thread_address`.
pub fn membership_links(thread: &Thread, thread_address: &String) -> (r: Vec<Link>)
    ensures
        r@.map_values(|l: Link| l@) == spec_membership_links(thread@, thread_address@),
{
    let mut r: Vec<Link> = Vec::new();
    let mut i: usize = 0;
    while i < thread.participants.len()
        invariant
            i <= thread.participants.len(),
            r@.len() == i,
            forall|j: int| 0 <= j < i ==> (#[trigger] r@[j])@ == (LinkView {
                source: thread.participants@[j]@,
                target: thread_address@,
                link_type: LinkType::AgentThread,
                tag: UNREAD_TAG@,
            }),
        decreases thread.participants.len() - i,
    {
        let link = Link {
            source: copy_string(&thread.participants[i]),
            target: copy_string(thread_address),
            link_type: LinkType::AgentThread,
            tag: String::from_str(UNREAD_TAG),
        };
        r.push(link);
        i += 1;
    }
    proof {
        assert(r@.map_values(|l: Link| l@) =~= spec_membership_links(thread@, thread_address@));
    }
    r
}

/// The link that records `message_address` as the last message that `agent`
/// read in the thread at `thread_address`.
pub open spec fn spec_cursor_link(agent: Seq<char>, thread_address: Seq<char>, message_address: Seq<char>) -> LinkView {
    LinkView { source: agent, target: thread_address, link_type: LinkType::AgentThread, tag: message_address }
}

/// Builds the cursor link of `agent` on a thread.
pub fn cursor_link(agent: &String, thread_address: &String, message_address: &String) -> (r: Link)
    ensures
        r@ == spec_cursor_link(agent@, thread_address@, message_address@),
{
    Link {
        source: copy_string(agent),
        target: copy_string(thread_address),
        link_type: LinkType::AgentThread,
        tag: copy_string(message_address),
    }
}

/// The link that attaches the message at `message_address` to a thread.
pub open spec fn spec_message_link(thread_address: Seq<char>, message_address: Seq<char>) -> LinkView {
    LinkView { source: thread_address, target: message_address, link_type: LinkType::ThreadMessage, tag: Seq::empty() }
}

/// Builds the link that attaches a message to a thread.
pub fn message_link(thread_address: &String, message_address: &String) -> (r: Link)
    ensures
        r@ == spec_message_link(thread_address@, message_address@),
{
    Link {
        source: copy_string(thread_address),
        target: copy_string(message_address),
        link_type: LinkType::ThreadMessage,
        tag: String::new(),
    }
}

/// Whether a link is a membership link of `agent`.
pub open spec fn is_membership_of(l: LinkView, agent: Seq<char>) -> bool {
    l.source == agent && l.link_type == LinkType::AgentThread
}

/// Thread discovery over a sequence of links: one entry per membership link
/// of `agent`, in link order, pairing the thread with the link's tag.
pub open spec fn spec_threads(links: Seq<LinkView>, agent: Seq<char>) -> Seq<(Seq<char>, Seq<char>)>
    decreases links.len(),
{
    if links.len() == 0 {
        Seq::empty()
    } else {
        let rest = spec_threads(links.drop_last(), agent);
        let l = links.last();
        if is_membership_of(l, agent) {
            rest.push((l.target, l.tag))
        } else {
            rest
        }
    }
}

/// The view of a vector of discovery entries.
pub open spec fn results_view(v: Seq<GetThreadsResult>) -> Seq<(Seq<char>, Seq<char>)> {
    v.map_values(|e: GetThreadsResult| e@)
}

/// The view of a vector of links.
pub open spec fn links_view(v: Seq<Link>) -> Seq<LinkView> {
    v.map_values(|l: Link| l@)
}

/// Maps the membership links of `agent` among `links` to discovery entries,
/// one per link.
pub fn thread_results(links: &Vec<Link>, agent: &String) -> (r: Vec<GetThreadsResult>)
    ensures
        results_view(r@) == spec_threads(links_view(links@), agent@),
{
    let mut r: Vec<GetThreadsResult> = Vec::new();
    let mut i: usize = 0;
    while i < links.len()
        invariant
            i <= links.len(),
            results_view(r@) == spec_threads(links_view(links@.subrange(0, i as int)), agent@),
        decreases links.len() - i,
    {
        let l = &links[i];
        proof {
            let pre = links_view(links@.subrange(0, i as int));
            let post = links_view(links@.subrange(0, i + 1));
            assert(post.drop_last() =~= pre);
            assert(post.last() == l@);
        }
        if l.link_type == LinkType::AgentThread && l.source == *agent {
            let e = GetThreadsResult { address: copy_string(&l.target), last_read_message_address: copy_string(&l.tag) };
            let ghost before = r@;
            r.push(e);
            proof {
                assert(results_view(r@) =~= results_view(before).push(e@));
            }
        }
        i += 1;
    }
    proof {
        assert(links@.subrange(0, links@.len() as int) =~= links@);
    }
    r
}

} // verus!

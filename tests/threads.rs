use messages::address::decimal_string;
use messages::dht::{
    create_thread, get_thread_messages, get_thread_participants, get_threads, link_message,
    set_last_read_message, Dht, MessageWithAddress, ThreadError,
};
use messages::thread::{
    cursor_link, membership_links, message_link, new_thread, thread_results, GetThreadsResult, LinkType,
    UNREAD_TAG,
};

fn s(x: &str) -> String {
    x.to_string()
}

fn entries(v: &[GetThreadsResult]) -> Vec<(String, String)> {
    v.iter().map(|e| (e.address.clone(), e.last_read_message_address.clone())).collect()
}

fn message(address: &str, content: &str) -> MessageWithAddress {
    MessageWithAddress { address: s(address), content: s(content) }
}

#[test]
fn scenario_create_read_cursor_and_messages() {
    let mut dht = Dht::new();
    let a = s("A");
    let t = create_thread(&mut dht, &a, vec![s("B"), s("C")]);
    assert_eq!(get_thread_participants(&dht, &t).unwrap(), vec![s("B"), s("C"), s("A")]);
    for q in ["B", "C", "A"] {
        assert_eq!(entries(&get_threads(&dht, &s(q))), vec![(t.clone(), s("unread"))]);
    }
    let echoed = set_last_read_message(&mut dht, &a, &t, &s("M1"));
    assert_eq!(echoed, t);
    assert!(entries(&get_threads(&dht, &a)).contains(&(t.clone(), s("M1"))));
    dht.commit_message(message("M2", "hello"));
    link_message(&mut dht, &t, &s("M2"));
    let msgs = get_thread_messages(&dht, &t).unwrap();
    assert_eq!(msgs.len(), 1);
    assert_eq!(msgs[0].address, "M2");
    assert_eq!(msgs[0].content, "hello");
}

#[test]
fn creator_is_appended_after_participants() {
    let mut dht = Dht::new();
    let t = create_thread(&mut dht, &s("me"), vec![s("x"), s("y"), s("z")]);
    assert_eq!(get_thread_participants(&dht, &t).unwrap(), vec![s("x"), s("y"), s("z"), s("me")]);
}

#[test]
fn empty_participant_list_gives_creator_only() {
    let mut dht = Dht::new();
    let t = create_thread(&mut dht, &s("solo"), vec![]);
    assert_eq!(get_thread_participants(&dht, &t).unwrap(), vec![s("solo")]);
    assert_eq!(entries(&get_threads(&dht, &s("solo"))), vec![(t, s("unread"))]);
}

#[test]
fn creator_listed_twice_gets_two_membership_links() {
    let mut dht = Dht::new();
    let t = create_thread(&mut dht, &s("A"), vec![s("A"), s("B")]);
    assert_eq!(get_thread_participants(&dht, &t).unwrap(), vec![s("A"), s("B"), s("A")]);
    assert_eq!(
        entries(&get_threads(&dht, &s("A"))),
        vec![(t.clone(), s("unread")), (t, s("unread"))]
    );
}

#[test]
fn threads_get_distinct_decimal_addresses() {
    let mut dht = Dht::new();
    let mut addresses = Vec::new();
    for i in 0..12 {
        addresses.push(create_thread(&mut dht, &s("A"), vec![format!("p{}", i)]));
    }
    assert_eq!(addresses[0], "0");
    assert_eq!(addresses[11], "11");
    for (i, t) in addresses.iter().enumerate() {
        assert_eq!(get_thread_participants(&dht, t).unwrap(), vec![format!("p{}", i), s("A")]);
    }
    assert_eq!(get_threads(&dht, &s("A")).len(), 12);
}

#[test]
fn decimal_addresses() {
    assert_eq!(decimal_string(0), "0");
    assert_eq!(decimal_string(7), "7");
    assert_eq!(decimal_string(10), "10");
    assert_eq!(decimal_string(90210), "90210");
    assert_eq!(decimal_string(usize::MAX), usize::MAX.to_string());
}

#[test]
fn unknown_thread_is_not_found() {
    let mut dht = Dht::new();
    create_thread(&mut dht, &s("A"), vec![s("B")]);
    assert_eq!(get_thread_participants(&dht, &s("nope")).unwrap_err(), ThreadError::ThreadNotFound);
    assert_eq!(get_thread_participants(&Dht::new(), &s("0")).unwrap_err(), ThreadError::ThreadNotFound);
}

#[test]
fn non_participants_see_no_thread() {
    let mut dht = Dht::new();
    create_thread(&mut dht, &s("A"), vec![s("B")]);
    assert!(get_threads(&dht, &s("C")).is_empty());
}

#[test]
fn cursor_updates_accumulate() {
    let mut dht = Dht::new();
    let a = s("A");
    let t = create_thread(&mut dht, &a, vec![s("B")]);
    set_last_read_message(&mut dht, &a, &t, &s("M1"));
    set_last_read_message(&mut dht, &a, &t, &s("M2"));
    assert_eq!(
        entries(&get_threads(&dht, &a)),
        vec![(t.clone(), s("unread")), (t.clone(), s("M1")), (t.clone(), s("M2"))]
    );
    assert_eq!(entries(&get_threads(&dht, &s("B"))), vec![(t, s("unread"))]);
}

#[test]
fn cursor_on_unknown_thread_is_accepted() {
    let mut dht = Dht::new();
    let r = set_last_read_message(&mut dht, &s("A"), &s("ghost"), &s("M"));
    assert_eq!(r, "ghost");
    assert_eq!(entries(&get_threads(&dht, &s("A"))), vec![(s("ghost"), s("M"))]);
}

#[test]
fn thread_messages_follow_links() {
    let mut dht = Dht::new();
    let t = create_thread(&mut dht, &s("A"), vec![s("B")]);
    let u = create_thread(&mut dht, &s("A"), vec![s("C")]);
    dht.commit_message(message("m1", "one"));
    dht.commit_message(message("m2", "two"));
    dht.commit_message(message("m3", "three"));
    link_message(&mut dht, &t, &s("m1"));
    link_message(&mut dht, &u, &s("m2"));
    link_message(&mut dht, &t, &s("m3"));
    let got: Vec<(String, String)> =
        get_thread_messages(&dht, &t).unwrap().into_iter().map(|m| (m.address, m.content)).collect();
    assert_eq!(got, vec![(s("m1"), s("one")), (s("m3"), s("three"))]);
    assert_eq!(get_thread_messages(&dht, &u).unwrap().len(), 1);
}

#[test]
fn thread_without_messages_lists_none() {
    let mut dht = Dht::new();
    let t = create_thread(&mut dht, &s("A"), vec![]);
    assert!(get_thread_messages(&dht, &t).unwrap().is_empty());
}

#[test]
fn one_missing_message_fails_the_whole_list() {
    let mut dht = Dht::new();
    let t = create_thread(&mut dht, &s("A"), vec![s("B")]);
    dht.commit_message(message("m1", "one"));
    link_message(&mut dht, &t, &s("m1"));
    link_message(&mut dht, &t, &s("lost"));
    assert_eq!(get_thread_messages(&dht, &t).unwrap_err(), ThreadError::MessageNotFound);
}

#[test]
fn committing_same_message_address_twice_keeps_first() {
    let mut dht = Dht::new();
    let t = create_thread(&mut dht, &s("A"), vec![]);
    assert_eq!(dht.commit_message(message("m", "first")), "m");
    assert_eq!(dht.commit_message(message("m", "second")), "m");
    link_message(&mut dht, &t, &s("m"));
    let msgs = get_thread_messages(&dht, &t).unwrap();
    assert_eq!(msgs.len(), 1);
    assert_eq!(msgs[0].content, "first");
}

#[test]
fn repeated_reads_agree() {
    let mut dht = Dht::new();
    let a = s("A");
    let t = create_thread(&mut dht, &a, vec![s("B")]);
    set_last_read_message(&mut dht, &a, &t, &s("M"));
    assert_eq!(entries(&get_threads(&dht, &a)), entries(&get_threads(&dht, &a)));
    assert_eq!(get_thread_participants(&dht, &t).unwrap(), get_thread_participants(&dht, &t).unwrap());
}

#[test]
fn link_builders() {
    let thread = new_thread(&vec![s("B"), s("C")], &s("A"));
    assert_eq!(thread.participants, vec![s("B"), s("C"), s("A")]);
    let links = membership_links(&thread, &s("T"));
    assert_eq!(links.len(), 3);
    for (l, p) in links.iter().zip(["B", "C", "A"]) {
        assert_eq!(l.source, p);
        assert_eq!(l.target, "T");
        assert_eq!(l.link_type, LinkType::AgentThread);
        assert_eq!(l.tag, UNREAD_TAG);
    }
    let c = cursor_link(&s("A"), &s("T"), &s("M"));
    assert_eq!((c.source.as_str(), c.target.as_str(), c.tag.as_str()), ("A", "T", "M"));
    assert_eq!(c.link_type, LinkType::AgentThread);
    let m = message_link(&s("T"), &s("M"));
    assert_eq!((m.source.as_str(), m.target.as_str(), m.tag.as_str()), ("T", "M", ""));
    assert_eq!(m.link_type, LinkType::ThreadMessage);
    assert_eq!(LinkType::AgentThread.name(), "agent_message_thread");
    assert_eq!(LinkType::ThreadMessage.name(), "message_link_thread");
}

#[test]
fn discovery_maps_only_own_membership_links() {
    let links = vec![
        cursor_link(&s("A"), &s("T1"), &s("unread")),
        cursor_link(&s("B"), &s("T2"), &s("unread")),
        message_link(&s("A"), &s("M")),
        cursor_link(&s("A"), &s("T3"), &s("M7")),
    ];
    assert_eq!(
        entries(&thread_results(&links, &s("A"))),
        vec![(s("T1"), s("unread")), (s("T3"), s("M7"))]
    );
}

#[test]
fn same_content_gets_same_address() {
    let mut dht = Dht::new();
    let a = s("A");
    let t1 = create_thread(&mut dht, &a, vec![s("B")]);
    let t2 = create_thread(&mut dht, &a, vec![s("B")]);
    assert_eq!(t1, t2);
    assert_eq!(get_thread_participants(&dht, &t1).unwrap(), vec![s("B"), s("A")]);
    assert_eq!(
        entries(&get_threads(&dht, &s("B"))),
        vec![(t1.clone(), s("unread")), (t1.clone(), s("unread"))]
    );
    let other = create_thread(&mut dht, &s("C"), vec![s("B")]);
    assert_eq!(other, "1");
    assert_eq!(get_thread_participants(&dht, &other).unwrap(), vec![s("B"), s("C")]);
}

#[test]
fn cursor_keeps_creation_entry() {
    let mut dht = Dht::new();
    let a = s("A");
    let t = create_thread(&mut dht, &a, vec![s("B")]);
    set_last_read_message(&mut dht, &a, &t, &s("M9"));
    let got = entries(&get_threads(&dht, &a));
    assert!(got.contains(&(t.clone(), s("unread"))));
    assert!(got.contains(&(t.clone(), s("M9"))));
    assert_eq!(got.iter().filter(|e| e.0 == t).count(), 2);
}

use grok_cli::megamind::{agents, MegamindSession};

#[test]
fn agents_speak_in_order() {
    let a = agents();
    assert_eq!(a.iter().map(|x| x.name).collect::<Vec<_>>(), vec!["Pragmatist", "Innovator", "Critic"]);
}

#[test]
fn context_holds_only_the_current_round() {
    let mut s = MegamindSession::new("caching".to_string());
    assert_eq!(s.build_agent_context(0), "TOPIC: caching");
    s.record_response("Pragmatist", "  use redis  ");
    s.record_response("Innovator", "edge cache");
    assert_eq!(s.build_agent_context(2), "TOPIC: caching\n\n[P]: use redis\n\n[I]: edge cache");
    s.record_response("Critic", "stale data risk");
    assert!(!s.check_consensus());
    assert!(!s.finish_round());
    assert_eq!(s.round, 2);
    assert_eq!(s.build_agent_context(1), "TOPIC: caching");
    s.record_response("Pragmatist", "ttl");
    assert_eq!(s.build_agent_context(1), "TOPIC: caching\n\n[P]: ttl");
}

#[test]
fn consensus_ends_early() {
    let mut s = MegamindSession::new("t".to_string());
    s.record_response("Pragmatist", "a");
    s.record_response("Innovator", "b");
    s.record_response("Critic", "Looks GOOD to me");
    assert!(s.check_consensus());
    assert!(s.finish_round());
    assert_eq!(s.round, 1);
}

#[test]
fn synthesis_lists_every_idea() {
    let mut s = MegamindSession::new("t".to_string());
    s.record_response("Pragmatist", "a");
    s.record_response("Critic", "c");
    let m = s.synthesis_messages();
    assert_eq!(m[1].content.as_deref(), Some("TOPIC: t\n\nIDEAS:\n[P] a\n\n[C] c"));
    let agent = agents()[1];
    let msgs = s.agent_messages(&agent, 0);
    assert_eq!(msgs[0].content.as_deref(), Some(agent.prompt));
    assert_eq!(msgs[1].content.as_deref(), Some("TOPIC: t\n\nYour perspective:"));
}

use nowhere_actors::builder::{
    chat_llm_rate_key, llm_rate_key, plan_rate_limits, plan_reservations, twitter_rate_key,
    ActorKind, ActorSpec, BuildPlan, DEFAULT_MAILBOX, LLM_BURST, LLM_QPS_MILLI, TWITTER_BURST,
    TWITTER_QPS_MILLI,
};
use nowhere_actors::registry::{registry_key, Registry};

fn spec(id: &str, enabled: bool, concurrency: u32, kind: ActorKind) -> ActorSpec {
    ActorSpec { id: id.to_string(), enabled, concurrency, kind }
}

#[test]
fn rate_keys_prefix_the_identifier() {
    assert_eq!(llm_rate_key("main").0, "llm:main");
    assert_eq!(chat_llm_rate_key("main").0, "llm:chat:main");
    assert_eq!(twitter_rate_key("ingest").0, "tw:search:ingest");
    assert_eq!(DEFAULT_MAILBOX, 1024);
}

#[test]
fn two_phase_plan_tracks_reserve_and_start() {
    let mut plan = BuildPlan::new();
    plan.reserve("rate:main".to_string());
    plan.reserve("store:main".to_string());
    assert!(plan.reserved("rate:main"));
    assert!(plan.reserved("store:main"));
    assert!(!plan.reserved("tui:main"));
    assert!(!plan.started("rate:main"));

    plan.start("rate:main");
    assert!(plan.started("rate:main"));
    assert!(!plan.started("store:main"));
    plan.start("store:main");
    assert!(plan.started("store:main"));
}

#[test]
fn provisioning_covers_enabled_actors_only() {
    let specs = vec![
        spec("llm:main", true, 1, ActorKind::Llm),
        spec("llm:off", false, 1, ActorKind::Llm),
        spec("twitter:ingest", true, 3, ActorKind::Twitter),
    ];
    let limits = plan_rate_limits(&specs);
    assert_eq!(limits.len(), 3);
    assert_eq!(limits[0].key.0, "llm:llm:main");
    assert_eq!(limits[0].qps_milli, LLM_QPS_MILLI);
    assert_eq!(limits[0].burst, LLM_BURST);
    assert_eq!(limits[1].key.0, "llm:chat:llm:main");
    assert_eq!(limits[1].qps_milli, LLM_QPS_MILLI);
    assert_eq!(limits[1].burst, LLM_BURST);
    assert_eq!(limits[2].key.0, "tw:search:twitter:ingest");
    assert_eq!(limits[2].qps_milli, TWITTER_QPS_MILLI);
    assert_eq!(limits[2].burst, TWITTER_BURST);
}

#[test]
fn reservations_cover_workers_and_chat_channels() {
    let specs = vec![
        spec("llm:main", true, 1, ActorKind::Llm),
        spec("twitter:ingest", true, 3, ActorKind::Twitter),
        spec("twitter:spare", true, 0, ActorKind::Twitter),
        spec("llm:off", false, 1, ActorKind::Llm),
    ];
    let names = plan_reservations(&specs);
    assert_eq!(
        names,
        vec![
            "llm:main".to_string(),
            "llm:main#chat".to_string(),
            "twitter:ingest#0".to_string(),
            "twitter:ingest#1".to_string(),
            "twitter:ingest#2".to_string(),
            // Zero concurrency still runs one worker.
            "twitter:spare#0".to_string(),
        ]
    );
}

#[test]
fn registry_overwrites_and_misses() {
    let mut reg: Registry<u64> = Registry::new();
    assert!(reg.get_named("rate:main").is_none());
    reg.insert_named("rate:main".to_string(), 7);
    assert_eq!(reg.get_named("rate:main"), Some(&7));
    reg.insert_named("rate:main".to_string(), 9);
    assert_eq!(reg.get_named("rate:main"), Some(&9));
    reg.insert_named("store:main".to_string(), 1);
    assert_eq!(reg.get_named("rate:main"), Some(&9));
    assert_eq!(reg.get_named("store:main"), Some(&1));
    assert!(reg.get_named("never").is_none());
}

#[test]
fn registry_keys_compose_kind_and_name() {
    assert_eq!(registry_key("Addr<RateLimiter>", "rate:main"), "Addr<RateLimiter>::rate:main");
    // Two differently-typed actors may share a name without colliding.
    assert_ne!(
        registry_key("Addr<RateLimiter>", "main"),
        registry_key("Addr<StoreActor>", "main")
    );
}

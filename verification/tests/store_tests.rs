use nowhere_actors::records::{ClaimContext, Credibility, NormalizedArtifact};
use nowhere_actors::store::{
    sanitize_fts_query, StoreAction, StoreActor, StoreMsg, StoreWrite, WatcherTable,
};

fn artifact(claim_id: u128, relevant: bool) -> NormalizedArtifact {
    NormalizedArtifact {
        external_id: "ext-1".to_string(),
        internal_id: 7,
        claim_id,
        claim_relevance: relevant,
        reasoning: "matches the claim".to_string(),
        provenance_info: "crawled".to_string(),
        entities: Vec::new(),
    }
}

#[test]
fn watcher_fanout_fires_both_then_spares_the_late_one() {
    let mut actor: StoreActor<u32> = StoreActor::new();
    let no_open: Vec<bool> = Vec::new();

    let a: StoreAction<u32, u8, u8, u8> =
        actor.handle(StoreMsg::WatchArtifacts { claim: 1, reply: 10 }, &no_open);
    assert!(matches!(a, StoreAction::Registered));
    let a: StoreAction<u32, u8, u8, u8> =
        actor.handle(StoreMsg::WatchArtifacts { claim: 1, reply: 20 }, &vec![true]);
    assert!(matches!(a, StoreAction::Registered));

    // The relevant upsert orders a write and a follow-up notification.
    let a: StoreAction<u32, u8, u8, u8> =
        actor.handle(StoreMsg::UpsertArtifact(artifact(1, true)), &no_open);
    match a {
        StoreAction::Write { op, notify_claim } => {
            assert!(matches!(op, StoreWrite::UpsertArtifact(_)));
            assert_eq!(notify_claim, Some(1));
        },
        _ => panic!("an upsert must order a write"),
    }

    // The notification fires both watchers, in registration order.
    let a: StoreAction<u32, u8, u8, u8> =
        actor.handle(StoreMsg::ArtifactUpserted { claim: 1 }, &no_open);
    match a {
        StoreAction::Fire { watchers } => assert_eq!(watchers, vec![10, 20]),
        _ => panic!("a notification must fire the watchers"),
    }

    // A watcher registered afterwards does not fire with that upsert.
    let a: StoreAction<u32, u8, u8, u8> =
        actor.handle(StoreMsg::WatchArtifacts { claim: 1, reply: 30 }, &no_open);
    assert!(matches!(a, StoreAction::Registered));
    assert_eq!(actor.watcher_count(1), 1);
    let a: StoreAction<u32, u8, u8, u8> =
        actor.handle(StoreMsg::ArtifactUpserted { claim: 1 }, &no_open);
    match a {
        StoreAction::Fire { watchers } => assert_eq!(watchers, vec![30]),
        _ => panic!("the next notification must fire only the late watcher"),
    }
}

#[test]
fn irrelevant_upsert_orders_no_notification() {
    let mut actor: StoreActor<u32> = StoreActor::new();
    let a: StoreAction<u32, u8, u8, u8> =
        actor.handle(StoreMsg::UpsertArtifact(artifact(4, false)), &Vec::new());
    match a {
        StoreAction::Write { notify_claim, .. } => assert_eq!(notify_claim, None),
        _ => panic!("an upsert must order a write"),
    }
}

#[test]
fn insert_claim_is_a_plain_write() {
    let mut actor: StoreActor<u32> = StoreActor::new();
    let claim = ClaimContext { id: 9, text: "the sky is green".to_string() };
    let a: StoreAction<u32, u8, u8, u8> =
        actor.handle(StoreMsg::InsertClaim(claim), &Vec::new());
    match a {
        StoreAction::Write { op, notify_claim } => {
            match op {
                StoreWrite::InsertClaim(c) => assert_eq!(c.id, 9),
                _ => panic!("the write must carry the claim"),
            }
            assert_eq!(notify_claim, None);
        },
        _ => panic!("an insert must order a write"),
    }
}

#[test]
fn reads_pass_their_replies_through() {
    let mut actor: StoreActor<u32> = StoreActor::new();
    let a: StoreAction<u32, u8, u8, u8> =
        actor.handle(StoreMsg::GetArtifact { internal_id: 3, reply: 8 }, &Vec::new());
    match a {
        StoreAction::Get { internal_id, reply } => {
            assert_eq!(internal_id, 3);
            assert_eq!(reply, 8);
        },
        _ => panic!("a get must order a read"),
    }
    let a: StoreAction<u32, u8, u8, u8> = actor.handle(
        StoreMsg::SearchArtifacts { claim: 5, query: "q".to_string(), limit: 10, reply: 2 },
        &Vec::new(),
    );
    match a {
        StoreAction::Search { claim, query, limit, reply } => {
            assert_eq!(claim, 5);
            assert_eq!(query, "q");
            assert_eq!(limit, 10);
            assert_eq!(reply, 2);
        },
        _ => panic!("a search must order a read"),
    }
    let a: StoreAction<u32, u8, u8, u8> = actor.handle(
        StoreMsg::ListEntitiesByName { name: "acme".to_string(), limit: 3, reply: 4 },
        &Vec::new(),
    );
    match a {
        StoreAction::List { name, limit, reply } => {
            assert_eq!(name, "acme");
            assert_eq!(limit, 3);
            assert_eq!(reply, 4);
        },
        _ => panic!("a listing must order a read"),
    }
}

#[test]
fn registration_sweeps_closed_watchers() {
    let mut table: WatcherTable<u32> = WatcherTable::new();
    table.register(1, 10, &Vec::new());
    table.register(1, 20, &vec![true]);
    // Watcher 10 reports closed, watcher 20 open: the sweep keeps 20.
    table.register(1, 30, &vec![false, true]);
    let fired = table.drain(1);
    assert_eq!(fired, vec![20, 30]);
}

#[test]
fn draining_an_unknown_claim_fires_nobody() {
    let mut table: WatcherTable<u32> = WatcherTable::new();
    table.register(2, 5, &Vec::new());
    let fired = table.drain(7);
    assert!(fired.is_empty());
    assert_eq!(table.watcher_count(2), 1);
}

#[test]
fn sanitize_keeps_words_and_drops_punctuation() {
    assert_eq!(sanitize_fts_query("Hello, World!"), Some("hello world".to_string()));
    assert_eq!(sanitize_fts_query("  a-b  c_d "), Some("ab c_d".to_string()));
    assert_eq!(sanitize_fts_query("MATCH (x) OR 1=1"), Some("match x or 11".to_string()));
}

#[test]
fn sanitize_of_nothing_usable_is_none() {
    assert_eq!(sanitize_fts_query(""), None);
    assert_eq!(sanitize_fts_query("!!! ??? ..."), None);
    assert_eq!(sanitize_fts_query("   "), None);
}

#[test]
fn credibility_reads_case_insensitively() {
    assert!(matches!(Credibility::from("strong"), Credibility::Strong));
    assert!(matches!(Credibility::from("Strong"), Credibility::Strong));
    assert!(matches!(Credibility::from("WEAK"), Credibility::Weak));
    assert!(matches!(Credibility::from("weak"), Credibility::Weak));
    assert!(matches!(Credibility::from("dubious"), Credibility::Unknown));
    assert!(matches!(Credibility::from(""), Credibility::Unknown));
}

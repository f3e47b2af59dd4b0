use server::state::{NotFound, ServerState, Traveler, MATCHMAKER_MAX};
use std::collections::HashSet;

fn registry_of(n: usize) -> (ServerState, Vec<u128>) {
    let mut state = ServerState::default();
    let mut ids = Vec::new();
    for i in 0..n {
        ids.push(state.register(Traveler::from_source(&format!("script {i}"))));
    }
    (state, ids)
}

#[test]
fn from_source_starts_with_an_empty_tally() {
    let t = Traveler::from_source("attack();");
    assert_eq!(t.source_code, "attack();");
    assert_eq!(t.wins, 0);
    assert_eq!(t.losses, 0);
}

#[test]
fn from_source_accepts_the_empty_script() {
    let t = Traveler::from_source("");
    assert_eq!(t.source_code, "");
    assert_eq!((t.wins, t.losses), (0, 0));
}

#[test]
fn traveler_win_adds_one_win_only() {
    let mut t = Traveler::from_source("a");
    t.win();
    t.win();
    t.win();
    assert_eq!(t.wins, 3);
    assert_eq!(t.losses, 0);
    assert_eq!(t.source_code, "a");
}

#[test]
fn traveler_lose_adds_one_loss_only() {
    let mut t = Traveler::from_source("a");
    t.lose();
    t.lose();
    assert_eq!(t.wins, 0);
    assert_eq!(t.losses, 2);
    assert_eq!(t.source_code, "a");
}

#[test]
fn traveler_clone_keeps_every_field() {
    let mut t = Traveler::from_source("guard();");
    t.win();
    t.lose();
    t.lose();
    let c = t.clone();
    assert_eq!(c.source_code, "guard();");
    assert_eq!((c.wins, c.losses), (1, 2));
}

#[test]
fn traveler_default_is_the_empty_script() {
    let t = Traveler::default();
    assert_eq!(t.source_code, "");
    assert_eq!((t.wins, t.losses), (0, 0));
}

#[test]
fn default_registry_is_empty() {
    let state = ServerState::default();
    assert!(state.fighters.is_empty());
    assert_eq!(state.get_source(7), None);
}

#[test]
fn registered_identifiers_are_pairwise_distinct() {
    let (state, ids) = registry_of(500);
    let distinct: HashSet<u128> = ids.iter().copied().collect();
    assert_eq!(distinct.len(), 500);
    assert_eq!(state.fighters.len(), 500);
}

#[test]
fn registered_identifiers_have_the_random_shape() {
    let (_, ids) = registry_of(64);
    for id in ids {
        assert_eq!((id >> 76) & 0xf, 4);
        assert_eq!((id >> 62) & 0x3, 2);
    }
}

#[test]
fn get_source_returns_what_was_registered() {
    let mut state = ServerState::default();
    let id = state.register(Traveler::from_source("move(1);\nstrike();"));
    assert_eq!(state.get_source(id), Some("move(1);\nstrike();".to_string()));
}

#[test]
fn get_source_returns_the_empty_script() {
    let mut state = ServerState::default();
    let id = state.register(Traveler::from_source(""));
    assert_eq!(state.get_source(id), Some(String::new()));
}

#[test]
fn get_source_of_an_unknown_identifier_is_none() {
    let (state, ids) = registry_of(3);
    let unknown = 5u128;
    assert!(!ids.contains(&unknown));
    assert_eq!(state.get_source(unknown), None);
}

#[test]
fn register_as_stores_under_the_given_identifier() {
    let mut state = ServerState::default();
    state.register_as(Traveler::from_source("first"), 11);
    state.register_as(Traveler::from_source("second"), 12);
    assert_eq!(state.get_source(11), Some("first".to_string()));
    assert_eq!(state.get_source(12), Some("second".to_string()));
    assert_eq!(state.fighters.len(), 2);
}

#[test]
fn register_as_replaces_what_was_there() {
    let mut state = ServerState::default();
    state.register_as(Traveler::from_source("first"), 11);
    state.win(11);
    state.register_as(Traveler::from_source("second"), 11);
    assert_eq!(state.get_source(11), Some("second".to_string()));
    assert_eq!(state.fighters[&11].wins, 0);
    assert_eq!(state.fighters.len(), 1);
}

#[test]
fn wins_count_the_calls_whatever_happens_in_between() {
    let mut state = ServerState::default();
    let id = state.register(Traveler::from_source("a"));
    let other = state.register(Traveler::from_source("b"));
    for round in 0..7 {
        state.win(id);
        state.win(other);
        state.lose(other);
        let _ = state.get_source(id);
        let _ = state.matchmake(id);
        let _ = state.register(Traveler::from_source("c"));
        let _ = state.update(Traveler::from_source("d"), other);
        assert_eq!(state.fighters[&id].wins, round + 1);
    }
    assert_eq!(state.fighters[&id].wins, 7);
    assert_eq!(state.fighters[&id].losses, 0);
    assert_eq!(state.fighters[&id].source_code, "a");
}

#[test]
fn losses_count_the_calls_whatever_happens_in_between() {
    let mut state = ServerState::default();
    let id = state.register(Traveler::from_source("a"));
    let other = state.register(Traveler::from_source("b"));
    for _ in 0..5 {
        state.lose(id);
        state.win(other);
        let _ = state.matchmake(other);
    }
    state.win(id);
    assert_eq!(state.fighters[&id].losses, 5);
    assert_eq!(state.fighters[&id].wins, 1);
    assert_eq!(state.fighters[&other].wins, 5);
    assert_eq!(state.fighters[&other].losses, 0);
}

#[test]
fn win_and_lose_on_an_unknown_identifier_change_nothing() {
    let mut state = ServerState::default();
    state.register_as(Traveler::from_source("a"), 1);
    state.win(2);
    state.lose(2);
    assert_eq!(state.fighters.len(), 1);
    assert_eq!(state.fighters[&1].wins, 0);
    assert_eq!(state.fighters[&1].losses, 0);
    assert_eq!(state.get_source(2), None);
}

#[test]
fn update_of_a_registered_fighter_replaces_the_record() {
    let mut state = ServerState::default();
    let id = state.register(Traveler::from_source("old"));
    state.win(id);
    state.win(id);
    state.lose(id);
    let mut replacement = Traveler::from_source("new");
    replacement.lose();
    let kept = state.update(replacement, id);
    assert_eq!(kept, id);
    assert_eq!(state.get_source(id), Some("new".to_string()));
    assert_eq!(state.fighters[&id].wins, 0);
    assert_eq!(state.fighters[&id].losses, 1);
    assert_eq!(state.fighters.len(), 1);
}

#[test]
fn update_of_an_unknown_identifier_registers_a_new_fighter() {
    let mut state = ServerState::default();
    let known = state.register(Traveler::from_source("a"));
    let unknown = 0x1234u128;
    let kept = state.update(Traveler::from_source("b"), unknown);
    assert_ne!(kept, unknown);
    assert_ne!(kept, known);
    assert_eq!(state.get_source(kept), Some("b".to_string()));
    assert_eq!(state.get_source(unknown), None);
    assert_eq!(state.get_source(known), Some("a".to_string()));
    assert_eq!(state.fighters.len(), 2);
    assert_eq!((kept >> 76) & 0xf, 4);
}

#[test]
fn submit_without_an_identifier_registers() {
    let mut state = ServerState::default();
    let id = state.submit("a", None);
    assert_eq!(state.get_source(id), Some("a".to_string()));
    assert_eq!(state.fighters[&id].wins, 0);
    assert_eq!((id >> 76) & 0xf, 4);
}

#[test]
fn submit_with_a_registered_identifier_updates() {
    let mut state = ServerState::default();
    let id = state.submit("a", None);
    state.win(id);
    let kept = state.submit("b", Some(id));
    assert_eq!(kept, id);
    assert_eq!(state.get_source(id), Some("b".to_string()));
    assert_eq!(state.fighters[&id].wins, 0);
    assert_eq!(state.fighters.len(), 1);
}

#[test]
fn submit_with_an_unknown_identifier_registers() {
    let mut state = ServerState::default();
    let kept = state.submit("a", Some(9));
    assert_ne!(kept, 9);
    assert_eq!(state.get_source(kept), Some("a".to_string()));
    assert_eq!(state.get_source(9), None);
}

#[test]
fn matchmake_on_an_unknown_initiator_fails() {
    let (state, ids) = registry_of(4);
    let unknown = 3u128;
    assert!(!ids.contains(&unknown));
    match state.matchmake(unknown) {
        Err(e) => assert_eq!(e, NotFound { id: unknown }),
        Ok(_) => panic!("a match was made for a fighter that is not registered"),
    }
}

#[test]
fn matchmake_on_an_empty_registry_fails() {
    let state = ServerState::default();
    assert!(state.matchmake(1).is_err());
}

#[test]
fn matchmake_alone_returns_the_initiator_only() {
    let mut state = ServerState::default();
    let id = state.register(Traveler::from_source("solo"));
    state.win(id);
    let fighters = state.matchmake(id).unwrap();
    assert_eq!(fighters.len(), 1);
    assert_eq!(fighters[0].source_code, "solo");
    assert_eq!(fighters[0].wins, 1);
}

#[test]
fn matchmake_of_three_fighters() {
    let mut state = ServerState::default();
    let a = state.register(Traveler::from_source("A"));
    let b = state.register(Traveler::from_source("B"));
    let c = state.register(Traveler::from_source("C"));
    state.win(b);
    state.lose(c);
    let fighters = state.matchmake(a).unwrap();
    assert_eq!(fighters.len(), 3);
    assert_eq!(fighters[0].source_code, "A");
    let mut rest: Vec<&str> = fighters[1..].iter().map(|t| t.source_code.as_str()).collect();
    rest.sort();
    assert_eq!(rest, vec!["B", "C"]);
    for t in &fighters[1..] {
        if t.source_code == "B" {
            assert_eq!((t.wins, t.losses), (1, 0));
        } else {
            assert_eq!((t.wins, t.losses), (0, 1));
        }
    }
}

#[test]
fn matchmake_of_forty_fighters() {
    let (state, ids) = registry_of(40);
    let fighters = state.matchmake(ids[17]).unwrap();
    assert_eq!(fighters.len(), 32);
    assert_eq!(fighters[0].source_code, "script 17");
    let opponents: HashSet<&str> = fighters[1..].iter().map(|t| t.source_code.as_str()).collect();
    assert_eq!(opponents.len(), 31);
    assert!(!opponents.contains("script 17"));
}

#[test]
fn matchmake_returns_the_smaller_of_registry_size_and_limit() {
    assert_eq!(MATCHMAKER_MAX, 32);
    for n in [1usize, 2, 3, 5, 31, 32, 33, 64, 100] {
        let (state, ids) = registry_of(n);
        let initiator = ids[n / 2];
        let fighters = state.matchmake(initiator).unwrap();
        assert_eq!(fighters.len(), n.min(32));
        assert_eq!(Some(fighters[0].source_code.clone()), state.get_source(initiator));
        let opponents: HashSet<&str> =
            fighters[1..].iter().map(|t| t.source_code.as_str()).collect();
        assert_eq!(opponents.len(), fighters.len() - 1);
        assert!(!opponents.contains(fighters[0].source_code.as_str()));
    }
}

#[test]
fn matchmake_does_not_change_the_registry() {
    let (state, ids) = registry_of(10);
    let _ = state.matchmake(ids[0]).unwrap();
    assert_eq!(state.fighters.len(), 10);
    for (i, id) in ids.iter().enumerate() {
        assert_eq!(state.get_source(*id), Some(format!("script {i}")));
    }
}

#[test]
fn matchmake_draws_every_order_sooner_or_later() {
    let mut state = ServerState::default();
    state.register_as(Traveler::from_source("A"), 1);
    state.register_as(Traveler::from_source("B"), 2);
    state.register_as(Traveler::from_source("C"), 3);
    let mut b_first = 0;
    let mut c_first = 0;
    for _ in 0..400 {
        let fighters = state.matchmake(1).unwrap();
        assert_eq!(fighters.len(), 3);
        if fighters[1].source_code == "B" {
            assert_eq!(fighters[2].source_code, "C");
            b_first += 1;
        } else {
            assert_eq!(fighters[1].source_code, "C");
            assert_eq!(fighters[2].source_code, "B");
            c_first += 1;
        }
    }
    assert!(b_first > 0);
    assert!(c_first > 0);
}

#[test]
fn matchmake_samples_beyond_the_limit() {
    let (state, ids) = registry_of(40);
    let mut seen: HashSet<String> = HashSet::new();
    for _ in 0..200 {
        for t in &state.matchmake(ids[0]).unwrap()[1..] {
            seen.insert(t.source_code.clone());
        }
    }
    assert_eq!(seen.len(), 39);
}

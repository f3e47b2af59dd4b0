use server::state::{enlist, Match, ServerState, Traveler};

fn named(names: &[&str]) -> Vec<Traveler> {
    names.iter().map(|n| Traveler::from_source(n)).collect()
}

fn sources(fighters: &[Traveler]) -> Vec<String> {
    fighters.iter().map(|t| t.source_code.clone()).collect()
}

#[test]
fn enlist_moves_the_picked_contender_to_the_end() {
    let mut fighters = named(&["A"]);
    let mut contenders = named(&["B", "C", "D"]);
    enlist(&mut fighters, &mut contenders, 1);
    assert_eq!(sources(&fighters), vec!["A", "C"]);
    assert_eq!(sources(&contenders), vec!["B", "D"]);
    enlist(&mut fighters, &mut contenders, 1);
    assert_eq!(sources(&fighters), vec!["A", "C", "D"]);
    assert_eq!(sources(&contenders), vec!["B"]);
    enlist(&mut fighters, &mut contenders, 0);
    assert_eq!(sources(&fighters), vec!["A", "C", "D", "B"]);
    assert!(contenders.is_empty());
}

#[test]
fn enlist_keeps_the_tally_of_the_contender() {
    let mut fighters = Vec::new();
    let mut contenders = named(&["B"]);
    contenders[0].win();
    contenders[0].lose();
    contenders[0].lose();
    enlist(&mut fighters, &mut contenders, 0);
    assert_eq!(fighters.len(), 1);
    assert_eq!((fighters[0].wins, fighters[0].losses), (1, 2));
}

#[test]
fn match_of_a_lineup_reads_the_scripts_in_order() {
    let m = Match::from_fighters(&named(&["A", "C", "B"]));
    assert_eq!(m.creator, "A");
    assert_eq!(m.others, vec!["C", "B"]);
}

#[test]
fn match_of_a_single_fighter_has_no_others() {
    let m = Match::from_fighters(&named(&["A"]));
    assert_eq!(m.creator, "A");
    assert!(m.others.is_empty());
}

#[test]
fn create_match_names_the_creator_and_the_others() {
    let mut state = ServerState::default();
    let a = state.register(Traveler::from_source("A"));
    let _ = state.register(Traveler::from_source("B"));
    let _ = state.register(Traveler::from_source("C"));
    let m = state.create_match(a).unwrap();
    assert_eq!(m.creator, "A");
    let mut others = m.others.clone();
    others.sort();
    assert_eq!(others, vec!["B", "C"]);
}

#[test]
fn create_match_for_an_unknown_fighter_fails() {
    let mut state = ServerState::default();
    state.register_as(Traveler::from_source("A"), 1);
    let e = state.create_match(2).unwrap_err();
    assert_eq!(e.id, 2);
}

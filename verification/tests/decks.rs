use perf_probe::deck::{parse_deck, resolve_deck, DeckChoice};
use perf_probe::error::ProbeError;
use perf_probe::numeral::IntFault;

fn names(list: &[&str]) -> Vec<String> {
    list.iter().map(|s| s.to_string()).collect()
}

#[test]
fn five_cards_take_the_friend_as_sixth() {
    let deck = parse_deck("302424,302464,302474,302484,302494", 303054).unwrap();
    assert_eq!(deck, [302424, 302464, 302474, 302484, 302494, 303054]);
}

#[test]
fn six_cards_bring_their_own_friend() {
    assert_eq!(parse_deck("1,2,3,4,5,6", 9).unwrap(), [1, 2, 3, 4, 5, 6]);
}

#[test]
fn blanks_and_blank_entries_do_not_count() {
    let deck = parse_deck(" 1 ,\t2,, 3,　4\u{2003}, ,+5,", 9).unwrap();
    assert_eq!(deck, [1, 2, 3, 4, 5, 9]);
}

#[test]
fn trailing_comma_changes_nothing() {
    assert_eq!(parse_deck("1,2,3,4,5,6", 9).unwrap(), parse_deck("1,2,3,4,5,6,", 9).unwrap());
}

#[test]
fn blanks_matter_in_no_text() {
    for (one, two) in [
        ("1,2,3", " 1 ,,2,\t, 3 ,"),
        (",,,", ""),
        ("1,x,3,4,5", "1, x ,3,,4,5, "),
        ("1,2,3,4,5,6", " ,1,2,3, 4 ,5,6"),
    ] {
        match (parse_deck(one, 9), parse_deck(two, 9)) {
            (Ok(a), Ok(b)) => assert_eq!(a, b),
            (
                Err(ProbeError::DeckSize { found: a, .. }),
                Err(ProbeError::DeckSize { found: b, .. }),
            ) => assert_eq!(a, b),
            (Err(ProbeError::DeckEntry { fault: a }), Err(ProbeError::DeckEntry { fault: b })) => {
                assert_eq!(a, b)
            }
            other => panic!("{other:?}"),
        }
    }
}

#[test]
fn written_deck_is_read_back() {
    let deck = [0, 1, 10, 303054, 99, u32::MAX];
    let text: Vec<String> = deck.iter().map(|id| id.to_string()).collect();
    assert_eq!(parse_deck(&text.join(","), 7).unwrap(), deck);
}

#[test]
fn wrong_sizes_are_reported_with_the_text() {
    for (text, count) in [("", 0), (" , ", 0), ("1,2,3,4", 4), ("1,2,3,4,5,6,7", 7)] {
        match parse_deck(text, 9) {
            Err(ProbeError::DeckSize { found, text: shown }) => {
                assert_eq!(found, count);
                assert_eq!(shown, text);
            }
            other => panic!("{other:?}"),
        }
    }
}

#[test]
fn first_bad_entry_is_reported() {
    match parse_deck("1,x,4294967296", 9) {
        Err(ProbeError::DeckEntry { fault }) => assert_eq!(fault, IntFault::InvalidDigit),
        other => panic!("{other:?}"),
    }
    match parse_deck("1,4294967296,x", 9) {
        Err(ProbeError::DeckEntry { fault }) => assert_eq!(fault, IntFault::TooLarge),
        other => panic!("{other:?}"),
    }
    assert!(matches!(
        parse_deck("1,-2,3,4,5", 9),
        Err(ProbeError::DeckEntry { fault: IntFault::InvalidDigit })
    ));
}

#[test]
fn custom_deck_takes_precedence_over_the_build() {
    let choice = resolve_deck("speed", Some("1,2,3,4,5"), 6, &names(&["speed"])).unwrap();
    assert!(matches!(choice, DeckChoice::Custom { deck: [1, 2, 3, 4, 5, 6] }));
    let choice = resolve_deck("nothing", Some("1,2,3,4,5"), 6, &Vec::new()).unwrap();
    assert!(matches!(choice, DeckChoice::Custom { deck: [1, 2, 3, 4, 5, 6] }));
    assert!(matches!(
        resolve_deck("speed", Some("1"), 6, &names(&["speed"])),
        Err(ProbeError::DeckSize { found: 1, .. })
    ));
}

#[test]
fn first_build_of_the_name_is_taken() {
    let list = names(&["power", "speed", "wisdom", "speed"]);
    let choice = resolve_deck("speed", None, 6, &list).unwrap();
    assert!(matches!(choice, DeckChoice::Preset { index: 1 }));
}

#[test]
fn unknown_build_lists_the_names() {
    let e = resolve_deck("Speed", None, 6, &names(&["speed", "power"])).unwrap_err();
    assert_eq!(e.message(), "build 不存在: Speed（可选: speed, power）");
    let e = resolve_deck("speed", None, 6, &Vec::new()).unwrap_err();
    assert_eq!(e.message(), "build 不存在: speed（可选: ）");
}

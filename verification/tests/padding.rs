use text_to_barcodeaudio::encoding::encode;
use text_to_barcodeaudio::padding::add_thin_space_padding;
use text_to_barcodeaudio::Bar;
use text_to_barcodeaudio::Bar::{ThinBar, ThinSpace, WideBar, WideSpace};
use text_to_barcodeaudio::EncodeError;

const SUPPORTED: &str = "0123456789ABCDEFGHIJKLMNOPQRSTUVWXYZ -.*$/+%";

fn is_bar(symbol: &Bar) -> bool {
    *symbol == WideBar || *symbol == ThinBar
}

#[test]
fn padding_of_one() {
    let unpadded = vec![WideBar, ThinBar, WideSpace, ThinBar, ThinBar, WideBar];
    assert_eq!(
        add_thin_space_padding(unpadded),
        Ok(vec![
            WideBar, ThinSpace, ThinBar, WideSpace, ThinBar, ThinSpace, ThinBar, ThinSpace,
            WideBar, ThinSpace
        ])
    );
}

#[test]
fn padding_refuses_the_empty_sequence() {
    assert_eq!(add_thin_space_padding(Vec::new()), Err(EncodeError::EmptySequence));
}

#[test]
fn padding_of_a_single_symbol() {
    assert_eq!(add_thin_space_padding(vec![WideBar]), Ok(vec![WideBar, ThinSpace]));
    assert_eq!(add_thin_space_padding(vec![ThinBar]), Ok(vec![ThinBar, ThinSpace]));
    assert_eq!(add_thin_space_padding(vec![WideSpace]), Ok(vec![WideSpace, ThinSpace]));
}

#[test]
fn padding_sets_two_bars_apart() {
    for first in [WideBar, ThinBar] {
        for second in [WideBar, ThinBar] {
            assert_eq!(
                add_thin_space_padding(vec![first, second]),
                Ok(vec![first, ThinSpace, second, ThinSpace])
            );
        }
    }
}

#[test]
fn padding_adds_nothing_next_to_a_wide_space() {
    for bar in [WideBar, ThinBar] {
        assert_eq!(
            add_thin_space_padding(vec![bar, WideSpace, bar]),
            Ok(vec![bar, WideSpace, bar, ThinSpace])
        );
    }
}

#[test]
fn padding_keeps_a_wide_space_whatever_follows() {
    assert_eq!(
        add_thin_space_padding(vec![WideSpace, WideSpace, ThinBar]),
        Ok(vec![WideSpace, WideSpace, ThinBar, ThinSpace])
    );
    assert_eq!(
        add_thin_space_padding(vec![WideSpace, ThinSpace]),
        Ok(vec![WideSpace, ThinSpace, ThinSpace])
    );
}

#[test]
fn padding_drops_pairs_around_a_thin_space() {
    assert_eq!(
        add_thin_space_padding(vec![ThinBar, ThinSpace, WideBar]),
        Ok(vec![WideBar, ThinSpace])
    );
    assert_eq!(
        add_thin_space_padding(vec![WideBar, ThinBar, ThinSpace]),
        Ok(vec![WideBar, ThinSpace, ThinSpace, ThinSpace])
    );
}

#[test]
fn padding_of_dollar() {
    let unpadded =
        vec![ThinBar, WideSpace, ThinBar, WideSpace, ThinBar, WideSpace, ThinBar, ThinBar];
    assert_eq!(
        add_thin_space_padding(unpadded),
        Ok(vec![
            ThinBar, WideSpace, ThinBar, WideSpace, ThinBar, WideSpace, ThinBar, ThinSpace,
            ThinBar, ThinSpace
        ])
    );
}

#[test]
fn encode_of_one() {
    assert_eq!(
        encode(&'1'),
        Ok(vec![
            WideBar, ThinSpace, ThinBar, WideSpace, ThinBar, ThinSpace, ThinBar, ThinSpace,
            WideBar, ThinSpace
        ])
    );
}

#[test]
fn encode_of_a() {
    assert_eq!(
        encode(&'A'),
        Ok(vec![
            WideBar, ThinSpace, ThinBar, ThinSpace, ThinBar, WideSpace, ThinBar, ThinSpace,
            WideBar, ThinSpace
        ])
    );
}

#[test]
fn encode_of_percent() {
    assert_eq!(
        encode(&'%'),
        Ok(vec![
            ThinBar, ThinSpace, ThinBar, WideSpace, ThinBar, WideSpace, ThinBar, WideSpace,
            ThinBar, ThinSpace
        ])
    );
}

#[test]
fn encode_of_unsupported_character_fails() {
    for character in ['#', 'a', 'z', '_', '\n', '\u{e9}'] {
        assert_eq!(encode(&character), Err(EncodeError::EmptySequence), "{:?}", character);
    }
}

#[test]
fn encoded_sequence_ends_with_thin_space() {
    for character in SUPPORTED.chars() {
        let symbols = encode(&character).unwrap();
        assert!(!symbols.is_empty());
        assert_eq!(symbols[symbols.len() - 1], ThinSpace, "{:?}", character);
    }
}

#[test]
fn encoded_sequence_has_no_two_bars_side_by_side() {
    for character in SUPPORTED.chars() {
        let symbols = encode(&character).unwrap();
        for pair in symbols.windows(2) {
            assert!(!(is_bar(&pair[0]) && is_bar(&pair[1])), "{:?}", character);
            assert!(!(pair[0] == ThinSpace && pair[1] == ThinSpace), "{:?}", character);
        }
    }
}

#[test]
fn encoded_sequence_alternates_bars_and_spaces() {
    for character in SUPPORTED.chars() {
        let symbols = encode(&character).unwrap();
        assert_eq!(symbols.len(), 10, "{:?}", character);
        for (index, symbol) in symbols.iter().enumerate() {
            assert_eq!(is_bar(symbol), index % 2 == 0, "{:?} at {}", character, index);
        }
    }
}

#[test]
fn encoded_sequence_keeps_the_table_entry() {
    for character in SUPPORTED.chars() {
        let symbols = encode(&character).unwrap();
        let kept: Vec<Bar> = symbols.into_iter().filter(|s| *s != ThinSpace).collect();
        assert_eq!(kept, text_to_barcodeaudio::lookup(&character), "{:?}", character);
    }
}

#[test]
fn encode_gives_the_same_symbols_each_time() {
    for character in SUPPORTED.chars() {
        assert_eq!(encode(&character), encode(&character), "{:?}", character);
    }
    assert_eq!(encode(&'#'), encode(&'#'));
}

#[test]
fn bars_know_what_they_are() {
    assert!(WideBar.is_bar() && ThinBar.is_bar());
    assert!(!WideSpace.is_bar() && !ThinSpace.is_bar());
    assert!(WideBar.is_wide() && WideSpace.is_wide());
    assert!(!ThinBar.is_wide() && !ThinSpace.is_wide());
}

use text_to_barcodeaudio::table::lookup;
use text_to_barcodeaudio::Bar;
use text_to_barcodeaudio::Bar::{ThinBar, WideBar, WideSpace};

/// The 44 supported characters, each with its table entry written as a
/// pattern: `W` wide bar, `t` thin bar, `_` wide space.
const TABLE: [(char, &str); 44] = [
    ('1', "Wt_ttW"),
    ('2', "tW_ttW"),
    ('3', "WW_ttt"),
    ('4', "tt_WtW"),
    ('5', "Wt_Wtt"),
    ('6', "tW_Wtt"),
    ('7', "tt_tWW"),
    ('8', "Wt_tWt"),
    ('9', "tW_tWt"),
    ('0', "tt_WWt"),
    ('A', "Wtt_tW"),
    ('B', "tWt_tW"),
    ('C', "WWt_tt"),
    ('D', "ttW_tW"),
    ('E', "WtW_tt"),
    ('F', "tWW_tt"),
    ('G', "ttt_WW"),
    ('H', "Wtt_Wt"),
    ('I', "tWt_Wt"),
    ('J', "ttW_Wt"),
    ('K', "Wttt_W"),
    ('L', "tWtt_W"),
    ('M', "WWtt_t"),
    ('N', "ttWt_W"),
    ('O', "WtWt_t"),
    ('P', "tWWt_t"),
    ('Q', "tttW_W"),
    ('R', "WttW_t"),
    ('S', "tWtW_t"),
    ('T', "ttWW_t"),
    ('U', "W_tttW"),
    ('V', "t_WttW"),
    ('W', "W_Wttt"),
    ('X', "t_tWtW"),
    ('Y', "W_tWtt"),
    ('Z', "t_WWtt"),
    ('-', "t_ttWW"),
    ('.', "W_ttWt"),
    (' ', "t_WtWt"),
    ('*', "t_tWWt"),
    ('$', "t_t_t_tt"),
    ('/', "t_t_tt_t"),
    ('+', "t_tt_t_t"),
    ('%', "tt_t_t_t"),
];

fn symbols(pattern: &str) -> Vec<Bar> {
    pattern
        .chars()
        .map(|c| match c {
            'W' => WideBar,
            't' => ThinBar,
            '_' => WideSpace,
            other => panic!("no symbol is written {:?}", other),
        })
        .collect()
}

#[test]
fn lookup_of_one() {
    assert_eq!(
        lookup(&'1'),
        vec![WideBar, ThinBar, WideSpace, ThinBar, ThinBar, WideBar]
    );
}

#[test]
fn lookup_of_each_supported_character() {
    for (character, pattern) in TABLE.iter() {
        assert_eq!(lookup(character), symbols(pattern), "entry of {:?}", character);
    }
}

#[test]
fn lookup_of_dollar_has_three_wide_spaces() {
    assert_eq!(
        lookup(&'$'),
        vec![ThinBar, WideSpace, ThinBar, WideSpace, ThinBar, WideSpace, ThinBar, ThinBar]
    );
}

#[test]
fn entries_are_six_symbols_long_or_eight() {
    for (character, _) in TABLE.iter() {
        let expected = if "$/+%".contains(*character) { 8 } else { 6 };
        assert_eq!(lookup(character).len(), expected, "entry of {:?}", character);
    }
}

#[test]
fn entries_hold_five_bars_and_no_thin_space() {
    for (character, _) in TABLE.iter() {
        let entry = lookup(character);
        assert!(!entry.contains(&Bar::ThinSpace), "entry of {:?}", character);
        let bars = entry.iter().filter(|s| **s == WideBar || **s == ThinBar).count();
        assert_eq!(bars, 5, "entry of {:?}", character);
    }
}

#[test]
fn entries_begin_and_end_with_a_bar() {
    for (character, _) in TABLE.iter() {
        let entry = lookup(character);
        assert_ne!(entry[0], WideSpace, "entry of {:?}", character);
        assert_ne!(entry[entry.len() - 1], WideSpace, "entry of {:?}", character);
        for pair in entry.windows(2) {
            assert!(!(pair[0] == WideSpace && pair[1] == WideSpace));
        }
    }
}

#[test]
fn lookup_of_unsupported_character_is_empty() {
    for character in ['#', '!', '_', ',', '\n', '\u{e9}', '\u{1F600}'] {
        assert_eq!(lookup(&character), Vec::<Bar>::new(), "entry of {:?}", character);
    }
}

#[test]
fn lookup_does_not_fold_case() {
    assert_eq!(lookup(&'a'), Vec::<Bar>::new());
    assert_eq!(lookup(&'z'), Vec::<Bar>::new());
    assert_eq!(lookup(&'A').len(), 6);
}

#[test]
fn exactly_forty_four_characters_are_supported() {
    let mut supported = 0;
    for code in 0u32..=0x10FFFF {
        if let Some(character) = char::from_u32(code) {
            if !lookup(&character).is_empty() {
                supported += 1;
                assert!(TABLE.iter().any(|(c, _)| *c == character));
            }
        }
    }
    assert_eq!(supported, 44);
}

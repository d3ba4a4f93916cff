use text_to_barcodeaudio::samples::generate_samples;
use text_to_barcodeaudio::Bar::{ThinBar, ThinSpace, WideBar, WideSpace};

#[test]
fn wide_bar_is_a_square_wave_of_one_second() {
    assert_eq!(generate_samples(&WideBar, 6), vec![32767, 0, 32767, 0, 32767, 0]);
    assert_eq!(generate_samples(&WideBar, 5), vec![i16::MAX, 0, i16::MAX, 0, i16::MAX]);
}

#[test]
fn thin_bar_is_a_square_wave_of_a_third_of_a_second() {
    assert_eq!(generate_samples(&ThinBar, 9), vec![32767, 0, 32767]);
    assert_eq!(generate_samples(&ThinBar, 6), vec![32767, 0]);
}

#[test]
fn spaces_are_silent() {
    assert_eq!(generate_samples(&WideSpace, 4), vec![0, 0, 0, 0]);
    assert_eq!(generate_samples(&ThinSpace, 9), vec![0, 0, 0]);
}

#[test]
fn wide_symbols_last_one_second() {
    for rate in [0usize, 1, 2, 3, 10, 8000, 44100] {
        assert_eq!(generate_samples(&WideBar, rate).len(), rate);
        assert_eq!(generate_samples(&WideSpace, rate).len(), rate);
    }
}

#[test]
fn thin_symbols_last_a_third_of_a_second_rounded_down() {
    for (rate, third) in [(0usize, 0usize), (1, 0), (2, 0), (3, 1), (4, 1), (5, 1), (10, 3),
        (8000, 2666), (44100, 14700)]
    {
        assert_eq!(generate_samples(&ThinBar, rate).len(), third);
        assert_eq!(generate_samples(&ThinSpace, rate).len(), third);
    }
}

#[test]
fn bar_at_cd_rate_starts_loud_and_is_never_negative() {
    let samples = generate_samples(&WideBar, 44100);
    assert_eq!(samples.len(), 44100);
    assert_eq!(samples[0], i16::MAX);
    assert_eq!(samples[1], 0);
    assert_eq!(samples[44098], i16::MAX);
    assert_eq!(samples[44099], 0);
    for (index, sample) in samples.iter().enumerate() {
        assert_eq!(*sample, if index % 2 == 0 { i16::MAX } else { 0 });
    }
}

#[test]
fn space_at_cd_rate_is_all_zero() {
    assert!(generate_samples(&WideSpace, 44100).iter().all(|s| *s == 0));
    assert!(generate_samples(&ThinSpace, 44100).iter().all(|s| *s == 0));
}

#[test]
fn generate_samples_gives_the_same_run_each_time() {
    for bar in [WideBar, ThinBar, WideSpace, ThinSpace] {
        assert_eq!(generate_samples(&bar, 1000), generate_samples(&bar, 1000));
    }
}

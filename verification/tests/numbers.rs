use yard::number::{pad_left, pad_right, parse_u64, parse_up_to, to_decimal, to_signed_decimal};
use yard::order::sorted;
use yard::text::{
    ends_with, lines, replace, rsplit_once, same_ignoring_case, split_once, starts_with,
    strip_prefix, trim, words,
};

#[test]
fn numbers_are_written_and_read_in_decimal() {
    for number in [0, 7, 10, 1_000_000, u64::MAX] {
        assert_eq!(to_decimal(number as u128), number.to_string());
        assert_eq!(parse_u64(&number.to_string()), Some(number));
    }
    assert_eq!(to_decimal(u128::MAX), u128::MAX.to_string());
    assert_eq!(to_signed_decimal(i64::MIN), i64::MIN.to_string());
    assert_eq!(to_signed_decimal(-1), "-1");
    for odd in ["", "+", "-1", " 1", "1 ", "1_0", "18446744073709551616", "+5", "007"] {
        assert_eq!(parse_u64(odd), odd.parse::<u64>().ok(), "{odd:?}");
    }
    assert_eq!(parse_up_to("256", 255), None);
    assert_eq!(parse_up_to("255", 255), Some(255));
}

#[test]
fn text_is_cut_as_std_cuts_it() {
    for sample in ["", "a", " a  b\t", "x: y: z", "\u{a0}é\u{2003}ü ", "one\r\ntwo\n\nthree\r"] {
        assert_eq!(trim(sample), sample.trim());
        assert_eq!(words(sample), sample.split_whitespace().collect::<Vec<_>>());
        assert_eq!(lines(sample), sample.lines().collect::<Vec<_>>());
        let halves = sample.split_once(": ").map(|(a, b)| (a.to_owned(), b.to_owned()));
        assert_eq!(split_once(sample, ": "), halves);
        let halves = sample.rsplit_once(':').map(|(a, b)| (a.to_owned(), b.to_owned()));
        assert_eq!(rsplit_once(sample, ':'), halves);
        assert_eq!(replace(sample, "e", "ee"), sample.replace("e", "ee"));
        assert_eq!(starts_with(sample, "x:"), sample.starts_with("x:"));
        assert_eq!(ends_with(sample, "z"), sample.ends_with("z"));
        assert_eq!(strip_prefix(sample, "x"), sample.strip_prefix("x").map(str::to_owned));
    }
    assert_eq!(pad_left("7", '0', 3), "007");
    assert_eq!(pad_right("é", 3), "é  ");
    assert!(same_ignoring_case("RunNing", "running"));
    assert!(!same_ignoring_case("É", "é"));
}

#[test]
fn lists_are_sorted_as_std_sorts_them() {
    let list: Vec<String> =
        ["b", "", "ab", "a", "é", "a-b", "b", "\u{10000}", "\u{ffff}"].map(str::to_owned).to_vec();
    let mut expected = list.clone();
    expected.sort();
    assert_eq!(sorted(&list), expected);
}

//! Text that is held back while it may become a stop, and cut where it does.

use local_inference::stops::StopSuffixTrimmer;

fn trimmer(stops: &[&str]) -> StopSuffixTrimmer {
    StopSuffixTrimmer::new(&stops.iter().map(|s| s.to_string()).collect::<Vec<_>>())
}

fn out(text: &str, stopped: bool) -> (String, bool) {
    (text.to_string(), stopped)
}

#[test]
fn without_stops_text_passes_through() {
    let mut t = trimmer(&[]);
    assert_eq!(t.push("hello"), out("hello", false));
    assert_eq!(t.finish(), "");
    let mut only_empty = trimmer(&[""]);
    assert_eq!(only_empty.push("x"), out("x", false));
}

#[test]
fn a_stop_that_arrives_in_pieces_is_cut() {
    let mut t = trimmer(&["<end>"]);
    assert_eq!(t.push("one <e"), out("one ", false));
    assert_eq!(t.push("nd"), out("", false));
    assert_eq!(t.push(">"), out("", true));
    assert_eq!(t.finish(), "");
}

#[test]
fn what_does_not_become_a_stop_is_given_back() {
    let mut t = trimmer(&["<end>"]);
    assert_eq!(t.push("a<e"), out("a", false));
    assert_eq!(t.push("x"), out("<ex", false));
    assert_eq!(t.push("<en"), out("", false));
    assert_eq!(t.finish(), "<en");
}

#[test]
fn the_longest_stop_that_ends_the_text_is_cut() {
    let mut t = trimmer(&["b", "ab"]);
    assert_eq!(t.push("xab"), out("x", true));
}

#[test]
fn the_longest_possible_start_is_held_back() {
    let mut t = trimmer(&["aab", "ab"]);
    assert_eq!(t.push("xaa"), out("x", false));
    assert_eq!(t.push("c"), out("aac", false));
}

#[test]
fn stops_of_more_than_one_byte_are_cut_whole() {
    let mut t = trimmer(&["漢字"]);
    assert_eq!(t.push("é漢"), out("é", false));
    assert_eq!(t.push("字"), out("", true));
}

#[test]
fn where_a_chunk_ends_does_not_change_the_text() {
    let text = "abcabcabd";
    for cut in 0..=text.len() {
        let mut t = trimmer(&["abd"]);
        let (a, _) = t.push(&text[..cut]);
        let (b, stopped) = t.push(&text[cut..]);
        assert_eq!(format!("{a}{b}"), "abcabc");
        assert!(stopped || cut == text.len());
    }
}

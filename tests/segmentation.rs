use sonata_synth::segment::{segment, TextUnit};
use sonata_synth::synth::model_directory;

fn texts(units: &[TextUnit]) -> Vec<String> {
    units.iter().map(|u| u.text.clone()).collect()
}

#[test]
fn two_sentences_give_two_units() {
    let units = segment("Hello there. How are you?");
    assert_eq!(texts(&units), vec!["Hello there.".to_string(), "How are you?".to_string()]);
    assert_eq!(units[0].index, 0);
    assert_eq!(units[1].index, 1);
}

#[test]
fn empty_text_has_no_unit() {
    assert!(segment("").is_empty());
}

#[test]
fn blank_text_has_no_unit() {
    assert!(segment("   \n\t  \r\n ").is_empty());
}

#[test]
fn line_breaks_close_units() {
    let units = segment("Cheaper Communications\nThe first driver.\n\nAll of it");
    assert_eq!(
        texts(&units),
        vec![
            "Cheaper Communications".to_string(),
            "The first driver.".to_string(),
            "All of it".to_string()
        ]
    );
    for (i, u) in units.iter().enumerate() {
        assert_eq!(u.index, i);
    }
}

#[test]
fn surrounding_spaces_are_dropped() {
    let units = segment("   Wait!   Really?  yes  ");
    assert_eq!(texts(&units), vec!["Wait!".to_string(), "Really?".to_string(), "yes".to_string()]);
}

#[test]
fn lone_terminators_form_units() {
    let units = segment("... ok");
    assert_eq!(
        texts(&units),
        vec![".".to_string(), ".".to_string(), ".".to_string(), "ok".to_string()]
    );
}

#[test]
fn non_ascii_text_is_kept_whole() {
    let units = segment("Grüße aus Köln. Ça va?");
    assert_eq!(texts(&units), vec!["Grüße aus Köln.".to_string(), "Ça va?".to_string()]);
}

#[test]
fn segmenting_twice_gives_the_same_units() {
    let text = "Technology is not inevitable. Powerful drivers must exist!\nCheaper Communications";
    let a = segment(text);
    let b = segment(text);
    assert_eq!(texts(&a), texts(&b));
    assert_eq!(a.len(), 3);
    for (x, y) in a.iter().zip(b.iter()) {
        assert_eq!(x.index, y.index);
    }
}

#[test]
fn model_directory_joins_the_parts() {
    assert_eq!(model_directory("/opt/sonata", "std"), "/opt/sonata/models/std");
    assert_eq!(model_directory("/opt/sonata", "rt"), "/opt/sonata/models/rt");
}

#[test]
fn unicode_blank_text_has_no_unit() {
    assert!(segment("\u{000C}").is_empty());
    assert!(segment("\u{000B}\u{00A0}\u{2003} \u{3000}").is_empty());
}

#[test]
fn unicode_spaces_are_trimmed() {
    let units = segment("\u{00A0}Hi there.\u{2003}Bye\u{000C}");
    assert_eq!(texts(&units), vec!["Hi there.".to_string(), "Bye".to_string()]);
}

#[test]
fn model_directory_keeps_an_absolute_kind() {
    assert_eq!(model_directory("/opt/sonata", "/srv/voices/std"), "/srv/voices/std");
}

use tagmap::format::{settle, Emission, FormatStatus, FormatterReply};

#[test]
fn without_formatting_the_raw_text_is_emitted() {
    let out = settle("enum  X{}".to_string(), None);
    assert_eq!(out, Emission { text: "enum  X{}".to_string(), status: FormatStatus::Raw });
}

#[test]
fn formatted_text_replaces_the_raw_text() {
    let out = settle("enum  X{}".to_string(), Some(FormatterReply::Formatted("enum X {}".to_string())));
    assert_eq!(out, Emission { text: "enum X {}".to_string(), status: FormatStatus::Formatted });
}

#[test]
fn missing_or_failing_formatter_is_told_apart_from_success() {
    let missing = settle("raw".to_string(), Some(FormatterReply::Unavailable));
    assert_eq!(missing, Emission { text: "raw".to_string(), status: FormatStatus::FormatterUnavailable });
    let failed = settle("raw".to_string(), Some(FormatterReply::Failed));
    assert_eq!(failed, Emission { text: "raw".to_string(), status: FormatStatus::FormatterFailure });
}

#[test]
fn formatting_formatted_text_changes_nothing() {
    let squeeze = |text: &str| text.split_whitespace().collect::<Vec<&str>>().join(" ");
    let raw = "a   b \n c".to_string();
    let once = settle(raw.clone(), Some(FormatterReply::Formatted(squeeze(&raw))));
    let twice = settle(once.text.clone(), Some(FormatterReply::Formatted(squeeze(&once.text))));
    assert_eq!(once.text, "a b c");
    assert_eq!(twice.text, once.text);
    assert_eq!(twice.status, FormatStatus::Formatted);
}

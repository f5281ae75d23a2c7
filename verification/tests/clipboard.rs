//! Which types of a selection are asked for and offered.

use shoestring_wm::clipboard::offered_mimes;
use shoestring_wm::clipboard::pick_text_mime;

const TEXT_MIMES: [&str; 5] = [
    "text/plain;charset=utf-8",
    "text/plain",
    "UTF8_STRING",
    "STRING",
    "TEXT",
];

#[test]
fn prefers_utf8_text_plain() {
    let avail = vec![
        "UTF8_STRING".to_string(),
        "text/plain".to_string(),
        "text/plain;charset=utf-8".to_string(),
    ];
    assert_eq!(
        pick_text_mime(&avail).as_deref(),
        Some("text/plain;charset=utf-8")
    );
}

#[test]
fn falls_back_through_atoms() {
    let avail = vec!["STRING".to_string(), "UTF8_STRING".to_string()];
    assert_eq!(pick_text_mime(&avail).as_deref(), Some("UTF8_STRING"));
}

#[test]
fn no_text_mime_is_none() {
    let avail = vec![
        "image/png".to_string(),
        "x-special/gnome-copied-files".to_string(),
    ];
    assert_eq!(pick_text_mime(&avail), None);
}

#[test]
fn text_mime_fans_out_to_aliases() {
    let offered = offered_mimes("text/plain;charset=utf-8");
    assert_eq!(
        offered,
        TEXT_MIMES.iter().map(|m| m.to_string()).collect::<Vec<_>>()
    );
    // A bare text/* subtype still fans out.
    assert_eq!(offered_mimes("text/html").len(), TEXT_MIMES.len());
}

#[test]
fn non_text_mime_offered_verbatim() {
    assert_eq!(offered_mimes("image/png"), vec!["image/png".to_string()]);
}

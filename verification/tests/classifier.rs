use ffe_watch::detect::{classify_chars, detect_status_from_html, Status};

fn chars(s: &str) -> Vec<char> {
    s.chars().collect()
}

#[test]
fn full_keyword_detected() {
    assert_eq!(detect_status_from_html("Inscriptions : COMPLET"), Status::Full);
    assert_eq!(detect_status_from_html("il y a une liste d'attente"), Status::Full);
    assert_eq!(detect_status_from_html("Plus de place disponible"), Status::Full);
    assert_eq!(detect_status_from_html("event is FULL"), Status::Full);
}

#[test]
fn accented_keyword_lowercased() {
    // Exercises the lowercasing step: the uppercase accented form matches only
    // after a real Unicode lowercase.
    assert_eq!(detect_status_from_html("Épreuve COMPLÈTE"), Status::Full);
}

#[test]
fn full_wins_over_open_and_closed() {
    assert_eq!(
        detect_status_from_html("Engagement ouvert mais complet (liste d'attente)"),
        Status::Full
    );
    assert_eq!(detect_status_from_html("fermé et complet"), Status::Full);
}

#[test]
fn open_keywords_detected() {
    assert_eq!(detect_status_from_html("Cliquez ici pour ENGAGER un cheval"), Status::Open);
    assert_eq!(detect_status_from_html("inscription ouverte"), Status::Open);
    assert_eq!(detect_status_from_html("Les inscriptions ouvertes !"), Status::Open);
}

#[test]
fn open_wins_over_closed() {
    assert_eq!(detect_status_from_html("engagement ouvert, autres concours fermés"), Status::Open);
}

#[test]
fn ouverture_contains_ouvert_so_open() {
    // "ouverture le" is a closed-keyword, but the text also contains the
    // open-keyword "ouvert" as a substring, and open is tested first.
    assert_eq!(detect_status_from_html("Ouverture le 5 mars"), Status::Open);
}

#[test]
fn closed_keywords_detected() {
    assert_eq!(detect_status_from_html("Engagements fermés"), Status::Closed);
    assert_eq!(detect_status_from_html("Ouvre le 3 juin"), Status::Closed);
}

#[test]
fn unknown_when_no_keyword() {
    assert_eq!(detect_status_from_html("bonjour tout le monde"), Status::Unknown);
    assert_eq!(detect_status_from_html(""), Status::Unknown);
}

#[test]
fn classify_chars_matches_detect_on_lowercase_text() {
    let t = "concours complet de dressage";
    assert_eq!(classify_chars(&chars(t)), Status::Full);
    assert_eq!(detect_status_from_html(t), Status::Full);
    assert_eq!(classify_chars(&chars("rien du tout")), Status::Unknown);
}

use browsy_cli::logger::InfoLogger;
use browsy_cli::style::{dress, Severity};

fn rendered(severity: Severity, tittle: &str, message: &str) -> String {
    colored::control::set_override(true);
    InfoLogger::new(tittle.to_string(), message.to_string())
        .render(severity)
        .clone_log()
}

#[test]
fn statement_in_colour() {
    assert_eq!(
        rendered(Severity::Statement, "tittle", "message"),
        "\x1b[1;44m tittle \x1b[0m \x1b[3;37m message \x1b[0m"
    );
}

#[test]
fn warn_in_colour() {
    assert_eq!(
        rendered(Severity::Warn, "tittle", "message"),
        "\x1b[1;103;37m tittle \x1b[0m \x1b[1;33m message \x1b[0m"
    );
}

#[test]
fn success_in_colour() {
    assert_eq!(
        rendered(Severity::Success, "tittle", "message"),
        "\x1b[1;42m tittle \x1b[0m \x1b[4;92m message \x1b[0m"
    );
}

#[test]
fn fail_in_colour() {
    assert_eq!(
        rendered(Severity::Fail, "tittle", "message"),
        "\x1b[1;41;37m tittle \x1b[0m \x1b[1;4;33m message \x1b[0m"
    );
}

#[test]
fn four_severities_give_four_lines_in_colour() {
    let lines = [
        rendered(Severity::Statement, "t", "m"),
        rendered(Severity::Warn, "t", "m"),
        rendered(Severity::Success, "t", "m"),
        rendered(Severity::Fail, "t", "m"),
    ];
    for i in 0..4 {
        for j in 0..4 {
            if i != j {
                assert_ne!(lines[i], lines[j]);
            }
        }
    }
}

#[test]
fn dress_in_colour_wraps_the_padded_text() {
    colored::control::set_override(true);
    let (t, m) = dress(Severity::Fail, "", "x");
    assert_eq!(t, "\x1b[1;41;37m  \x1b[0m");
    assert_eq!(m, "\x1b[1;4;33m x \x1b[0m");
}

#[test]
fn default_warn_in_colour() {
    colored::control::set_override(true);
    let have = InfoLogger::new_default().warn().clone_log();
    assert_eq!(have, "\x1b[1;103;37m  \x1b[0m \x1b[1;33m  \x1b[0m");
}

#[test]
fn colour_is_taken_up_again_behind_a_reset_in_the_text() {
    colored::control::set_override(true);
    let (t, m) = dress(Severity::Fail, "a\x1b[0mb", "\x1b[0m\x1b[0m");
    assert_eq!(t, "\x1b[1;41;37m a\x1b[0m\x1b[1;41;37mb \x1b[0m");
    assert_eq!(
        m,
        "\x1b[1;4;33m \x1b[0m\x1b[1;4;33m\x1b[0m\x1b[1;4;33m \x1b[0m"
    );
}

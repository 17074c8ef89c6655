use browsy_cli::logger::{lay_out, InfoLogger};
use browsy_cli::style::{dress, Severity};
use browsy_cli::text_utills::p;
use colored::Colorize;

#[test]
fn build_log_struct() {
    let have = InfoLogger::new("tittle".to_string(), "message".to_string());
    let mut want = InfoLogger::new_default();
    want.tittle = "tittle".to_string();
    want.message = "message".to_string();
    assert_eq!(want, have);
    assert_eq!(have.tittle, "tittle");
    assert_eq!(have.message, "message");
    assert_eq!(have.clone_log(), "");
}

#[test]
fn test_log_printing() {
    let mut a = InfoLogger::new("tittle".to_string(), "message".to_string());
    println!("{}", a.statement().clone_log());
    let mut b = InfoLogger::new("tittle".to_string(), "message".to_string());
    println!("{}", b.warn().clone_log());
    let mut c = InfoLogger::new("tittle".to_string(), "message".to_string());
    println!("{}", c.success().clone_log());
    let mut d = InfoLogger::new("tittle".to_string(), "message".to_string());
    println!("{}", d.fail().clone_log());
}

#[test]
fn test_copy_log_message() {
    let mut target = InfoLogger::new("tittle".to_string(), "message".to_string());
    let want = target.statement().clone().clone_log();
    let have = target.clone_log();

    assert_eq!(want, have)
}

#[test]
fn test_restate_log_info() {
    let have = (
        InfoLogger::new("tittle".to_string(), "message".to_string())
            .restate_log("tittle".to_string(), "MESSAGE".to_string())
            .tittle
            .clone(),
        InfoLogger::new("tittle".to_string(), "message".to_string())
            .restate_log("tittle".to_string(), "MESSAGE".to_string())
            .message
            .clone(),
    );
    let want = InfoLogger::new("tittle".to_string(), "MESSAGE".to_string());

    assert_eq!((want.tittle, want.message), have)
}

#[test]
fn test_log_template_replace() {
    let template = "#$1# #$2#";
    let temp = InfoLogger::new("tittle".to_string(), "message".to_string())
        .statement()
        .clone_log();

    let have = InfoLogger::template_replace(
        template,
        vec![
            (1, p("tittle").as_str().on_blue().bold().to_string()),
            (2, p("message").as_str().white().italic().to_string()),
        ],
    );

    assert_eq!(temp, have);

    let template = "#$1# #$2#";
    let temp = InfoLogger::new("tittle".to_string(), "message".to_string())
        .statement()
        .clone_log();

    let have = InfoLogger::template_replace(
        template,
        vec![
            (1, p("tittle").as_str().on_black().bold().to_string()),
            (2, p("messagee").as_str().on_bright_green().to_string()),
        ],
    );

    assert_ne!(temp, have);

    let template = "#$1# #$2#";
    let temp = InfoLogger::new("tittle".to_string(), "message".to_string())
        .statement()
        .clone_log();

    let have = InfoLogger::template_replace(
        template,
        vec![
            (1, p("tittleII").as_str().on_blue().bold().to_string()),
            (2, p("message###").as_str().white().italic().to_string()),
        ],
    );

    assert_ne!(temp, have)
}

#[test]
fn test_inform_macro_simple() {
    let mut s = InfoLogger::new("Hello".to_string(), "World".to_string());
    println!("{}", s.success().clone_log());
    assert!(true)
}

#[test]
fn test_inform_macro_source() {
    let mut s = InfoLogger::new("Sourced".to_string(), "Log".to_string());
    let line = s
        .restate_log("Hello".to_string(), "World".to_string())
        .fail()
        .clone_log();
    println!("{}", line);
    assert!(true)
}

#[test]
fn test_inform_macro_source_no_tittle() {
    let mut s = InfoLogger::new("warn".to_string(), "Log".to_string());
    let tittle = s.tittle.clone();
    let line = s.restate_log(tittle, "Hello".to_string()).warn().clone_log();
    println!("{}", line);
    assert!(true)
}

#[test]
fn test_inform_macro_source_no_message() {
    let mut s = InfoLogger::new("Sourced".to_string(), "Log".to_string());
    let message = s.message.clone();
    let line = s
        .restate_log("Hello".to_string(), message)
        .statement()
        .clone_log();
    println!("{}", line);
    assert!(true)
}

#[test]
fn test_inform_macro_no_message() {
    let mut s = InfoLogger::new("No message given".to_string(), String::default());
    println!("{}", s.success().clone_log());
    assert!(true)
}

#[test]
fn test_inform_macro_no_tittle() {
    let mut s = InfoLogger::new("Info".to_string(), "No tittle here".to_string());
    println!("{}", s.statement().clone_log());
    assert!(true)
}

#[test]
fn default_record_has_nothing_rendered() {
    let l = InfoLogger::new_default();
    assert_eq!(l.clone_log(), "");
    assert_eq!(l.tittle, "");
    assert_eq!(l.message, "");
    assert_eq!(InfoLogger::default(), l);
}

#[test]
fn restate_keeps_the_rendered_line() {
    let mut l = InfoLogger::new("one".to_string(), "two".to_string());
    let before = l.warn().clone_log();
    l.restate_log("a".to_string(), "b".to_string());
    assert_eq!(l.clone_log(), before);
    assert_eq!(l.tittle, "a");
    assert_eq!(l.message, "b");
    let after = l.warn().clone_log();
    assert_ne!(after, before);
}

#[test]
fn render_twice_gives_the_same_line() {
    let mut l = InfoLogger::new("one".to_string(), "two".to_string());
    let first = l.fail().clone_log();
    let second = l.fail().clone_log();
    assert_eq!(first, second);
    let first = l.success().clone_log();
    let second = l.success().clone_log();
    assert_eq!(first, second);
}

#[test]
fn statement_is_the_template_over_the_styled_pair() {
    let have = InfoLogger::new("Tip".to_string(), "Hello".to_string())
        .statement()
        .clone_log();
    let (t, m) = dress(Severity::Statement, "Tip", "Hello");
    let want = InfoLogger::template_replace("#$1# #$2#", vec![(1, t.clone()), (2, m.clone())]);
    assert_eq!(have, want);
    assert_eq!(have, format!("{} {}", t, m));
}

#[test]
fn default_warn_line_is_two_styled_blanks() {
    let have = InfoLogger::new_default().warn().clone_log();
    let t = "  ".white().on_bright_yellow().bold().to_string();
    let m = "  ".yellow().bold().to_string();
    assert_eq!(have, format!("{} {}", t, m));
}

#[test]
fn render_by_severity_is_the_named_render() {
    let mut a = InfoLogger::new("x".to_string(), "y".to_string());
    let mut b = a.clone();
    assert_eq!(a.render(Severity::Statement).clone_log(), b.statement().clone_log());
    assert_eq!(a.render(Severity::Warn).clone_log(), b.warn().clone_log());
    assert_eq!(a.render(Severity::Success).clone_log(), b.success().clone_log());
    assert_eq!(a.render(Severity::Fail).clone_log(), b.fail().clone_log());
}

#[test]
fn lay_out_joins_with_one_space() {
    assert_eq!(lay_out("a".to_string(), "b".to_string()), "a b");
    assert_eq!(lay_out(String::new(), String::new()), " ");
    assert_eq!(lay_out("#$2#".to_string(), "b".to_string()), "b b");
}

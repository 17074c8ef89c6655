use browsy_cli::logger::InfoLogger;
use browsy_cli::template::{replace_all, substitute, token};
use browsy_cli::text_utills::{p, pad};

fn pairs(items: &[(i32, &str)]) -> Vec<(i32, String)> {
    items.iter().map(|(i, v)| (*i, v.to_string())).collect()
}

#[test]
fn repeated_tokens_take_one_value() {
    let built = InfoLogger::template_replace(
        "This is #$1# co#$2# template #$3# bo#$2# #$4#",
        pairs(&[(1, "a"), (2, "ol"), (3, "string"), (4, "!")]),
    );
    assert_eq!(built, "This is a cool template string bool !");
}

#[test]
fn substitute_twice_gives_the_same_text() {
    let ps = pairs(&[(2, "b"), (1, "a")]);
    let one = substitute("#$1#-#$2#-#$1#", &ps);
    let two = substitute("#$1#-#$2#-#$1#", &ps);
    assert_eq!(one, two);
    assert_eq!(one, "a-b-a");
}

#[test]
fn absent_index_changes_nothing() {
    let with = substitute("x #$1# y", &pairs(&[(7, "seven"), (1, "one")]));
    let without = substitute("x #$1# y", &pairs(&[(1, "one")]));
    assert_eq!(with, without);
    assert_eq!(with, "x one y");
}

#[test]
fn unmatched_token_stays() {
    assert_eq!(substitute("#$1# #$2#", &pairs(&[(1, "a")])), "a #$2#");
    assert_eq!(substitute("#$1# #$2#", &pairs(&[])), "#$1# #$2#");
}

#[test]
fn later_pair_finds_tokens_of_earlier_values() {
    assert_eq!(substitute("#$1#", &pairs(&[(1, "#$2#"), (2, "x")])), "x");
    assert_eq!(substitute("#$1#", &pairs(&[(2, "x"), (1, "#$2#")])), "#$2#");
}

#[test]
fn second_pair_of_one_index_finds_nothing() {
    assert_eq!(substitute("#$1# #$1#", &pairs(&[(1, "a"), (1, "b")])), "a a");
}

#[test]
fn token_is_the_index_in_decimal() {
    assert_eq!(token(1), "#$1#");
    assert_eq!(token(0), "#$0#");
    assert_eq!(token(10), "#$10#");
    assert_eq!(token(907), "#$907#");
    assert_eq!(token(-3), "#$-3#");
    assert_eq!(token(i32::MAX), "#$2147483647#");
    assert_eq!(token(i32::MIN), "#$-2147483648#");
}

#[test]
fn multi_digit_and_negative_indices_are_replaced() {
    assert_eq!(substitute("#$12# #$1#", &pairs(&[(1, "a"), (12, "b")])), "b a");
    assert_eq!(substitute("<#$-4#>", &pairs(&[(-4, "neg")])), "<neg>");
}

#[test]
fn replace_all_reads_from_the_left() {
    assert_eq!(replace_all("aaa", "aa", "b"), "ba");
    assert_eq!(replace_all("abcabc", "bc", ""), "aa");
    assert_eq!(replace_all("abc", "abcd", "x"), "abc");
    assert_eq!(replace_all("", "a", "x"), "");
    assert_eq!(replace_all("abc", "", "x"), "abc");
    assert_eq!(replace_all("héllo wörld", "ö", "oe"), "héllo woerld");
    assert_eq!(replace_all("xx", "x", "xx"), "xxxx");
}

#[test]
fn pad_puts_the_filler_on_both_sides() {
    assert_eq!(pad("x", "ab", 2), "ababxabab");
    assert_eq!(pad("x", " ", 0), "x");
    assert_eq!(pad("", "-", 1), "--");
    assert_eq!(pad("word", " ", 1), " word ");
    assert_eq!(p("word"), " word ");
    assert_eq!(p(""), "  ");
}

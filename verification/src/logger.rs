//! The log record: a title, a message and the line last rendered from them.

use vstd::prelude::*;
use vstd::string::*;

use crate::style::{dress, dressed, opener, painted, title_codes, Severity};
use crate::template::{
    occurs, occurs_at, pairs_model, replaced, replaced_at_first_occurrence, replaced_keeps_start,
    replaced_without_occurrence, substitute, substituted, token_text,
};

verus! {

/// A log is a pair of a title and a message. A render for a severity builds
/// the line from them and keeps it until the next render.
#[derive(Debug, PartialEq, Eq, Hash, Clone)]
pub struct InfoLogger {
    pub tittle: String,
    pub message: String,
    log: String,
}

/// What a record holds, as plain text.
pub struct LogView {
    pub tittle: Seq<char>,
    pub message: Seq<char>,
    /// The line last rendered; empty before the first render.
    pub rendered: Seq<char>,
}

impl View for InfoLogger {
    type V = LogView;

    closed spec fn view(&self) -> LogView {
        LogView { tittle: self.tittle@, message: self.message@, rendered: self.log@ }
    }
}

/// The template of a line: the title's token, a space, the message's token.
pub open spec fn log_template() -> Seq<char> {
    seq!['#', '$', '1', '#', ' ', '#', '$', '2', '#']
}

/// The line for a styled title and a styled message: the template with the
/// title put for token 1, then the message for token 2.
pub open spec fn line(styled_title: Seq<char>, styled_message: Seq<char>) -> Seq<char> {
    substituted(log_template(), seq![(1int, styled_title), (2int, styled_message)])
}

/// Lays a styled title and a styled message out on one line.
pub fn lay_out(styled_title: String, styled_message: String) -> (r: String)
    ensures
        r@ == line(styled_title@, styled_message@),
{
    proof {
        reveal_strlit("#$1# #$2#");
        assert("#$1# #$2#"@ =~= log_template());
    }
    let ghost t = styled_title@;
    let ghost m = styled_message@;
    let mut pairs: Vec<(i32, String)> = Vec::new();
    pairs.push((1, styled_title));
    pairs.push((2, styled_message));
    proof {
        assert(pairs_model(pairs@) =~= seq![(1int, t), (2int, m)]);
    }
    substitute("#$1# #$2#", &pairs)
}

impl InfoLogger {
    /// Whether `after` is `before` rendered for `severity`: the title and the
    /// message stay, and the line is laid out from the two as dressed for
    /// the severity.
    pub open spec fn renders(before: LogView, severity: Severity, after: LogView) -> bool {
        &&& after.tittle == before.tittle
        &&& after.message == before.message
        &&& exists|t: Seq<char>, m: Seq<char>|
            {
                &&& #[trigger] dressed(severity, before.tittle, before.message, (t, m))
                &&& after.rendered == line(t, m)
            }
    }

    /// A record with an empty title, an empty message and nothing rendered.
    pub fn new_default() -> (r: Self)
        ensures
            r@.tittle == Seq::<char>::empty(),
            r@.message == Seq::<char>::empty(),
            r@.rendered == Seq::<char>::empty(),
    {
        Self { tittle: String::new(), message: String::new(), log: String::new() }
    }

    /// A record with the given title and message and nothing rendered.
    pub fn new(tittle: String, message: String) -> (r: Self)
        ensures
            r@.tittle == tittle@,
            r@.message == message@,
            r@.rendered == Seq::<char>::empty(),
    {
        Self { tittle, message, log: String::new() }
    }

    /// Replaces the tokens of the template by the values of the pairs, pair
    /// by pair in the order given.
    pub fn template_replace(templ: &str, pairs: Vec<(i32, String)>) -> (r: String)
        ensures
            r@ == substituted(templ@, pairs_model(pairs@)),
    {
        substitute(templ, &pairs)
    }

    /// Puts a new title and message in place. The rendered line stays as it
    /// is until the next render.
    pub fn restate_log(&mut self, tittle: String, message: String) -> (r: &mut InfoLogger)
        ensures
            r@.tittle == tittle@,
            r@.message == message@,
            r@.rendered == old(self)@.rendered,
            *final(self) == *final(r),
    {
        self.message = message;
        self.tittle = tittle;
        self
    }

    /// Renders the line for `severity` from the title and the message as
    /// they stand.
    pub fn render(&mut self, severity: Severity) -> (r: &mut InfoLogger)
        ensures
            Self::renders(old(self)@, severity, r@),
            *final(self) == *final(r),
    {
        let (t, m) = dress(severity, self.tittle.as_str(), self.message.as_str());
        let ghost styled_title = t@;
        let ghost styled_message = m@;
        self.log = lay_out(t, m);
        proof {
            assert(dressed(
                severity,
                old(self)@.tittle,
                old(self)@.message,
                (styled_title, styled_message),
            ));
            assert(self@.rendered == line(styled_title, styled_message));
        }
        self
    }

    /// Renders a statement, with no connotation attached.
    pub fn statement(&mut self) -> (r: &mut InfoLogger)
        ensures
            Self::renders(old(self)@, Severity::Statement, r@),
            *final(self) == *final(r),
    {
        self.render(Severity::Statement)
    }

    /// Renders a warning.
    pub fn warn(&mut self) -> (r: &mut InfoLogger)
        ensures
            Self::renders(old(self)@, Severity::Warn, r@),
            *final(self) == *final(r),
    {
        self.render(Severity::Warn)
    }

    /// Renders a success.
    pub fn success(&mut self) -> (r: &mut InfoLogger)
        ensures
            Self::renders(old(self)@, Severity::Success, r@),
            *final(self) == *final(r),
    {
        self.render(Severity::Success)
    }

    /// Renders a failure.
    pub fn fail(&mut self) -> (r: &mut InfoLogger)
        ensures
            Self::renders(old(self)@, Severity::Fail, r@),
            *final(self) == *final(r),
    {
        self.render(Severity::Fail)
    }

    /// A copy of the line last rendered.
    pub fn clone_log(&self) -> (r: String)
        ensures
            r@ == self@.rendered,
    {
        self.log.clone()
    }
}

impl Default for InfoLogger {
    fn default() -> (r: Self)
        ensures
            r@.tittle == Seq::<char>::empty(),
            r@.message == Seq::<char>::empty(),
            r@.rendered == Seq::<char>::empty(),
    {
        InfoLogger::new_default()
    }
}

/// What is left of the template behind the title's token: a space and the
/// message's token.
spec fn behind_title() -> Seq<char> {
    seq![' ', '#', '$', '2', '#']
}

proof fn tokens_of_the_line()
    ensures
        token_text(1) == seq!['#', '$', '1', '#'],
        token_text(2) == seq!['#', '$', '2', '#'],
{
    assert(token_text(1) =~= seq!['#', '$', '1', '#']);
    assert(token_text(2) =~= seq!['#', '$', '2', '#']);
}

/// The line is the styled title, followed by a space and the message's
/// token, with the styled message put for every token of the message.
proof fn line_after_title(t: Seq<char>, m: Seq<char>)
    ensures
        line(t, m) == replaced(t + behind_title(), token_text(2), m),
{
    tokens_of_the_line();
    let tpl = log_template();
    let first = token_text(1);
    let tail = behind_title();
    assert(tpl.subrange(0, 4) =~= first);
    replaced_at_first_occurrence(tpl, first, t, 0);
    assert(tpl.skip(4) =~= tail);
    assert forall|k: int| !occurs_at(tail, first, k) by {
        if occurs_at(tail, first, k) {
            if k == 0 {
                assert(tail.subrange(0, 4)[0] == ' ');
            } else {
                assert(k == 1);
                assert(tail.subrange(1, 5)[2] == '2');
            }
        }
    }
    replaced_without_occurrence(tail, first, t);
    assert(tpl.take(0) + t + tail =~= t + tail);
    let s = t + tail;
    assert(replaced(tpl, first, t) == s);
    let ps = seq![(1int, t), (2int, m)];
    assert(ps.skip(1).skip(1) =~= Seq::<(int, Seq<char>)>::empty());
    assert(substituted(tpl, ps) == substituted(s, ps.skip(1)));
    assert(substituted(s, ps.skip(1)) == substituted(
        replaced(s, token_text(2), m),
        ps.skip(1).skip(1),
    ));
}

/// Where the styled title holds no token of the message, the line is the
/// styled title, one space, and the styled message.
pub proof fn line_is_title_space_message(t: Seq<char>, m: Seq<char>)
    requires
        !occurs(t, token_text(2)),
    ensures
        line(t, m) == t + seq![' '] + m,
{
    tokens_of_the_line();
    line_after_title(t, m);
    let second = token_text(2);
    let s = t + behind_title();
    let k = t.len() as int + 1;
    assert(s.subrange(k, k + 4) =~= second);
    assert forall|j: int| 0 <= j < k implies !occurs_at(s, second, j) by {
        if occurs_at(s, second, j) {
            if j + 4 <= t.len() {
                assert(s.subrange(j, j + 4) =~= t.subrange(j, j + 4));
                assert(occurs_at(t, second, j));
            } else {
                let at = t.len() - j;
                assert(s.subrange(j, j + 4)[at] == ' ');
            }
        }
    }
    replaced_at_first_occurrence(s, second, m, k);
    assert(s.skip(k + 4) =~= Seq::<char>::empty());
    assert(s.take(k) =~= t + seq![' ']);
    assert(t + seq![' '] + m + Seq::<char>::empty() =~= t + seq![' '] + m);
}

/// A line whose title came out in colour begins with the opening sequence
/// of its severity's title.
proof fn line_starts_as_title(severity: Severity, title: Seq<char>, m: Seq<char>)
    ensures
        line(painted(title, title_codes(severity)), m).len() >= 6,
        line(painted(title, title_codes(severity)), m)[4] == title_codes(severity)[2],
        line(painted(title, title_codes(severity)), m)[5] == title_codes(severity)[3],
{
    tokens_of_the_line();
    let codes = title_codes(severity);
    let t = painted(title, codes);
    line_after_title(t, m);
    let s = t + behind_title();
    assert(codes.len() >= 4);
    assert(opener(codes).len() >= 6);
    assert(s.len() >= 6);
    assert(s[0] == '\x1b');
    assert(s[1] == '[');
    assert(s[2] == codes[0]);
    assert(s[3] == codes[1]);
    assert(s[4] == codes[2]);
    assert(s[5] == codes[3]);
    replaced_keeps_start(s, token_text(2), m, 6);
    let l = line(t, m);
    assert(l.take(6)[4] == s.take(6)[4]);
    assert(l.take(6)[5] == s.take(6)[5]);
}

/// Where the titles come out in colour, two different severities give two
/// different lines, whatever the titles and the styled messages are.
pub proof fn coloured_lines_differ(
    a: Severity,
    b: Severity,
    title_a: Seq<char>,
    message_a: Seq<char>,
    title_b: Seq<char>,
    message_b: Seq<char>,
)
    requires
        a != b,
    ensures
        line(painted(title_a, title_codes(a)), message_a) != line(
            painted(title_b, title_codes(b)),
            message_b,
        ),
{
    line_starts_as_title(a, title_a, message_a);
    line_starts_as_title(b, title_b, message_b);
}

/// A render looks at the title and the message alone, never at the line
/// rendered before: what a second render in a row may give, the first
/// could have given.
pub proof fn render_after_render(
    start: LogView,
    earlier: Severity,
    between: LogView,
    severity: Severity,
    end: LogView,
)
    requires
        InfoLogger::renders(start, earlier, between),
        InfoLogger::renders(between, severity, end),
    ensures
        InfoLogger::renders(start, severity, end),
{
    let (t, m) = choose|t: Seq<char>, m: Seq<char>|
        {
            &&& #[trigger] dressed(severity, between.tittle, between.message, (t, m))
            &&& end.rendered == line(t, m)
        };
    assert(dressed(severity, start.tittle, start.message, (t, m)));
}

} // verus!

//! The scanner: from the characters of a program to its tokens.
//!
//! A number token carries no value: the library does not read a decimal
//! numeral as a double. Whoever needs the value derives it from the token's
//! text and stores its bit pattern in the token's `literal`.

use vstd::prelude::*;
use vstd::string::StrSliceExecFns;
use vstd::string::StringExecFns;

use crate::lox::{error, report_line, reported, Diagnostics, DiagnosticsView};
use crate::lox_type::{LoxType, Value};
use crate::text::{characters, join3, same_text};
use crate::token::{Token, TokenView};
use crate::token_type::TokenType;

verus! {

/// Whether `c` may start an identifier: a letter of the basic Latin
/// alphabet or an underscore.
pub open spec fn alpha(c: char) -> bool {
    ('a' <= c && c <= 'z') || ('A' <= c && c <= 'Z') || c == '_'
}

/// Whether `c` is a decimal digit.
pub open spec fn digit(c: char) -> bool {
    '0' <= c && c <= '9'
}

/// Whether `c` may stand inside an identifier.
pub open spec fn alpha_numeric(c: char) -> bool {
    alpha(c) || digit(c)
}

/// Whether `c` may start an identifier.
pub fn is_alpha(c: char) -> (result: bool)
    ensures
        result == alpha(c),
{
    (c >= 'a' && c <= 'z') || (c >= 'A' && c <= 'Z') || c == '_'
}

/// Whether `c` is a decimal digit.
pub fn is_digit(c: char) -> (result: bool)
    ensures
        result == digit(c),
{
    c >= '0' && c <= '9'
}

/// Whether `c` may stand inside an identifier.
pub fn is_alpha_numberic(c: char) -> (result: bool)
    ensures
        result == alpha_numeric(c),
{
    is_alpha(c) || is_digit(c)
}

/// The kinds of run that the scanner skips over.
#[derive(Clone, Copy, Debug, PartialEq, Eq, Structural)]
pub enum Run {
    /// Decimal digits.
    Digits,
    /// Letters, digits and underscores.
    Word,
    /// Everything up to the end of the line.
    Comment,
    /// Everything up to the next double quote.
    Quoted,
}

/// Whether `c` belongs to a run of kind `run`.
pub open spec fn within(run: Run, c: char) -> bool {
    match run {
        Run::Digits => digit(c),
        Run::Word => alpha_numeric(c),
        Run::Comment => c != '\n',
        Run::Quoted => c != '"',
    }
}

/// The end of the run of kind `run` that starts at `from`: the first index
/// from there on whose character does not belong to it, or the end of the
/// text.
pub open spec fn run_end(chars: Seq<char>, from: int, run: Run) -> int
    decreases chars.len() - from,
{
    if 0 <= from < chars.len() && within(run, chars[from]) {
        run_end(chars, from + 1, run)
    } else {
        from
    }
}

/// The line number `line` after the line breaks among the characters from
/// `from` up to `to`. A line number does not grow beyond the largest one.
pub open spec fn line_after(chars: Seq<char>, from: int, to: int, line: usize) -> usize
    decreases to - from,
{
    if 0 <= from < to <= chars.len() {
        line_after(chars, from + 1, to, next_line(chars[from], line))
    } else {
        line
    }
}

/// The line number after the character `c`.
pub open spec fn next_line(c: char, line: usize) -> usize {
    if c == '\n' && line < usize::MAX {
        (line + 1) as usize
    } else {
        line
    }
}

/// The kind of token that the word `text` is: a keyword or an identifier.
pub open spec fn word_kind(text: Seq<char>) -> TokenType {
    if text == "and"@ {
        TokenType::And
    } else if text == "class"@ {
        TokenType::Class
    } else if text == "else"@ {
        TokenType::Else
    } else if text == "false"@ {
        TokenType::False
    } else if text == "for"@ {
        TokenType::For
    } else if text == "fun"@ {
        TokenType::Fun
    } else if text == "if"@ {
        TokenType::If
    } else if text == "nil"@ {
        TokenType::Nil
    } else if text == "or"@ {
        TokenType::Or
    } else if text == "print"@ {
        TokenType::Print
    } else if text == "return"@ {
        TokenType::Return
    } else if text == "super"@ {
        TokenType::Super
    } else if text == "this"@ {
        TokenType::This
    } else if text == "true"@ {
        TokenType::True
    } else if text == "var"@ {
        TokenType::Var
    } else if text == "while"@ {
        TokenType::While
    } else {
        TokenType::Identifier
    }
}

/// How far the scanner has come: the tokens found, the current line and
/// the errors reported.
pub ghost struct Progress {
    pub tokens: Seq<TokenView>,
    pub line: usize,
    pub diagnostics: DiagnosticsView,
}

/// The progress after the token of kind `kind` that spans the characters
/// from `start` up to `end`.
pub open spec fn found(
    p: Progress,
    chars: Seq<char>,
    start: int,
    end: int,
    kind: TokenType,
    literal: Option<Value>,
) -> Progress {
    Progress {
        tokens: p.tokens.push(
            TokenView { token_type: kind, lexeme: chars.subrange(start, end), literal, line: p.line },
        ),
        ..p
    }
}

/// The progress after an error on the current line.
pub open spec fn failed(p: Progress, message: Seq<char>) -> Progress {
    Progress {
        diagnostics: reported(p.diagnostics, report_line(p.line as nat, Seq::empty(), message)),
        ..p
    }
}

/// The message for a character that starts no token.
pub open spec fn unexpected(c: char) -> Seq<char> {
    "Unexpected character -> "@ + seq![c] + " <-"@
}

/// Whether the character at `at` is `c`.
pub open spec fn is_at(chars: Seq<char>, at: int, c: char) -> bool {
    0 <= at < chars.len() && chars[at] == c
}

/// The kind of the token that the single character `c` makes, if it makes
/// one by itself whatever follows.
pub open spec fn single(c: char) -> Option<TokenType> {
    if c == '(' {
        Some(TokenType::LeftParen)
    } else if c == ')' {
        Some(TokenType::RightParen)
    } else if c == '{' {
        Some(TokenType::LeftBrace)
    } else if c == '}' {
        Some(TokenType::RightBrace)
    } else if c == ',' {
        Some(TokenType::Comma)
    } else if c == '.' {
        Some(TokenType::Dot)
    } else if c == '-' {
        Some(TokenType::Minus)
    } else if c == '+' {
        Some(TokenType::Plus)
    } else if c == ';' {
        Some(TokenType::SemiColon)
    } else if c == '*' {
        Some(TokenType::Star)
    } else {
        None
    }
}

/// The kinds of the tokens that the character `c` makes, alone and with an
/// equals sign behind it, if it is one of the four that may take one.
pub open spec fn with_equal(c: char) -> Option<(TokenType, TokenType)> {
    if c == '!' {
        Some((TokenType::Bang, TokenType::BangEqual))
    } else if c == '=' {
        Some((TokenType::Equal, TokenType::EqualEqual))
    } else if c == '<' {
        Some((TokenType::Less, TokenType::LessEqual))
    } else if c == '>' {
        Some((TokenType::Greater, TokenType::GreaterEqual))
    } else {
        None
    }
}

/// Where the number that starts at `start` ends: after its digits and,
/// where a dot and a digit follow them, after the digits behind the dot.
pub open spec fn number_end(chars: Seq<char>, start: int) -> int {
    let whole = run_end(chars, start, Run::Digits);
    if is_at(chars, whole, '.') && whole + 1 < chars.len() && digit(chars[whole + 1]) {
        run_end(chars, whole + 1, Run::Digits)
    } else {
        whole
    }
}

/// Scan what starts at `start`: one token, a comment, white space or a
/// character that starts nothing. Gives where the scan goes on and the
/// progress made.
pub open spec fn scan_token(chars: Seq<char>, start: int, p: Progress) -> (int, Progress) {
    let c = chars[start];
    if single(c) is Some {
        (start + 1, found(p, chars, start, start + 1, single(c).unwrap(), None))
    } else if with_equal(c) is Some {
        if is_at(chars, start + 1, '=') {
            (start + 2, found(p, chars, start, start + 2, with_equal(c).unwrap().1, None))
        } else {
            (start + 1, found(p, chars, start, start + 1, with_equal(c).unwrap().0, None))
        }
    } else if c == '/' {
        if is_at(chars, start + 1, '/') {
            (run_end(chars, start + 2, Run::Comment), p)
        } else {
            (start + 1, found(p, chars, start, start + 1, TokenType::Slash, None))
        }
    } else if c == ' ' || c == '\r' || c == '\t' {
        (start + 1, p)
    } else if c == '\n' {
        (start + 1, Progress { line: next_line(c, p.line), ..p })
    } else if c == '"' {
        let close = run_end(chars, start + 1, Run::Quoted);
        let inside = Progress { line: line_after(chars, start + 1, close, p.line), ..p };
        if close >= chars.len() {
            (close, failed(inside, "Unterminated string."@))
        } else {
            (
                close + 1,
                found(
                    inside,
                    chars,
                    start,
                    close + 1,
                    TokenType::String,
                    Some(Value::Text(chars.subrange(start + 1, close))),
                ),
            )
        }
    } else if digit(c) {
        let end = number_end(chars, start);
        (end, found(p, chars, start, end, TokenType::Number, None))
    } else if alpha(c) {
        let end = run_end(chars, start, Run::Word);
        (end, found(p, chars, start, end, word_kind(chars.subrange(start, end)), None))
    } else {
        (start + 1, failed(p, unexpected(c)))
    }
}

/// Scan everything from `start` on.
pub open spec fn scan_from(chars: Seq<char>, start: int, p: Progress) -> Progress
    decreases chars.len() - start,
{
    if 0 <= start < chars.len() {
        let (next, after) = scan_token(chars, start, p);
        if start < next <= chars.len() {
            scan_from(chars, next, after)
        } else {
            after
        }
    } else {
        p
    }
}

/// The tokens of the text `chars` and the errors found in it: everything
/// that scanning from the first character on the first line finds, and an
/// end-of-text token on the last line.
pub open spec fn scan(chars: Seq<char>, d: DiagnosticsView) -> Progress {
    let p = scan_from(chars, 0, Progress { tokens: Seq::empty(), line: 1, diagnostics: d });
    Progress {
        tokens: p.tokens.push(
            TokenView { token_type: TokenType::Eof, lexeme: Seq::empty(), literal: None, line: p.line },
        ),
        ..p
    }
}

/// A run ends at or after its start and within the text.
pub proof fn lemma_run_end(chars: Seq<char>, from: int, run: Run)
    requires
        0 <= from <= chars.len(),
    ensures
        from <= run_end(chars, from, run) <= chars.len(),
    decreases chars.len() - from,
{
    if from < chars.len() && within(run, chars[from]) {
        lemma_run_end(chars, from + 1, run);
    }
}

/// Scanning a token always moves on, and stays within the text.
pub proof fn lemma_scan_token_moves(chars: Seq<char>, start: int, p: Progress)
    requires
        0 <= start < chars.len(),
    ensures
        start < scan_token(chars, start, p).0 <= chars.len(),
{
    lemma_run_end(chars, start + 1, Run::Quoted);
    lemma_run_end(chars, start + 1, Run::Word);
    lemma_run_end(chars, start + 1, Run::Digits);
    let whole = run_end(chars, start, Run::Digits);
    if whole + 1 <= chars.len() {
        lemma_run_end(chars, whole + 1, Run::Digits);
    }
    if start + 2 <= chars.len() {
        lemma_run_end(chars, start + 2, Run::Comment);
    }
}


/// The kind of token that the word `text` is.
fn kind_of_word(text: &str) -> (kind: TokenType)
    ensures
        kind == word_kind(text@),
{
    if same_text(text, "and") {
        TokenType::And
    } else if same_text(text, "class") {
        TokenType::Class
    } else if same_text(text, "else") {
        TokenType::Else
    } else if same_text(text, "false") {
        TokenType::False
    } else if same_text(text, "for") {
        TokenType::For
    } else if same_text(text, "fun") {
        TokenType::Fun
    } else if same_text(text, "if") {
        TokenType::If
    } else if same_text(text, "nil") {
        TokenType::Nil
    } else if same_text(text, "or") {
        TokenType::Or
    } else if same_text(text, "print") {
        TokenType::Print
    } else if same_text(text, "return") {
        TokenType::Return
    } else if same_text(text, "super") {
        TokenType::Super
    } else if same_text(text, "this") {
        TokenType::This
    } else if same_text(text, "true") {
        TokenType::True
    } else if same_text(text, "var") {
        TokenType::Var
    } else if same_text(text, "while") {
        TokenType::While
    } else {
        TokenType::Identifier
    }
}

/// The kind of the token that `c` makes by itself, if it does.
fn kind_of_single(c: char) -> (kind: Option<TokenType>)
    ensures
        kind == single(c),
{
    if c == '(' {
        Some(TokenType::LeftParen)
    } else if c == ')' {
        Some(TokenType::RightParen)
    } else if c == '{' {
        Some(TokenType::LeftBrace)
    } else if c == '}' {
        Some(TokenType::RightBrace)
    } else if c == ',' {
        Some(TokenType::Comma)
    } else if c == '.' {
        Some(TokenType::Dot)
    } else if c == '-' {
        Some(TokenType::Minus)
    } else if c == '+' {
        Some(TokenType::Plus)
    } else if c == ';' {
        Some(TokenType::SemiColon)
    } else if c == '*' {
        Some(TokenType::Star)
    } else {
        None
    }
}

/// The kinds of the tokens that `c` makes alone and with an equals sign.
fn kinds_with_equal(c: char) -> (kinds: Option<(TokenType, TokenType)>)
    ensures
        kinds == with_equal(c),
{
    if c == '!' {
        Some((TokenType::Bang, TokenType::BangEqual))
    } else if c == '=' {
        Some((TokenType::Equal, TokenType::EqualEqual))
    } else if c == '<' {
        Some((TokenType::Less, TokenType::LessEqual))
    } else if c == '>' {
        Some((TokenType::Greater, TokenType::GreaterEqual))
    } else {
        None
    }
}

/// Whether `c` belongs to a run of kind `run`.
fn belongs(run: Run, c: char) -> (result: bool)
    ensures
        result == within(run, c),
{
    match run {
        Run::Digits => is_digit(c),
        Run::Word => is_alpha_numberic(c),
        Run::Comment => c != '\n',
        Run::Quoted => c != '"',
    }
}

/// The scanner: the text, the place it has reached in it, and the tokens
/// found so far.
pub struct Scanner {
    source: String,
    chars: Vec<char>,
    tokens: Vec<Token>,
    current: usize,
    line: usize,
}

/// What a scanner holds.
pub ghost struct ScannerView {
    /// The text.
    pub chars: Seq<char>,
    /// The tokens found so far.
    pub tokens: Seq<TokenView>,
    /// Where the scan goes on.
    pub current: usize,
    /// The line of that place.
    pub line: usize,
}

impl View for Scanner {
    type V = ScannerView;

    closed spec fn view(&self) -> ScannerView {
        ScannerView {
            chars: self.chars@,
            tokens: self.tokens@.map_values(|token: Token| token@),
            current: self.current,
            line: self.line,
        }
    }
}

/// What the tokens of a sequence hold.
pub open spec fn token_views(tokens: Seq<Token>) -> Seq<TokenView> {
    tokens.map_values(|token: Token| token@)
}

/// The progress that a scanner has made, with the collector `d`.
pub open spec fn progress(scanner: ScannerView, d: DiagnosticsView) -> Progress {
    Progress { tokens: scanner.tokens, line: scanner.line, diagnostics: d }
}

/// The progress with the end-of-text token behind the tokens found.
pub open spec fn finished(p: Progress) -> Progress {
    Progress {
        tokens: p.tokens.push(
            TokenView { token_type: TokenType::Eof, lexeme: Seq::empty(), literal: None, line: p.line },
        ),
        ..p
    }
}

impl Scanner {
    /// The text that the scanner holds is the text it was made for.
    pub closed spec fn wf(&self) -> bool {
        self.chars@ == self.source@ && self.current <= self.chars.len()
    }

    /// A scanner at the start of `source`, on line 1.
    pub fn new(source: &str) -> (scanner: Self)
        ensures
            scanner.wf(),
            scanner@ == (ScannerView { chars: source@, tokens: Seq::empty(), current: 0, line: 1 }),
    {
        let scanner = Scanner {
            source: String::from_str(source),
            chars: characters(source),
            tokens: Vec::new(),
            current: 0,
            line: 1,
        };
        assert(scanner@.tokens =~= Seq::empty());
        scanner
    }

    /// The end of the run of kind `run` that starts at `from`.
    fn run(&self, from: usize, run: Run) -> (end: usize)
        requires
            from <= self.chars.len(),
        ensures
            end == run_end(self.chars@, from as int, run),
            from <= end <= self.chars.len(),
    {
        let mut end = from;
        while end < self.chars.len() && belongs(run, self.chars[end])
            invariant
                from <= end <= self.chars.len(),
                run_end(self.chars@, from as int, run) == run_end(self.chars@, end as int, run),
            decreases self.chars.len() - end,
        {
            end = end + 1;
        }
        end
    }

    /// The line number after the characters from `from` up to `to`.
    fn lines(&self, from: usize, to: usize, line: usize) -> (after: usize)
        requires
            from <= to <= self.chars.len(),
        ensures
            after == line_after(self.chars@, from as int, to as int, line),
    {
        let mut at = from;
        let mut after = line;
        while at < to
            invariant
                from <= at <= to <= self.chars.len(),
                line_after(self.chars@, from as int, to as int, line) == line_after(
                    self.chars@,
                    at as int,
                    to as int,
                    after,
                ),
            decreases to - at,
        {
            if self.chars[at] == '\n' && after < usize::MAX {
                after = after + 1;
            }
            at = at + 1;
        }
        after
    }

    /// Whether the character at `at` is `c`.
    fn is_at(&self, at: usize, c: char) -> (result: bool)
        ensures
            result == is_at(self.chars@, at as int, c),
    {
        at < self.chars.len() && self.chars[at] == c
    }

    /// Adds the token of kind `kind` that spans the characters from `start`
    /// up to `end`.
    fn add_token_with_literal(
        &mut self,
        start: usize,
        end: usize,
        kind: TokenType,
        literal: Option<LoxType>,
    )
        requires
            old(self).wf(),
            start <= end <= old(self)@.chars.len(),
        ensures
            final(self).wf(),
            final(self)@ == (ScannerView {
                tokens: old(self)@.tokens.push(
                    TokenView {
                        token_type: kind,
                        lexeme: old(self)@.chars.subrange(start as int, end as int),
                        literal: match literal {
                            Some(value) => Some(value@),
                            None => None,
                        },
                        line: old(self)@.line,
                    },
                ),
                ..old(self)@
            }),
    {
        let lexeme = String::from_str(self.source.as_str().substring_char(start, end));
        let token = Token::new(kind, lexeme, literal, self.line);
        self.tokens.push(token);
        assert(self@.tokens =~= old(self)@.tokens.push(token@));
    }

    /// Scans what starts at the current place, which lies within the text.
    fn scan_token(&mut self, diagnostics: &mut Diagnostics)
        requires
            old(self).wf(),
            old(self)@.current < old(self)@.chars.len(),
        ensures
            final(self).wf(),
            final(self)@.chars == old(self)@.chars,
            old(self)@.current < final(self)@.current,
            (final(self)@.current as int, progress(final(self)@, final(diagnostics)@)) == scan_token(
                old(self)@.chars,
                old(self)@.current as int,
                progress(old(self)@, old(diagnostics)@),
            ),
    {
        let start = self.current;
        let c = self.chars[start];
        proof {
            lemma_scan_token_moves(
                self@.chars,
                start as int,
                progress(old(self)@, old(diagnostics)@),
            );
        }
        if let Some(kind) = kind_of_single(c) {
            self.add_token_with_literal(start, start + 1, kind, None);
            self.current = start + 1;
        } else if let Some((alone, paired)) = kinds_with_equal(c) {
            if self.is_at(start + 1, '=') {
                self.add_token_with_literal(start, start + 2, paired, None);
                self.current = start + 2;
            } else {
                self.add_token_with_literal(start, start + 1, alone, None);
                self.current = start + 1;
            }
        } else if c == '/' {
            if self.is_at(start + 1, '/') {
                self.current = self.run(start + 2, Run::Comment);
            } else {
                self.add_token_with_literal(start, start + 1, TokenType::Slash, None);
                self.current = start + 1;
            }
        } else if c == ' ' || c == '\r' || c == '\t' {
            self.current = start + 1;
        } else if c == '\n' {
            self.increment_line();
            self.current = start + 1;
        } else if c == '"' {
            self.string(diagnostics);
        } else if is_digit(c) {
            self.number();
        } else if is_alpha(c) {
            self.indentifier();
        } else {
            let message = join3(
                "Unexpected character -> ",
                self.source.as_str().substring_char(start, start + 1),
                " <-",
            );
            assert(self@.chars.subrange(start as int, start + 1) =~= seq![c]);
            proof {
                reveal_strlit("");
            }
            error(diagnostics, self.line, message.as_str());
            self.current = start + 1;
        }
    }

    fn increment_line(&mut self)
        ensures
            final(self)@ == (ScannerView { line: next_line('\n', old(self)@.line), ..old(self)@ }),
            final(self).wf() == old(self).wf(),
    {
        if self.line < usize::MAX {
            self.line = self.line + 1;
        }
    }

    /// Scans the string whose opening quote stands at the current place.
    fn string(&mut self, diagnostics: &mut Diagnostics)
        requires
            old(self).wf(),
            old(self)@.current < old(self)@.chars.len(),
            old(self)@.chars[old(self)@.current as int] == '"',
        ensures
            final(self).wf(),
            final(self)@.chars == old(self)@.chars,
            (final(self)@.current as int, progress(final(self)@, final(diagnostics)@)) == scan_token(
                old(self)@.chars,
                old(self)@.current as int,
                progress(old(self)@, old(diagnostics)@),
            ),
    {
        let start = self.current;
        let close = self.run(start + 1, Run::Quoted);
        self.line = self.lines(start + 1, close, self.line);
        if close >= self.chars.len() {
            proof {
                reveal_strlit("");
            }
            error(diagnostics, self.line, "Unterminated string.");
            self.current = close;
        } else {
            let value = String::from_str(self.source.as_str().substring_char(start + 1, close));
            self.add_token_with_literal(
                start,
                close + 1,
                TokenType::String,
                Some(LoxType::String(value)),
            );
            self.current = close + 1;
        }
    }

    /// Scans the number whose first digit stands at the current place.
    fn number(&mut self)
        requires
            old(self).wf(),
            old(self)@.current < old(self)@.chars.len(),
        ensures
            final(self).wf(),
            final(self)@ == (ScannerView {
                current: number_end(old(self)@.chars, old(self)@.current as int) as usize,
                tokens: old(self)@.tokens.push(
                    TokenView {
                        token_type: TokenType::Number,
                        lexeme: old(self)@.chars.subrange(
                            old(self)@.current as int,
                            number_end(old(self)@.chars, old(self)@.current as int),
                        ),
                        literal: None,
                        line: old(self)@.line,
                    },
                ),
                ..old(self)@
            }),
    {
        let start = self.current;
        let whole = self.run(start, Run::Digits);
        let end = if self.is_at(whole, '.') && whole + 1 < self.chars.len() && is_digit(
            self.chars[whole + 1],
        ) {
            self.run(whole + 1, Run::Digits)
        } else {
            whole
        };
        self.add_token_with_literal(start, end, TokenType::Number, None);
        self.current = end;
    }

    /// Scans the word whose first character stands at the current place.
    fn indentifier(&mut self)
        requires
            old(self).wf(),
            old(self)@.current < old(self)@.chars.len(),
        ensures
            final(self).wf(),
            final(self)@ == (ScannerView {
                current: run_end(old(self)@.chars, old(self)@.current as int, Run::Word) as usize,
                tokens: old(self)@.tokens.push(
                    TokenView {
                        token_type: word_kind(
                            old(self)@.chars.subrange(
                                old(self)@.current as int,
                                run_end(old(self)@.chars, old(self)@.current as int, Run::Word),
                            ),
                        ),
                        lexeme: old(self)@.chars.subrange(
                            old(self)@.current as int,
                            run_end(old(self)@.chars, old(self)@.current as int, Run::Word),
                        ),
                        literal: None,
                        line: old(self)@.line,
                    },
                ),
                ..old(self)@
            }),
    {
        let start = self.current;
        let end = self.run(start, Run::Word);
        let kind = kind_of_word(self.source.as_str().substring_char(start, end));
        self.add_token_with_literal(start, end, kind, None);
        self.current = end;
    }

    /// Scans the rest of the text and returns all tokens found, with an
    /// end-of-text token behind them, so that a parser can read them. Errors are reported to `diagnostics`
    /// and do not end the scan. The scanner keeps no token afterwards.
    pub fn scan_tokens(&mut self, diagnostics: &mut Diagnostics) -> (tokens: Vec<Token>)
        requires
            old(self).wf(),
        ensures
            final(self).wf(),
            crate::grammar::tokens_wf(tokens@),
            (Progress {
                tokens: token_views(tokens@),
                line: final(self)@.line,
                diagnostics: final(diagnostics)@,
            }) == finished(
                scan_from(
                    old(self)@.chars,
                    old(self)@.current as int,
                    progress(old(self)@, old(diagnostics)@),
                ),
            ),
            final(self)@ == (ScannerView {
                tokens: Seq::empty(),
                current: old(self)@.chars.len() as usize,
                line: final(self)@.line,
                ..old(self)@
            }),
    {
        while self.current < self.chars.len()
            invariant
                self.wf(),
                self@.chars == old(self)@.chars,
                scan_from(
                    old(self)@.chars,
                    old(self)@.current as int,
                    progress(old(self)@, old(diagnostics)@),
                ) == scan_from(self@.chars, self@.current as int, progress(self@, diagnostics@)),
            decreases self.chars.len() - self.current,
        {
            self.scan_token(diagnostics);
        }
        proof {
            reveal_strlit("");
        }
        let end_token = Token::new(TokenType::Eof, String::new(), None, self.line);
        self.tokens.push(end_token);
        let mut tokens = Vec::new();
        std::mem::swap(&mut self.tokens, &mut tokens);
        assert(token_views(tokens@) =~= finished(
            scan_from(
                old(self)@.chars,
                old(self)@.current as int,
                progress(old(self)@, old(diagnostics)@),
            ),
        ).tokens);
        assert(self@.tokens =~= Seq::empty());
        tokens
    }
}

/// A scanner that was just made finds the tokens of its whole text.
pub proof fn lemma_scan_fresh(source: Seq<char>, d: DiagnosticsView)
    ensures
        finished(
            scan_from(
                source,
                0,
                progress(
                    ScannerView { chars: source, tokens: Seq::empty(), current: 0, line: 1 },
                    d,
                ),
            ),
        ) == scan(source, d),
{
}

} // verus!

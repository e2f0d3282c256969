//! The scanner: from source text to tokens.
//!
//! The keywords come from a `phf::Map` that the caller builds. What the
//! map answers is taken on trust, through the wrappers at the head of
//! this file. The value of a number's text is the caller's too: the
//! scanner takes it as a function `number`.

use vstd::prelude::*;
use crate::parser::{carries_value, well_formed};
use crate::token::{Object, ObjectView, Token, TokenType, TokenView, tokens_view};

verus! {

/// `phf::Map`, a map whose table was laid out when the program was built.
#[verifier::external_type_specification]
#[verifier::external_body]
#[verifier::reject_recursive_types(K)]
#[verifier::reject_recursive_types(V)]
pub struct ExPhfMap<K: 'static, V: 'static>(phf::Map<K, V>);

/// What a keyword table answers: the words for which `phf::Map::get`
/// finds an entry, each with the category of that entry.
pub uninterp spec fn keyword_entries(table: phf::Map<&'static str, TokenType>) -> Map<
    Seq<char>,
    TokenType,
>;

/// The number of entries of a keyword table, as `phf::Map::len` gives
/// it.
pub uninterp spec fn keyword_count(table: phf::Map<&'static str, TokenType>) -> nat;

/// The number of displacements of a keyword table: the length of the
/// list by which `phf::Map::get` spreads the words over the entries.
pub uninterp spec fn displacement_count(table: phf::Map<&'static str, TokenType>) -> nat;

/// Whether a count is a multiple of 2^32, zero included: the counts that
/// `phf::Map::get`, which reckons in 32 bits, cannot divide by.
pub open spec fn wraps_to_zero(count: nat) -> bool {
    count % 0x1_0000_0000 == 0
}

/// `phf::Map::len`: the number of entries of the table. `get` picks an
/// entry by a remainder of that number, taken in 32 bits, so with a number
/// that wraps to zero it finds no word.
#[verifier::external_body]
fn table_len(table: &phf::Map<&'static str, TokenType>) -> (n: usize)
    ensures
        n == keyword_count(*table),
        forall|word: Seq<char>|
            wraps_to_zero(n as nat) ==> !(#[trigger] keyword_entries(*table).contains_key(word)),
{
    table.len()
}

/// The length of the table's list of displacements, its field `disps`.
/// `get` answers `None` where the list is empty, and picks a displacement
/// by a remainder of the length, taken in 32 bits, so with a length that
/// wraps to zero it finds no word.
#[verifier::external_body]
fn table_spread(table: &phf::Map<&'static str, TokenType>) -> (n: usize)
    ensures
        n == displacement_count(*table),
        forall|word: Seq<char>|
            wraps_to_zero(n as nat) ==> !(#[trigger] keyword_entries(*table).contains_key(word)),
{
    table.disps.len()
}

/// `phf::Map::get`, with the category copied out: the entry that the
/// table finds for the word, if it finds one. The answer depends on the
/// table and the word alone. `get` divides by the two counts in 32 bits:
/// neither may wrap to zero.
#[verifier::external_body]
fn table_get(table: &phf::Map<&'static str, TokenType>, word: &str) -> (found: Option<TokenType>)
    requires
        !wraps_to_zero(keyword_count(*table)),
        !wraps_to_zero(displacement_count(*table)),
    ensures
        found == (if keyword_entries(*table).contains_key(word@) {
            Some(keyword_entries(*table)[word@])
        } else {
            None
        }),
{
    table.get(word).copied()
}

/// Tells whether a count is a multiple of 2^32.
fn count_wraps(count: usize) -> (r: bool)
    ensures
        r == wraps_to_zero(count as nat),
{
    (count as u64) % 0x1_0000_0000u64 == 0
}

/// The categories that are keywords.
pub open spec fn is_keyword(kind: TokenType) -> bool {
    match kind {
        TokenType::And
        | TokenType::Class
        | TokenType::Else
        | TokenType::False
        | TokenType::Fun
        | TokenType::For
        | TokenType::If
        | TokenType::Nil
        | TokenType::Or
        | TokenType::Print
        | TokenType::Return
        | TokenType::Super
        | TokenType::This
        | TokenType::True
        | TokenType::Var
        | TokenType::While => true,
        _ => false,
    }
}

/// The category of a word: the keyword that the table holds for it, else
/// an identifier. A table entry that is no keyword counts for nothing.
pub open spec fn word_kind(keywords: Map<Seq<char>, TokenType>, word: Seq<char>) -> TokenType {
    if keywords.contains_key(word) && is_keyword(keywords[word]) {
        keywords[word]
    } else {
        TokenType::Identifier
    }
}

/// Tells whether the category is a keyword.
pub fn keyword_kind(kind: TokenType) -> (r: bool)
    ensures
        r == is_keyword(kind),
{
    match kind {
        TokenType::And
        | TokenType::Class
        | TokenType::Else
        | TokenType::False
        | TokenType::Fun
        | TokenType::For
        | TokenType::If
        | TokenType::Nil
        | TokenType::Or
        | TokenType::Print
        | TokenType::Return
        | TokenType::Super
        | TokenType::This
        | TokenType::True
        | TokenType::Var
        | TokenType::While => true,
        _ => false,
    }
}

/// Classifies the word.
pub fn classify(keywords: &phf::Map<&'static str, TokenType>, word: &str) -> (kind: TokenType)
    ensures
        kind == word_kind(keyword_entries(*keywords), word@),
{
    if count_wraps(table_len(keywords)) || count_wraps(table_spread(keywords)) {
        return TokenType::Identifier;
    }
    match table_get(keywords, word) {
        Some(kind) => if keyword_kind(kind) {
            kind
        } else {
            TokenType::Identifier
        },
        None => TokenType::Identifier,
    }
}

/// A character that the scanner could not place, or a string left open:
/// the line and what was wrong.
#[derive(Debug)]
pub struct ScanError {
    pub line: i32,
    pub message: String,
}

/// The mathematical value of a [`ScanError`].
pub struct ScanErrorView {
    pub line: i32,
    pub message: Seq<char>,
}

impl View for ScanError {
    type V = ScanErrorView;

    open spec fn view(&self) -> ScanErrorView {
        ScanErrorView { line: self.line, message: self.message@ }
    }
}

/// The views of a sequence of errors, one for one.
pub open spec fn scan_errors_view(errors: Seq<ScanError>) -> Seq<ScanErrorView> {
    errors.map_values(|e: ScanError| e@)
}

/// A function that gives the value of the text of a number.
pub type NumberFn = spec_fn(Seq<char>) -> u64;

/// `number` accepts every text.
pub open spec fn total_number<N: Fn(String) -> u64>(number: &N) -> bool {
    forall|text: String| #[trigger] number.requires((text,))
}

/// Whatever `number` returns for a text is what `h` says of its
/// characters.
pub open spec fn reads<N: Fn(String) -> u64>(number: &N, h: NumberFn) -> bool {
    forall|text: String, n: u64| #[trigger] number.ensures((text,), n) ==> n == h(text@)
}

/// The character at `pos`; past the text, the null character.
pub open spec fn char_at(source: Seq<char>, pos: nat) -> char {
    if pos < source.len() {
        source[pos as int]
    } else {
        '\0'
    }
}

/// A decimal digit.
pub open spec fn is_digit(c: char) -> bool {
    '0' <= c && c <= '9'
}

/// A letter of the basic Latin alphabet.
pub open spec fn is_alpha(c: char) -> bool {
    ('a' <= c && c <= 'z') || ('A' <= c && c <= 'Z')
}

/// The kinds of character that the scanner reads in runs.
pub enum CharClass {
    /// A decimal digit.
    Digit,
    /// A letter or a digit.
    Alphanumeric,
    /// Anything but the end of the line.
    CommentBody,
    /// Anything but the closing quote.
    StringBody,
}

/// Whether the character belongs to the class.
pub open spec fn accepts(class: CharClass, c: char) -> bool {
    match class {
        CharClass::Digit => is_digit(c),
        CharClass::Alphanumeric => is_digit(c) || is_alpha(c),
        CharClass::CommentBody => c != '\n',
        CharClass::StringBody => c != '"',
    }
}

/// The length of the longest run of characters of the class that begins
/// at `pos`.
pub open spec fn run(source: Seq<char>, pos: nat, class: CharClass) -> nat
    decreases source.len() - pos,
{
    if pos < source.len() && accepts(class, source[pos as int]) {
        1 + run(source, pos + 1, class)
    } else {
        0
    }
}

/// The number of line ends from `from` up to, not including, `to`.
pub open spec fn newlines(source: Seq<char>, from: nat, to: nat) -> nat
    decreases to,
{
    if from < to && to <= source.len() {
        newlines(source, from, (to - 1) as nat) + if source[to - 1] == '\n' {
            1nat
        } else {
            0nat
        }
    } else {
        0
    }
}

/// What the scanner makes of the text at one position: a token, an error
/// or neither; how many characters it read, at least one; and the line on
/// which it then stands.
pub struct Lexed {
    pub token: Option<TokenView>,
    pub error: Option<ScanErrorView>,
    pub used: nat,
    pub line: i32,
}

/// The `used` characters from `pos` on.
pub open spec fn lexeme(source: Seq<char>, pos: nat, used: nat) -> Seq<char> {
    source.subrange(pos as int, (pos + used) as int)
}

/// A token without a value.
pub open spec fn plain(kind: TokenType, source: Seq<char>, pos: nat, used: nat, line: i32)
    -> Lexed {
    Lexed {
        token: Some(
            TokenView { token_type: kind, lexeme: lexeme(source, pos, used), literal: None, line },
        ),
        error: None,
        used,
        line,
    }
}

/// Characters that give no token.
pub open spec fn nothing(used: nat, line: i32) -> Lexed {
    Lexed { token: None, error: None, used, line }
}

/// An operator of one character that `=` may follow to make another.
pub open spec fn one_or_two(
    source: Seq<char>,
    pos: nat,
    line: i32,
    alone: TokenType,
    with_equal: TokenType,
) -> Lexed {
    if char_at(source, pos + 1) == '=' {
        plain(with_equal, source, pos, 2, line)
    } else {
        plain(alone, source, pos, 1, line)
    }
}

/// A string from its opening quote at `pos`: every character up to the
/// next quote, line ends included. Its line is that of the closing quote.
/// Without a closing quote it is an error and runs to the end.
pub open spec fn string_at(source: Seq<char>, pos: nat, line: i32) -> Lexed {
    let body = run(source, pos + 1, CharClass::StringBody);
    let close = pos + 1 + body;
    let last = (line + newlines(source, pos + 1, close)) as i32;
    if close >= source.len() {
        Lexed {
            token: None,
            error: Some(ScanErrorView { line: last, message: "Unterminated string."@ }),
            used: 1 + body,
            line: last,
        }
    } else {
        Lexed {
            token: Some(
                TokenView {
                    token_type: TokenType::String,
                    lexeme: lexeme(source, pos, body + 2),
                    literal: Some(ObjectView::Str(lexeme(source, pos + 1, body))),
                    line: last,
                },
            ),
            error: None,
            used: body + 2,
            line: last,
        }
    }
}

/// The length of the number that begins at `pos`: digits, and then a
/// point and more digits where a digit follows the point.
pub open spec fn number_length(source: Seq<char>, pos: nat) -> nat {
    let whole = 1 + run(source, pos + 1, CharClass::Digit);
    if char_at(source, pos + whole) == '.' && is_digit(char_at(source, pos + whole + 1)) {
        whole + 1 + run(source, pos + whole + 1, CharClass::Digit)
    } else {
        whole
    }
}

/// A number from its first digit at `pos`, with `h` for the value of its
/// text.
pub open spec fn number_at(source: Seq<char>, pos: nat, line: i32, h: NumberFn)
    -> Lexed {
    let used = number_length(source, pos);
    Lexed {
        token: Some(
            TokenView {
                token_type: TokenType::Number,
                lexeme: lexeme(source, pos, used),
                literal: Some(ObjectView::Number(h(lexeme(source, pos, used)))),
                line,
            },
        ),
        error: None,
        used,
        line,
    }
}

/// A word from its first letter at `pos`: letters and digits. It is the
/// keyword that the table holds for it, else an identifier.
pub open spec fn word_at(
    source: Seq<char>,
    pos: nat,
    line: i32,
    keywords: Map<Seq<char>, TokenType>,
) -> Lexed {
    let used = 1 + run(source, pos + 1, CharClass::Alphanumeric);
    plain(word_kind(keywords, lexeme(source, pos, used)), source, pos, used, line)
}

/// The token of a character that is one by itself.
pub open spec fn single(c: char) -> Option<TokenType> {
    if c == '(' {
        Some(TokenType::LeftParen)
    } else if c == ')' {
        Some(TokenType::RightParen)
    } else if c == '{' {
        Some(TokenType::LeftBrace)
    } else if c == '}' {
        Some(TokenType::RightBrace)
    } else if c == ',' {
        Some(TokenType::Comma)
    } else if c == '.' {
        Some(TokenType::Dot)
    } else if c == '-' {
        Some(TokenType::Minus)
    } else if c == '+' {
        Some(TokenType::Plus)
    } else if c == ';' {
        Some(TokenType::Semicolon)
    } else if c == '*' {
        Some(TokenType::Star)
    } else {
        None
    }
}

/// What the scanner makes of the text at `pos`, which is within it.
pub open spec fn lex_at(
    source: Seq<char>,
    pos: nat,
    line: i32,
    keywords: Map<Seq<char>, TokenType>,
    h: NumberFn,
) -> Lexed {
    let c = source[pos as int];
    if single(c) is Some {
        plain(single(c)->0, source, pos, 1, line)
    } else if c == '!' {
        one_or_two(source, pos, line, TokenType::Bang, TokenType::BangEqual)
    } else if c == '=' {
        one_or_two(source, pos, line, TokenType::Equal, TokenType::EqualEqual)
    } else if c == '<' {
        one_or_two(source, pos, line, TokenType::Less, TokenType::LessEqual)
    } else if c == '>' {
        one_or_two(source, pos, line, TokenType::Greater, TokenType::GreaterEqual)
    } else if c == '/' {
        if char_at(source, pos + 1) == '/' {
            nothing(2 + run(source, pos + 2, CharClass::CommentBody), line)
        } else {
            plain(TokenType::Slash, source, pos, 1, line)
        }
    } else if c == '"' {
        string_at(source, pos, line)
    } else if c == ' ' || c == '\r' || c == '\t' {
        nothing(1, line)
    } else if c == '\n' {
        nothing(1, (line + 1) as i32)
    } else if is_digit(c) {
        number_at(source, pos, line, h)
    } else if is_alpha(c) {
        word_at(source, pos, line, keywords)
    } else {
        Lexed {
            token: None,
            error: Some(ScanErrorView { line, message: "Unexpected character."@ }),
            used: 1,
            line,
        }
    }
}

/// The tokens and the errors of a text, each in the order of the text.
pub struct Scanned {
    pub tokens: Seq<TokenView>,
    pub errors: Seq<ScanErrorView>,
}

/// The one item of an option, or none.
pub open spec fn items<T>(o: Option<T>) -> Seq<T> {
    match o {
        Some(x) => seq![x],
        None => Seq::empty(),
    }
}

/// The end marker on the given line.
pub open spec fn end_marker(line: i32) -> TokenView {
    TokenView { token_type: TokenType::Eof, lexeme: ""@, literal: None, line }
}

/// How many characters stand at or after `pos`.
pub open spec fn left(source: Seq<char>, pos: nat) -> nat {
    if pos < source.len() {
        (source.len() - pos) as nat
    } else {
        0
    }
}

/// What the scanner makes of the text from `pos` on, standing on `line`:
/// token after token, and the end marker last.
pub open spec fn scan_from(
    source: Seq<char>,
    pos: nat,
    line: i32,
    keywords: Map<Seq<char>, TokenType>,
    h: NumberFn,
) -> Scanned
    decreases left(source, pos),
{
    if pos >= source.len() {
        Scanned { tokens: seq![end_marker(line)], errors: Seq::empty() }
    } else {
        let first = lex_at(source, pos, line, keywords, h);
        let rest = scan_from(source, pos + first.used, first.line, keywords, h);
        Scanned {
            tokens: items(first.token) + rest.tokens,
            errors: items(first.error) + rest.errors,
        }
    }
}

/// What the scanner makes of a text. Lines count from 1.
pub open spec fn scan(
    source: Seq<char>,
    keywords: Map<Seq<char>, TokenType>,
    h: NumberFn,
) -> Scanned {
    scan_from(source, 0, 1, keywords, h)
}

/// A run is as long as it can be: every character of it belongs to the
/// class, and the character behind it, if there is one, does not.
pub proof fn run_is_longest(source: Seq<char>, pos: nat, class: CharClass)
    ensures
        pos + run(source, pos, class) <= source.len() || run(source, pos, class) == 0,
        forall|i: nat|
            pos <= i < pos + run(source, pos, class) ==> accepts(class, #[trigger] source[i as int]),
        pos + run(source, pos, class) < source.len() ==> !accepts(
            class,
            source[(pos + run(source, pos, class)) as int],
        ),
    decreases left(source, pos),
{
    if pos < source.len() && accepts(class, source[pos as int]) {
        run_is_longest(source, pos + 1, class);
    }
}

/// What the scanner makes of a text ends with the end marker, and holds
/// no other.
pub proof fn scan_ends_with_the_end_marker(
    source: Seq<char>,
    pos: nat,
    line: i32,
    keywords: Map<Seq<char>, TokenType>,
    h: NumberFn,
)
    ensures
        scan_from(source, pos, line, keywords, h).tokens.len() > 0,
        scan_from(source, pos, line, keywords, h).tokens.last().token_type == TokenType::Eof,
        forall|i: int|
            0 <= i < scan_from(source, pos, line, keywords, h).tokens.len() - 1 ==> (
            #[trigger] scan_from(source, pos, line, keywords, h).tokens[i]).token_type
                != TokenType::Eof,
    decreases left(source, pos),
{
    if pos < source.len() {
        let first = lex_at(source, pos, line, keywords, h);
        scan_ends_with_the_end_marker(source, pos + first.used, first.line, keywords, h);
    }
}

/// The token without the value of its number, if it has one.
pub open spec fn unvalued(token: TokenView) -> TokenView {
    match token.literal {
        Some(ObjectView::Number(_)) => TokenView {
            literal: Some(ObjectView::Number(0)),
            ..token
        },
        _ => token,
    }
}

/// The tokens without the values of their numbers: what is settled of a
/// scan before any number is read.
pub open spec fn outline(tokens: Seq<TokenView>) -> Seq<TokenView> {
    tokens.map_values(|token: TokenView| unvalued(token))
}

/// The tokens and the errors that a scan gave.
#[derive(Debug)]
pub struct Scan {
    pub tokens: Vec<Token>,
    pub errors: Vec<ScanError>,
}

fn is_digit_char(c: char) -> (r: bool)
    ensures
        r == is_digit(c),
{
    c >= '0' && c <= '9'
}

fn is_alpha_char(c: char) -> (r: bool)
    ensures
        r == is_alpha(c),
{
    (c >= 'a' && c <= 'z') || (c >= 'A' && c <= 'Z')
}

/// A scanner over one text: the tokens and errors found so far, where the
/// token being read began, the next character to read, and the line.
pub struct Scanner<'a> {
    source: &'a String,
    keywords: &'a phf::Map<&'static str, TokenType>,
    tokens: Vec<Token>,
    errors: Vec<ScanError>,
    start: usize,
    current: usize,
    line: i32,
    length: usize,
}

impl<'a> Scanner<'a> {
    /// The text.
    pub closed spec fn text(&self) -> Seq<char> {
        self.source@
    }

    /// The keywords.
    pub closed spec fn table(&self) -> Map<Seq<char>, TokenType> {
        keyword_entries(*self.keywords)
    }

    /// The scanner stands before the first character of a text whose
    /// lines can be counted.
    pub closed spec fn fresh(&self) -> bool {
        &&& self.wf()
        &&& self.tokens@.len() == 0
        &&& self.errors@.len() == 0
        &&& self.current == 0
        &&& self.line == 1
    }

    spec fn wf(&self) -> bool {
        &&& self.length == self.source@.len()
        &&& self.length < i32::MAX
        &&& self.start <= self.current <= self.length
        &&& 1 <= self.line <= 1 + self.current
        &&& forall|i: int|
            0 <= i < self.tokens@.len() ==> carries_value(#[trigger] tokens_view(self.tokens@)[i])
    }

    /// Only the tokens, the errors, the position and the line differ.
    spec fn frame(&self, before: &Self) -> bool {
        &&& self.source == before.source
        &&& self.keywords == before.keywords
        &&& self.length == before.length
        &&& self.start == before.start
    }

    /// Since it held `tokens` and `errors` and stood at `pos`, the scanner
    /// has done what `lex` says.
    spec fn emitted(
        &self,
        tokens: Seq<TokenView>,
        errors: Seq<ScanErrorView>,
        pos: nat,
        lex: Lexed,
    ) -> bool {
        &&& tokens_view(self.tokens@) == match lex.token {
            Some(token) => tokens.push(token),
            None => tokens,
        }
        &&& scan_errors_view(self.errors@) == match lex.error {
            Some(error) => errors.push(error),
            None => errors,
        }
        &&& self.current == pos + lex.used
        &&& self.line == lex.line
    }

    /// The same, up to the values of numbers.
    spec fn emitted_outline(
        &self,
        tokens: Seq<TokenView>,
        errors: Seq<ScanErrorView>,
        pos: nat,
        lex: Lexed,
    ) -> bool {
        &&& outline(tokens_view(self.tokens@)) == match lex.token {
            Some(token) => outline(tokens).push(unvalued(token)),
            None => outline(tokens),
        }
        &&& scan_errors_view(self.errors@) == match lex.error {
            Some(error) => errors.push(error),
            None => errors,
        }
        &&& self.current == pos + lex.used
        &&& self.line == lex.line
    }

    proof fn emitted_gives_outline(
        &self,
        tokens: Seq<TokenView>,
        errors: Seq<ScanErrorView>,
        pos: nat,
        lex: Lexed,
    )
        requires
            self.emitted(tokens, errors, pos, lex),
        ensures
            self.emitted_outline(tokens, errors, pos, lex),
    {
        if let Some(token) = lex.token {
            assert(outline(tokens.push(token)) =~= outline(tokens).push(unvalued(token)));
        }
    }

    /// A scanner before the first character of the text. It is fit to
    /// scan where the text is short enough for its lines to be counted.
    pub fn new(source: &'a String, keywords: &'a phf::Map<&'static str, TokenType>) -> (scanner:
        Scanner<'a>)
        ensures
            scanner.text() == source@,
            scanner.table() == keyword_entries(*keywords),
            source@.len() < i32::MAX ==> scanner.fresh(),
    {
        Scanner {
            source,
            keywords,
            tokens: Vec::new(),
            errors: Vec::new(),
            start: 0,
            current: 0,
            line: 1,
            length: source.as_str().unicode_len(),
        }
    }

    fn is_at_end(&self) -> (r: bool)
        requires
            self.wf(),
        ensures
            r == (self.current >= self.length),
    {
        self.current >= self.length
    }

    /// Scans the text to its end. `number` gives the value of a number's
    /// text.
    ///
    /// What is settled before any number is read is stated for every
    /// `number`: the tokens meet the token contract, and they and the
    /// errors are those of the text, up to the values of numbers. The
    /// values are stated for a `number` that computes a function.
    pub fn scan_tokens<N>(self, number: &N) -> (found: Scan) where N: Fn(String) -> u64
        requires
            self.fresh(),
            total_number(number),
        ensures
            well_formed(tokens_view(found.tokens@)),
            forall|h: NumberFn| #[trigger]
                reads(number, h) ==> (Scanned {
                    tokens: tokens_view(found.tokens@),
                    errors: scan_errors_view(found.errors@),
                }) == scan(self.text(), self.table(), h),
            forall|h: NumberFn|
                #![trigger scan(self.text(), self.table(), h)]
                outline(tokens_view(found.tokens@)) == outline(
                    scan(self.text(), self.table(), h).tokens,
                ) && scan_errors_view(found.errors@) == scan(self.text(), self.table(), h).errors,
    {
        let mut this = self;
        let ghost source = this.source@;
        let ghost table = keyword_entries(*this.keywords);
        while !this.is_at_end()
            invariant
                this.wf(),
                total_number(number),
                source == this.source@,
                table == keyword_entries(*this.keywords),
                forall|h: NumberFn| #[trigger]
                    reads(number, h) ==> scan(source, table, h) == (Scanned {
                        tokens: tokens_view(this.tokens@) + scan_from(
                            source,
                            this.current as nat,
                            this.line,
                            table,
                            h,
                        ).tokens,
                        errors: scan_errors_view(this.errors@) + scan_from(
                            source,
                            this.current as nat,
                            this.line,
                            table,
                            h,
                        ).errors,
                    }),
                forall|h: NumberFn|
                    #![trigger scan(source, table, h)]
                    outline(scan(source, table, h).tokens) == outline(tokens_view(this.tokens@))
                        + outline(
                        scan_from(source, this.current as nat, this.line, table, h).tokens,
                    ) && scan(source, table, h).errors == scan_errors_view(this.errors@)
                        + scan_from(source, this.current as nat, this.line, table, h).errors,
            decreases this.length - this.current,
        {
            this.start = this.current;
            let ghost tokens = tokens_view(this.tokens@);
            let ghost errors = scan_errors_view(this.errors@);
            let ghost pos = this.current as nat;
            let ghost line = this.line;
            this.scan_token(number);
            proof {
                assert forall|h: NumberFn| #[trigger]
                    reads(number, h) implies scan(source, table, h) == (Scanned {
                    tokens: tokens_view(this.tokens@) + scan_from(
                        source,
                        this.current as nat,
                        this.line,
                        table,
                        h,
                    ).tokens,
                    errors: scan_errors_view(this.errors@) + scan_from(
                        source,
                        this.current as nat,
                        this.line,
                        table,
                        h,
                    ).errors,
                }) by {
                    let lex = lex_at(source, pos, line, table, h);
                    let rest = scan_from(source, pos + lex.used, lex.line, table, h);
                    assert(tokens_view(this.tokens@) + rest.tokens =~= tokens + (items(lex.token)
                        + rest.tokens));
                    assert(scan_errors_view(this.errors@) + rest.errors =~= errors + (items(
                        lex.error,
                    ) + rest.errors));
                }
                assert forall|h: NumberFn|
                    #![trigger scan(source, table, h)]
                    outline(scan(source, table, h).tokens) == outline(tokens_view(this.tokens@))
                        + outline(
                        scan_from(source, this.current as nat, this.line, table, h).tokens,
                    ) && scan(source, table, h).errors == scan_errors_view(this.errors@)
                        + scan_from(source, this.current as nat, this.line, table, h).errors by {
                    let lex = lex_at(source, pos, line, table, h);
                    let rest = scan_from(source, pos + lex.used, lex.line, table, h);
                    assert(this.emitted_outline(tokens, errors, pos, lex));
                    assert(outline(items(lex.token) + rest.tokens) =~= outline(items(lex.token))
                        + outline(rest.tokens));
                    assert(outline(tokens_view(this.tokens@)) + outline(rest.tokens) =~= outline(
                        tokens,
                    ) + (outline(items(lex.token)) + outline(rest.tokens)));
                    assert(scan_errors_view(this.errors@) + rest.errors =~= errors + (items(
                        lex.error,
                    ) + rest.errors));
                }
            }
        }
        let ghost tokens = tokens_view(this.tokens@);
        this.tokens.push(
            Token {
                token_type: TokenType::Eof,
                lexeme: "".to_owned(),
                literal: None,
                line: this.line,
            },
        );
        proof {
            assert(tokens_view(this.tokens@) =~= tokens.push(end_marker(this.line)));
            assert forall|h: NumberFn| #[trigger]
                reads(number, h) implies tokens_view(this.tokens@) == scan(
                source,
                table,
                h,
            ).tokens by {
                assert(tokens.push(end_marker(this.line)) =~= tokens + seq![end_marker(this.line)]);
            }
            assert forall|h: NumberFn| #[trigger]
                reads(number, h) implies scan_errors_view(this.errors@) == scan(
                source,
                table,
                h,
            ).errors by {
                assert(scan_errors_view(this.errors@) + Seq::<ScanErrorView>::empty()
                    =~= scan_errors_view(this.errors@));
            }
            assert forall|h: NumberFn|
                #![trigger scan(source, table, h)]
                outline(tokens_view(this.tokens@)) == outline(scan(source, table, h).tokens)
                    && scan_errors_view(this.errors@) == scan(source, table, h).errors by {
                assert(outline(tokens.push(end_marker(this.line))) =~= outline(tokens) + outline(
                    seq![end_marker(this.line)],
                ));
                assert(scan_errors_view(this.errors@) + Seq::<ScanErrorView>::empty()
                    =~= scan_errors_view(this.errors@));
            }
        }
        Scan { tokens: this.tokens, errors: this.errors }
    }

    fn scan_token<N>(&mut self, number: &N) where N: Fn(String) -> u64
        requires
            old(self).wf(),
            old(self).start == old(self).current,
            old(self).current < old(self).length,
            total_number(number),
        ensures
            final(self).wf(),
            final(self).frame(old(self)),
            final(self).current > old(self).current,
            forall|h: NumberFn| #[trigger]
                reads(number, h) ==> final(self).emitted(
                    tokens_view(old(self).tokens@),
                    scan_errors_view(old(self).errors@),
                    old(self).current as nat,
                    lex_at(
                        old(self).source@,
                        old(self).current as nat,
                        old(self).line,
                        keyword_entries(*old(self).keywords),
                        h,
                    ),
                ),
            forall|h: NumberFn|
                final(self).emitted_outline(
                    tokens_view(old(self).tokens@),
                    scan_errors_view(old(self).errors@),
                    old(self).current as nat,
                    #[trigger] lex_at(
                        old(self).source@,
                        old(self).current as nat,
                        old(self).line,
                        keyword_entries(*old(self).keywords),
                        h,
                    ),
                ),
    {
        let c = self.advance();
        if c == '(' {
            self.add_token(TokenType::LeftParen, None)
        } else if c == ')' {
            self.add_token(TokenType::RightParen, None)
        } else if c == '{' {
            self.add_token(TokenType::LeftBrace, None)
        } else if c == '}' {
            self.add_token(TokenType::RightBrace, None)
        } else if c == ',' {
            self.add_token(TokenType::Comma, None)
        } else if c == '.' {
            self.add_token(TokenType::Dot, None)
        } else if c == '-' {
            self.add_token(TokenType::Minus, None)
        } else if c == '+' {
            self.add_token(TokenType::Plus, None)
        } else if c == ';' {
            self.add_token(TokenType::Semicolon, None)
        } else if c == '*' {
            self.add_token(TokenType::Star, None)
        } else if c == '!' {
            let token_type = if self.match_next('=') {
                TokenType::BangEqual
            } else {
                TokenType::Bang
            };
            self.add_token(token_type, None)
        } else if c == '=' {
            let token_type = if self.match_next('=') {
                TokenType::EqualEqual
            } else {
                TokenType::Equal
            };
            self.add_token(token_type, None)
        } else if c == '<' {
            let token_type = if self.match_next('=') {
                TokenType::LessEqual
            } else {
                TokenType::Less
            };
            self.add_token(token_type, None)
        } else if c == '>' {
            let token_type = if self.match_next('=') {
                TokenType::GreaterEqual
            } else {
                TokenType::Greater
            };
            self.add_token(token_type, None)
        } else if c == '/' {
            if self.match_next('/') {
                while self.peek() != '\n' && !self.is_at_end()
                    invariant
                        self.wf(),
                        *self == (Scanner { current: self.current, ..*old(self) }),
                        self.current >= old(self).current + 2,
                        run(
                            self.source@,
                            (old(self).current + 2) as nat,
                            CharClass::CommentBody,
                        ) == (self.current - old(self).current - 2) + run(
                            self.source@,
                            self.current as nat,
                            CharClass::CommentBody,
                        ),
                    decreases self.length - self.current,
                {
                    self.advance();
                }
            } else {
                self.add_token(TokenType::Slash, None)
            }
        } else if c == '"' {
            self.string()
        } else if c == ' ' || c == '\r' || c == '\t' {
        } else if c == '\n' {
            self.line += 1
        } else if is_digit_char(c) {
            self.number(number)
        } else if is_alpha_char(c) {
            self.identifier()
        } else {
            self.report("Unexpected character.".to_owned())
        }
        proof {
            let tokens = tokens_view(old(self).tokens@);
            let errors = scan_errors_view(old(self).errors@);
            let pos = old(self).current as nat;
            assert forall|h: NumberFn|
                self.emitted_outline(
                    tokens,
                    errors,
                    pos,
                    #[trigger] lex_at(
                        old(self).source@,
                        pos,
                        old(self).line,
                        keyword_entries(*old(self).keywords),
                        h,
                    ),
                ) by {
                let lex = lex_at(
                    old(self).source@,
                    pos,
                    old(self).line,
                    keyword_entries(*old(self).keywords),
                    h,
                );
                if is_digit(c) {
                    assert(lex == number_at(old(self).source@, pos, old(self).line, h));
                } else {
                    assert(self.emitted(tokens, errors, pos, lex));
                    self.emitted_gives_outline(tokens, errors, pos, lex);
                }
            }
        }
    }

    /// Notes an error on the current line.
    fn report(&mut self, message: String)
        requires
            old(self).wf(),
        ensures
            final(self).wf(),
            *final(self) == (Scanner { errors: final(self).errors, ..*old(self) }),
            scan_errors_view(final(self).errors@) == scan_errors_view(old(self).errors@).push(
                ScanErrorView { line: old(self).line, message: message@ },
            ),
    {
        let ghost before = scan_errors_view(self.errors@);
        let error = ScanError { line: self.line, message };
        self.errors.push(error);
        assert(scan_errors_view(self.errors@) =~= before.push(error@));
    }

    fn advance(&mut self) -> (c: char)
        requires
            old(self).length == old(self).source@.len(),
            old(self).current < old(self).length,
        ensures
            c == old(self).source@[old(self).current as int],
            *final(self) == (Scanner { current: (old(self).current + 1) as usize, ..*old(self) }),
    {
        let c = self.source.as_str().get_char(self.current);
        self.current += 1;
        c
    }

    fn match_next(&mut self, expected: char) -> (r: bool)
        requires
            old(self).wf(),
        ensures
            r == (old(self).current < old(self).length && old(self).source@[old(
                self,
            ).current as int] == expected),
            *final(self) == (Scanner {
                current: if r {
                    (old(self).current + 1) as usize
                } else {
                    old(self).current
                },
                ..*old(self)
            }),
    {
        if self.is_at_end() {
            return false;
        }
        let c = self.source.as_str().get_char(self.current);
        if c != expected {
            false
        } else {
            self.current += 1;
            true
        }
    }

    fn peek(&self) -> (c: char)
        requires
            self.wf(),
        ensures
            c == char_at(self.source@, self.current as nat),
    {
        if self.is_at_end() {
            '\0'
        } else {
            self.source.as_str().get_char(self.current)
        }
    }

    fn peek_next(&self) -> (c: char)
        requires
            self.wf(),
        ensures
            c == char_at(self.source@, (self.current + 1) as nat),
    {
        if self.current + 1 >= self.length {
            '\0'
        } else {
            self.source.as_str().get_char(self.current + 1)
        }
    }

    fn string(&mut self)
        requires
            old(self).wf(),
            old(self).current == old(self).start + 1,
        ensures
            final(self).wf(),
            final(self).frame(old(self)),
            final(self).current >= old(self).current,
            final(self).emitted(
                tokens_view(old(self).tokens@),
                scan_errors_view(old(self).errors@),
                old(self).start as nat,
                string_at(old(self).source@, old(self).start as nat, old(self).line),
            ),
    {
        while self.peek() != '"' && !self.is_at_end()
            invariant
                self.current > self.start,
                self.length == self.source@.len(),
                self.length < i32::MAX,
                self.current <= self.length,
                old(self).wf(),
                old(self).current == old(self).start + 1,
                *self == (Scanner { current: self.current, line: self.line, ..*old(self) }),
                run(self.source@, (self.start + 1) as nat, CharClass::StringBody) == (self.current
                    - self.start - 1) + run(
                    self.source@,
                    self.current as nat,
                    CharClass::StringBody,
                ),
                self.line == old(self).line + newlines(
                    self.source@,
                    (self.start + 1) as nat,
                    self.current as nat,
                ),
                self.line <= old(self).line + (self.current - old(self).current),
            decreases self.length - self.current,
        {
            if self.peek() == '\n' {
                self.line += 1
            }
            self.advance();
        }

        if self.is_at_end() {
            self.report("Unterminated string.".to_owned());
            return ;
        }
        self.advance();
        let value: String = self.source.as_str().substring_char(
            self.start + 1,
            self.current - 1,
        ).to_owned();
        self.add_token(TokenType::String, Some(Object::Str(value)));
    }

    fn number<N>(&mut self, number: &N) where N: Fn(String) -> u64
        requires
            old(self).wf(),
            old(self).current == old(self).start + 1,
            total_number(number),
        ensures
            final(self).wf(),
            final(self).frame(old(self)),
            final(self).current >= old(self).current,
            forall|h: NumberFn| #[trigger]
                reads(number, h) ==> final(self).emitted(
                    tokens_view(old(self).tokens@),
                    scan_errors_view(old(self).errors@),
                    old(self).start as nat,
                    number_at(old(self).source@, old(self).start as nat, old(self).line, h),
                ),
            forall|h: NumberFn|
                final(self).emitted_outline(
                    tokens_view(old(self).tokens@),
                    scan_errors_view(old(self).errors@),
                    old(self).start as nat,
                    #[trigger] number_at(
                        old(self).source@,
                        old(self).start as nat,
                        old(self).line,
                        h,
                    ),
                ),
    {
        while is_digit_char(self.peek())
            invariant
                self.wf(),
                self.current > self.start,
                *self == (Scanner { current: self.current, ..*old(self) }),
                run(self.source@, (self.start + 1) as nat, CharClass::Digit) == (self.current
                    - self.start - 1) + run(self.source@, self.current as nat, CharClass::Digit),
            decreases self.length - self.current,
        {
            self.advance();
        }
        if self.peek() == '.' && is_digit_char(self.peek_next()) {
            let ghost point = self.current as nat;
            self.advance();

            while is_digit_char(self.peek())
                invariant
                    self.wf(),
                    self.current > point,
                    *self == (Scanner { current: self.current, ..*old(self) }),
                    run(self.source@, point + 1, CharClass::Digit) == (self.current - point - 1)
                        + run(self.source@, self.current as nat, CharClass::Digit),
                decreases self.length - self.current,
            {
                self.advance();
            }
        }
        let value: String = self.source.as_str().substring_char(
            self.start,
            self.current,
        ).to_owned();
        let bits = number(value);
        self.add_token(TokenType::Number, Some(Object::Number(bits)));
        proof {
            let before = tokens_view(old(self).tokens@);
            let made = tokens_view(self.tokens@).last();
            assert(tokens_view(self.tokens@) == before.push(made));
            assert(outline(before.push(made)) =~= outline(before).push(unvalued(made)));
        }
    }

    fn identifier(&mut self)
        requires
            old(self).wf(),
            old(self).current == old(self).start + 1,
        ensures
            final(self).wf(),
            final(self).frame(old(self)),
            final(self).current >= old(self).current,
            final(self).emitted(
                tokens_view(old(self).tokens@),
                scan_errors_view(old(self).errors@),
                old(self).start as nat,
                word_at(
                    old(self).source@,
                    old(self).start as nat,
                    old(self).line,
                    keyword_entries(*old(self).keywords),
                ),
            ),
    {
        while is_digit_char(self.peek()) || is_alpha_char(self.peek())
            invariant
                self.wf(),
                self.current > self.start,
                *self == (Scanner { current: self.current, ..*old(self) }),
                run(self.source@, (self.start + 1) as nat, CharClass::Alphanumeric) == (
                self.current - self.start - 1) + run(
                    self.source@,
                    self.current as nat,
                    CharClass::Alphanumeric,
                ),
            decreases self.length - self.current,
        {
            self.advance();
        }

        let text: String = self.source.as_str().substring_char(self.start, self.current).to_owned();
        let token_type = classify(self.keywords, text.as_str());
        self.add_token(token_type, None)
    }

    /// Adds the token that the characters since `start` make.
    fn add_token(&mut self, token_type: TokenType, literal: Option<Object>)
        requires
            old(self).wf(),
            token_type == TokenType::Number || token_type == TokenType::String
                ==> literal is Some,
        ensures
            final(self).wf(),
            *final(self) == (Scanner { tokens: final(self).tokens, ..*old(self) }),
            tokens_view(final(self).tokens@) == tokens_view(old(self).tokens@).push(
                TokenView {
                    token_type,
                    lexeme: lexeme(
                        old(self).source@,
                        old(self).start as nat,
                        (old(self).current - old(self).start) as nat,
                    ),
                    literal: crate::token::literal_view(literal),
                    line: old(self).line,
                },
            ),
    {
        let ghost before = tokens_view(self.tokens@);
        let text: String = self.source.as_str().substring_char(self.start, self.current).to_owned();
        let token = Token { token_type, lexeme: text, literal, line: self.line };
        self.tokens.push(token);
        assert(tokens_view(self.tokens@) =~= before.push(token@));
    }
}

} // verus!

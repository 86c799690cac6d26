use vstd::prelude::*;

use crate::errors::{Error, ErrorKind, Failure};

verus! {

/// The category of a token.
#[derive(Debug, Clone, Copy, PartialEq, Eq, Structural)]
pub enum TokenType {
    // built in functions
    Exit,
    PutChar,
    AssignEq,
    // math
    Plus,
    Minus,
    Star,
    ForwardsSlash,
    ParenOpen,
    ParenClose,
    BraceOpen,
    BraceClose,
    // types
    IntType,
    IntegerLit,
    Function,
    Identifier,
    Semicolon,
    NoToken,
}

/// A token: its category, its literal text and the line it stands on.
#[derive(Debug, Clone)]
pub struct Token {
    pub token: TokenType,
    pub info: String,
    pub line: usize,
}

/// The mathematical value of a token.
pub struct TokenSpec {
    pub kind: TokenType,
    pub text: Seq<char>,
    pub line: int,
}

impl View for Token {
    type V = TokenSpec;

    open spec fn view(&self) -> TokenSpec {
        TokenSpec { kind: self.token, text: self.info@, line: self.line as int }
    }
}

impl PartialEq for Token {
    fn eq(&self, other: &Token) -> (r: bool) {
        self.token == other.token && self.info == other.info && self.line == other.line
    }
}

impl vstd::std_specs::cmp::PartialEqSpecImpl for Token {
    open spec fn obeys_eq_spec() -> bool {
        true
    }

    /// Two tokens are equal when category, text and line are.
    open spec fn eq_spec(&self, other: &Token) -> bool {
        self.token == other.token && self.info@ == other.info@ && self.line == other.line
    }
}

impl Token {
    /// A copy of the token, equal to it.
    pub fn cloned(&self) -> (r: Token)
        ensures
            r == *self,
    {
        Token { token: self.token, info: self.info.clone(), line: self.line }
    }
}

/// Whether a character has the Unicode `Alphabetic` property.
pub uninterp spec fn alphabetic(c: char) -> bool;

/// Whether a character is in one of the Unicode numeric categories.
pub uninterp spec fn numeric(c: char) -> bool;

/// Whether a character has the Unicode `White_Space` property: tab, line
/// feed, vertical tab, form feed, carriage return, space, next line, no-break
/// space, ogham space mark, the spaces from en quad to hair space, line and
/// paragraph separators, narrow no-break space, medium mathematical space and
/// ideographic space.
pub open spec fn whitespace(c: char) -> bool {
    ('\u{9}' <= c && c <= '\u{d}') || c == ' ' || c == '\u{85}' || c == '\u{a0}' || c
        == '\u{1680}' || ('\u{2000}' <= c && c <= '\u{200a}') || c == '\u{2028}' || c
        == '\u{2029}' || c == '\u{202f}' || c == '\u{205f}' || c == '\u{3000}'
}

/// Relies on `char::is_alphabetic`, which depends on the character alone.
#[verifier::external_body]
fn is_alphabetic(c: char) -> (r: bool)
    ensures
        r == alphabetic(c),
{
    c.is_alphabetic()
}

/// Relies on `char::is_numeric`, which depends on the character alone.
#[verifier::external_body]
fn is_numeric(c: char) -> (r: bool)
    ensures
        r == numeric(c),
{
    c.is_numeric()
}

/// Whether a character is whitespace, as `char::is_whitespace` has it.
pub fn is_whitespace(c: char) -> (r: bool)
    ensures
        r == whitespace(c),
{
    ('\u{9}' <= c && c <= '\u{d}') || c == ' ' || c == '\u{85}' || c == '\u{a0}' || c
        == '\u{1680}' || ('\u{2000}' <= c && c <= '\u{200a}') || c == '\u{2028}' || c
        == '\u{2029}' || c == '\u{202f}' || c == '\u{205f}' || c == '\u{3000}'
}

/// Relies on `String::push`: appends one character to the string.
#[verifier::external_body]
pub(crate) fn push_char(s: &mut String, c: char)
    ensures
        final(s)@ == old(s)@.push(c),
{
    s.push(c)
}

/// Whether `c` extends a word that began with `first`, given whether each
/// of the two is alphabetic and whether it is numeric: a word that begins
/// with a letter runs on over letters, digits, `_` and `-`; one that begins
/// with a digit runs on over digits; any other runs on over repetitions of
/// its first character.
pub open spec fn extends_word(
    first: char,
    first_alpha: bool,
    first_num: bool,
    c: char,
    c_alpha: bool,
    c_num: bool,
) -> bool {
    if first_alpha {
        c_alpha || c_num || c == '_' || c == '-'
    } else if first_num {
        c_num
    } else {
        c == first
    }
}

/// Whether `c` extends a word that began with `first`.
pub open spec fn continues_word(first: char, c: char) -> bool {
    extends_word(first, alphabetic(first), numeric(first), c, alphabetic(c), numeric(c))
}

/// The end of the word that began with `first` and goes on at `j`.
pub open spec fn word_end(src: Seq<char>, first: char, j: int) -> int
    decreases src.len() - j,
{
    if 0 <= j < src.len() && continues_word(first, src[j]) {
        word_end(src, first, j + 1)
    } else {
        j
    }
}

/// The index of the first newline at or after `j`, or the end of the text.
pub open spec fn line_end(src: Seq<char>, j: int) -> int
    decreases src.len() - j,
{
    if 0 <= j < src.len() && src[j] != '\n' {
        line_end(src, j + 1)
    } else {
        j
    }
}

/// The first index at or after `i` that holds no whitespace, or the end of
/// the text.
pub open spec fn ws_end(src: Seq<char>, i: int) -> int
    decreases src.len() - i,
{
    if 0 <= i < src.len() && whitespace(src[i]) {
        ws_end(src, i + 1)
    } else {
        i
    }
}

/// The number of newlines in `src[i..j]`.
pub open spec fn newlines(src: Seq<char>, i: int, j: int) -> int
    decreases j - i,
{
    if i < j {
        newlines(src, i, j - 1) + if src[j - 1] == '\n' {
            1int
        } else {
            0int
        }
    } else {
        0
    }
}

/// Whether a line comment starts at `i`.
pub open spec fn comment_at(src: Seq<char>, i: int) -> bool {
    0 <= i && i + 1 < src.len() && src[i] == '/' && src[i + 1] == '/'
}

/// The category of a keyword or punctuation word; `NoToken` for any other.
pub open spec fn fixed_kind(w: Seq<char>) -> TokenType {
    if w == ";"@ {
        TokenType::Semicolon
    } else if w == "("@ {
        TokenType::ParenOpen
    } else if w == ")"@ {
        TokenType::ParenClose
    } else if w == "{"@ {
        TokenType::BraceOpen
    } else if w == "}"@ {
        TokenType::BraceClose
    } else if w == "="@ {
        TokenType::AssignEq
    } else if w == "+"@ {
        TokenType::Plus
    } else if w == "-"@ {
        TokenType::Minus
    } else if w == "*"@ {
        TokenType::Star
    } else if w == "/"@ {
        TokenType::ForwardsSlash
    } else if w == "exit"@ {
        TokenType::Exit
    } else if w == "putchar"@ {
        TokenType::PutChar
    } else if w == "int"@ {
        TokenType::IntType
    } else if w == "fn"@ {
        TokenType::Function
    } else {
        TokenType::NoToken
    }
}

/// The category of a word, given whether its first character is numeric
/// and whether it is alphabetic; `NoToken` when it has none.
pub open spec fn category(w: Seq<char>, first_num: bool, first_alpha: bool) -> TokenType {
    if fixed_kind(w) != TokenType::NoToken {
        fixed_kind(w)
    } else if first_num {
        TokenType::IntegerLit
    } else if first_alpha {
        TokenType::Identifier
    } else {
        TokenType::NoToken
    }
}

/// The category of a non-empty word; `NoToken` when it has none.
pub open spec fn word_kind(w: Seq<char>) -> TokenType {
    category(w, numeric(w[0]), alphabetic(w[0]))
}

/// The error for a word that is no token.
pub open spec fn lex_failure(line: int, w: Seq<char>) -> Failure {
    Failure { line, msg: "Could not tokenise "@ + w, kind: ErrorKind::Lex }
}

/// Puts `pre` before the tokens of a successful result.
pub open spec fn prepend(pre: Seq<TokenSpec>, r: Result<Seq<TokenSpec>, Failure>) -> Result<
    Seq<TokenSpec>,
    Failure,
> {
    match r {
        Ok(rest) => Ok(pre + rest),
        Err(f) => Err(f),
    }
}

/// The tokens of `src` from index `i` on, reading from line `line`: whitespace
/// is skipped (each newline starts a new line), a `//` comment runs to the end
/// of its line, and each maximal word becomes one token, or the first word
/// that has no category fails the whole.
pub open spec fn lex_from(src: Seq<char>, i: int, line: int) -> Result<Seq<TokenSpec>, Failure>
    decreases src.len() - i,
{
    if i < 0 || i >= src.len() {
        Ok(Seq::empty())
    } else if whitespace(src[i]) {
        lex_from(src, i + 1, if src[i] == '\n' { line + 1 } else { line })
    } else if comment_at(src, i) {
        proof {
            lemma_line_end(src, i + 2);
        }
        lex_from(src, line_end(src, i + 2), line)
    } else {
        proof {
            lemma_word_end(src, src[i], i + 1);
        }
        let e = word_end(src, src[i], i + 1);
        let w = src.subrange(i, e);
        if word_kind(w) == TokenType::NoToken {
            Err(lex_failure(line, w))
        } else {
            prepend(seq![TokenSpec { kind: word_kind(w), text: w, line }], lex_from(src, e, line))
        }
    }
}

/// The tokens of a whole source text.
pub open spec fn lex(src: Seq<char>) -> Result<Seq<TokenSpec>, Failure> {
    lex_from(src, 0, 1)
}

/// A word ends within the text, every character before its end continues
/// it, and the character at its end does not.
pub proof fn lemma_word_end(src: Seq<char>, first: char, j: int)
    requires
        0 <= j <= src.len(),
    ensures
        j <= word_end(src, first, j) <= src.len(),
        forall|k: int| j <= k < word_end(src, first, j) ==> continues_word(first, #[trigger] src[k]),
        word_end(src, first, j) < src.len() ==> !continues_word(
            first,
            src[word_end(src, first, j)],
        ),
    decreases src.len() - j,
{
    if j < src.len() && continues_word(first, src[j]) {
        lemma_word_end(src, first, j + 1);
    }
}

/// A comment's end lies within the text, at or after where it is sought.
pub proof fn lemma_line_end(src: Seq<char>, j: int)
    requires
        0 <= j <= src.len(),
    ensures
        j <= line_end(src, j) <= src.len(),
    decreases src.len() - j,
{
    if j < src.len() && src[j] != '\n' {
        lemma_line_end(src, j + 1);
    }
}

/// Where each token of `lex_from(src, i, line)` starts in the text.
pub open spec fn token_starts(src: Seq<char>, i: int, line: int) -> Seq<int>
    decreases src.len() - i,
{
    if i < 0 || i >= src.len() {
        Seq::empty()
    } else if whitespace(src[i]) {
        token_starts(src, i + 1, if src[i] == '\n' { line + 1 } else { line })
    } else if comment_at(src, i) {
        proof {
            lemma_line_end(src, i + 2);
        }
        token_starts(src, line_end(src, i + 2), line)
    } else {
        proof {
            lemma_word_end(src, src[i], i + 1);
        }
        seq![i] + token_starts(src, word_end(src, src[i], i + 1), line)
    }
}

/// The tokens' texts lie in the text at their starts, one after another.
pub open spec fn texts_in_place(src: Seq<char>, ts: Seq<TokenSpec>, st: Seq<int>, lo: int) -> bool {
    &&& st.len() == ts.len()
    &&& forall|k: int|
        0 <= k < ts.len() ==> lo <= #[trigger] st[k] && st[k] + ts[k].text.len() <= src.len()
            && src.subrange(st[k], st[k] + ts[k].text.len()) == ts[k].text
    &&& forall|k: int| 0 <= k < ts.len() - 1 ==> #[trigger] st[k] + ts[k].text.len() <= st[k + 1]
}

proof fn lemma_lex_starts(src: Seq<char>, i: int, line: int)
    requires
        0 <= i,
    ensures
        lex_from(src, i, line) is Ok ==> texts_in_place(
            src,
            lex_from(src, i, line)->Ok_0,
            token_starts(src, i, line),
            i,
        ),
    decreases src.len() - i,
{
    if i >= src.len() {
    } else if whitespace(src[i]) {
        lemma_lex_starts(src, i + 1, if src[i] == '\n' { line + 1 } else { line });
    } else if comment_at(src, i) {
        lemma_line_end(src, i + 2);
        lemma_lex_starts(src, line_end(src, i + 2), line);
    } else {
        lemma_word_end(src, src[i], i + 1);
        let e = word_end(src, src[i], i + 1);
        let w = src.subrange(i, e);
        lemma_lex_starts(src, e, line);
        if word_kind(w) != TokenType::NoToken {
            if let Ok(rest) = lex_from(src, e, line) {
                let all = lex_from(src, i, line)->Ok_0;
                let rs = token_starts(src, e, line);
                let st = token_starts(src, i, line);
                assert(all == seq![TokenSpec { kind: word_kind(w), text: w, line }] + rest);
                assert(st == seq![i] + rs);
                assert forall|k: int| 0 <= k < all.len() implies i <= #[trigger] st[k] && st[k]
                    + all[k].text.len() <= src.len() && src.subrange(st[k], st[k] + all[k].text.len())
                    == all[k].text by {
                    if k > 0 {
                        assert(st[k] == rs[k - 1]);
                        assert(all[k] == rest[k - 1]);
                    }
                }
                assert forall|k: int| 0 <= k < all.len() - 1 implies #[trigger] st[k]
                    + all[k].text.len() <= st[k + 1] by {
                    if k > 0 {
                        assert(st[k] == rs[k - 1]);
                        assert(all[k] == rest[k - 1]);
                        assert(st[k + 1] == rs[k]);
                    } else if rest.len() > 0 {
                        assert(st[1] == rs[0]);
                    }
                }
            }
        }
    }
}

/// Lexing loses no text: each token, a number or a name included, starts at
/// a position of its own, its text is exactly the source from there, and the
/// tokens follow one another through the source in order without overlapping.
pub proof fn law_token_text_is_source(src: Seq<char>)
    requires
        lex(src) is Ok,
    ensures
        texts_in_place(src, lex(src)->Ok_0, token_starts(src, 0, 1), 0),
{
    lemma_lex_starts(src, 0, 1);
}

/// Scans source text into tokens.
pub struct Tokeniser {
    source: Vec<char>,
    debug: bool,
    index: usize,
    line_num: usize,
}

impl Tokeniser {
    /// The whole text, as characters.
    pub closed spec fn text(&self) -> Seq<char> {
        self.source@
    }

    /// Whether the words are to be echoed as they are scanned.
    pub closed spec fn echoes(&self) -> bool {
        self.debug
    }

    /// The index of the next character to scan.
    pub closed spec fn position(&self) -> int {
        self.index as int
    }

    /// The line of the next character to scan.
    pub closed spec fn line(&self) -> int {
        self.line_num as int
    }

    /// The scan position lies in the text, and the line count cannot overflow.
    pub closed spec fn wf(&self) -> bool {
        &&& self.index <= self.source@.len()
        &&& self.line_num + (self.source@.len() - self.index) <= usize::MAX
    }

    /// The tokens that the rest of the scan yields.
    pub open spec fn rest(&self) -> Result<Seq<TokenSpec>, Failure> {
        lex_from(self.text(), self.position(), self.line())
    }

    /// A scanner at the start of `source`, on line 1.
    pub fn new(source: String, debug: bool) -> (r: Tokeniser)
        requires
            source@.len() < usize::MAX,
        ensures
            r.wf(),
            r.text() == source@,
            r.position() == 0,
            r.line() == 1,
            r.echoes() == debug,
            r.rest() == lex(source@),
    {
        let text = source.as_str();
        let n = text.unicode_len();
        let mut chars: Vec<char> = Vec::new();
        let mut i: usize = 0;
        while i < n
            invariant
                n == text@.len(),
                i <= n,
                chars@ == text@.subrange(0, i as int),
            decreases n - i,
        {
            chars.push(text.get_char(i));
            i += 1;
        }
        proof {
            assert(chars@ =~= source@);
        }
        Tokeniser { source: chars, debug, index: 0, line_num: 1 }
    }

    /// Whether the words are to be echoed as they are scanned.
    pub fn debug(&self) -> (r: bool)
        ensures
            r == self.echoes(),
    {
        self.debug
    }

    /// Scans the rest of the text: the tokens in order, or the error of the
    /// first character that begins no token.
    pub fn tokenise(&mut self) -> (r: Result<Vec<Token>, Error>)
        requires
            old(self).wf(),
        ensures
            match (r, old(self).rest()) {
                (Ok(ts), Ok(spec)) => ts@.map_values(|t: Token| t@) == spec,
                (Err(e), Err(f)) => e@ == f,
                _ => false,
            },
    {
        let mut tokens: Vec<Token> = Vec::new();
        let ghost total = self.rest();
        while self.index < self.source.len()
            invariant
                self.wf(),
                self.source@ == old(self).source@,
                total == prepend(tokens@.map_values(|t: Token| t@), self.rest()),
                total == old(self).rest(),
            decreases self.source@.len() - self.index,
        {
            let word = self.get_next_word();
            match word {
                None => {},
                Some(current_word) => {
                    let token_type = classify(&current_word);
                    if token_type == TokenType::NoToken {
                        let mut msg = String::from_str("Could not tokenise ");
                        msg.append(current_word.as_str());
                        let err = self.create_err(msg);
                        return Err(err);
                    }
                    let ghost old_tokens = tokens@;
                    tokens.push(Token { token: token_type, info: current_word, line: self.line_num });
                    proof {
                        let pre = old_tokens.map_values(|t: Token| t@);
                        let one = seq![tokens@.last()@];
                        assert(tokens@.map_values(|t: Token| t@) =~= pre + one);
                        match self.rest() {
                            Ok(rest) => assert(pre + (one + rest) =~= (pre + one) + rest),
                            Err(_) => {},
                        }
                    }
                },
            }
        }
        proof {
            assert(tokens@.map_values(|t: Token| t@) + Seq::<TokenSpec>::empty() =~= tokens@.map_values(|t: Token| t@));
        }
        Ok(tokens)
    }

    fn create_err(&self, msg: String) -> (r: Error)
        ensures
            r@ == (Failure { line: self.line(), msg: msg@, kind: ErrorKind::Lex }),
    {
        Error { line: self.line_num, msg, kind: ErrorKind::Lex }
    }

    /// Moves past whitespace, counting newlines.
    fn skip_whitespace(&mut self)
        requires
            old(self).wf(),
        ensures
            final(self).wf(),
            final(self).source@ == old(self).source@,
            final(self).echoes() == old(self).echoes(),
            final(self).position() == ws_end(old(self).text(), old(self).position()),
            final(self).line() == old(self).line() + newlines(
                old(self).text(),
                old(self).position(),
                final(self).position(),
            ),
            old(self).index <= final(self).index,
            final(self).index < final(self).source@.len() ==> !whitespace(
                final(self).source@[final(self).index as int],
            ),
            final(self).rest() == old(self).rest(),
    {
        while self.index < self.source.len() && is_whitespace(self.source[self.index])
            invariant
                self.wf(),
                self.source@ == old(self).source@,
                self.debug == old(self).debug,
                old(self).index <= self.index,
                ws_end(self.source@, self.index as int) == ws_end(
                    self.source@,
                    old(self).index as int,
                ),
                self.line() == old(self).line() + newlines(
                    self.source@,
                    old(self).index as int,
                    self.index as int,
                ),
                self.rest() == old(self).rest(),
            decreases self.source@.len() - self.index,
        {
            if self.source[self.index] == '\n' {
                self.line_num += 1;
            }
            self.index += 1;
        }
    }

    /// Moves past whitespace, then over the next word, returning it; `None`
    /// where the text ends or a comment begins, which is passed up to the
    /// newline that ends it.
    pub fn get_next_word(&mut self) -> (r: Option<String>)
        requires
            old(self).wf(),
        ensures
            final(self).wf(),
            final(self).text() == old(self).text(),
            final(self).echoes() == old(self).echoes(),
            ({
                let src = old(self).text();
                let p = ws_end(src, old(self).position());
                &&& final(self).line() == old(self).line() + newlines(src, old(self).position(), p)
                &&& p >= src.len() ==> r is None && final(self).position() == src.len()
                &&& p < src.len() && comment_at(src, p) ==> r is None && final(self).position()
                    == line_end(src, p + 2)
                &&& p < src.len() && !comment_at(src, p) ==> r is Some && r->0@ == src.subrange(
                    p,
                    word_end(src, src[p], p + 1),
                ) && final(self).position() == word_end(src, src[p], p + 1)
            }),
            old(self).position() < old(self).text().len() ==> old(self).position()
                < final(self).position(),
            match r {
                None => final(self).rest() == old(self).rest(),
                Some(w) => w@.len() > 0 && old(self).rest() == (if word_kind(w@) == TokenType::NoToken {
                    Err(lex_failure(final(self).line(), w@))
                } else {
                    prepend(
                        seq![TokenSpec { kind: word_kind(w@), text: w@, line: final(self).line() }],
                        final(self).rest(),
                    )
                }),
            },
    {
        self.skip_whitespace();
        let src = Ghost(self.source@);
        let ghost line = self.line();
        if self.index >= self.source.len() {
            return None;
        }
        let first_char = self.source[self.index];
        // a `//` comment runs to the end of its line
        if first_char == '/' && self.index + 1 < self.source.len() && self.source[self.index + 1]
            == '/' {
            let ghost after_slashes = self.index + 2;
            self.index += 2;
            while self.index < self.source.len() && self.source[self.index] != '\n'
                invariant
                    self.wf(),
                    self.source@ == src@,
                    self.line() == line,
                    self.debug == old(self).debug,
                    2 <= self.index <= src@.len(),
                    line_end(src@, self.index as int) == line_end(src@, after_slashes),
                    after_slashes <= self.index,
                decreases src@.len() - self.index,
            {
                self.index += 1;
            }
            proof {
                assert(line_end(src@, self.index as int) == self.index);
                assert(comment_at(src@, after_slashes - 2));
            }
            return None;
        }
        let start = self.index;
        let mut word = String::new();
        push_char(&mut word, first_char);
        self.index += 1;
        proof {
            assert(word@ =~= src@.subrange(start as int, self.index as int));
        }
        while self.index < self.source.len() && word_continues(first_char, self.source[self.index])
            invariant
                self.wf(),
                self.source@ == src@,
                self.line() == line,
                self.debug == old(self).debug,
                start < self.index <= src@.len(),
                first_char == src@[start as int],
                word@ == src@.subrange(start as int, self.index as int),
                word_end(src@, first_char, self.index as int) == word_end(
                    src@,
                    first_char,
                    start + 1,
                ),
            decreases src@.len() - self.index,
        {
            push_char(&mut word, self.source[self.index]);
            self.index += 1;
            proof {
                assert(word@ =~= src@.subrange(start as int, self.index as int));
            }
        }
        proof {
            assert(word_end(src@, first_char, self.index as int) == self.index);
            assert(!comment_at(src@, start as int));
            assert(!whitespace(src@[start as int]));
        }
        Some(word)
    }
}

fn word_continues(first: char, c: char) -> (r: bool)
    ensures
        r == continues_word(first, c),
{
    extends(first, is_alphabetic(first), is_numeric(first), c, is_alphabetic(c), is_numeric(c))
}

/// Whether `c` extends a word that began with `first`, given the character
/// classes of both.
pub fn extends(first: char, first_alpha: bool, first_num: bool, c: char, c_alpha: bool, c_num: bool) -> (r: bool)
    ensures
        r == extends_word(first, first_alpha, first_num, c, c_alpha, c_num),
{
    if first_alpha {
        c_alpha || c_num || c == '_' || c == '-'
    } else if first_num {
        c_num
    } else {
        c == first
    }
}

/// The category of a non-empty word, `NoToken` where it has none.
fn classify(word: &String) -> (r: TokenType)
    requires
        word@.len() > 0,
    ensures
        r == word_kind(word@),
{
    let first = word.as_str().get_char(0);
    categorise(word, is_numeric(first), is_alphabetic(first))
}

/// The category of a word, given whether its first character is numeric and
/// whether it is alphabetic: a keyword or a punctuation mark has its own, a
/// word that begins with a digit is a literal and one that begins with a
/// letter a name.
pub fn categorise(word: &String, first_numeric: bool, first_alphabetic: bool) -> (r: TokenType)
    ensures
        r == category(word@, first_numeric, first_alphabetic),
{
    let fixed = if *word == String::from_str(";") {
        TokenType::Semicolon
    } else if *word == String::from_str("(") {
        TokenType::ParenOpen
    } else if *word == String::from_str(")") {
        TokenType::ParenClose
    } else if *word == String::from_str("{") {
        TokenType::BraceOpen
    } else if *word == String::from_str("}") {
        TokenType::BraceClose
    } else if *word == String::from_str("=") {
        TokenType::AssignEq
    } else if *word == String::from_str("+") {
        TokenType::Plus
    } else if *word == String::from_str("-") {
        TokenType::Minus
    } else if *word == String::from_str("*") {
        TokenType::Star
    } else if *word == String::from_str("/") {
        TokenType::ForwardsSlash
    } else if *word == String::from_str("exit") {
        TokenType::Exit
    } else if *word == String::from_str("putchar") {
        TokenType::PutChar
    } else if *word == String::from_str("int") {
        TokenType::IntType
    } else if *word == String::from_str("fn") {
        TokenType::Function
    } else {
        TokenType::NoToken
    };
    if fixed != TokenType::NoToken {
        fixed
    } else if first_numeric {
        TokenType::IntegerLit
    } else if first_alphabetic {
        TokenType::Identifier
    } else {
        TokenType::NoToken
    }
}

} // verus!

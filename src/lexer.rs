use vstd::prelude::*;
use vstd::string::*;
use crate::token::{SpecToken, Token};

verus! {

/// A character that may stand in an identifier.
pub open spec fn is_ident_char(c: char) -> bool {
    ('a' <= c && c <= 'z') || ('A' <= c && c <= 'Z') || c == '_'
}

/// A character that the lexer skips between tokens.
pub open spec fn is_blank_char(c: char) -> bool {
    c == ' ' || c == '\t'
}

/// A character that separates tokens without being one: blank or newline.
pub open spec fn is_layout_char(c: char) -> bool {
    c == ' ' || c == '\t' || c == '\n'
}

/// Everything in `text` from `from` on is layout.
pub open spec fn layout_from(text: Seq<char>, from: int) -> bool {
    forall|k: int| from <= k < text.len() ==> is_layout_char(#[trigger] text[k])
}

/// The token for a word: the keyword `let`, or an identifier.
pub open spec fn word_token(w: Seq<char>) -> SpecToken {
    if w == seq!['l', 'e', 't'] {
        SpecToken::Let
    } else {
        SpecToken::Ident(w)
    }
}

/// The end of the run of identifier characters that starts at `pos`.
pub open spec fn ident_end(text: Seq<char>, pos: int) -> int
    decreases text.len() - pos,
{
    if 0 <= pos < text.len() && is_ident_char(text[pos]) {
        ident_end(text, pos + 1)
    } else {
        pos
    }
}

/// The first quote at or after `pos`, or the end of the text if there is none.
pub open spec fn quote_end(text: Seq<char>, pos: int) -> int
    decreases text.len() - pos,
{
    if 0 <= pos < text.len() && text[pos] != '"' {
        quote_end(text, pos + 1)
    } else {
        pos
    }
}

/// One step of the lexer: the token that starts at or after `pos`, and the
/// position just after it. Spaces and tabs are skipped, and so is a newline
/// unless another newline follows it, which makes a blank-line token.
pub open spec fn lex_step(text: Seq<char>, pos: int) -> (SpecToken, int)
    decreases text.len() - pos,
{
    if !(0 <= pos < text.len()) {
        (SpecToken::EOF, pos)
    } else {
        let c = text[pos];
        if is_blank_char(c) {
            lex_step(text, pos + 1)
        } else if c == '\n' {
            if pos + 1 < text.len() && text[pos + 1] == '\n' {
                (SpecToken::Blank, pos + 1)
            } else {
                lex_step(text, pos + 1)
            }
        } else if c == '=' {
            (SpecToken::Assign, pos + 1)
        } else if c == '(' {
            (SpecToken::LeftParen, pos + 1)
        } else if c == ')' {
            (SpecToken::RightParen, pos + 1)
        } else if is_ident_char(c) {
            let e = ident_end(text, pos);
            (word_token(text.subrange(pos, e)), e)
        } else if c == '"' {
            let e = quote_end(text, pos + 1);
            (SpecToken::Str(text.subrange(pos + 1, e)), if e < text.len() {
                e + 1
            } else {
                e
            })
        } else {
            (SpecToken::Illegal, pos + 1)
        }
    }
}

/// Pull-based tokenizer over a source text, read as characters.
pub struct Lexer {
    source: String,
    chars: Vec<char>,
    pos: usize,
}

impl Lexer {
    /// The source text.
    pub closed spec fn text(&self) -> Seq<char> {
        self.chars@
    }

    /// The read cursor: the index of the current character.
    pub closed spec fn position(&self) -> int {
        self.pos as int
    }

    /// The cursor lies within the text, or just past its end.
    pub closed spec fn wf(&self) -> bool {
        &&& self.chars@ == self.source@
        &&& self.pos <= self.chars.len()
    }

    /// A well-formed lexer's cursor is at most the length of its text.
    pub proof fn lemma_cursor_in_text(&self)
        requires
            self.wf(),
        ensures
            self.position() <= self.text().len(),
    {
    }

    /// Starts a lexer at the beginning of `source_code`.
    pub fn new(source_code: &str) -> (r: Lexer)
        ensures
            r.wf(),
            r.text() == source_code@,
            r.position() == 0,
    {
        let n = source_code.unicode_len();
        let mut chars: Vec<char> = Vec::new();
        let mut i: usize = 0;
        while i < n
            invariant
                n == source_code@.len(),
                i <= n,
                chars@ == source_code@.subrange(0, i as int),
            decreases n - i,
        {
            chars.push(source_code.get_char(i));
            i = i + 1;
        }
        assert(chars@ =~= source_code@);
        Lexer { source: String::from_str(source_code), chars, pos: 0 }
    }

    fn read_char(&mut self)
        requires
            old(self).wf(),
            old(self).pos < old(self).chars.len(),
        ensures
            final(self).wf(),
            final(self).text() == old(self).text(),
            final(self).pos == old(self).pos + 1,
    {
        self.pos = self.pos + 1;
    }

    fn skip_whitespace(&mut self)
        requires
            old(self).wf(),
        ensures
            final(self).wf(),
            final(self).text() == old(self).text(),
            old(self).pos <= final(self).pos,
            final(self).pos < final(self).text().len() ==> !is_blank_char(
                final(self).text()[final(self).position()],
            ),
            lex_step(final(self).text(), final(self).position()) == lex_step(
                old(self).text(),
                old(self).position(),
            ),
            forall|k: int|
                old(self).position() <= k < final(self).position() ==> is_blank_char(
                    #[trigger] final(self).text()[k],
                ),
    {
        while self.pos < self.chars.len() && (self.chars[self.pos] == ' ' || self.chars[self.pos]
            == '\t')
            invariant
                self.wf(),
                self.text() == old(self).text(),
                old(self).pos <= self.pos,
                forall|k: int|
                    old(self).position() <= k < self.position() ==> is_blank_char(
                        #[trigger] self.text()[k],
                    ),
                lex_step(self.text(), self.position()) == lex_step(
                    old(self).text(),
                    old(self).position(),
                ),
            decreases self.chars.len() - self.pos,
        {
            self.read_char();
        }
    }

    /// Copies the text between two cursor positions.
    fn slice(&self, from: usize, to: usize) -> (r: String)
        requires
            self.wf(),
            from <= to <= self.chars.len(),
        ensures
            r@ == self.text().subrange(from as int, to as int),
    {
        String::from_str(self.source.as_str().substring_char(from, to))
    }

    fn consume_string(&mut self) -> (r: Token)
        requires
            old(self).wf(),
            old(self).pos < old(self).chars.len(),
            old(self).text()[old(self).position()] == '"',
        ensures
            final(self).wf(),
            final(self).text() == old(self).text(),
            old(self).pos < final(self).pos,
            (r@, final(self).position()) == lex_step(old(self).text(), old(self).position()),
    {
        self.read_char();
        let start = self.pos;
        while self.pos < self.chars.len() && self.chars[self.pos] != '"'
            invariant
                self.wf(),
                self.text() == old(self).text(),
                old(self).pos < start <= self.pos,
                start == old(self).pos + 1,
                forall|k: int| start <= k < self.position() ==> #[trigger] self.text()[k] != '"',
                quote_end(self.text(), self.position()) == quote_end(self.text(), start as int),
            decreases self.chars.len() - self.pos,
        {
            self.read_char();
        }
        let literal = self.slice(start, self.pos);
        if self.pos < self.chars.len() {
            self.read_char();
        }
        Token::String(literal)
    }

    fn consume_identifier(&mut self) -> (r: Token)
        requires
            old(self).wf(),
            old(self).pos < old(self).chars.len(),
            is_ident_char(old(self).text()[old(self).position()]),
        ensures
            final(self).wf(),
            final(self).text() == old(self).text(),
            old(self).pos < final(self).pos,
            (r@, final(self).position()) == lex_step(old(self).text(), old(self).position()),
    {
        let start = self.pos;
        while self.pos < self.chars.len() && (('a' <= self.chars[self.pos] && self.chars[self.pos]
            <= 'z') || ('A' <= self.chars[self.pos] && self.chars[self.pos] <= 'Z')
            || self.chars[self.pos] == '_')
            invariant
                self.wf(),
                self.text() == old(self).text(),
                start == old(self).pos <= self.pos,
                forall|k: int| start <= k < self.position() ==> is_ident_char(#[trigger] self.text()[k]),
                ident_end(self.text(), self.position()) == ident_end(self.text(), start as int),
            decreases self.chars.len() - self.pos,
        {
            self.read_char();
        }
        if self.pos - start == 3 && self.chars[start] == 'l' && self.chars[start + 1] == 'e'
            && self.chars[start + 2] == 't' {
            assert(self.text().subrange(start as int, self.position()) =~= seq!['l', 'e', 't']);
            Token::Let
        } else {
            let ghost w = self.text().subrange(start as int, self.position());
            assert(w != seq!['l', 'e', 't']) by {
                if w == seq!['l', 'e', 't'] {
                    assert(w.len() == 3 && w[0] == 'l' && w[1] == 'e' && w[2] == 't');
                }
            }
            Token::Ident(self.slice(start, self.pos))
        }
    }

    fn nextch(&self) -> (r: Option<char>)
        requires
            self.wf(),
        ensures
            r == (if self.pos + 1 < self.chars.len() {
                Some(self.text()[self.position() + 1])
            } else {
                None::<char>
            }),
    {
        if self.chars.len() - self.pos > 1 {
            Some(self.chars[self.pos + 1])
        } else {
            None
        }
    }

    fn nextch_is(&self, ch: char) -> (r: bool)
        requires
            self.wf(),
        ensures
            r == (self.pos + 1 < self.chars.len() && self.text()[self.position() + 1] == ch),
    {
        match self.nextch() {
            Some(c) => c == ch,
            None => false,
        }
    }

    /// Produces the next token. Past the end of the text it returns `EOF` and the
    /// cursor stays where it is; any other token moves the cursor forward.
    pub fn next_token(&mut self) -> (r: Token)
        requires
            old(self).wf(),
        ensures
            final(self).wf(),
            final(self).text() == old(self).text(),
            old(self).position() <= final(self).position(),
            final(self).position() <= final(self).text().len(),
            r@ is EOF ==> final(self).position() == final(self).text().len(),
            !(r@ is EOF) ==> old(self).position() < final(self).position(),
            old(self).position() == old(self).text().len() ==> r@ is EOF && final(self).position()
                == old(self).position(),
            (r@, final(self).position()) == lex_step(old(self).text(), old(self).position()),
            !(r@ is Semicolon),
            layout_from(old(self).text(), old(self).position()) ==> (r@ is Blank || r@ is EOF)
                && layout_from(final(self).text(), final(self).position()),
    {
        loop
            invariant
                self.wf(),
                self.text() == old(self).text(),
                old(self).pos <= self.pos,
                old(self).position() == old(self).text().len() ==> self.pos == old(self).pos,
                lex_step(self.text(), self.position()) == lex_step(
                    old(self).text(),
                    old(self).position(),
                ),
                layout_from(old(self).text(), old(self).position()) ==> layout_from(
                    self.text(),
                    self.position(),
                ),
            decreases self.chars.len() - self.pos,
        {
            self.skip_whitespace();
            if self.pos >= self.chars.len() {
                return Token::EOF;
            }
            let c = self.chars[self.pos];
            if c == '=' {
                self.read_char();
                return Token::Assign;
            } else if c == '(' {
                self.read_char();
                return Token::LeftParen;
            } else if c == ')' {
                self.read_char();
                return Token::RightParen;
            } else if ('a' <= c && c <= 'z') || ('A' <= c && c <= 'Z') || c == '_' {
                return self.consume_identifier();
            } else if c == '"' {
                return self.consume_string();
            } else if c == '\n' {
                let blank = self.nextch_is('\n');
                self.read_char();
                if blank {
                    return Token::Blank;
                }
            } else {
                self.read_char();
                return Token::Illegal;
            }
        }
    }
}

/// Tells whether `c` is an ASCII letter.
pub fn is_letter(c: char) -> (r: bool)
    ensures
        r == (('a' <= c && c <= 'z') || ('A' <= c && c <= 'Z')),
{
    c >= 'a' && c <= 'z' || c >= 'A' && c <= 'Z'
}

} // verus!

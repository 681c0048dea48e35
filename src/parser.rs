use vstd::prelude::*;
use crate::ast::{
    expr_view, exprs_view, program_view, stmt_view, Expr, Ident, Literal, Precedence, Program,
    SpecExpr, SpecStmt, Stmt,
};
use crate::lexer::{layout_from, lex_step, Lexer};
use crate::token::{SpecToken, Token};

verus! {

/// Precedence that a token binds with when it follows an expression.
pub open spec fn precedence_of(t: SpecToken) -> Precedence {
    match t {
        SpecToken::LeftParen => Precedence::Call,
        _ => Precedence::Lowest,
    }
}

/// What the parser looks at: the current token, the lookahead token, and the
/// lexer's cursor, from which further tokens come.
pub struct ParseState {
    pub cur: SpecToken,
    pub next: SpecToken,
    pub pos: int,
}

/// Advance by one token: the lookahead becomes current and the lexer supplies
/// a new lookahead.
pub open spec fn shift(text: Seq<char>, st: ParseState) -> ParseState {
    ParseState { cur: st.next, next: lex_step(text, st.pos).0, pos: lex_step(text, st.pos).1 }
}

/// Work left: unread characters, weighted above the two buffered tokens.
/// Every shift lowers it, unless everything is already at end of input.
pub open spec fn work_left(text: Seq<char>, st: ParseState) -> nat {
    ((if st.pos <= text.len() {
        4 * (text.len() - st.pos)
    } else {
        0int
    }) + (if st.next is EOF {
        0int
    } else {
        2int
    }) + (if st.cur is EOF {
        0int
    } else {
        1int
    })) as nat
}

/// The expression that a token starts: an identifier reference or a string literal.
pub open spec fn leaf_expr(t: SpecToken) -> Option<SpecExpr> {
    match t {
        SpecToken::Ident(n) => Some(SpecExpr::Ident(n)),
        SpecToken::Str(v) => Some(SpecExpr::Literal(v)),
        _ => None,
    }
}

/// An expression at precedence `prec`: a leaf, then every call that binds
/// tighter than `prec`. Gives the result and the state where parsing stopped.
pub open spec fn expr_spec(text: Seq<char>, st: ParseState, prec: Precedence) -> (
    Option<SpecExpr>,
    ParseState,
)
    decreases work_left(text, st), 2nat,
{
    match leaf_expr(st.cur) {
        Some(leaf) => calls_spec(text, leaf, st, prec),
        None => (None, st),
    }
}

/// The calls that extend `left` while the lookahead is `(` binding tighter
/// than `prec`; a failed argument list fails the whole expression.
pub open spec fn calls_spec(text: Seq<char>, left: SpecExpr, st: ParseState, prec: Precedence) -> (
    Option<SpecExpr>,
    ParseState,
)
    decreases work_left(text, st), 1nat,
{
    if !(st.next is Semicolon) && prec.rank() < precedence_of(st.next).rank()
        && st.next is LeftParen {
        let s1 = shift(text, st);
        if work_left(text, s1) < work_left(text, st) {
            let (args, s2) = args_spec(text, s1, SpecToken::RightParen);
            match args {
                Some(a) => if work_left(text, s2) < work_left(text, st) {
                    calls_spec(text, SpecExpr::Call(Box::new(left), a), s2, prec)
                } else {
                    (None, s2)
                },
                None => (None, s2),
            }
        } else {
            (None, s1)
        }
    } else {
        (Some(left), st)
    }
}

/// An argument list after the `(` under the cursor: empty if `end` follows at
/// once, else exactly one expression and then `end`.
pub open spec fn args_spec(text: Seq<char>, st: ParseState, end: SpecToken) -> (
    Option<Seq<SpecExpr>>,
    ParseState,
)
    decreases work_left(text, st), 0nat,
{
    if st.next == end {
        (Some(Seq::empty()), shift(text, st))
    } else {
        let s1 = shift(text, st);
        if work_left(text, s1) < work_left(text, st) {
            let (e, s2) = expr_spec(text, s1, Precedence::Lowest);
            match e {
                Some(a) => if s2.next == end {
                    (Some(seq![a]), shift(text, s2))
                } else {
                    (None, s2)
                },
                None => (None, s2),
            }
        } else {
            (None, s1)
        }
    }
}

/// A `let` statement under the cursor: an identifier, `=`, and an initializer.
pub open spec fn let_spec(text: Seq<char>, st: ParseState) -> (Option<SpecStmt>, ParseState) {
    match st.next {
        SpecToken::Ident(n) => {
            let s1 = shift(text, st);
            if s1.next is Assign {
                let (e, s2) = expr_spec(text, shift(text, shift(text, s1)), Precedence::Lowest);
                match e {
                    Some(x) => (Some(SpecStmt::Let(n, x)), s2),
                    None => (None, s2),
                }
            } else {
                (None, s1)
            }
        },
        _ => (None, st),
    }
}

/// An expression statement, with an optional separator after it.
pub open spec fn expr_stmt_spec(text: Seq<char>, st: ParseState) -> (Option<SpecStmt>, ParseState) {
    let (e, s1) = expr_spec(text, st, Precedence::Lowest);
    match e {
        Some(x) => (Some(SpecStmt::Expr(x)), if s1.next is Semicolon {
            shift(text, s1)
        } else {
            s1
        }),
        None => (None, s1),
    }
}

/// One statement attempt: a `let` statement or an expression statement.
pub open spec fn stmt_spec(text: Seq<char>, st: ParseState) -> (Option<SpecStmt>, ParseState) {
    if st.cur is Let {
        let_spec(text, st)
    } else {
        expr_stmt_spec(text, st)
    }
}

/// The program from a parser state: until the current token is end of input,
/// one statement attempt, kept if it succeeds, then one token further.
pub open spec fn program_spec(text: Seq<char>, st: ParseState) -> Seq<SpecStmt>
    decreases work_left(text, st),
{
    if st.cur is EOF {
        Seq::empty()
    } else {
        let (r, s1) = stmt_spec(text, st);
        let s2 = shift(text, s1);
        if work_left(text, s2) < work_left(text, st) {
            match r {
                Some(x) => seq![x] + program_spec(text, s2),
                None => program_spec(text, s2),
            }
        } else {
            Seq::empty()
        }
    }
}

/// The state of a parser just built over a lexer whose cursor is at `pos`:
/// the first two tokens read.
pub open spec fn start_state(text: Seq<char>, pos: int) -> ParseState {
    shift(text, shift(text, ParseState { cur: SpecToken::EOF, next: SpecToken::EOF, pos }))
}

/// The program of a whole text.
pub open spec fn program_of(text: Seq<char>) -> Seq<SpecStmt> {
    program_spec(text, start_state(text, 0))
}

/// Parsing depends on the text alone: two programs parsed from fresh parsers
/// over the same text have the same statements, in the same order.
pub proof fn parse_depends_on_text_only(text: Seq<char>, first: Program, second: Program)
    requires
        program_view(first@) == program_of(text),
        program_view(second@) == program_of(text),
    ensures
        program_view(first@) == program_view(second@),
        first.len() == second.len(),
{
    assert(program_view(first@).len() == first.len());
    assert(program_view(second@).len() == second.len());
}

/// The value of an optional expression.
pub open spec fn opt_expr_view(o: Option<Expr>) -> Option<SpecExpr> {
    match o {
        Some(e) => Some(expr_view(e)),
        None => None,
    }
}

/// The value of an optional statement.
pub open spec fn opt_stmt_view(o: Option<Stmt>) -> Option<SpecStmt> {
    match o {
        Some(s) => Some(stmt_view(s)),
        None => None,
    }
}

/// The value of an optional argument list.
pub open spec fn opt_exprs_view(o: Option<Vec<Expr>>) -> Option<Seq<SpecExpr>> {
    match o {
        Some(v) => Some(exprs_view(v@, v@.len() as int)),
        None => None,
    }
}

/// Recursive-descent parser with one token of lookahead.
pub struct Parse {
    lexer: Lexer,
    current_token: Token,
    next_token: Token,
}

impl Parse {
    /// The parser's lexer is well formed.
    pub closed spec fn wf(&self) -> bool {
        &&& self.lexer.wf()
        &&& self.lexer.position() <= self.lexer.text().len()
    }

    /// The source text being parsed.
    pub closed spec fn text(&self) -> Seq<char> {
        self.lexer.text()
    }

    /// The token under the cursor.
    pub closed spec fn current(&self) -> SpecToken {
        self.current_token@
    }

    /// The lookahead token.
    pub closed spec fn lookahead(&self) -> SpecToken {
        self.next_token@
    }

    /// The lexer's cursor.
    pub closed spec fn position(&self) -> int {
        self.lexer.position()
    }

    /// The parser's state.
    pub open spec fn state(&self) -> ParseState {
        ParseState { cur: self.current(), next: self.lookahead(), pos: self.position() }
    }

    /// Work left from the parser's state.
    pub open spec fn measure(&self) -> nat {
        work_left(self.text(), self.state())
    }

    /// Only blank lines, end of input, and layout characters are left.
    pub open spec fn layout_only(&self) -> bool {
        &&& (self.current() is Blank || self.current() is EOF)
        &&& (self.lookahead() is Blank || self.lookahead() is EOF)
        &&& layout_from(self.text(), self.position())
    }

    /// `self` is reached from `before` without going back, and if no work was
    /// done the current token is unchanged.
    pub open spec fn follows(&self, before: &Parse) -> bool {
        &&& self.wf()
        &&& self.text() == before.text()
        &&& self.measure() <= before.measure()
        &&& self.measure() == before.measure() ==> self.current() == before.current()
    }

    /// Builds a parser over `lexer` and reads its first two tokens.
    pub fn new(lexer: Lexer) -> (r: Parse)
        requires
            lexer.wf(),
        ensures
            r.wf(),
            r.text() == lexer.text(),
            r.state() == start_state(lexer.text(), lexer.position()),
            layout_from(lexer.text(), lexer.position()) ==> r.layout_only(),
    {
        proof {
            lexer.lemma_cursor_in_text();
        }
        let mut parser = Parse { lexer, current_token: Token::EOF, next_token: Token::EOF };
        parser.bump();
        parser.bump();
        parser
    }

    fn bump(&mut self)
        requires
            old(self).wf(),
        ensures
            final(self).follows(old(self)),
            final(self).state() == shift(old(self).text(), old(self).state()),
            !(old(self).current() is EOF) || !(old(self).lookahead() is EOF)
                ==> final(self).measure() < old(self).measure(),
            layout_from(old(self).text(), old(self).position()) ==> final(self).lookahead() is Blank
                || final(self).lookahead() is EOF,
            layout_from(old(self).text(), old(self).position()) ==> layout_from(
                final(self).text(),
                final(self).position(),
            ),
    {
        let mut tok = self.lexer.next_token();
        std::mem::swap(&mut self.next_token, &mut tok);
        self.current_token = tok;
    }

    fn current_token_is(&self, tok: Token) -> (r: bool)
        ensures
            r == (self.current() == tok@),
    {
        self.current_token == tok
    }

    fn next_token_is(&self, tok: &Token) -> (r: bool)
        ensures
            r == (self.lookahead() == tok@),
    {
        self.next_token == *tok
    }

    fn expect_next_token(&mut self, tok: Token) -> (r: bool)
        requires
            old(self).wf(),
        ensures
            final(self).follows(old(self)),
            r == (old(self).lookahead() == tok@),
            r ==> final(self).state() == shift(old(self).text(), old(self).state()),
            !r ==> *final(self) == *old(self),
    {
        if self.next_token_is(&tok) {
            self.bump();
            true
        } else {
            false
        }
    }

    fn parse_let_stmt(&mut self) -> (r: Option<Stmt>)
        requires
            old(self).wf(),
            old(self).current() is Let,
        ensures
            final(self).follows(old(self)),
            (opt_stmt_view(r), final(self).state()) == let_spec(old(self).text(), old(self).state()),
            !(old(self).lookahead() is Ident) ==> *final(self) == *old(self),
        decreases old(self).measure(), 3nat,
    {
        match &self.next_token {
            Token::Ident(_) => self.bump(),
            _ => return None,
        };
        let name = match self.parse_ident() {
            Some(name) => name,
            None => return None,
        };
        if !self.expect_next_token(Token::Assign) {
            return None;
        }
        self.bump();
        let expr = match self.parse_expr(Precedence::Lowest) {
            Some(expr) => expr,
            None => return None,
        };
        Some(Stmt::Let(name, expr))
    }

    fn parse_expr(&mut self, precedence: Precedence) -> (r: Option<Expr>)
        requires
            old(self).wf(),
        ensures
            final(self).follows(old(self)),
            (opt_expr_view(r), final(self).state()) == expr_spec(
                old(self).text(),
                old(self).state(),
                precedence,
            ),
            !(old(self).current() is Ident || old(self).current() is Str) ==> *final(self) == *old(
                self,
            ),
        decreases old(self).measure(), 2nat,
    {
        let mut left = match self.current_token {
            Token::Ident(_) => match self.parse_ident_expr() {
                Some(e) => e,
                None => return None,
            },
            Token::String(_) => match self.parse_string_expr() {
                Some(e) => e,
                None => return None,
            },
            _ => return None,
        };
        while !self.next_token_is(&Token::Semicolon) && Self::binds_tighter(
            self.next_token_precedence(),
            precedence,
        )
            invariant
                self.follows(old(self)),
                old(self).current() is Ident || old(self).current() is Str,
                expr_spec(old(self).text(), old(self).state(), precedence) == calls_spec(
                    self.text(),
                    expr_view(left),
                    self.state(),
                    precedence,
                ),
            decreases self.measure(),
        {
            match self.next_token {
                Token::LeftParen => {
                    self.bump();
                    left = match self.parse_call_expr(left) {
                        Some(e) => e,
                        None => return None,
                    };
                },
                _ => return Some(left),
            }
        }
        Some(left)
    }

    fn binds_tighter(a: Precedence, b: Precedence) -> (r: bool)
        ensures
            r == (a.rank() > b.rank()),
    {
        match (a, b) {
            (Precedence::Call, Precedence::Lowest) => true,
            _ => false,
        }
    }

    fn next_token_precedence(&self) -> (r: Precedence)
        ensures
            r == precedence_of(self.lookahead()),
    {
        Self::token_to_precedence(&self.next_token)
    }

    fn token_to_precedence(tok: &Token) -> (r: Precedence)
        ensures
            r == precedence_of(tok@),
    {
        match tok {
            Token::LeftParen => Precedence::Call,
            _ => Precedence::Lowest,
        }
    }

    fn parse_ident_expr(&self) -> (r: Option<Expr>)
        ensures
            self.current() is Ident ==> opt_expr_view(r) == leaf_expr(self.current()),
            !(self.current() is Ident) ==> r is None,
    {
        match self.parse_ident() {
            Some(ident) => Some(Expr::Ident(ident)),
            None => None,
        }
    }

    fn parse_string_expr(&self) -> (r: Option<Expr>)
        ensures
            self.current() is Str ==> opt_expr_view(r) == leaf_expr(self.current()),
            !(self.current() is Str) ==> r is None,
    {
        match &self.current_token {
            Token::String(s) => Some(Expr::Literal(Literal::String(s.clone()))),
            _ => None,
        }
    }

    fn parse_expr_stmt(&mut self) -> (r: Option<Stmt>)
        requires
            old(self).wf(),
        ensures
            final(self).follows(old(self)),
            (opt_stmt_view(r), final(self).state()) == expr_stmt_spec(
                old(self).text(),
                old(self).state(),
            ),
            !(old(self).current() is Ident || old(self).current() is Str) ==> *final(self) == *old(
                self,
            ),
        decreases old(self).measure(), 3nat,
    {
        match self.parse_expr(Precedence::Lowest) {
            Some(expr) => {
                if self.next_token_is(&Token::Semicolon) {
                    self.bump();
                }
                Some(Stmt::Expr(expr))
            },
            None => None,
        }
    }

    fn parse_stmt(&mut self) -> (r: Option<Stmt>)
        requires
            old(self).wf(),
        ensures
            final(self).follows(old(self)),
            (opt_stmt_view(r), final(self).state()) == stmt_spec(old(self).text(), old(self).state()),
            !(old(self).current() is Ident || old(self).current() is Str || old(self).current() is Let)
                ==> *final(self) == *old(self),
        decreases old(self).measure(), 4nat,
    {
        match self.current_token {
            Token::Let => self.parse_let_stmt(),
            _ => self.parse_expr_stmt(),
        }
    }

    fn parse_call_expr(&mut self, func: Expr) -> (r: Option<Expr>)
        requires
            old(self).wf(),
            old(self).current() is LeftParen,
        ensures
            final(self).follows(old(self)),
            ({
                let (a, s) = args_spec(old(self).text(), old(self).state(), SpecToken::RightParen);
                &&& final(self).state() == s
                &&& opt_expr_view(r) == match a {
                    Some(args) => Some(SpecExpr::Call(Box::new(expr_view(func)), args)),
                    None => None,
                }
            }),
        decreases old(self).measure(), 1nat,
    {
        let args = match self.parse_expr_list(Token::RightParen) {
            Some(args) => args,
            None => return None,
        };
        Some(Expr::Call { func: Box::new(func), args })
    }

    fn parse_expr_list(&mut self, end: Token) -> (r: Option<Vec<Expr>>)
        requires
            old(self).wf(),
            old(self).current() is LeftParen,
        ensures
            final(self).follows(old(self)),
            (opt_exprs_view(r), final(self).state()) == args_spec(
                old(self).text(),
                old(self).state(),
                end@,
            ),
        decreases old(self).measure(), 0nat,
    {
        let mut list: Vec<Expr> = Vec::new();
        if self.next_token_is(&end) {
            self.bump();
            assert(exprs_view(list@, 0) =~= Seq::<SpecExpr>::empty());
            return Some(list);
        }
        self.bump();
        match self.parse_expr(Precedence::Lowest) {
            Some(expr) => list.push(expr),
            None => return None,
        }
        if !self.expect_next_token(end) {
            return None;
        }
        assert(list@.len() == 1);
        assert(exprs_view(list@, 0) =~= Seq::<SpecExpr>::empty());
        assert(exprs_view(list@, 1) =~= seq![expr_view(list@[0])]);
        Some(list)
    }

    fn parse_ident(&self) -> (r: Option<Ident>)
        ensures
            r is Some <==> self.current() is Ident,
            r matches Some(id) ==> self.current() == SpecToken::Ident(id.0@),
    {
        match &self.current_token {
            Token::Ident(ident) => Some(Ident(ident.clone())),
            _ => None,
        }
    }

    /// Parses statements up to the end of input. A statement that fails to
    /// parse is left out; parsing then goes on one token after where it failed.
    pub fn parse(&mut self) -> (r: Program)
        requires
            old(self).wf(),
        ensures
            final(self).follows(old(self)),
            final(self).current() is EOF,
            program_view(r@) == program_spec(old(self).text(), old(self).state()),
            old(self).layout_only() ==> r.len() == 0,
    {
        let mut program: Program = Vec::new();
        while !self.current_token_is(Token::EOF)
            invariant
                self.follows(old(self)),
                program_view(program@) + program_spec(self.text(), self.state()) == program_spec(
                    old(self).text(),
                    old(self).state(),
                ),
                old(self).layout_only() ==> self.layout_only() && program.len() == 0,
            decreases self.measure(),
        {
            let ghost before = self.state();
            let ghost done = program@;
            let r = self.parse_stmt();
            let ghost rv = opt_stmt_view(r);
            match r {
                Some(stmt) => {
                    program.push(stmt);
                    assert(program_view(program@) =~= program_view(done).push(rv->0));
                },
                None => {},
            }
            self.bump();
            assert(work_left(self.text(), self.state()) < work_left(self.text(), before));
            proof {
                let rest = program_spec(self.text(), self.state());
                if rv is Some {
                    assert(program_spec(self.text(), before) == seq![rv->0] + rest);
                    assert(program_view(done).push(rv->0) + rest =~= program_view(done) + (seq![
                        rv->0,
                    ] + rest));
                } else {
                    assert(program_spec(self.text(), before) == rest);
                }
            }
        }
        assert(program_spec(self.text(), self.state()) =~= Seq::<SpecStmt>::empty());
        assert(program_view(program@) =~= program_view(program@) + program_spec(self.text(), self.state()));
        program
    }
}

} // verus!

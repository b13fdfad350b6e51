//! The lexer: turns source text into a stream of positioned tokens.
//!
//! The spec functions in this module describe tokenization as a
//! mathematical function of the input character sequence; the
//! executable lexer is proved to compute exactly that function.

use vstd::prelude::*;
use vstd::string::StrSliceExecFns;
use crate::token::{LexError, LexErrorModel, SpannedToken, SpannedTokenModel, Token, TokenModel,
    keyword_or_ident, lookup_ident};

verus! {

broadcast use vstd::std_specs::vec::group_vec_axioms;

/// Relies on std's `String::push`: appends the given character to the
/// end of the string.
#[verifier::external_body]
fn push_char(s: &mut String, c: char)
    ensures
        final(s)@ == old(s)@.push(c),
{
    s.push(c)
}

/// The Unicode `White_Space` code points.
pub open spec fn is_ws_char(c: char) -> bool {
    ||| c == ' '
    ||| c == '\t'
    ||| c == '\n'
    ||| c == '\r'
    ||| c == '\u{000B}'
    ||| c == '\u{000C}'
    ||| c == '\u{0085}'
    ||| c == '\u{00A0}'
    ||| c == '\u{1680}'
    ||| (0x2000 <= (c as u32) && (c as u32) <= 0x200A)
    ||| c == '\u{2028}'
    ||| c == '\u{2029}'
    ||| c == '\u{202F}'
    ||| c == '\u{205F}'
    ||| c == '\u{3000}'
}

/// An ASCII decimal digit.
pub open spec fn is_digit_char(c: char) -> bool {
    48 <= (c as u32) && (c as u32) <= 57
}

/// A character that may start an identifier: a letter or `_`.
pub open spec fn is_ident_start_char(c: char) -> bool {
    ||| (97 <= (c as u32) && (c as u32) <= 122)
    ||| (65 <= (c as u32) && (c as u32) <= 90)
    ||| c == '_'
}

/// A character that may continue an identifier.
pub open spec fn is_ident_char(c: char) -> bool {
    is_ident_start_char(c) || is_digit_char(c)
}

/// What a backslash escape denotes inside a character literal. An
/// unknown escape denotes the escaped character itself.
pub open spec fn escape_char(c: char) -> char {
    if c == '0' {
        '\0'
    } else if c == 'n' {
        '\n'
    } else if c == 't' {
        '\t'
    } else {
        c
    }
}

fn is_whitespace_char(c: char) -> (r: bool)
    ensures
        r == is_ws_char(c),
{
    let u = c as u32;
    u == 0x20 || u == 0x09 || u == 0x0A || u == 0x0D || u == 0x0B || u == 0x0C || u == 0x85
        || u == 0xA0 || u == 0x1680 || (0x2000 <= u && u <= 0x200A) || u == 0x2028 || u == 0x2029
        || u == 0x202F || u == 0x205F || u == 0x3000
}

fn is_digit_exec(c: char) -> (r: bool)
    ensures
        r == is_digit_char(c),
{
    let u = c as u32;
    48 <= u && u <= 57
}

fn is_ident_start_exec(c: char) -> (r: bool)
    ensures
        r == is_ident_start_char(c),
{
    let u = c as u32;
    (97 <= u && u <= 122) || (65 <= u && u <= 90) || u == 0x5F
}

fn is_ident_char_exec(c: char) -> (r: bool)
    ensures
        r == is_ident_char(c),
{
    is_ident_start_exec(c) || is_digit_exec(c)
}

/// The line (1-based) on which position `p` lies.
pub open spec fn line_of(s: Seq<char>, p: int) -> int
    decreases p,
{
    if p <= 0 {
        1
    } else {
        line_of(s, p - 1) + (if s[p - 1] == '\n' {
            1int
        } else {
            0int
        })
    }
}

/// The index of the first position of the line holding position `p`.
pub open spec fn line_start(s: Seq<char>, p: int) -> int
    decreases p,
{
    if p <= 0 {
        0
    } else if s[p - 1] == '\n' {
        p
    } else {
        line_start(s, p - 1)
    }
}

/// The column (1-based) of position `p` within its line.
pub open spec fn col_of(s: Seq<char>, p: int) -> int {
    p - line_start(s, p) + 1
}

pub proof fn lemma_position_bounds(s: Seq<char>, p: int)
    requires
        0 <= p,
    ensures
        1 <= line_of(s, p) <= p + 1,
        0 <= line_start(s, p) <= p,
        1 <= col_of(s, p) <= p + 1,
    decreases p,
{
    if p > 0 {
        lemma_position_bounds(s, p - 1);
    }
}

/// Positions later in the text never move up or left.
pub proof fn lemma_position_monotone(s: Seq<char>, p: int, q: int)
    requires
        0 <= p <= q,
    ensures
        line_of(s, p) < line_of(s, q) || (line_of(s, p) == line_of(s, q) && col_of(s, p) <= col_of(
            s,
            q,
        )),
    decreases q - p,
{
    if p < q {
        lemma_position_monotone(s, p, q - 1);
        lemma_position_bounds(s, q - 1);
        if s[q - 1] == '\n' {
        } else {
            assert(line_start(s, q) == line_start(s, q - 1));
        }
    }
}

/// The index of the `\n` ending a `//` comment that starts before
/// `i`, or the end of the text.
pub open spec fn line_comment_end(s: Seq<char>, i: int) -> int
    decreases s.len() - i,
{
    if i >= s.len() {
        s.len() as int
    } else if s[i] == '\n' {
        i
    } else {
        line_comment_end(s, i + 1)
    }
}

pub proof fn lemma_line_comment_end_bounds(s: Seq<char>, i: int)
    requires
        i <= s.len(),
    ensures
        i <= line_comment_end(s, i) <= s.len(),
    decreases s.len() - i,
{
    if i < s.len() && s[i] != '\n' {
        lemma_line_comment_end_bounds(s, i + 1);
    }
}

/// The index just past the `*/` ending a block comment whose body
/// starts at `i`, or the end of the text if unterminated.
pub open spec fn block_comment_end(s: Seq<char>, i: int) -> int
    decreases s.len() - i,
{
    if i >= s.len() {
        s.len() as int
    } else if s[i] == '*' && i + 1 < s.len() && s[i + 1] == '/' {
        i + 2
    } else {
        block_comment_end(s, i + 1)
    }
}

pub proof fn lemma_block_comment_end_bounds(s: Seq<char>, i: int)
    requires
        i <= s.len(),
    ensures
        i <= block_comment_end(s, i) <= s.len(),
    decreases s.len() - i,
{
    if i < s.len() && !(s[i] == '*' && i + 1 < s.len() && s[i + 1] == '/') {
        lemma_block_comment_end_bounds(s, i + 1);
    }
}

/// The first position at or after `i` that is not whitespace and not
/// inside a comment.
pub open spec fn trivia_end(s: Seq<char>, i: int) -> int
    decreases s.len() - i,
{
    if i >= s.len() {
        i
    } else if is_ws_char(s[i]) {
        trivia_end(s, i + 1)
    } else if s[i] == '/' && i + 1 < s.len() && s[i + 1] == '/' {
        let j = line_comment_end(s, i + 2);
        proof {
            lemma_line_comment_end_bounds(s, i + 2);
        }
        trivia_end(s, j)
    } else if s[i] == '/' && i + 1 < s.len() && s[i + 1] == '*' {
        let j = block_comment_end(s, i + 2);
        proof {
            lemma_block_comment_end_bounds(s, i + 2);
        }
        trivia_end(s, j)
    } else {
        i
    }
}

pub proof fn lemma_trivia_end_bounds(s: Seq<char>, i: int)
    requires
        0 <= i <= s.len(),
    ensures
        i <= trivia_end(s, i) <= s.len(),
    decreases s.len() - i,
{
    if i < s.len() {
        if is_ws_char(s[i]) {
            lemma_trivia_end_bounds(s, i + 1);
        } else if s[i] == '/' && i + 1 < s.len() && s[i + 1] == '/' {
            lemma_line_comment_end_bounds(s, i + 2);
            lemma_trivia_end_bounds(s, line_comment_end(s, i + 2));
        } else if s[i] == '/' && i + 1 < s.len() && s[i + 1] == '*' {
            lemma_block_comment_end_bounds(s, i + 2);
            lemma_trivia_end_bounds(s, block_comment_end(s, i + 2));
        }
    }
}

/// The first position at or after `i` that cannot continue an
/// identifier.
pub open spec fn ident_end(s: Seq<char>, i: int) -> int
    decreases s.len() - i,
{
    if i < s.len() && is_ident_char(s[i]) {
        ident_end(s, i + 1)
    } else {
        i
    }
}

pub proof fn lemma_ident_end_bounds(s: Seq<char>, i: int)
    requires
        0 <= i <= s.len(),
    ensures
        i <= ident_end(s, i) <= s.len(),
    decreases s.len() - i,
{
    if i < s.len() && is_ident_char(s[i]) {
        lemma_ident_end_bounds(s, i + 1);
    }
}

/// The first position at or after `i` that is not a digit.
pub open spec fn digits_end(s: Seq<char>, i: int) -> int
    decreases s.len() - i,
{
    if i < s.len() && is_digit_char(s[i]) {
        digits_end(s, i + 1)
    } else {
        i
    }
}

pub proof fn lemma_digits_end_bounds(s: Seq<char>, i: int)
    requires
        0 <= i <= s.len(),
    ensures
        i <= digits_end(s, i) <= s.len(),
    decreases s.len() - i,
{
    if i < s.len() && is_digit_char(s[i]) {
        lemma_digits_end_bounds(s, i + 1);
    }
}

/// The numeric value of a run of decimal digits.
pub open spec fn digits_val(t: Seq<char>) -> int
    decreases t.len(),
{
    if t.len() == 0 {
        0
    } else {
        digits_val(t.drop_last()) * 10 + ((t.last() as u32) - 48)
    }
}

pub proof fn lemma_digits_val_nonneg(t: Seq<char>)
    requires
        forall|k: int| 0 <= k < t.len() ==> is_digit_char(#[trigger] t[k]),
    ensures
        digits_val(t) >= 0,
    decreases t.len(),
{
    if t.len() > 0 {
        lemma_digits_val_nonneg(t.drop_last());
        assert(digits_val(t.drop_last()) * 10 >= 0) by {
            assert(digits_val(t.drop_last()) >= 0);
        }
    }
}

/// The token and end position of a character literal that opens at
/// position `i`.
pub open spec fn char_lit_scan(s: Seq<char>, i: int) -> (TokenModel, int) {
    let len = s.len() as int;
    let p1 = i + 1;
    if p1 < len && s[p1] == '\\' {
        let p2 = p1 + 1;
        let lit = if p2 < len {
            escape_char(s[p2])
        } else {
            '\0'
        };
        let p3 = if p2 < len {
            p2 + 1
        } else {
            p2
        };
        if p3 < len && s[p3] == '\'' {
            (TokenModel::CharLiteral(lit), p3 + 1)
        } else {
            (TokenModel::Error(LexErrorModel::UnterminatedCharLiteral), p3)
        }
    } else {
        let lit = if p1 < len {
            s[p1]
        } else {
            '\0'
        };
        let p2 = if p1 < len {
            p1 + 1
        } else {
            p1
        };
        if p2 < len && s[p2] == '\'' {
            (TokenModel::CharLiteral(lit), p2 + 1)
        } else {
            (TokenModel::Error(LexErrorModel::UnterminatedCharLiteral), p2)
        }
    }
}

/// The token that starts at position `i` (no leading trivia), and the
/// position just past it. Longest match wins.
pub open spec fn scan_token(s: Seq<char>, i: int) -> (TokenModel, int) {
    let len = s.len() as int;
    if i >= len {
        (TokenModel::EOF, i)
    } else {
        let c = s[i];
        let two = i + 1 < len;
        if c == '+' {
            if two && s[i + 1] == '+' {
                (TokenModel::Increment, i + 2)
            } else if two && s[i + 1] == '=' {
                (TokenModel::PlusAssign, i + 2)
            } else {
                (TokenModel::Plus, i + 1)
            }
        } else if c == '-' {
            if two && s[i + 1] == '-' {
                (TokenModel::Decrement, i + 2)
            } else if two && s[i + 1] == '=' {
                (TokenModel::MinusAssign, i + 2)
            } else {
                (TokenModel::Minus, i + 1)
            }
        } else if c == '*' {
            if two && s[i + 1] == '=' {
                (TokenModel::AsteriskAssign, i + 2)
            } else {
                (TokenModel::Asterisk, i + 1)
            }
        } else if c == '/' {
            if two && s[i + 1] == '=' {
                (TokenModel::SlashAssign, i + 2)
            } else {
                (TokenModel::Slash, i + 1)
            }
        } else if c == '%' {
            if two && s[i + 1] == '=' {
                (TokenModel::ModuloAssign, i + 2)
            } else {
                (TokenModel::Percent, i + 1)
            }
        } else if c == '=' {
            if two && s[i + 1] == '=' {
                (TokenModel::Equal, i + 2)
            } else {
                (TokenModel::Assign, i + 1)
            }
        } else if c == '!' {
            if two && s[i + 1] == '=' {
                (TokenModel::NotEqual, i + 2)
            } else {
                (TokenModel::Not, i + 1)
            }
        } else if c == '<' {
            if two && s[i + 1] == '=' {
                (TokenModel::Le, i + 2)
            } else {
                (TokenModel::Lt, i + 1)
            }
        } else if c == '>' {
            if two && s[i + 1] == '=' {
                (TokenModel::Ge, i + 2)
            } else {
                (TokenModel::Gt, i + 1)
            }
        } else if c == '&' {
            if two && s[i + 1] == '&' {
                (TokenModel::And, i + 2)
            } else if two && s[i + 1] == '=' {
                (TokenModel::BitAndAssign, i + 2)
            } else {
                (TokenModel::Ampersand, i + 1)
            }
        } else if c == '|' {
            if two && s[i + 1] == '|' {
                (TokenModel::Or, i + 2)
            } else if two && s[i + 1] == '=' {
                (TokenModel::BitOrAssign, i + 2)
            } else {
                (TokenModel::BitOr, i + 1)
            }
        } else if c == '^' {
            if two && s[i + 1] == '=' {
                (TokenModel::BitXorAssign, i + 2)
            } else {
                (TokenModel::BitXor, i + 1)
            }
        } else if c == ';' {
            (TokenModel::Semicolon, i + 1)
        } else if c == ',' {
            (TokenModel::Comma, i + 1)
        } else if c == '(' {
            (TokenModel::LParen, i + 1)
        } else if c == ')' {
            (TokenModel::RParen, i + 1)
        } else if c == '{' {
            (TokenModel::LBrace, i + 1)
        } else if c == '}' {
            (TokenModel::RBrace, i + 1)
        } else if c == '[' {
            (TokenModel::LBracket, i + 1)
        } else if c == ']' {
            (TokenModel::RBracket, i + 1)
        } else if c == '\'' {
            char_lit_scan(s, i)
        } else if is_ident_start_char(c) {
            let e = ident_end(s, i);
            (keyword_or_ident(s.subrange(i, e)), e)
        } else if is_digit_char(c) {
            let e = digits_end(s, i);
            let text = s.subrange(i, e);
            if digits_val(text) <= i64::MAX {
                (TokenModel::IntLiteral(digits_val(text) as i64), e)
            } else {
                (TokenModel::Error(LexErrorModel::InvalidNumericLiteral(text)), e)
            }
        } else {
            (TokenModel::Illegal(c), i + 1)
        }
    }
}

pub proof fn lemma_scan_token_bounds(s: Seq<char>, i: int)
    requires
        0 <= i <= s.len(),
    ensures
        i <= scan_token(s, i).1 <= s.len(),
        scan_token(s, i).0 is EOF <==> i == s.len(),
        i < s.len() ==> scan_token(s, i).1 >= i + 1,
{
    if i < s.len() {
        lemma_ident_end_bounds(s, i);
        lemma_digits_end_bounds(s, i);
        if is_ident_start_char(s[i]) {
            assert(ident_end(s, i) == ident_end(s, i + 1));
            lemma_ident_end_bounds(s, i + 1);
        }
        if is_digit_char(s[i]) {
            assert(digits_end(s, i) == digits_end(s, i + 1));
            lemma_digits_end_bounds(s, i + 1);
        }
        if is_ident_start_char(s[i]) {
            let e = ident_end(s, i);
            assert(!(keyword_or_ident(s.subrange(i, e)) is EOF));
        }
    }
}

/// The token that the lexer yields when resumed at position `i`, and
/// the position at which it leaves off.
pub open spec fn token_after(s: Seq<char>, i: int) -> (SpannedTokenModel, int) {
    let t = trivia_end(s, i);
    let (k, j) = scan_token(s, t);
    (SpannedTokenModel { kind: k, line: line_of(s, t), column: col_of(s, t) }, j)
}

pub proof fn lemma_token_after_bounds(s: Seq<char>, i: int)
    requires
        0 <= i <= s.len(),
    ensures
        i <= token_after(s, i).1 <= s.len(),
        token_after(s, i).0.kind is EOF <==> trivia_end(s, i) == s.len(),
        !(token_after(s, i).0.kind is EOF) ==> token_after(s, i).1 > i,
{
    lemma_trivia_end_bounds(s, i);
    lemma_scan_token_bounds(s, trivia_end(s, i));
}

/// All tokens from position `i` on, ending with the first `EOF`.
pub open spec fn lex_all(s: Seq<char>, i: int) -> Seq<SpannedTokenModel>
    decreases s.len() - i,
{
    let (tok, j) = token_after(s, i);
    if tok.kind is EOF || !(0 <= i <= s.len()) {
        seq![tok]
    } else {
        proof {
            lemma_token_after_bounds(s, i);
        }
        seq![tok] + lex_all(s, j)
    }
}

} // verus!

verus! {

/// The lexer's cursor state over the input characters.
pub struct Lexer {
    input: Vec<char>,
    pos: usize,
    read_pos: usize,
    ch: Option<char>,
    line: usize,
    column: usize,
}

impl Lexer {
    /// The characters being tokenized.
    pub closed spec fn src(&self) -> Seq<char> {
        self.input@
    }

    /// The position of the next character to inspect.
    pub closed spec fn at(&self) -> int {
        self.pos as int
    }

    /// The cursor state is internally consistent: `ch` caches the
    /// character at `pos`, and `line`/`column` locate `pos`.
    pub closed spec fn wf(&self) -> bool {
        &&& self.pos <= self.input@.len()
        &&& self.input@.len() < usize::MAX
        &&& self.read_pos == if self.pos < self.input@.len() {
            self.pos + 1
        } else {
            self.input@.len() as int
        }
        &&& self.ch == if self.pos < self.input@.len() {
            Some(self.input@[self.pos as int])
        } else {
            None::<char>
        }
        &&& self.line == line_of(self.input@, self.pos as int)
        &&& self.column == col_of(self.input@, self.pos as int)
    }

    /// Creates a lexer at the start of `input`.
    pub fn new(input: &str) -> (r: Lexer)
        requires
            input@.len() < usize::MAX,
        ensures
            r.wf(),
            r.src() == input@,
            r.at() == 0,
    {
        let n = input.unicode_len();
        let mut chars: Vec<char> = Vec::new();
        let mut i: usize = 0;
        while i < n
            invariant
                n == input@.len(),
                0 <= i <= n,
                chars@ =~= input@.subrange(0, i as int),
            decreases n - i,
        {
            chars.push(input.get_char(i));
            proof {
                assert(chars@ =~= input@.subrange(0, i + 1));
            }
            i += 1;
        }
        proof {
            assert(chars@ =~= input@);
        }
        let first: Option<char> = if chars.len() > 0 {
            Some(chars[0])
        } else {
            None
        };
        let rp: usize = if chars.len() > 0 {
            1
        } else {
            0
        };
        Lexer { input: chars, pos: 0, read_pos: rp, ch: first, line: 1, column: 1 }
    }

    /// Advances past the current character, tracking line and column.
    /// At the end of the input it does nothing.
    fn read_char(&mut self)
        requires
            old(self).wf(),
        ensures
            final(self).wf(),
            final(self).input == old(self).input,
            final(self).pos == if old(self).pos < old(self).input@.len() {
                old(self).pos + 1
            } else {
                old(self).pos as int
            },
    {
        proof {
            lemma_position_bounds(self.input@, self.pos as int);
        }
        if self.pos >= self.input.len() {
            return ;
        }
        if let Some(c) = self.ch {
            if c == '\n' {
                self.line = self.line + 1;
                self.column = 0;
            }
        }
        self.pos = self.pos + 1;
        self.column = self.column + 1;
        if self.pos < self.input.len() {
            self.ch = Some(self.input[self.pos]);
            self.read_pos = self.pos + 1;
        } else {
            self.ch = None;
            self.read_pos = self.input.len();
        }
        proof {
            let s = self.input@;
            let p = self.pos as int;
            assert(line_of(s, p) == line_of(s, p - 1) + (if s[p - 1] == '\n' {
                1int
            } else {
                0int
            }));
            if s[p - 1] == '\n' {
                assert(line_start(s, p) == p);
            } else {
                assert(line_start(s, p) == line_start(s, p - 1));
            }
        }
    }

    /// The character after the current one, if any.
    fn peek_char(&self) -> (r: Option<char>)
        requires
            self.wf(),
        ensures
            r == if self.at() + 1 < self.src().len() {
                Some(self.src()[self.at() + 1])
            } else {
                None::<char>
            },
    {
        if self.read_pos >= self.input.len() {
            None
        } else {
            Some(self.input[self.read_pos])
        }
    }

    /// Whether the character after the current one is exactly `c`.
    fn peek_is(&self, c: char) -> (r: bool)
        requires
            self.wf(),
        ensures
            r == (self.at() + 1 < self.src().len() && self.src()[self.at() + 1] == c),
    {
        match self.peek_char() {
            Some(p) => p == c,
            None => false,
        }
    }

    /// Skips whitespace and comments. An unterminated block comment
    /// runs to the end of the input silently.
    #[verifier::loop_isolation(false)]
    fn skip_trivia(&mut self)
        requires
            old(self).wf(),
        ensures
            final(self).wf(),
            final(self).input == old(self).input,
            final(self).pos == trivia_end(old(self).input@, old(self).pos as int),
    {
        loop
            invariant
                self.wf(),
                self.input == old(self).input,
                trivia_end(self.input@, self.pos as int) == trivia_end(
                    old(self).input@,
                    old(self).pos as int,
                ),
            decreases self.input@.len() - self.pos,
        {
            let cur = self.ch;
            match cur {
                Some(c) => {
                    if is_whitespace_char(c) {
                        self.read_char();
                    } else if c == '/' && self.peek_is('/') {
                        self.read_char();
                        self.read_char();
                        let ghost target = line_comment_end(self.input@, self.pos as int);
                        proof {
                            lemma_line_comment_end_bounds(self.input@, self.pos as int);
                        }
                        loop
                            invariant
                                self.wf(),
                                self.input == old(self).input,
                                self.pos <= target <= self.input@.len(),
                                line_comment_end(self.input@, self.pos as int) == target,
                            decreases self.input@.len() - self.pos,
                        {
                            if let Some(c2) = self.ch {
                                if c2 == '\n' {
                                    break ;
                                }
                                self.read_char();
                                proof {
                                    lemma_line_comment_end_bounds(self.input@, self.pos as int);
                                }
                            } else {
                                break ;
                            }
                        }
                    } else if c == '/' && self.peek_is('*') {
                        self.read_char();
                        self.read_char();
                        let ghost target = block_comment_end(self.input@, self.pos as int);
                        proof {
                            lemma_block_comment_end_bounds(self.input@, self.pos as int);
                        }
                        loop
                            invariant
                                self.wf(),
                                self.input == old(self).input,
                                self.pos <= target <= self.input@.len(),
                                block_comment_end(self.input@, self.pos as int) == target,
                            decreases self.input@.len() - self.pos,
                        {
                            if let Some(c2) = self.ch {
                                if c2 == '*' && self.peek_is('/') {
                                    self.read_char();
                                    self.read_char();
                                    break ;
                                }
                                self.read_char();
                                proof {
                                    lemma_block_comment_end_bounds(self.input@, self.pos as int);
                                }
                            } else {
                                break ;
                            }
                        }
                    } else {
                        break ;
                    }
                },
                None => {
                    break ;
                },
            }
        }
    }

    /// Consumes the identifier that starts at the current position.
    #[verifier::loop_isolation(false)]
    fn read_identifier(&mut self) -> (r: String)
        requires
            old(self).wf(),
        ensures
            final(self).wf(),
            final(self).input == old(self).input,
            final(self).pos == ident_end(old(self).input@, old(self).pos as int),
            r@ == old(self).input@.subrange(
                old(self).pos as int,
                ident_end(old(self).input@, old(self).pos as int),
            ),
    {
        let mut s = String::new();
        loop
            invariant
                self.wf(),
                self.input == old(self).input,
                old(self).pos <= self.pos,
                s@ == self.input@.subrange(old(self).pos as int, self.pos as int),
                ident_end(self.input@, self.pos as int) == ident_end(
                    old(self).input@,
                    old(self).pos as int,
                ),
            decreases self.input@.len() - self.pos,
        {
            let cont = match self.ch {
                Some(c) => is_ident_char_exec(c),
                None => false,
            };
            if !cont {
                break ;
            }
            if let Some(c) = self.ch {
                push_char(&mut s, c);
                self.read_char();
                proof {
                    assert(s@ =~= self.input@.subrange(old(self).pos as int, self.pos as int));
                }
            }
        }
        s
    }

    /// Consumes the digit run at the current position and parses it
    /// as a signed 64-bit integer. Leading zeros are allowed; a value
    /// above `i64::MAX` is an invalid-literal error.
    #[verifier::loop_isolation(false)]
    fn read_number(&mut self) -> (r: Result<i64, LexError>)
        requires
            old(self).wf(),
        ensures
            final(self).wf(),
            final(self).input == old(self).input,
            final(self).pos == digits_end(old(self).input@, old(self).pos as int),
            ({
                let text = old(self).input@.subrange(
                    old(self).pos as int,
                    digits_end(old(self).input@, old(self).pos as int),
                );
                match r {
                    Ok(v) => digits_val(text) <= i64::MAX && v == digits_val(text),
                    Err(e) => digits_val(text) > i64::MAX && e@
                        == LexErrorModel::InvalidNumericLiteral(text),
                }
            }),
    {
        let ghost start = self.pos as int;
        let mut digits: Vec<char> = Vec::new();
        loop
            invariant
                self.wf(),
                self.input == old(self).input,
                old(self).pos <= self.pos,
                digits@ == self.input@.subrange(start, self.pos as int),
                forall|k: int| 0 <= k < digits@.len() ==> is_digit_char(#[trigger] digits@[k]),
                digits_end(self.input@, self.pos as int) == digits_end(old(self).input@, start),
            decreases self.input@.len() - self.pos,
        {
            let cont = match self.ch {
                Some(c) => is_digit_exec(c),
                None => false,
            };
            if !cont {
                break ;
            }
            if let Some(c) = self.ch {
                digits.push(c);
                self.read_char();
                proof {
                    assert(digits@ =~= self.input@.subrange(start, self.pos as int));
                }
            }
        }
        let ghost text = self.input@.subrange(start, self.pos as int);
        let n = digits.len();
        let mut acc: i64 = 0;
        let mut overflowed = false;
        let mut i: usize = 0;
        while i < n
            invariant
                n == digits@.len(),
                0 <= i <= n,
                forall|k: int| 0 <= k < digits@.len() ==> is_digit_char(#[trigger] digits@[k]),
                !overflowed ==> 0 <= acc && acc == digits_val(digits@.subrange(0, i as int)),
                overflowed ==> digits_val(digits@.subrange(0, i as int)) > i64::MAX,
            decreases n - i,
        {
            let c = digits[i];
            let cu = c as u32;
            let d: i64 = (cu - 48) as i64;
            proof {
                assert(digits@.subrange(0, i + 1).drop_last() =~= digits@.subrange(0, i as int));
                assert(digits@.subrange(0, i + 1).last() == digits@[i as int]);
            }
            if overflowed {
                proof {
                    let prev = digits_val(digits@.subrange(0, i as int));
                    lemma_digits_val_nonneg(digits@.subrange(0, i as int));
                    assert(prev * 10 == prev + 9 * prev);
                    assert(9 * prev >= 0);
                }
            } else {
                if acc > 922337203685477580i64 || (acc == 922337203685477580i64 && d > 7) {
                    overflowed = true;
                } else {
                    acc = acc * 10 + d;
                }
            }
            i += 1;
        }
        proof {
            assert(digits@.subrange(0, n as int) =~= digits@);
            assert(digits@ == text);
        }
        if overflowed {
            let mut t = String::new();
            let mut j: usize = 0;
            while j < n
                invariant
                    n == digits@.len(),
                    0 <= j <= n,
                    t@ == digits@.subrange(0, j as int),
                decreases n - j,
            {
                push_char(&mut t, digits[j]);
                proof {
                    assert(t@ =~= digits@.subrange(0, j + 1));
                }
                j += 1;
            }
            proof {
                assert(t@ =~= digits@);
            }
            Err(LexError::InvalidNumericLiteral(t))
        } else {
            Ok(acc)
        }
    }

    /// Consumes a character literal, including its quotes and any
    /// escape. A missing closing quote is an error.
    fn read_char_literal(&mut self) -> (r: Result<char, LexError>)
        requires
            old(self).wf(),
            old(self).pos < old(self).input@.len(),
            old(self).input@[old(self).pos as int] == '\'',
        ensures
            final(self).wf(),
            final(self).input == old(self).input,
            ({
                let (tm, j) = char_lit_scan(old(self).input@, old(self).pos as int);
                &&& final(self).pos == j
                &&& match r {
                    Ok(c) => tm == TokenModel::CharLiteral(c),
                    Err(e) => tm == TokenModel::Error(e@),
                }
            }),
    {
        self.read_char();
        let lit: char;
        match self.ch {
            Some(c) if c == '\\' => {
                self.read_char();
                lit = match self.ch {
                    Some(e) => {
                        if e == '0' {
                            '\0'
                        } else if e == 'n' {
                            '\n'
                        } else if e == 't' {
                            '\t'
                        } else {
                            e
                        }
                    },
                    None => '\0',
                };
            },
            Some(c) => {
                lit = c;
            },
            None => {
                lit = '\0';
            },
        }
        self.read_char();
        let closed = match self.ch {
            Some(c) => c == '\'',
            None => false,
        };
        if !closed {
            return Err(LexError::UnterminatedCharLiteral);
        }
        self.read_char();
        Ok(lit)
    }

    /// Produces the next token together with the line and column at
    /// which it starts.
    #[verifier::rlimit(40)]
    pub fn next_token(&mut self) -> (t: SpannedToken)
        requires
            old(self).wf(),
        ensures
            final(self).wf(),
            final(self).src() == old(self).src(),
            t@ == token_after(old(self).src(), old(self).at()).0,
            final(self).at() == token_after(old(self).src(), old(self).at()).1,
    {
        self.skip_trivia();
        let line = self.line;
        let column = self.column;
        let ghost s = self.input@;
        let ghost t0 = self.pos as int;
        let cur = self.ch;
        let kind: Token = match cur {
            Some(c) if c == '\'' => {
                let k = match self.read_char_literal() {
                    Ok(ch2) => Token::CharLiteral(ch2),
                    Err(e) => Token::Error(e),
                };
                return SpannedToken { kind: k, line, column };
            },
            Some(c) if is_ident_start_exec(c) => {
                let ident = self.read_identifier();
                proof {
                    assert(ident_end(s, t0) == ident_end(s, t0 + 1));
                }
                let k = lookup_ident(&ident);
                return SpannedToken { kind: k, line, column };
            },
            Some(c) if is_digit_exec(c) => {
                let k = match self.read_number() {
                    Ok(v) => Token::IntLiteral(v),
                    Err(e) => Token::Error(e),
                };
                proof {
                    assert(digits_end(s, t0) == digits_end(s, t0 + 1));
                }
                return SpannedToken { kind: k, line, column };
            },
            Some(c) => {
                if c == '+' {
                    if self.peek_is('+') {
                        self.read_char();
                        Token::Increment
                    } else if self.peek_is('=') {
                        self.read_char();
                        Token::PlusAssign
                    } else {
                        Token::Plus
                    }
                } else if c == '-' {
                    if self.peek_is('-') {
                        self.read_char();
                        Token::Decrement
                    } else if self.peek_is('=') {
                        self.read_char();
                        Token::MinusAssign
                    } else {
                        Token::Minus
                    }
                } else if c == '*' {
                    if self.peek_is('=') {
                        self.read_char();
                        Token::AsteriskAssign
                    } else {
                        Token::Asterisk
                    }
                } else if c == '/' {
                    if self.peek_is('=') {
                        self.read_char();
                        Token::SlashAssign
                    } else {
                        Token::Slash
                    }
                } else if c == '%' {
                    if self.peek_is('=') {
                        self.read_char();
                        Token::ModuloAssign
                    } else {
                        Token::Percent
                    }
                } else if c == '=' {
                    if self.peek_is('=') {
                        self.read_char();
                        Token::Equal
                    } else {
                        Token::Assign
                    }
                } else if c == '!' {
                    if self.peek_is('=') {
                        self.read_char();
                        Token::NotEqual
                    } else {
                        Token::Not
                    }
                } else if c == '<' {
                    if self.peek_is('=') {
                        self.read_char();
                        Token::Le
                    } else {
                        Token::Lt
                    }
                } else if c == '>' {
                    if self.peek_is('=') {
                        self.read_char();
                        Token::Ge
                    } else {
                        Token::Gt
                    }
                } else if c == '&' {
                    if self.peek_is('&') {
                        self.read_char();
                        Token::And
                    } else if self.peek_is('=') {
                        self.read_char();
                        Token::BitAndAssign
                    } else {
                        Token::Ampersand
                    }
                } else if c == '|' {
                    if self.peek_is('|') {
                        self.read_char();
                        Token::Or
                    } else if self.peek_is('=') {
                        self.read_char();
                        Token::BitOrAssign
                    } else {
                        Token::BitOr
                    }
                } else if c == '^' {
                    if self.peek_is('=') {
                        self.read_char();
                        Token::BitXorAssign
                    } else {
                        Token::BitXor
                    }
                } else if c == ';' {
                    Token::Semicolon
                } else if c == ',' {
                    Token::Comma
                } else if c == '(' {
                    Token::LParen
                } else if c == ')' {
                    Token::RParen
                } else if c == '{' {
                    Token::LBrace
                } else if c == '}' {
                    Token::RBrace
                } else if c == '[' {
                    Token::LBracket
                } else if c == ']' {
                    Token::RBracket
                } else {
                    Token::Illegal(c)
                }
            },
            None => Token::EOF,
        };
        self.read_char();
        SpannedToken { kind, line, column }
    }

    /// Collects tokens up to and including the first `EOF`.
    #[verifier::loop_isolation(false)]
    pub fn collect_spanned_tokens(&mut self) -> (out: Vec<SpannedToken>)
        requires
            old(self).wf(),
        ensures
            final(self).wf(),
            final(self).src() == old(self).src(),
            out@.map_values(|st: SpannedToken| st@) == lex_all(old(self).src(), old(self).at()),
    {
        let mut out: Vec<SpannedToken> = Vec::new();
        loop
            invariant
                self.wf(),
                self.input@ == old(self).input@,
                old(self).pos <= self.pos,
                lex_all(old(self).input@, old(self).pos as int) =~= out@.map_values(
                    |st: SpannedToken| st@,
                ) + lex_all(self.input@, self.pos as int),
                forall|k: int| 0 <= k < out@.len() ==> !((#[trigger] out@[k])@.kind is EOF),
            decreases self.input@.len() - self.pos,
        {
            let ghost pos_before = self.pos as int;
            let t = self.next_token();
            proof {
                lemma_token_after_bounds(self.input@, pos_before);
            }
            let is_eof = matches!(t.kind, Token::EOF);
            out.push(t);
            proof {
                assert(out@.map_values(|st: SpannedToken| st@) =~= out@.drop_last().map_values(
                    |st: SpannedToken| st@,
                ).push(t@));
            }
            if is_eof {
                proof {
                    assert(lex_all(self.input@, pos_before) =~= seq![t@]);
                }
                break ;
            }
        }
        out
    }
}

/// For all inputs the token stream ends with `EOF` exactly once: the
/// last token is `EOF` and no earlier one is.
pub proof fn lemma_token_stream_single_eof(s: Seq<char>, i: int)
    requires
        0 <= i,
    ensures
        lex_all(s, i).len() >= 1,
        lex_all(s, i).last().kind is EOF,
        forall|k: int| 0 <= k < lex_all(s, i).len() - 1 ==> !((#[trigger] lex_all(s, i)[k]).kind
            is EOF),
    decreases s.len() - i,
{
    let (tok, j) = token_after(s, i);
    if tok.kind is EOF || !(0 <= i <= s.len()) {
        if i > s.len() {
            assert(trivia_end(s, i) == i);
        }
    } else {
        lemma_token_after_bounds(s, i);
        lemma_token_stream_single_eof(s, j);
        let whole = lex_all(s, i);
        let rest = lex_all(s, j);
        assert(whole == seq![tok] + rest);
        assert(whole.last() == rest.last());
        assert forall|k: int| 0 <= k < whole.len() - 1 implies !((#[trigger] whole[k]).kind
            is EOF) by {
            if k > 0 {
                assert(whole[k] == rest[k - 1]);
            }
        }
    }
}

/// One token span does not come after another, lexicographically by
/// line then column.
pub open spec fn span_le(a: SpannedTokenModel, b: SpannedTokenModel) -> bool {
    a.line < b.line || (a.line == b.line && a.column <= b.column)
}

/// Token positions never move backwards: each token in the stream
/// starts at or after the start of the one before it.
pub proof fn lemma_token_stream_positions_monotone(s: Seq<char>, i: int)
    requires
        0 <= i <= s.len(),
    ensures
        forall|k: int| 0 <= k < lex_all(s, i).len() - 1 ==> span_le(
            #[trigger] lex_all(s, i)[k],
            lex_all(s, i)[k + 1],
        ),
    decreases s.len() - i,
{
    let (tok, j) = token_after(s, i);
    let whole = lex_all(s, i);
    if tok.kind is EOF {
    } else {
        lemma_token_after_bounds(s, i);
        lemma_token_stream_positions_monotone(s, j);
        let rest = lex_all(s, j);
        let t1 = trivia_end(s, i);
        let t2 = trivia_end(s, j);
        lemma_trivia_end_bounds(s, i);
        lemma_scan_token_bounds(s, t1);
        lemma_trivia_end_bounds(s, j);
        lemma_position_monotone(s, t1, t2);
        assert(rest[0] == token_after(s, j).0);
        assert(span_le(whole[0], whole[1]));
        assert forall|k: int| 0 <= k < whole.len() - 1 implies span_le(
            #[trigger] whole[k],
            whole[k + 1],
        ) by {
            if k > 0 {
                assert(whole[k] == rest[k - 1]);
                assert(whole[k + 1] == rest[k]);
                assert(span_le(rest[k - 1], rest[k]));
            }
        }
    }
}

} // verus!

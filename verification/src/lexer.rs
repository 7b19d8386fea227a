use vstd::prelude::*;
use vstd::string::StrSliceExecFns;

pub use crate::token::Token;
pub use crate::token::TokenV;

verus! {

// ---------------------------------------------------------------------------
// Byte classification
// ---------------------------------------------------------------------------

/// The whitespace bytes the scanner skips: space, tab, newline, carriage return.
pub open spec fn is_whitespace_byte(b: u8) -> bool {
    b == ' ' as u8 || b == '\t' as u8 || b == '\n' as u8 || b == '\r' as u8
}

/// An ASCII decimal digit.
pub open spec fn is_digit_byte(b: u8) -> bool {
    '0' as u8 <= b && b <= '9' as u8
}

/// A byte that may appear in an identifier: an ASCII letter or an underscore.
pub open spec fn is_word_byte(b: u8) -> bool {
    ('a' as u8 <= b && b <= 'z' as u8) || ('A' as u8 <= b && b <= 'Z' as u8) || b == '_' as u8
}

/// A byte that starts a one- or two-character operator or delimiter.
pub open spec fn is_operator_byte(b: u8) -> bool {
    ||| b == '=' as u8
    ||| b == '!' as u8
    ||| b == '{' as u8
    ||| b == '}' as u8
    ||| b == '(' as u8
    ||| b == ')' as u8
    ||| b == ',' as u8
    ||| b == ';' as u8
    ||| b == '+' as u8
    ||| b == '-' as u8
    ||| b == '*' as u8
    ||| b == '/' as u8
    ||| b == '<' as u8
    ||| b == '>' as u8
}

/// The byte at position `i`, or the sentinel 0 beyond the end of the buffer.
pub open spec fn byte_at(input: Seq<u8>, i: int) -> u8 {
    if 0 <= i < input.len() {
        input[i]
    } else {
        0
    }
}

/// The characters that a run of ASCII bytes spells.
pub open spec fn chars_of(bs: Seq<u8>) -> Seq<char> {
    bs.map_values(|b: u8| b as char)
}

// ---------------------------------------------------------------------------
// The scan, as a mathematical function of the byte buffer and the cursor
// ---------------------------------------------------------------------------

/// The first position at or after `i` that holds no whitespace byte.
pub open spec fn skip_ws_from(input: Seq<u8>, i: int) -> int
    decreases input.len() - i,
{
    if 0 <= i < input.len() && is_whitespace_byte(input[i]) {
        skip_ws_from(input, i + 1)
    } else {
        i
    }
}

/// The end of the maximal run of identifier bytes starting at `i`.
pub open spec fn word_end(input: Seq<u8>, i: int) -> int
    decreases input.len() - i,
{
    if 0 <= i < input.len() && is_word_byte(input[i]) {
        word_end(input, i + 1)
    } else {
        i
    }
}

/// The end of the maximal run of digit bytes starting at `i`.
pub open spec fn digit_end(input: Seq<u8>, i: int) -> int
    decreases input.len() - i,
{
    if 0 <= i < input.len() && is_digit_byte(input[i]) {
        digit_end(input, i + 1)
    } else {
        i
    }
}

/// Skipping whitespace stays inside the buffer and stops exactly at the
/// first non-whitespace position.
pub proof fn lemma_skip_ws_from(input: Seq<u8>, i: int)
    requires
        0 <= i <= input.len(),
    ensures
        i <= skip_ws_from(input, i) <= input.len(),
        forall|k: int| i <= k < skip_ws_from(input, i) ==> is_whitespace_byte(input[k]),
        !is_whitespace_byte(byte_at(input, skip_ws_from(input, i))),
    decreases input.len() - i,
{
    if 0 <= i < input.len() && is_whitespace_byte(input[i]) {
        lemma_skip_ws_from(input, i + 1);
    }
}

/// The identifier run starting at `i` is a maximal, non-empty (when `i`
/// holds an identifier byte), contiguous run of identifier bytes.
pub proof fn lemma_word_end(input: Seq<u8>, i: int)
    requires
        0 <= i <= input.len(),
    ensures
        i <= word_end(input, i) <= input.len(),
        forall|k: int| i <= k < word_end(input, i) ==> is_word_byte(input[k]),
        !is_word_byte(byte_at(input, word_end(input, i))),
        is_word_byte(byte_at(input, i)) ==> i < word_end(input, i),
    decreases input.len() - i,
{
    if 0 <= i < input.len() && is_word_byte(input[i]) {
        lemma_word_end(input, i + 1);
    }
}

/// The digit run starting at `i` is a maximal, non-empty (when `i` holds a
/// digit), contiguous run of digit bytes.
pub proof fn lemma_digit_end(input: Seq<u8>, i: int)
    requires
        0 <= i <= input.len(),
    ensures
        i <= digit_end(input, i) <= input.len(),
        forall|k: int| i <= k < digit_end(input, i) ==> is_digit_byte(input[k]),
        !is_digit_byte(byte_at(input, digit_end(input, i))),
        is_digit_byte(byte_at(input, i)) ==> i < digit_end(input, i),
    decreases input.len() - i,
{
    if 0 <= i < input.len() && is_digit_byte(input[i]) {
        lemma_digit_end(input, i + 1);
    }
}

/// Classifies a completed identifier run: the seven reserved words map to
/// their keyword tokens, every other run is an identifier carrying its text.
pub open spec fn keyword_lookup(w: Seq<u8>) -> TokenV {
    if w.len() == 2 && w[0] == 'f' as u8 && w[1] == 'n' as u8 {
        TokenV::Function
    } else if w.len() == 3 && w[0] == 'l' as u8 && w[1] == 'e' as u8 && w[2] == 't' as u8 {
        TokenV::Let
    } else if w.len() == 2 && w[0] == 'i' as u8 && w[1] == 'f' as u8 {
        TokenV::If
    } else if w.len() == 6 && w[0] == 'r' as u8 && w[1] == 'e' as u8 && w[2] == 't' as u8
        && w[3] == 'u' as u8 && w[4] == 'r' as u8 && w[5] == 'n' as u8 {
        TokenV::Return
    } else if w.len() == 4 && w[0] == 't' as u8 && w[1] == 'r' as u8 && w[2] == 'u' as u8
        && w[3] == 'e' as u8 {
        TokenV::True
    } else if w.len() == 5 && w[0] == 'f' as u8 && w[1] == 'a' as u8 && w[2] == 'l' as u8
        && w[3] == 's' as u8 && w[4] == 'e' as u8 {
        TokenV::False
    } else if w.len() == 4 && w[0] == 'e' as u8 && w[1] == 'l' as u8 && w[2] == 's' as u8
        && w[3] == 'e' as u8 {
        TokenV::Else
    } else {
        TokenV::Ident(chars_of(w))
    }
}

/// Where the next token begins: the cursor, moved past any whitespace.
pub open spec fn token_start(input: Seq<u8>, pos: int) -> int {
    skip_ws_from(input, pos)
}

/// The token spelled at position `i`, where `i` holds no whitespace byte.
pub open spec fn scan_token(input: Seq<u8>, i: int) -> TokenV {
    let c = byte_at(input, i);
    if c == '=' as u8 {
        if byte_at(input, i + 1) == '=' as u8 {
            TokenV::Equal
        } else {
            TokenV::Assign
        }
    } else if c == '!' as u8 {
        if byte_at(input, i + 1) == '=' as u8 {
            TokenV::NotEqual
        } else {
            TokenV::Bang
        }
    } else if c == '{' as u8 {
        TokenV::Lbrace
    } else if c == '}' as u8 {
        TokenV::Rbrace
    } else if c == '(' as u8 {
        TokenV::Lparen
    } else if c == ')' as u8 {
        TokenV::Rparen
    } else if c == ',' as u8 {
        TokenV::Comma
    } else if c == ';' as u8 {
        TokenV::Semicolon
    } else if c == '+' as u8 {
        TokenV::Plus
    } else if c == '-' as u8 {
        TokenV::Minus
    } else if c == '*' as u8 {
        TokenV::Asterisk
    } else if c == '/' as u8 {
        TokenV::Slash
    } else if c == '<' as u8 {
        TokenV::Lt
    } else if c == '>' as u8 {
        TokenV::Gt
    } else if is_digit_byte(c) {
        TokenV::Int(chars_of(input.subrange(i, digit_end(input, i))))
    } else if is_word_byte(c) {
        keyword_lookup(input.subrange(i, word_end(input, i)))
    } else if c == 0 {
        TokenV::Eof
    } else {
        TokenV::Illegal
    }
}

/// Where the cursor stands after the token at position `i` is produced.
pub open spec fn scan_end(input: Seq<u8>, i: int) -> int {
    let c = byte_at(input, i);
    if c == '=' as u8 || c == '!' as u8 {
        if byte_at(input, i + 1) == '=' as u8 {
            i + 2
        } else {
            i + 1
        }
    } else if is_digit_byte(c) {
        digit_end(input, i)
    } else if is_word_byte(c) {
        word_end(input, i)
    } else if i < input.len() {
        i + 1
    } else {
        i
    }
}

/// The token produced by a request made with the cursor at `pos`.
pub open spec fn next_token_of(input: Seq<u8>, pos: int) -> TokenV {
    scan_token(input, token_start(input, pos))
}

/// The cursor after a request made with the cursor at `pos`.
pub open spec fn cursor_after(input: Seq<u8>, pos: int) -> int {
    scan_end(input, token_start(input, pos))
}

/// The next token's first byte falls into a classified branch: the sentinel,
/// an operator or delimiter, a digit, or an identifier byte. Any other byte
/// is a fault in the classification table, not a recoverable condition, so
/// a token request demands this of its input.
pub open spec fn scan_ok(input: Seq<u8>, pos: int) -> bool {
    let c = byte_at(input, token_start(input, pos));
    c == 0 || is_operator_byte(c) || is_digit_byte(c) || is_word_byte(c)
}

/// Relies on String::push: appends the given character to the end of the
/// string.
#[verifier::external_body]
fn push_char(s: &mut String, c: char)
    ensures
        final(s)@ == old(s)@.push(c),
{
    s.push(c);
}

// ---------------------------------------------------------------------------
// The scanner
// ---------------------------------------------------------------------------

/// The scanner: an immutable byte buffer, the index of the current character,
/// the index of the next character to read, and the current character (0 as
/// the sentinel for "no character here").
#[derive(Debug, Clone)]
pub struct Lexer {
    input: Vec<u8>,
    pos: usize,
    read_pos: usize,
    ch: u8,
}

impl Lexer {
    /// The byte buffer being scanned.
    pub closed spec fn bytes(&self) -> Seq<u8> {
        self.input@
    }

    /// The index of the current character.
    pub closed spec fn cursor(&self) -> int {
        self.pos as int
    }

    /// The cursor sits inside the buffer (or just past it), the lookahead
    /// index follows it, and the current character mirrors the buffer.
    pub closed spec fn well_formed(&self) -> bool {
        &&& self.pos <= self.input@.len()
        &&& self.read_pos as int == if self.pos + 1 <= self.input@.len() {
            self.pos + 1
        } else {
            self.input@.len() as int
        }
        &&& self.ch == byte_at(self.input@, self.pos as int)
    }

    /// Builds a scanner over the UTF-8 bytes of `input`, primed so that the
    /// current character holds the first byte (or the sentinel when empty).
    pub fn new(input: String) -> (s: Lexer)
        ensures
            s.well_formed(),
            s.bytes() == vstd::utf8::encode_utf8(input@),
            s.cursor() == 0,
            vstd::utf8::is_ascii_chars(input@) ==> s.bytes() =~= Seq::new(
                input@.len(),
                |i: int| input@[i] as u8,
            ),
    {
        proof {
            broadcast use vstd::utf8::is_ascii_chars_encode_utf8;
        }
        let bytes = input.as_str().as_bytes_vec();
        let mut s = Lexer { input: bytes, read_pos: 0, ch: 0, pos: 0 };
        // the priming read
        if s.read_pos < s.input.len() {
            s.ch = s.input[0];
            s.read_pos = 1;
        }
        s
    }

    /// Advances the cursor by one character, or leaves it in place once the
    /// buffer is exhausted; the current character follows the cursor.
    pub fn read_char(&mut self)
        requires
            old(self).well_formed(),
        ensures
            final(self).well_formed(),
            final(self).bytes() == old(self).bytes(),
            final(self).cursor() == if old(self).cursor() < old(self).bytes().len() {
                old(self).cursor() + 1
            } else {
                old(self).cursor()
            },
    {
        if self.read_pos >= self.input.len() {
            self.ch = 0;
        } else {
            self.ch = self.input[self.read_pos];
        }
        self.pos = self.read_pos;
        if self.read_pos < self.input.len() {
            self.read_pos = self.read_pos + 1;
        }
    }

    /// Consumes whitespace: moves the cursor to the first position at or
    /// after the current one that holds no whitespace byte.
    pub fn skip_whitespace(&mut self)
        requires
            old(self).well_formed(),
        ensures
            final(self).well_formed(),
            final(self).bytes() == old(self).bytes(),
            final(self).cursor() == skip_ws_from(old(self).bytes(), old(self).cursor()),
    {
        let ghost input0 = self.input@;
        let ghost pos0 = self.pos as int;
        while self.ch == ' ' as u8 || self.ch == '\t' as u8 || self.ch == '\n' as u8
            || self.ch == '\r' as u8
            invariant
                self.well_formed(),
                self.input@ == input0,
                skip_ws_from(input0, pos0) == skip_ws_from(input0, self.pos as int),
            decreases input0.len() - self.pos,
        {
            self.read_char();
        }
    }

    /// Consumes the maximal run of identifier bytes starting at the cursor
    /// and returns its text; the cursor is left on the first byte after the
    /// run, with no further advance.
    pub fn read_ident(&mut self) -> (s: String)
        requires
            old(self).well_formed(),
        ensures
            final(self).well_formed(),
            final(self).bytes() == old(self).bytes(),
            final(self).cursor() == word_end(old(self).bytes(), old(self).cursor()),
            s@ == chars_of(
                old(self).bytes().subrange(
                    old(self).cursor(),
                    word_end(old(self).bytes(), old(self).cursor()),
                ),
            ),
    {
        let ghost input0 = self.input@;
        let current_pos = self.pos;
        let mut s = String::new();
        while ('a' as u8 <= self.ch && self.ch <= 'z' as u8)
            || ('A' as u8 <= self.ch && self.ch <= 'Z' as u8) || self.ch == '_' as u8
            invariant
                self.well_formed(),
                self.input@ == input0,
                current_pos <= self.pos <= input0.len(),
                word_end(input0, current_pos as int) == word_end(input0, self.pos as int),
                s@ == chars_of(input0.subrange(current_pos as int, self.pos as int)),
            decreases input0.len() - self.pos,
        {
            push_char(&mut s, self.ch as char);
            proof {
                assert(s@ =~= chars_of(input0.subrange(current_pos as int, self.pos + 1)));
            }
            self.read_char();
        }
        return s;
    }

    /// Consumes the maximal run of digit bytes starting at the cursor and
    /// returns its text; the cursor is left on the first byte after the run,
    /// with no further advance.
    pub fn read_int(&mut self) -> (s: String)
        requires
            old(self).well_formed(),
        ensures
            final(self).well_formed(),
            final(self).bytes() == old(self).bytes(),
            final(self).cursor() == digit_end(old(self).bytes(), old(self).cursor()),
            s@ == chars_of(
                old(self).bytes().subrange(
                    old(self).cursor(),
                    digit_end(old(self).bytes(), old(self).cursor()),
                ),
            ),
    {
        let ghost input0 = self.input@;
        let current_pos = self.pos;
        let mut s = String::new();
        while '0' as u8 <= self.ch && self.ch <= '9' as u8
            invariant
                self.well_formed(),
                self.input@ == input0,
                current_pos <= self.pos <= input0.len(),
                digit_end(input0, current_pos as int) == digit_end(input0, self.pos as int),
                s@ == chars_of(input0.subrange(current_pos as int, self.pos as int)),
            decreases input0.len() - self.pos,
        {
            push_char(&mut s, self.ch as char);
            proof {
                assert(s@ =~= chars_of(input0.subrange(current_pos as int, self.pos + 1)));
            }
            self.read_char();
        }
        return s;
    }

    /// Produces the next token and advances the cursor past it. The token
    /// and the new cursor are exactly those of the scan functions above;
    /// the request demands that the next non-whitespace byte falls into a
    /// classified branch, since a byte outside the table is a fault of the
    /// scanner, not of its input.
    pub fn next_token(&mut self) -> (t: Token)
        requires
            old(self).well_formed(),
            scan_ok(old(self).bytes(), old(self).cursor()),
        ensures
            final(self).well_formed(),
            final(self).bytes() == old(self).bytes(),
            t@ == next_token_of(old(self).bytes(), old(self).cursor()),
            final(self).cursor() == cursor_after(old(self).bytes(), old(self).cursor()),
    {
        self.skip_whitespace();
        let tok: Token;
        if self.ch == '=' as u8 {
            if self.peek_char() == '=' as u8 {
                self.read_char();
                tok = Token::EQUAL;
            } else {
                tok = Token::ASSIGN;
            }
        } else if self.ch == '!' as u8 {
            if self.peek_char() == '=' as u8 {
                self.read_char();
                tok = Token::NOTEQUAL;
            } else {
                tok = Token::BANG;
            }
        } else if self.ch == '{' as u8 {
            tok = Token::LBRACE;
        } else if self.ch == '}' as u8 {
            tok = Token::RBRACE;
        } else if self.ch == '(' as u8 {
            tok = Token::LPAREN;
        } else if self.ch == ')' as u8 {
            tok = Token::RPAREN;
        } else if self.ch == ',' as u8 {
            tok = Token::COMMA;
        } else if self.ch == ';' as u8 {
            tok = Token::SEMICOLON;
        } else if self.ch == '+' as u8 {
            tok = Token::PLUS;
        } else if self.ch == '-' as u8 {
            tok = Token::MINUS;
        } else if self.ch == '*' as u8 {
            tok = Token::ASTERISK;
        } else if self.ch == '/' as u8 {
            tok = Token::SLASH;
        } else if self.ch == '<' as u8 {
            tok = Token::LT;
        } else if self.ch == '>' as u8 {
            tok = Token::GT;
        } else if '0' as u8 <= self.ch && self.ch <= '9' as u8 {
            return Token::INT(self.read_int());
        } else if ('a' as u8 <= self.ch && self.ch <= 'z' as u8)
            || ('A' as u8 <= self.ch && self.ch <= 'Z' as u8) || self.ch == '_' as u8 {
            let start = self.pos;
            proof {
                lemma_word_end(self.input@, self.pos as int);
            }
            let ident = self.read_ident();
            return self.classify_word(start, ident);
        } else if self.ch == 0 {
            tok = Token::EOF;
        } else {
            // a classification fault; ruled out by this request's demand
            assert(false);
            tok = Token::ILLEGAL;
        }
        self.read_char();
        return tok;
    }

    /// Classifies a completed identifier run against the reserved words,
    /// comparing the scanned bytes in place.
    fn classify_word(&self, start: usize, ident: String) -> (t: Token)
        requires
            self.well_formed(),
            start <= self.pos,
            ident@ == chars_of(self.input@.subrange(start as int, self.pos as int)),
        ensures
            t@ == keyword_lookup(self.input@.subrange(start as int, self.pos as int)),
    {
        let n = self.pos - start;
        if n == 2 && self.input[start] == 'f' as u8 && self.input[start + 1] == 'n' as u8 {
            Token::FUNCTION
        } else if n == 3 && self.input[start] == 'l' as u8 && self.input[start + 1] == 'e' as u8
            && self.input[start + 2] == 't' as u8 {
            Token::LET
        } else if n == 2 && self.input[start] == 'i' as u8 && self.input[start + 1] == 'f' as u8 {
            Token::IF
        } else if n == 6 && self.input[start] == 'r' as u8 && self.input[start + 1] == 'e' as u8
            && self.input[start + 2] == 't' as u8 && self.input[start + 3] == 'u' as u8
            && self.input[start + 4] == 'r' as u8 && self.input[start + 5] == 'n' as u8 {
            Token::RETURN
        } else if n == 4 && self.input[start] == 't' as u8 && self.input[start + 1] == 'r' as u8
            && self.input[start + 2] == 'u' as u8 && self.input[start + 3] == 'e' as u8 {
            Token::TRUE
        } else if n == 5 && self.input[start] == 'f' as u8 && self.input[start + 1] == 'a' as u8
            && self.input[start + 2] == 'l' as u8 && self.input[start + 3] == 's' as u8
            && self.input[start + 4] == 'e' as u8 {
            Token::FALSE
        } else if n == 4 && self.input[start] == 'e' as u8 && self.input[start + 1] == 'l' as u8
            && self.input[start + 2] == 's' as u8 && self.input[start + 3] == 'e' as u8 {
            Token::ELSE
        } else {
            Token::IDENT(ident)
        }
    }

    /// The character immediately after the current one, without moving the
    /// cursor; the sentinel at the end of the buffer.
    pub fn peek_char(&self) -> (b: u8)
        requires
            self.well_formed(),
        ensures
            b == byte_at(self.bytes(), self.cursor() + 1),
    {
        if self.read_pos >= self.input.len() {
            return 0;
        } else {
            return self.input[self.read_pos];
        }
    }
}


// ---------------------------------------------------------------------------
// Laws of the scan
// ---------------------------------------------------------------------------

/// Totality: over a buffer drawn wholly from the supported alphabet
/// (whitespace, operators and delimiters, digits, identifier bytes), every
/// token request is legitimate; a request made before the end of the buffer
/// produces a token other than end-of-input and strictly advances the
/// cursor, and a request made at the end produces end-of-input and leaves
/// the cursor in place. Repeated requests therefore end, after finitely
/// many tokens, with end-of-input forever.
pub proof fn lemma_totality(input: Seq<u8>, pos: int)
    requires
        0 <= pos <= input.len(),
        forall|k: int| 0 <= k < input.len() ==> is_whitespace_byte(#[trigger] input[k])
            || is_operator_byte(input[k]) || is_digit_byte(input[k]) || is_word_byte(input[k]),
    ensures
        scan_ok(input, pos),
        pos <= token_start(input, pos) <= input.len(),
        token_start(input, pos) < input.len() ==> next_token_of(input, pos) != TokenV::Eof
            && token_start(input, pos) < cursor_after(input, pos) <= input.len(),
        token_start(input, pos) == input.len() ==> next_token_of(input, pos) == TokenV::Eof
            && cursor_after(input, pos) == input.len(),
{
    lemma_skip_ws_from(input, pos);
    let i = token_start(input, pos);
    if i < input.len() {
        let c = input[i];
        if is_digit_byte(c) {
            lemma_digit_end(input, i);
        }
        if is_word_byte(c) {
            lemma_word_end(input, i);
        }
    }
}

/// Maximal munch: when the next token starts at an identifier byte or at a
/// digit, its captured text is the whole contiguous run of that class, and
/// the byte just past the token (where the cursor is left, before any
/// further advance) is never of the same class: a run is never split in
/// two.
pub proof fn lemma_maximal_munch(input: Seq<u8>, pos: int)
    requires
        0 <= pos <= input.len(),
    ensures
        is_word_byte(byte_at(input, token_start(input, pos))) ==> ({
            let i = token_start(input, pos);
            let j = word_end(input, i);
            &&& next_token_of(input, pos) == keyword_lookup(input.subrange(i, j))
            &&& cursor_after(input, pos) == j
            &&& i < j <= input.len()
            &&& (forall|k: int| i <= k < j ==> is_word_byte(#[trigger] input[k]))
            &&& !is_word_byte(byte_at(input, j))
        }),
        is_digit_byte(byte_at(input, token_start(input, pos))) ==> ({
            let i = token_start(input, pos);
            let j = digit_end(input, i);
            &&& next_token_of(input, pos) == TokenV::Int(chars_of(input.subrange(i, j)))
            &&& cursor_after(input, pos) == j
            &&& i < j <= input.len()
            &&& (forall|k: int| i <= k < j ==> is_digit_byte(#[trigger] input[k]))
            &&& !is_digit_byte(byte_at(input, j))
        }),
{
    lemma_skip_ws_from(input, pos);
    let i = token_start(input, pos);
    if is_word_byte(byte_at(input, i)) {
        lemma_word_end(input, i);
    }
    if is_digit_byte(byte_at(input, i)) {
        lemma_digit_end(input, i);
    }
}

/// A byte run and the text it spells have the same length and correspond
/// position by position.
pub proof fn lemma_chars_of(bs: Seq<u8>)
    ensures
        chars_of(bs).len() == bs.len(),
        forall|i: int| 0 <= i < bs.len() ==> #[trigger] chars_of(bs)[i] == bs[i] as char,
        forall|i: int| 0 <= i < bs.len() ==> (#[trigger] chars_of(bs)[i]) as u8 == bs[i],
{
}

/// Keyword precedence: a completed identifier run that spells one of the
/// seven reserved words yields that keyword token, never an identifier;
/// a run that spells anything else yields an identifier token carrying the
/// full matched text.
pub proof fn lemma_keyword_precedence(w: Seq<u8>)
    requires
        w.len() > 0,
        forall|k: int| 0 <= k < w.len() ==> is_word_byte(#[trigger] w[k]),
    ensures
        chars_of(w) == "fn"@ ==> keyword_lookup(w) == TokenV::Function,
        chars_of(w) == "let"@ ==> keyword_lookup(w) == TokenV::Let,
        chars_of(w) == "if"@ ==> keyword_lookup(w) == TokenV::If,
        chars_of(w) == "return"@ ==> keyword_lookup(w) == TokenV::Return,
        chars_of(w) == "true"@ ==> keyword_lookup(w) == TokenV::True,
        chars_of(w) == "false"@ ==> keyword_lookup(w) == TokenV::False,
        chars_of(w) == "else"@ ==> keyword_lookup(w) == TokenV::Else,
        (chars_of(w) != "fn"@ && chars_of(w) != "let"@ && chars_of(w) != "if"@
            && chars_of(w) != "return"@ && chars_of(w) != "true"@ && chars_of(w) != "false"@
            && chars_of(w) != "else"@) ==> keyword_lookup(w) == TokenV::Ident(chars_of(w)),
{
    lemma_chars_of(w);
    reveal_strlit("fn");
    reveal_strlit("let");
    reveal_strlit("if");
    reveal_strlit("return");
    reveal_strlit("true");
    reveal_strlit("false");
    reveal_strlit("else");
    assert("fn"@ =~= seq!['f', 'n']);
    assert("let"@ =~= seq!['l', 'e', 't']);
    assert("if"@ =~= seq!['i', 'f']);
    assert("return"@ =~= seq!['r', 'e', 't', 'u', 'r', 'n']);
    assert("true"@ =~= seq!['t', 'r', 'u', 'e']);
    assert("false"@ =~= seq!['f', 'a', 'l', 's', 'e']);
    assert("else"@ =~= seq!['e', 'l', 's', 'e']);
    if w.len() == 2 && w[0] == 'f' as u8 && w[1] == 'n' as u8 {
        assert(chars_of(w) =~= "fn"@);
    } else if w.len() == 3 && w[0] == 'l' as u8 && w[1] == 'e' as u8 && w[2] == 't' as u8 {
        assert(chars_of(w) =~= "let"@);
    } else if w.len() == 2 && w[0] == 'i' as u8 && w[1] == 'f' as u8 {
        assert(chars_of(w) =~= "if"@);
    } else if w.len() == 6 && w[0] == 'r' as u8 && w[1] == 'e' as u8 && w[2] == 't' as u8
        && w[3] == 'u' as u8 && w[4] == 'r' as u8 && w[5] == 'n' as u8 {
        assert(chars_of(w) =~= "return"@);
    } else if w.len() == 4 && w[0] == 't' as u8 && w[1] == 'r' as u8 && w[2] == 'u' as u8
        && w[3] == 'e' as u8 {
        assert(chars_of(w) =~= "true"@);
    } else if w.len() == 5 && w[0] == 'f' as u8 && w[1] == 'a' as u8 && w[2] == 'l' as u8
        && w[3] == 's' as u8 && w[4] == 'e' as u8 {
        assert(chars_of(w) =~= "false"@);
    } else if w.len() == 4 && w[0] == 'e' as u8 && w[1] == 'l' as u8 && w[2] == 's' as u8
        && w[3] == 'e' as u8 {
        assert(chars_of(w) =~= "else"@);
    } else {
        assert(chars_of(w).len() == w.len());
        assert(keyword_lookup(w) == TokenV::Ident(chars_of(w)));
    }
}

/// Two-character lookahead: an equals sign followed by a second one yields
/// a single equality token that consumes both characters, and alone it
/// yields assignment; a bang followed by an equals sign yields a single
/// inequality token that consumes both, and alone it yields negation.
pub proof fn lemma_two_char_lookahead(input: Seq<u8>, pos: int)
    requires
        0 <= pos <= input.len(),
    ensures
        byte_at(input, token_start(input, pos)) == '=' as u8
            && byte_at(input, token_start(input, pos) + 1) == '=' as u8
            ==> next_token_of(input, pos) == TokenV::Equal
            && cursor_after(input, pos) == token_start(input, pos) + 2,
        byte_at(input, token_start(input, pos)) == '=' as u8
            && byte_at(input, token_start(input, pos) + 1) != '=' as u8
            ==> next_token_of(input, pos) == TokenV::Assign
            && cursor_after(input, pos) == token_start(input, pos) + 1,
        byte_at(input, token_start(input, pos)) == '!' as u8
            && byte_at(input, token_start(input, pos) + 1) == '=' as u8
            ==> next_token_of(input, pos) == TokenV::NotEqual
            && cursor_after(input, pos) == token_start(input, pos) + 2,
        byte_at(input, token_start(input, pos)) == '!' as u8
            && byte_at(input, token_start(input, pos) + 1) != '=' as u8
            ==> next_token_of(input, pos) == TokenV::Bang
            && cursor_after(input, pos) == token_start(input, pos) + 1,
{
    lemma_skip_ws_from(input, pos);
}

} // verus!



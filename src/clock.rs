//! GTFS clock values: "H:MM:SS" strings that may run past 24:00:00.
use vstd::prelude::*;
use vstd::string::StrSliceExecFns;
use crate::types::{IntErrorKind, ParseIntError};

verus! {

/// Largest value a single integer token may hold.
pub const TOKEN_MAX: u64 = 2147483647;

pub open spec fn is_digit(c: char) -> bool {
    '0' <= c && c <= '9'
}

pub open spec fn digit_of(c: char) -> nat {
    ((c as u32) - ('0' as u32)) as nat
}

/// The number written by a run of decimal digits.
pub open spec fn digits_value(s: Seq<char>) -> nat
    decreases s.len(),
{
    if s.len() == 0 {
        0
    } else {
        digits_value(s.drop_last()) * 10 + digit_of(s.last())
    }
}

/// First position at or after `i` that is not a `:` separator.
pub open spec fn skip_separators(s: Seq<char>, i: int) -> int
    decreases s.len() - i,
{
    if 0 <= i < s.len() && s[i] == ':' {
        skip_separators(s, i + 1)
    } else {
        i
    }
}

/// End of the run of digits that starts at `i`.
pub open spec fn digit_run_end(s: Seq<char>, i: int) -> int
    decreases s.len() - i,
{
    if 0 <= i < s.len() && is_digit(s[i]) {
        digit_run_end(s, i + 1)
    } else {
        i
    }
}

/// The ways a GTFS clock value can fail to lex or parse.
#[derive(Debug, Clone, Copy, PartialEq, Eq, Structural)]
pub enum GtfsLexingError {
    /// An integer token too large for its type.
    ParseInt(ParseIntError),
    /// The input ended before the hours.
    MissingHours,
    /// The input ended after the hours.
    MissingMinutes,
    /// The input ended after the minutes.
    MissingSeconds,
    /// A character that is neither a digit nor a separator, or content after the seconds.
    UnknownToken,
}

impl Default for GtfsLexingError {
    fn default() -> (r: GtfsLexingError)
        ensures
            r == GtfsLexingError::UnknownToken,
    {
        GtfsLexingError::UnknownToken
    }
}

/// One token of a clock value.
#[derive(Debug, Clone, Copy, PartialEq, Eq, Structural)]
pub enum GtfsTimeToken {
    Integer(i32),
}

/// What the lexer yields for a token.
pub type LexResult = Result<GtfsTimeToken, GtfsLexingError>;

/// The token for the digit run `s[b..e]`.
pub open spec fn run_token(s: Seq<char>, b: int, e: int) -> LexResult {
    let v = digits_value(s.subrange(b, e));
    if v <= TOKEN_MAX {
        Ok(GtfsTimeToken::Integer(v as i32))
    } else {
        Err(GtfsLexingError::ParseInt(ParseIntError { kind: IntErrorKind::PosOverflow }))
    }
}

/// The token that starts at or after position `i`, with its span, or `None` at the end.
/// Separators are skipped; a digit run is one token; any other character is one
/// unknown token.
pub open spec fn token_at(s: Seq<char>, i: int) -> Option<(LexResult, int, int)> {
    let b = skip_separators(s, i);
    if b >= s.len() {
        None
    } else if is_digit(s[b]) {
        let e = digit_run_end(s, b);
        Some((run_token(s, b, e), b, e))
    } else {
        Some((Err(GtfsLexingError::UnknownToken), b, b + 1))
    }
}

proof fn lemma_skip_separators_bounds(s: Seq<char>, i: int)
    requires
        0 <= i <= s.len(),
    ensures
        i <= skip_separators(s, i) <= s.len(),
        skip_separators(s, i) < s.len() ==> s[skip_separators(s, i)] != ':',
    decreases s.len() - i,
{
    if i < s.len() && s[i] == ':' {
        lemma_skip_separators_bounds(s, i + 1);
    }
}

proof fn lemma_digit_run_bounds(s: Seq<char>, i: int)
    requires
        0 <= i <= s.len(),
    ensures
        i <= digit_run_end(s, i) <= s.len(),
        forall|k: int| i <= k < digit_run_end(s, i) ==> is_digit(#[trigger] s[k]),
        digit_run_end(s, i) < s.len() ==> !is_digit(s[digit_run_end(s, i)]),
    decreases s.len() - i,
{
    if i < s.len() && is_digit(s[i]) {
        lemma_digit_run_bounds(s, i + 1);
    }
}

proof fn lemma_token_span(s: Seq<char>, i: int)
    requires
        0 <= i <= s.len(),
    ensures
        token_at(s, i) matches Some((_, b, e)) ==> i <= b < e <= s.len(),
        token_at(s, i) is None ==> skip_separators(s, i) == s.len(),
{
    lemma_skip_separators_bounds(s, i);
    let b = skip_separators(s, i);
    if b < s.len() && is_digit(s[b]) {
        lemma_digit_run_bounds(s, b);
    }
}

proof fn lemma_digits_value_step(s: Seq<char>, b: int, k: int)
    requires
        0 <= b <= k < s.len(),
    ensures
        digits_value(s.subrange(b, k + 1)) == digits_value(s.subrange(b, k)) * 10 + digit_of(s[k]),
{
    assert(s.subrange(b, k + 1).drop_last() =~= s.subrange(b, k));
}

fn is_digit_char(c: char) -> (r: bool)
    ensures
        r == is_digit(c),
{
    '0' <= c && c <= '9'
}

/// What a lexer holds: its text and the span of the token it read last.
pub struct LexerView {
    pub text: Seq<char>,
    pub start: int,
    pub end: int,
}

/// Reads the tokens of a clock value one at a time.
pub struct GtfsTimeLexer<'a> {
    source: &'a str,
    chars: Vec<char>,
    start: usize,
    end: usize,
}

impl<'a> View for GtfsTimeLexer<'a> {
    type V = LexerView;

    closed spec fn view(&self) -> LexerView {
        LexerView { text: self.chars@, start: self.start as int, end: self.end as int }
    }
}

impl GtfsTimeToken {
    /// A lexer positioned at the start of `s`.
    pub fn lexer<'a>(s: &'a str) -> (r: GtfsTimeLexer<'a>)
        ensures
            r.wf(),
            r@.text == s@,
            r@.start == 0,
            r@.end == 0,
    {
        let n = s.unicode_len();
        let mut chars: Vec<char> = Vec::new();
        let mut i: usize = 0;
        while i < n
            invariant
                n == s@.len(),
                i <= n,
                chars@ == s@.subrange(0, i as int),
            decreases n - i,
        {
            chars.push(s.get_char(i));
            i = i + 1;
            proof {
                assert(chars@ =~= s@.subrange(0, i as int));
            }
        }
        proof {
            assert(chars@ =~= s@);
        }
        GtfsTimeLexer { source: s, chars, start: 0, end: 0 }
    }
}

impl<'a> GtfsTimeLexer<'a> {
    pub closed spec fn wf(&self) -> bool {
        &&& self.chars@ == self.source@
        &&& self.start <= self.end <= self.chars.len()
    }

    /// Span of the token read last, as character positions.
    pub fn span(&self) -> (r: core::ops::Range<usize>)
        ensures
            r.start == self@.start,
            r.end == self@.end,
    {
        core::ops::Range { start: self.start, end: self.end }
    }

    /// Text of the token read last.
    pub fn slice(&self) -> (r: &'a str)
        requires
            self.wf(),
        ensures
            r@ == self@.text.subrange(self@.start, self@.end),
    {
        self.source.substring_char(self.start, self.end)
    }

    /// The next token, or `None` once the text is used up.
    pub fn next(&mut self) -> (r: Option<LexResult>)
        requires
            old(self).wf(),
        ensures
            final(self).wf(),
            final(self)@.text == old(self)@.text,
            match token_at(old(self)@.text, old(self)@.end) {
                None => r is None && final(self)@.start == old(self)@.text.len()
                    && final(self)@.end == old(self)@.text.len(),
                Some((t, b, e)) => r == Some(t) && final(self)@.start == b && final(self)@.end
                    == e,
            },
    {
        let ghost t = self.chars@;
        let n = self.chars.len();
        let mut i = self.end;
        proof {
            lemma_token_span(t, i as int);
        }
        while i < n && self.chars[i] == ':'
            invariant
                self.wf(),
                t == self.chars@,
                n == t.len(),
                self.end <= i <= n,
                skip_separators(t, self.end as int) == skip_separators(t, i as int),
            decreases n - i,
        {
            i = i + 1;
        }
        if i >= n {
            self.start = n;
            self.end = n;
            return None;
        }
        let b = i;
        if !is_digit_char(self.chars[i]) {
            self.start = b;
            self.end = b + 1;
            return Some(Err(GtfsLexingError::UnknownToken));
        }
        let mut acc: u64 = 0;
        let mut over = false;
        proof {
            assert(t.subrange(b as int, b as int) =~= Seq::<char>::empty());
        }
        while i < n && is_digit_char(self.chars[i])
            invariant
                self.wf(),
                t == self.chars@,
                n == t.len(),
                b <= i <= n,
                digit_run_end(t, b as int) == digit_run_end(t, i as int),
                over ==> digits_value(t.subrange(b as int, i as int)) > TOKEN_MAX,
                !over ==> acc == digits_value(t.subrange(b as int, i as int)) && acc <= TOKEN_MAX,
            decreases n - i,
        {
            let d = ((self.chars[i] as u32) - ('0' as u32)) as u64;
            proof {
                lemma_digits_value_step(t, b as int, i as int);
                let v = digits_value(t.subrange(b as int, i as int));
                assert(v * 10 >= v) by (nonlinear_arith);
            }
            if !over {
                if acc * 10 + d > TOKEN_MAX {
                    over = true;
                } else {
                    acc = acc * 10 + d;
                }
            }
            i = i + 1;
        }
        self.start = b;
        self.end = i;
        if over {
            Some(Err(GtfsLexingError::ParseInt(ParseIntError { kind: IntErrorKind::PosOverflow })))
        } else {
            Some(Ok(GtfsTimeToken::Integer(acc as i32)))
        }
    }
}

/// The value that `s` denotes as a clock value, in seconds, or the first error met:
/// exactly three integer tokens, read as hours, minutes and seconds.
pub open spec fn parse_clock(s: Seq<char>) -> Result<nat, GtfsLexingError> {
    match token_at(s, 0) {
        None => Err(GtfsLexingError::MissingHours),
        Some((Err(e), _, _)) => Err(e),
        Some((Ok(GtfsTimeToken::Integer(h)), _, e1)) => match token_at(s, e1) {
            None => Err(GtfsLexingError::MissingMinutes),
            Some((Err(e), _, _)) => Err(e),
            Some((Ok(GtfsTimeToken::Integer(m)), _, e2)) => match token_at(s, e2) {
                None => Err(GtfsLexingError::MissingSeconds),
                Some((Err(e), _, _)) => Err(e),
                Some((Ok(GtfsTimeToken::Integer(sec)), _, e3)) => match token_at(s, e3) {
                    None => Ok((h * 3600 + m * 60 + sec) as nat),
                    Some((Err(e), _, _)) => Err(e),
                    Some((Ok(_), _, _)) => Err(GtfsLexingError::UnknownToken),
                },
            },
        },
    }
}

pub open spec fn digit_char(d: nat) -> char {
    (('0' as u32) + d) as char
}

/// The decimal digits of `n`, without leading zeros.
pub open spec fn decimal(n: nat) -> Seq<char>
    decreases n,
{
    if n < 10 {
        seq![digit_char(n)]
    } else {
        decimal(n / 10).push(digit_char(n % 10))
    }
}

/// `d` padded on the left with zeros to at least two characters.
pub open spec fn pad2(d: Seq<char>) -> Seq<char> {
    if d.len() < 2 {
        seq!['0'] + d
    } else {
        d
    }
}

/// "HH:MM:SS" for `t` seconds; the hours are not wrapped at 24 and may take more digits.
pub open spec fn format_clock(t: nat) -> Seq<char> {
    pad2(decimal(t / 3600)) + seq![':'] + pad2(decimal((t % 3600) / 60)) + seq![':'] + pad2(
        decimal(t % 60),
    )
}

proof fn lemma_decimal_len(n: nat)
    ensures
        decimal(n).len() >= 1,
        n < 10 ==> decimal(n).len() == 1,
        10 <= n < 100 ==> decimal(n).len() == 2,
        10 <= n ==> decimal(n).len() >= 2,
    decreases n,
{
    if n >= 10 {
        lemma_decimal_len(n / 10);
    }
}

proof fn lemma_decimal_digits(n: nat)
    ensures
        forall|i: int| 0 <= i < decimal(n).len() ==> is_digit(#[trigger] decimal(n)[i]),
        digits_value(decimal(n)) == n,
    decreases n,
{
    let d = (n % 10) as nat;
    assert(digit_of(digit_char(d)) == d);
    if n >= 10 {
        lemma_decimal_digits(n / 10);
        assert(decimal(n).drop_last() =~= decimal(n / 10));
        assert(decimal(n).last() == digit_char(d));
        assert(digits_value(decimal(n)) == digits_value(decimal(n / 10)) * 10 + d);
        assert(n == (n / 10) * 10 + d);
    } else {
        assert(decimal(n).drop_last() =~= Seq::<char>::empty());
        assert(digits_value(decimal(n)) == digits_value(Seq::<char>::empty()) * 10 + d);
    }
}

proof fn lemma_leading_zero(d: Seq<char>)
    ensures
        digits_value(seq!['0'] + d) == digits_value(d),
    decreases d.len(),
{
    let z = seq!['0'] + d;
    assert(digit_of('0') == 0);
    if d.len() == 0 {
        assert(z.drop_last() =~= Seq::<char>::empty());
        assert(digits_value(z) == digits_value(Seq::<char>::empty()) * 10 + digit_of(z.last()));
    } else {
        lemma_leading_zero(d.drop_last());
        assert(z.drop_last() =~= seq!['0'] + d.drop_last());
        assert(z.last() == d.last());
        assert(digits_value(z) == digits_value(z.drop_last()) * 10 + digit_of(z.last()));
    }
}

/// Zero-padding keeps the digits and their value.
proof fn lemma_pad2_digits(n: nat)
    ensures
        forall|i: int| 0 <= i < pad2(decimal(n)).len() ==> is_digit(#[trigger] pad2(decimal(n))[i]),
        digits_value(pad2(decimal(n))) == n,
        pad2(decimal(n)).len() >= 2,
        n < 100 ==> pad2(decimal(n)).len() == 2,
{
    lemma_decimal_digits(n);
    lemma_decimal_len(n);
    if decimal(n).len() < 2 {
        lemma_leading_zero(decimal(n));
        assert forall|i: int| 0 <= i < pad2(decimal(n)).len() implies is_digit(
            #[trigger] pad2(decimal(n))[i],
        ) by {
            if i > 0 {
                assert(pad2(decimal(n))[i] == decimal(n)[i - 1]);
            }
        }
    }
}

/// A formatted clock value has exactly two `:` separators, at the ends of the hours
/// and the minutes; every other character is a digit. Minutes and seconds take two
/// digits each, the hours at least two, and each field reads back as its value.
pub proof fn lemma_format_shape(t: nat)
    ensures
        ({
            let h = pad2(decimal(t / 3600));
            let m = pad2(decimal((t % 3600) / 60));
            let s = pad2(decimal(t % 60));
            &&& format_clock(t) == h + seq![':'] + m + seq![':'] + s
            &&& h.len() >= 2 && m.len() == 2 && s.len() == 2
            &&& format_clock(t).len() == h.len() + 6
            &&& forall|i: int|
                0 <= i < format_clock(t).len() ==> (#[trigger] format_clock(t)[i] == ':' <==> (i
                    == h.len() || i == h.len() + 3))
            &&& forall|i: int|
                0 <= i < format_clock(t).len() && i != h.len() && i != h.len() + 3 ==> is_digit(
                    #[trigger] format_clock(t)[i],
                )
            &&& digits_value(h) == t / 3600
            &&& digits_value(m) == (t % 3600) / 60
            &&& digits_value(s) == t % 60
        }),
{
    let h = pad2(decimal(t / 3600));
    let m = pad2(decimal((t % 3600) / 60));
    let s = pad2(decimal(t % 60));
    lemma_pad2_digits(t / 3600);
    lemma_pad2_digits((t % 3600) / 60);
    lemma_pad2_digits(t % 60);
    let f = format_clock(t);
    let hl = h.len() as int;
    assert forall|i: int| 0 <= i < f.len() implies (#[trigger] f[i] == ':' <==> (i == hl || i == hl
        + 3)) && (i != hl && i != hl + 3 ==> is_digit(f[i])) by {
        if i < hl {
            assert(f[i] == h[i]);
        } else if hl < i < hl + 3 {
            assert(f[i] == m[i - hl - 1]);
        } else if i > hl + 3 {
            assert(f[i] == s[i - hl - 4]);
        }
    }
}

proof fn lemma_run_end_at(s: Seq<char>, i: int, j: int)
    requires
        0 <= i <= j <= s.len(),
        forall|k: int| i <= k < j ==> is_digit(#[trigger] s[k]),
        j == s.len() || !is_digit(s[j]),
    ensures
        digit_run_end(s, i) == j,
    decreases j - i,
{
    if i < j {
        lemma_run_end_at(s, i + 1, j);
    }
}

/// The field of `f` in `[b, e)`, a run of digits followed by a separator or the end,
/// is read as one integer token.
proof fn lemma_field_token(f: Seq<char>, i: int, b: int, e: int, v: nat)
    requires
        0 <= i <= b < e <= f.len(),
        b == i || (b == i + 1 && f[i] == ':'),
        forall|k: int| b <= k < e ==> is_digit(#[trigger] f[k]),
        e == f.len() || f[e] == ':',
        digits_value(f.subrange(b, e)) == v,
        v <= TOKEN_MAX,
    ensures
        token_at(f, i) == Some((Ok::<GtfsTimeToken, GtfsLexingError>(GtfsTimeToken::Integer(v as i32)), b, e)),
{
    assert(is_digit(f[b]));
    if b == i + 1 {
        assert(skip_separators(f, i) == skip_separators(f, i + 1));
    }
    assert(skip_separators(f, b) == b);
    lemma_run_end_at(f, b, e);
}

/// A formatted value parses back to itself whenever its hours fit a token.
pub proof fn lemma_parse_format(t: nat)
    requires
        t / 3600 <= TOKEN_MAX,
    ensures
        parse_clock(format_clock(t)) == Ok::<nat, GtfsLexingError>(t),
{
    lemma_format_shape(t);
    let f = format_clock(t);
    let h = pad2(decimal(t / 3600));
    let m = pad2(decimal((t % 3600) / 60));
    let s = pad2(decimal(t % 60));
    let hl = h.len() as int;
    assert(f.subrange(0, hl) =~= h);
    assert(f.subrange(hl + 1, hl + 3) =~= m);
    assert(f.subrange(hl + 4, hl + 6) =~= s);
    lemma_field_token(f, 0, 0, hl, t / 3600);
    lemma_field_token(f, hl, hl + 1, hl + 3, (t % 3600) / 60);
    lemma_field_token(f, hl + 3, hl + 4, hl + 6, t % 60);
    assert(token_at(f, hl + 6) is None);
    assert(t == (t / 3600) * 3600 + ((t % 3600) / 60) * 60 + t % 60);
}

/// Parsing, formatting and parsing again gives the first parse's value, for every
/// input whose value formats with hours that still fit a token.
pub proof fn lemma_round_trip(s: Seq<char>, t: nat)
    requires
        parse_clock(s) == Ok::<nat, GtfsLexingError>(t),
        t / 3600 <= TOKEN_MAX,
    ensures
        parse_clock(format_clock(t)) == parse_clock(s),
{
    lemma_parse_format(t);
}

/// An integer token holds exactly the number its digits write, or is an overflow
/// error when that number is too large: it never wraps.
pub proof fn lemma_token_never_wraps(s: Seq<char>, b: int, e: int)
    requires
        0 <= b <= e <= s.len(),
    ensures
        run_token(s, b, e) matches Ok(GtfsTimeToken::Integer(v)) ==> v as int == digits_value(
            s.subrange(b, e),
        ),
        run_token(s, b, e) == Err::<GtfsTimeToken, GtfsLexingError>(
            GtfsLexingError::ParseInt(ParseIntError { kind: IntErrorKind::PosOverflow }),
        ) <==> digits_value(s.subrange(b, e)) > TOKEN_MAX,
{
}

/// Hours whose digits exceed the token range make the whole parse fail with an
/// overflow error.
pub proof fn lemma_hours_overflow(s: Seq<char>)
    requires
        skip_separators(s, 0) < s.len(),
        is_digit(s[skip_separators(s, 0)]),
        digits_value(
            s.subrange(skip_separators(s, 0), digit_run_end(s, skip_separators(s, 0))),
        ) > TOKEN_MAX,
    ensures
        parse_clock(s) == Err::<nat, GtfsLexingError>(
            GtfsLexingError::ParseInt(ParseIntError { kind: IntErrorKind::PosOverflow }),
        ),
{
}

/// Appends the decimal digits of `n` to `out`.
fn push_decimal(out: &mut String, n: u64)
    ensures
        final(out)@ == old(out)@ + decimal(n as nat),
    decreases n,
{
    if n >= 10 {
        push_decimal(out, n / 10);
    }
    let d = (n % 10) as usize;
    let digits = "0123456789";
    proof {
        reveal_strlit("0123456789");
    }
    let c = digits.substring_char(d, d + 1);
    proof {
        assert(c@ =~= seq![digit_char((n % 10) as nat)]);
    }
    out.append(c);
    proof {
        if n >= 10 {
            assert(decimal(n as nat) == decimal((n / 10) as nat).push(digit_char((n % 10) as nat)));
        }
        assert(out@ =~= old(out)@ + decimal(n as nat));
    }
}

/// Appends `n` in decimal, zero-padded to two digits.
fn push_padded(out: &mut String, n: u64)
    ensures
        final(out)@ == old(out)@ + pad2(decimal(n as nat)),
{
    proof {
        lemma_decimal_len(n as nat);
    }
    proof {
        reveal_strlit("0");
        assert("0"@ =~= seq!['0']);
    }
    if n < 10 {
        out.append("0");
    }
    let ghost mid = out@;
    assert(mid =~= if n < 10 { old(out)@ + seq!['0'] } else { old(out)@ });
    push_decimal(out, n);
    proof {
        assert(out@ =~= old(out)@ + pad2(decimal(n as nat)));
    }
}

/// A time of the service day, in whole seconds since its midnight; may pass 24:00:00.
#[derive(Debug, Clone, Copy, PartialEq, Eq, Structural)]
pub struct GtfsTime(pub u64);

impl GtfsTime {
    /// Writes the value as "HH:MM:SS".
    pub fn to_string(&self) -> (r: String)
        ensures
            r@ == format_clock(self.0 as nat),
    {
        let t = self.0;
        let mut out = String::new();
        push_padded(&mut out, t / 3600);
        out.append(":");
        push_padded(&mut out, (t % 3600) / 60);
        out.append(":");
        push_padded(&mut out, t % 60);
        proof {
            reveal_strlit(":");
            assert(out@ =~= format_clock(t as nat));
        }
        out
    }

    /// Parses "H:MM:SS" (any number of digits in each field).
    pub fn from_str(s: &str) -> (r: Result<GtfsTime, GtfsLexingError>)
        ensures
            match parse_clock(s@) {
                Ok(t) => r == Ok::<GtfsTime, GtfsLexingError>(GtfsTime(t as u64)),
                Err(e) => r == Err::<GtfsTime, GtfsLexingError>(e),
            },
    {
        let mut lexer = GtfsTimeToken::lexer(s);
        let hours = match lexer.next() {
            None => return Err(GtfsLexingError::MissingHours),
            Some(Err(e)) => return Err(e),
            Some(Ok(GtfsTimeToken::Integer(h))) => h,
        };
        proof {
            lemma_token_span(s@, 0);
        }
        let minutes = match lexer.next() {
            None => return Err(GtfsLexingError::MissingMinutes),
            Some(Err(e)) => return Err(e),
            Some(Ok(GtfsTimeToken::Integer(m))) => m,
        };
        proof {
            lemma_token_span(s@, lexer@.end);
        }
        let seconds = match lexer.next() {
            None => return Err(GtfsLexingError::MissingSeconds),
            Some(Err(e)) => return Err(e),
            Some(Ok(GtfsTimeToken::Integer(sec))) => sec,
        };
        match lexer.next() {
            None => {},
            Some(Err(e)) => return Err(e),
            Some(Ok(_)) => return Err(GtfsLexingError::UnknownToken),
        }
        Ok(GtfsTime((hours as u64) * 3600 + (minutes as u64) * 60 + (seconds as u64)))
    }
}

} // verus!

//! Lexical layer of the script grammar: whitespace, tags, literal tokens,
//! operator tokens, and the reserved-boundary scan that delimits free-form
//! identifiers.
//!
//! Each token has a specification function over `Seq<char>` positions (the
//! grammar itself) and an executable scanner proved to return exactly what
//! the specification says.  A scanner that consumes input always moves the
//! position strictly forward and never past the end; the `lemma_*_bounds`
//! lemmas record that and are broadcast where the grammar needs them.
use vstd::prelude::*;
use crate::ast::BinaryOperation;

verus! {

/// The characters the grammar treats as whitespace.
pub open spec fn is_space(c: char) -> bool {
    c == ' ' || c == '\t' || c == '\r' || c == '\n'
}

pub open spec fn is_digit(c: char) -> bool {
    '0' <= c && c <= '9'
}

/// Position of the first non-whitespace character at or after `i`.
pub open spec fn skip_whitespace(s: Seq<char>, i: nat) -> nat
    decreases s.len() - i,
{
    if i < s.len() && is_space(s[i as int]) {
        skip_whitespace(s, (i + 1) as nat)
    } else {
        i
    }
}

pub broadcast proof fn lemma_skip_whitespace_bounds(s: Seq<char>, i: nat)
    ensures
        i <= #[trigger] skip_whitespace(s, i),
        i <= s.len() ==> skip_whitespace(s, i) <= s.len(),
    decreases s.len() - i,
{
    if i < s.len() && is_space(s[i as int]) {
        lemma_skip_whitespace_bounds(s, (i + 1) as nat);
    }
}

/// The text `t` occurs in `s` at position `i`.
pub open spec fn tag_at(s: Seq<char>, i: nat, t: Seq<char>) -> bool {
    i + t.len() <= s.len() && s.subrange(i as int, (i + t.len()) as int) == t
}

/// A line ending (a line feed, or a carriage return followed by one) starts
/// at position `i`.
pub open spec fn line_ending_at(s: Seq<char>, i: nat) -> bool {
    tag_at(s, i, "\n"@) || tag_at(s, i, "\r\n"@)
}

/// Position of the first carriage return or line feed at or after `i`, or
/// the end of the input.  Everything before it is "the rest of the line".
pub open spec fn scan_to_line_ending(s: Seq<char>, i: nat) -> nat
    decreases s.len() - i,
{
    if i < s.len() && s[i as int] != '\r' && s[i as int] != '\n' {
        scan_to_line_ending(s, (i + 1) as nat)
    } else {
        i
    }
}

pub broadcast proof fn lemma_scan_to_line_ending_bounds(s: Seq<char>, i: nat)
    ensures
        i <= #[trigger] scan_to_line_ending(s, i),
        i <= s.len() ==> scan_to_line_ending(s, i) <= s.len(),
    decreases s.len() - i,
{
    if i < s.len() && s[i as int] != '\r' && s[i as int] != '\n' {
        lemma_scan_to_line_ending_bounds(s, (i + 1) as nat);
    }
}

/// Position of the first non-digit at or after `i`.
pub open spec fn scan_digits(s: Seq<char>, i: nat) -> nat
    decreases s.len() - i,
{
    if i < s.len() && is_digit(s[i as int]) {
        scan_digits(s, (i + 1) as nat)
    } else {
        i
    }
}

pub broadcast proof fn lemma_scan_digits_bounds(s: Seq<char>, i: nat)
    ensures
        i <= #[trigger] scan_digits(s, i),
        i <= s.len() ==> scan_digits(s, i) <= s.len(),
    decreases s.len() - i,
{
    if i < s.len() && is_digit(s[i as int]) {
        lemma_scan_digits_bounds(s, (i + 1) as nat);
    }
}

/// End of the optional exponent part of a numeric literal beginning at `e`:
/// an `e` or `E`, an optional sign, and at least one digit.  Without the
/// digits the exponent is not consumed at all.
pub open spec fn exponent_end(s: Seq<char>, e: nat) -> nat {
    if e < s.len() && (s[e as int] == 'e' || s[e as int] == 'E') {
        let k = if e + 1 < s.len() && (s[(e + 1) as int] == '+' || s[(e + 1) as int] == '-') {
            (e + 2) as nat
        } else {
            (e + 1) as nat
        };
        let d = scan_digits(s, k);
        if d > k {
            d
        } else {
            e
        }
    } else {
        e
    }
}

pub broadcast proof fn lemma_exponent_end_bounds(s: Seq<char>, e: nat)
    ensures
        e <= #[trigger] exponent_end(s, e),
        e <= s.len() ==> exponent_end(s, e) <= s.len(),
{
    if e < s.len() && (s[e as int] == 'e' || s[e as int] == 'E') {
        let k = if e + 1 < s.len() && (s[(e + 1) as int] == '+' || s[(e + 1) as int] == '-') {
            (e + 2) as nat
        } else {
            (e + 1) as nat
        };
        lemma_scan_digits_bounds(s, k);
    }
}

/// A numeric literal at `i`: an optional sign, then digits with an optional
/// fraction, or a fraction alone, then an optional exponent.  An exponent
/// marker that no digits follow is left unconsumed and does not fail the
/// literal.  Yields the end position and the literal's source text.
pub open spec fn number_token(s: Seq<char>, i: nat) -> Option<(nat, Seq<char>)> {
    let j0 = if i < s.len() && (s[i as int] == '+' || s[i as int] == '-') {
        (i + 1) as nat
    } else {
        i
    };
    let d1 = scan_digits(s, j0);
    if d1 > j0 {
        let f = if d1 < s.len() && s[d1 as int] == '.' {
            scan_digits(s, (d1 + 1) as nat)
        } else {
            d1
        };
        let e = exponent_end(s, f);
        Some((e, s.subrange(i as int, e as int)))
    } else if j0 < s.len() && s[j0 as int] == '.' {
        let d2 = scan_digits(s, (j0 + 1) as nat);
        if d2 > j0 + 1 {
            let e = exponent_end(s, d2);
            Some((e, s.subrange(i as int, e as int)))
        } else {
            None
        }
    } else {
        None
    }
}

pub broadcast proof fn lemma_number_token_bounds(s: Seq<char>, i: nat)
    ensures
        i <= s.len() && #[trigger] number_token(s, i) is Some ==> i < (number_token(s, i)->0).0
            <= s.len(),
{
    let j0 = if i < s.len() && (s[i as int] == '+' || s[i as int] == '-') {
        (i + 1) as nat
    } else {
        i
    };
    if i <= s.len() {
        lemma_scan_digits_bounds(s, j0);
        let d1 = scan_digits(s, j0);
        if d1 < s.len() && s[d1 as int] == '.' {
            lemma_scan_digits_bounds(s, (d1 + 1) as nat);
        }
        lemma_exponent_end_bounds(s, if d1 < s.len() && s[d1 as int] == '.' {
            scan_digits(s, (d1 + 1) as nat)
        } else {
            d1
        });
        if j0 < s.len() && s[j0 as int] == '.' {
            lemma_scan_digits_bounds(s, (j0 + 1) as nat);
            lemma_exponent_end_bounds(s, scan_digits(s, (j0 + 1) as nat));
        }
    }
}

/// The inside of a double-quoted text literal, scanned from just after the
/// opening quote.  A doubled quote stands for one embedded quote character;
/// a single quote closes the literal.  Yields the position after the closing
/// quote and the unescaped content.
pub open spec fn string_body(s: Seq<char>, i: nat) -> Option<(nat, Seq<char>)>
    decreases s.len() - i,
{
    if i >= s.len() {
        None
    } else if s[i as int] == '"' {
        if i + 1 < s.len() && s[(i + 1) as int] == '"' {
            match string_body(s, (i + 2) as nat) {
                None => None,
                Some((j, t)) => Some((j, seq!['"'] + t)),
            }
        } else {
            Some(((i + 1) as nat, Seq::empty()))
        }
    } else {
        match string_body(s, (i + 1) as nat) {
            None => None,
            Some((j, t)) => Some((j, seq![s[i as int]] + t)),
        }
    }
}

pub broadcast proof fn lemma_string_body_bounds(s: Seq<char>, i: nat)
    ensures
        #[trigger] string_body(s, i) is Some ==> i < (string_body(s, i)->0).0 <= s.len(),
    decreases s.len() - i,
{
    if i < s.len() {
        if s[i as int] == '"' {
            if i + 1 < s.len() && s[(i + 1) as int] == '"' {
                lemma_string_body_bounds(s, (i + 2) as nat);
            }
        } else {
            lemma_string_body_bounds(s, (i + 1) as nat);
        }
    }
}

/// A text literal at `i`: an opening quote, then `string_body`.
pub open spec fn string_token(s: Seq<char>, i: nat) -> Option<(nat, Seq<char>)> {
    if i < s.len() && s[i as int] == '"' {
        string_body(s, (i + 1) as nat)
    } else {
        None
    }
}

pub broadcast proof fn lemma_string_token_bounds(s: Seq<char>, i: nat)
    ensures
        #[trigger] string_token(s, i) is Some ==> i < (string_token(s, i)->0).0 <= s.len(),
{
    if i < s.len() && s[i as int] == '"' {
        lemma_string_body_bounds(s, (i + 1) as nat);
    }
}

/// A boolean literal: `TRUE` or `FALSE`.
pub open spec fn boolean_token(s: Seq<char>, i: nat) -> Option<(nat, bool)> {
    if tag_at(s, i, "TRUE"@) {
        Some(((i + "TRUE"@.len()) as nat, true))
    } else if tag_at(s, i, "FALSE"@) {
        Some(((i + "FALSE"@.len()) as nat, false))
    } else {
        None
    }
}

pub broadcast proof fn lemma_boolean_token_bounds(s: Seq<char>, i: nat)
    ensures
        #[trigger] boolean_token(s, i) is Some ==> i < (boolean_token(s, i)->0).0 <= s.len(),
{
    reveal_strlit("TRUE");
    reveal_strlit("FALSE");
}

/// A binary-operator token, with the alternatives tried in the grammar's
/// fixed order, followed by optional whitespace.  A single `/` is the
/// division operator only when the character after it exists and is not a
/// second `/`, which is reserved for comments.
pub open spec fn binary_operator_token(s: Seq<char>, i: nat) -> Option<(nat, BinaryOperation)> {
    if tag_at(s, i, "AND"@) {
        Some((skip_whitespace(s, (i + "AND"@.len()) as nat), BinaryOperation::And))
    } else if tag_at(s, i, "OR"@) {
        Some((skip_whitespace(s, (i + "OR"@.len()) as nat), BinaryOperation::Or))
    } else if tag_at(s, i, "<="@) {
        Some((skip_whitespace(s, (i + "<="@.len()) as nat), BinaryOperation::LTE))
    } else if tag_at(s, i, ">="@) {
        Some((skip_whitespace(s, (i + ">="@.len()) as nat), BinaryOperation::GTE))
    } else if tag_at(s, i, "*"@) {
        Some((skip_whitespace(s, (i + "*"@.len()) as nat), BinaryOperation::Multiply))
    } else if i + 1 < s.len() && s[i as int] == '/' && s[(i + 1) as int] != '/' {
        Some((skip_whitespace(s, (i + 1) as nat), BinaryOperation::Divide))
    } else if tag_at(s, i, "-"@) {
        Some((skip_whitespace(s, (i + "-"@.len()) as nat), BinaryOperation::Subtract))
    } else if tag_at(s, i, "+"@) {
        Some((skip_whitespace(s, (i + "+"@.len()) as nat), BinaryOperation::Add))
    } else if tag_at(s, i, ">"@) {
        Some((skip_whitespace(s, (i + ">"@.len()) as nat), BinaryOperation::GT))
    } else if tag_at(s, i, "<"@) {
        Some((skip_whitespace(s, (i + "<"@.len()) as nat), BinaryOperation::LT))
    } else if tag_at(s, i, "="@) {
        Some((skip_whitespace(s, (i + "="@.len()) as nat), BinaryOperation::EQ))
    } else if tag_at(s, i, "!="@) {
        Some((skip_whitespace(s, (i + "!="@.len()) as nat), BinaryOperation::NE))
    } else if tag_at(s, i, "CONTAINS"@) {
        Some((skip_whitespace(s, (i + "CONTAINS"@.len()) as nat), BinaryOperation::Contains))
    } else if tag_at(s, i, "STARTS WITH"@) {
        Some((skip_whitespace(s, (i + "STARTS WITH"@.len()) as nat), BinaryOperation::StartsWith))
    } else if tag_at(s, i, "ENDS WITH"@) {
        Some((skip_whitespace(s, (i + "ENDS WITH"@.len()) as nat), BinaryOperation::EndsWith))
    } else {
        None
    }
}

pub broadcast proof fn lemma_binary_operator_token_bounds(s: Seq<char>, i: nat)
    ensures
        #[trigger] binary_operator_token(s, i) is Some ==> i < (binary_operator_token(s, i)->0).0
            <= s.len(),
{
    reveal_strlit("AND");
    reveal_strlit("OR");
    reveal_strlit("<=");
    reveal_strlit(">=");
    reveal_strlit("*");
    reveal_strlit("-");
    reveal_strlit("+");
    reveal_strlit(">");
    reveal_strlit("<");
    reveal_strlit("=");
    reveal_strlit("!=");
    reveal_strlit("CONTAINS");
    reveal_strlit("STARTS WITH");
    reveal_strlit("ENDS WITH");
    if binary_operator_token(s, i) is Some {
        assert forall|j: nat| i < j <= s.len() implies i
            < skip_whitespace(s, j) && skip_whitespace(s, j) <= s.len() by {
            lemma_skip_whitespace_bounds(s, j);
        }
    }
}

/// A reserved boundary stands at position `i`: a line ending; one of the
/// punctuation characters that always delimit a name; or, after at least one
/// whitespace character, a boolean literal, a binary operator, or one of the
/// reserved keywords.
pub open spec fn is_boundary(s: Seq<char>, i: nat) -> bool {
    ||| line_ending_at(s, i)
    ||| (i < s.len() && {
        let c = s[i as int];
        c == '[' || c == ']' || c == '(' || c == ')' || c == ',' || c == '"'
    })
    ||| {
        let k = skip_whitespace(s, i);
        k > i && {
            ||| boolean_token(s, k) is Some
            ||| binary_operator_token(s, k) is Some
            ||| tag_at(s, k, "IF"@)
            ||| tag_at(s, k, "//"@)
            ||| tag_at(s, k, "NOT"@)
            ||| tag_at(s, k, "ELSE"@)
            ||| tag_at(s, k, "END IF"@)
            ||| tag_at(s, k, "REPEAT"@)
            ||| tag_at(s, k, "WHILE"@)
            ||| tag_at(s, k, "TO"@)
        }
    }
}

/// Position of the first reserved boundary at or after `i`, if any position
/// before the end of the input is one.
pub open spec fn find_boundary(s: Seq<char>, i: nat) -> Option<nat>
    decreases s.len() - i,
{
    if i >= s.len() {
        None
    } else if is_boundary(s, i) {
        Some(i)
    } else {
        find_boundary(s, (i + 1) as nat)
    }
}

pub broadcast proof fn lemma_find_boundary_bounds(s: Seq<char>, i: nat)
    ensures
        #[trigger] find_boundary(s, i) is Some ==> i <= find_boundary(s, i)->0 < s.len(),
    decreases s.len() - i,
{
    if i < s.len() && !is_boundary(s, i) {
        lemma_find_boundary_bounds(s, (i + 1) as nat);
    }
}

/// An identifier at `i`: the longest run of characters up to the first
/// reserved boundary.  Fails when no boundary follows, or when the boundary
/// stands at `i` itself, which would make the name empty.
pub open spec fn name_token(s: Seq<char>, i: nat) -> Option<(nat, Seq<char>)> {
    match find_boundary(s, i) {
        None => None,
        Some(j) => if j > i {
            Some((j, s.subrange(i as int, j as int)))
        } else {
            None
        },
    }
}

pub broadcast proof fn lemma_name_token_bounds(s: Seq<char>, i: nat)
    ensures
        #[trigger] name_token(s, i) is Some ==> i < (name_token(s, i)->0).0 < s.len(),
{
    lemma_find_boundary_bounds(s, i);
}

/// Trailing free text: at least one whitespace character, then the rest of
/// the line.
pub open spec fn remaining_text(s: Seq<char>, i: nat) -> Option<(nat, Seq<char>)> {
    let k = skip_whitespace(s, i);
    if k > i {
        let e = scan_to_line_ending(s, k);
        Some((e, s.subrange(k as int, e as int)))
    } else {
        None
    }
}

pub broadcast proof fn lemma_remaining_text_bounds(s: Seq<char>, i: nat)
    ensures
        i <= s.len() && #[trigger] remaining_text(s, i) is Some ==> i < (remaining_text(s, i)->0).0
            <= s.len(),
{
    lemma_skip_whitespace_bounds(s, i);
    lemma_scan_to_line_ending_bounds(s, skip_whitespace(s, i));
}

// ---------------------------------------------------------------------------
// Executable scanners, each proved to return what its token function says.
// ---------------------------------------------------------------------------
fn is_space_char(c: char) -> (b: bool)
    ensures
        b == is_space(c),
{
    c == ' ' || c == '\t' || c == '\r' || c == '\n'
}

fn is_digit_char(c: char) -> (b: bool)
    ensures
        b == is_digit(c),
{
    '0' <= c && c <= '9'
}

fn is_line_break_char(c: char) -> (b: bool)
    ensures
        b == (c == '\r' || c == '\n'),
{
    c == '\r' || c == '\n'
}
pub(crate) fn lex_skip_whitespace(s: &str, pos: usize) -> (r: usize)
    requires
        pos <= s@.len(),
    ensures
        r == skip_whitespace(s@, pos as nat),
        pos <= r <= s@.len(),
{
    let n = s.unicode_len();
    let mut cur = pos;
    while cur < n && is_space_char(s.get_char(cur))
        invariant
            pos <= cur <= n,
            n == s@.len(),
            skip_whitespace(s@, pos as nat) == skip_whitespace(s@, cur as nat),
        decreases n - cur,
    {
        cur = cur + 1;
    }
    cur
}

pub(crate) fn lex_scan_to_line_ending(s: &str, pos: usize) -> (r: usize)
    requires
        pos <= s@.len(),
    ensures
        r == scan_to_line_ending(s@, pos as nat),
        pos <= r <= s@.len(),
{
    let n = s.unicode_len();
    let mut cur = pos;
    while cur < n && !is_line_break_char(s.get_char(cur))
        invariant
            pos <= cur <= n,
            n == s@.len(),
            scan_to_line_ending(s@, pos as nat) == scan_to_line_ending(s@, cur as nat),
        decreases n - cur,
    {
        cur = cur + 1;
    }
    cur
}

pub(crate) fn lex_scan_digits(s: &str, pos: usize) -> (r: usize)
    requires
        pos <= s@.len(),
    ensures
        r == scan_digits(s@, pos as nat),
        pos <= r <= s@.len(),
{
    let n = s.unicode_len();
    let mut cur = pos;
    while cur < n && is_digit_char(s.get_char(cur))
        invariant
            pos <= cur <= n,
            n == s@.len(),
            scan_digits(s@, pos as nat) == scan_digits(s@, cur as nat),
        decreases n - cur,
    {
        cur = cur + 1;
    }
    cur
}

pub(crate) fn lex_match_tag(s: &str, pos: usize, t: &str) -> (b: bool)
    requires
        pos <= s@.len(),
    ensures
        b == tag_at(s@, pos as nat, t@),
{
    let n = s.unicode_len();
    let tn = t.unicode_len();
    if n - pos < tn {
        return false;
    }
    let mut k: usize = 0;
    while k < tn
        invariant
            0 <= k <= tn,
            pos + tn <= n,
            n == s@.len(),
            tn == t@.len(),
            forall|m: int| 0 <= m < k ==> s@[pos + m] == t@[m],
        decreases tn - k,
    {
        if s.get_char(pos + k) != t.get_char(k) {
            proof {
                if tag_at(s@, pos as nat, t@) {
                    assert(s@.subrange(pos as int, pos + tn as int)[k as int] == t@[k as int]);
                }
            }
            return false;
        }
        k = k + 1;
    }
    proof {
        assert(s@.subrange(pos as int, pos + tn as int) =~= t@);
    }
    true
}

pub(crate) fn lex_line_ending_at(s: &str, pos: usize) -> (b: bool)
    requires
        pos <= s@.len(),
    ensures
        b == line_ending_at(s@, pos as nat),
{
    lex_match_tag(s, pos, "\n") || lex_match_tag(s, pos, "\r\n")
}

/// End of the optional exponent part beginning at `e`.
fn lex_exponent_end(s: &str, e: usize) -> (r: usize)
    requires
        e <= s@.len(),
    ensures
        r == exponent_end(s@, e as nat),
        e <= r <= s@.len(),
{
    let n = s.unicode_len();
    if e < n && {
        let c = s.get_char(e);
        c == 'e' || c == 'E'
    } {
        let k = if e + 1 < n && {
            let c = s.get_char(e + 1);
            c == '+' || c == '-'
        } {
            e + 2
        } else {
            e + 1
        };
        let d = lex_scan_digits(s, k);
        if d > k {
            d
        } else {
            e
        }
    } else {
        e
    }
}

pub(crate) fn lex_number_token(s: &str, pos: usize) -> (r: Option<(usize, String)>)
    requires
        pos <= s@.len(),
    ensures
        match r {
            Some((j, t)) => number_token(s@, pos as nat) == Some(((j as nat), t@)) && pos < j
                <= s@.len(),
            None => number_token(s@, pos as nat) is None,
        },
{
    let n = s.unicode_len();
    let j0 = if pos < n && {
        let c = s.get_char(pos);
        c == '+' || c == '-'
    } {
        pos + 1
    } else {
        pos
    };
    let d1 = lex_scan_digits(s, j0);
    if d1 > j0 {
        let f = if d1 < n && s.get_char(d1) == '.' {
            lex_scan_digits(s, d1 + 1)
        } else {
            d1
        };
        let e = lex_exponent_end(s, f);
        Some((e, s.substring_char(pos, e).to_owned()))
    } else if j0 < n && s.get_char(j0) == '.' {
        let d2 = lex_scan_digits(s, j0 + 1);
        if d2 > j0 + 1 {
            let e = lex_exponent_end(s, d2);
            Some((e, s.substring_char(pos, e).to_owned()))
        } else {
            None
        }
    } else {
        None
    }
}

/// Where the inside of a literal holds no quote at all, it is unterminated.
proof fn lemma_string_body_unterminated(s: Seq<char>, i: nat)
    requires
        forall|m: int| i <= m < s.len() ==> s[m] != '"',
    ensures
        string_body(s, i) is None,
    decreases s.len() - i,
{
    if i < s.len() {
        lemma_string_body_unterminated(s, (i + 1) as nat);
    }
}

/// The body scan in one step per quote-free segment: with the next quote of
/// the literal at `q`, the body up to `q` is taken verbatim, and the quote
/// either closes the literal or, doubled, contributes one quote character.
proof fn lemma_string_body_segment(s: Seq<char>, i: nat, q: nat)
    requires
        i <= q < s.len(),
        s[q as int] == '"',
        forall|m: int| i <= m < q ==> s[m] != '"',
    ensures
        (q + 1 < s.len() && s[(q + 1) as int] == '"') ==> string_body(s, i) == (match string_body(
            s,
            (q + 2) as nat,
        ) {
            None => None::<(nat, Seq<char>)>,
            Some((j, t)) => Some((j, s.subrange(i as int, (q + 1) as int) + t)),
        }),
        !(q + 1 < s.len() && s[(q + 1) as int] == '"') ==> string_body(s, i) == Some(
            (((q + 1) as nat), s.subrange(i as int, q as int)),
        ),
    decreases q - i,
{
    if i == q {
        if q + 1 < s.len() && s[(q + 1) as int] == '"' {
            match string_body(s, (q + 2) as nat) {
                None => {},
                Some((j, t)) => {
                    assert(seq!['"'] + t =~= s.subrange(i as int, (q + 1) as int) + t);
                },
            }
        } else {
            assert(Seq::<char>::empty() =~= s.subrange(i as int, q as int));
        }
    } else {
        lemma_string_body_segment(s, (i + 1) as nat, q);
        if q + 1 < s.len() && s[(q + 1) as int] == '"' {
            match string_body(s, (q + 2) as nat) {
                None => {},
                Some((j, t)) => {
                    assert(seq![s[i as int]] + (s.subrange((i + 1) as int, (q + 1) as int) + t)
                        =~= s.subrange(i as int, (q + 1) as int) + t);
                },
            }
        } else {
            assert(seq![s[i as int]] + s.subrange((i + 1) as int, q as int) =~= s.subrange(
                i as int,
                q as int,
            ));
        }
    }
}

fn lex_string_body(s: &str, pos: usize) -> (r: Option<(usize, String)>)
    requires
        pos <= s@.len(),
    ensures
        match r {
            Some((j, t)) => string_body(s@, pos as nat) == Some(((j as nat), t@)) && pos < j
                <= s@.len(),
            None => string_body(s@, pos as nat) is None,
        },
    decreases s@.len() - pos,
{
    let n = s.unicode_len();
    let mut q = pos;
    while q < n && s.get_char(q) != '"'
        invariant
            pos <= q <= n,
            n == s@.len(),
            forall|m: int| pos <= m < q ==> s@[m] != '"',
        decreases n - q,
    {
        q = q + 1;
    }
    if q == n {
        proof {
            lemma_string_body_unterminated(s@, pos as nat);
        }
        return None;
    }
    proof {
        lemma_string_body_segment(s@, pos as nat, q as nat);
        lemma_string_body_bounds(s@, pos as nat);
    }
    if q + 1 < n && s.get_char(q + 1) == '"' {
        match lex_string_body(s, q + 2) {
            None => None,
            Some((j, t)) => {
                let mut seg = s.substring_char(pos, q + 1).to_owned();
                seg.append(t.as_str());
                Some((j, seg))
            },
        }
    } else {
        Some((q + 1, s.substring_char(pos, q).to_owned()))
    }
}

pub(crate) fn lex_string_token(s: &str, pos: usize) -> (r: Option<(usize, String)>)
    requires
        pos <= s@.len(),
    ensures
        match r {
            Some((j, t)) => string_token(s@, pos as nat) == Some(((j as nat), t@)) && pos < j
                <= s@.len(),
            None => string_token(s@, pos as nat) is None,
        },
{
    let n = s.unicode_len();
    if pos < n && s.get_char(pos) == '"' {
        lex_string_body(s, pos + 1)
    } else {
        None
    }
}

pub(crate) fn lex_boolean_token(s: &str, pos: usize) -> (r: Option<(usize, bool)>)
    requires
        pos <= s@.len(),
    ensures
        match r {
            Some((j, b)) => boolean_token(s@, pos as nat) == Some(((j as nat), b)) && pos < j
                <= s@.len(),
            None => boolean_token(s@, pos as nat) is None,
        },
{
    proof {
        lemma_boolean_token_bounds(s@, pos as nat);
    }
    let n = s.unicode_len();
    if lex_match_tag(s, pos, "TRUE") {
        Some((pos + "TRUE".unicode_len(), true))
    } else if lex_match_tag(s, pos, "FALSE") {
        Some((pos + "FALSE".unicode_len(), false))
    } else {
        None
    }
}

pub(crate) fn lex_binary_operator(s: &str, pos: usize) -> (r: Option<(usize, BinaryOperation)>)
    requires
        pos <= s@.len(),
    ensures
        match r {
            Some((j, op)) => binary_operator_token(s@, pos as nat) == Some(((j as nat), op))
                && pos < j <= s@.len(),
            None => binary_operator_token(s@, pos as nat) is None,
        },
{
    proof {
        lemma_binary_operator_token_bounds(s@, pos as nat);
    }
    let n = s.unicode_len();
    if lex_match_tag(s, pos, "AND") {
        Some((lex_skip_whitespace(s, pos + "AND".unicode_len()), BinaryOperation::And))
    } else if lex_match_tag(s, pos, "OR") {
        Some((lex_skip_whitespace(s, pos + "OR".unicode_len()), BinaryOperation::Or))
    } else if lex_match_tag(s, pos, "<=") {
        Some((lex_skip_whitespace(s, pos + "<=".unicode_len()), BinaryOperation::LTE))
    } else if lex_match_tag(s, pos, ">=") {
        Some((lex_skip_whitespace(s, pos + ">=".unicode_len()), BinaryOperation::GTE))
    } else if lex_match_tag(s, pos, "*") {
        Some((lex_skip_whitespace(s, pos + "*".unicode_len()), BinaryOperation::Multiply))
    } else if n - pos > 1 && s.get_char(pos) == '/' && s.get_char(pos + 1) != '/' {
        Some((lex_skip_whitespace(s, pos + 1), BinaryOperation::Divide))
    } else if lex_match_tag(s, pos, "-") {
        Some((lex_skip_whitespace(s, pos + "-".unicode_len()), BinaryOperation::Subtract))
    } else if lex_match_tag(s, pos, "+") {
        Some((lex_skip_whitespace(s, pos + "+".unicode_len()), BinaryOperation::Add))
    } else if lex_match_tag(s, pos, ">") {
        Some((lex_skip_whitespace(s, pos + ">".unicode_len()), BinaryOperation::GT))
    } else if lex_match_tag(s, pos, "<") {
        Some((lex_skip_whitespace(s, pos + "<".unicode_len()), BinaryOperation::LT))
    } else if lex_match_tag(s, pos, "=") {
        Some((lex_skip_whitespace(s, pos + "=".unicode_len()), BinaryOperation::EQ))
    } else if lex_match_tag(s, pos, "!=") {
        Some((lex_skip_whitespace(s, pos + "!=".unicode_len()), BinaryOperation::NE))
    } else if lex_match_tag(s, pos, "CONTAINS") {
        Some((lex_skip_whitespace(s, pos + "CONTAINS".unicode_len()), BinaryOperation::Contains))
    } else if lex_match_tag(s, pos, "STARTS WITH") {
        Some(
            (
                lex_skip_whitespace(s, pos + "STARTS WITH".unicode_len()),
                BinaryOperation::StartsWith,
            ),
        )
    } else if lex_match_tag(s, pos, "ENDS WITH") {
        Some(
            (lex_skip_whitespace(s, pos + "ENDS WITH".unicode_len()), BinaryOperation::EndsWith),
        )
    } else {
        None
    }
}

pub(crate) fn lex_is_boundary(s: &str, pos: usize) -> (b: bool)
    requires
        pos <= s@.len(),
    ensures
        b == is_boundary(s@, pos as nat),
{
    if lex_line_ending_at(s, pos) {
        return true;
    }
    let n = s.unicode_len();
    if pos < n {
        let c = s.get_char(pos);
        if c == '[' || c == ']' || c == '(' || c == ')' || c == ',' || c == '"' {
            return true;
        }
    }
    let k = lex_skip_whitespace(s, pos);
    if k > pos {
        if lex_boolean_token(s, k).is_some() {
            return true;
        }
        if lex_binary_operator(s, k).is_some() {
            return true;
        }
        if lex_match_tag(s, k, "IF") || lex_match_tag(s, k, "//") || lex_match_tag(s, k, "NOT")
            || lex_match_tag(s, k, "ELSE") || lex_match_tag(s, k, "END IF") || lex_match_tag(
            s,
            k,
            "REPEAT",
        ) || lex_match_tag(s, k, "WHILE") || lex_match_tag(s, k, "TO") {
            return true;
        }
    }
    false
}

pub(crate) fn lex_find_boundary(s: &str, pos: usize) -> (r: Option<usize>)
    requires
        pos <= s@.len(),
    ensures
        match r {
            Some(j) => find_boundary(s@, pos as nat) == Some(j as nat) && pos <= j < s@.len(),
            None => find_boundary(s@, pos as nat) is None,
        },
{
    let n = s.unicode_len();
    let mut cur = pos;
    while cur < n && !lex_is_boundary(s, cur)
        invariant
            pos <= cur <= n,
            n == s@.len(),
            find_boundary(s@, pos as nat) == find_boundary(s@, cur as nat),
        decreases n - cur,
    {
        cur = cur + 1;
    }
    if cur == n {
        None
    } else {
        Some(cur)
    }
}

pub(crate) fn lex_name_token(s: &str, pos: usize) -> (r: Option<(usize, String)>)
    requires
        pos <= s@.len(),
    ensures
        match r {
            Some((j, t)) => name_token(s@, pos as nat) == Some(((j as nat), t@)) && pos < j
                < s@.len(),
            None => name_token(s@, pos as nat) is None,
        },
{
    match lex_find_boundary(s, pos) {
        None => None,
        Some(j) => if j > pos {
            Some((j, s.substring_char(pos, j).to_owned()))
        } else {
            None
        },
    }
}

pub(crate) fn lex_remaining_text(s: &str, pos: usize) -> (r: Option<(usize, String)>)
    requires
        pos <= s@.len(),
    ensures
        match r {
            Some((j, t)) => remaining_text(s@, pos as nat) == Some(((j as nat), t@)) && pos < j
                <= s@.len(),
            None => remaining_text(s@, pos as nat) is None,
        },
{
    let k = lex_skip_whitespace(s, pos);
    if k > pos {
        let e = lex_scan_to_line_ending(s, k);
        Some((e, s.substring_char(k, e).to_owned()))
    } else {
        None
    }
}

} // verus!

//! Turning raw recorded text into a move list.
//!
//! A record is one move per line, four comma-separated integer numerals:
//! origin x, origin y, destination x, destination y. A final newline and
//! carriage returns are tolerated; anything else malformed is a parse
//! error naming the offending line, never a game verdict.

use vstd::prelude::*;

use crate::game::datas;
use crate::moves::{Move, MoveData, Position};

verus! {

/// A character sequence cut at every occurrence of `sep`, as `str::split`
/// cuts: one piece more than there are separators, an empty text giving a
/// single empty piece.
pub open spec fn split_at_sep(s: Seq<char>, sep: char) -> Seq<Seq<char>>
    decreases s.len(),
{
    if s.len() == 0 {
        seq![Seq::<char>::empty()]
    } else if s[0] == sep {
        seq![Seq::<char>::empty()] + split_at_sep(s.drop_first(), sep)
    } else {
        let rest = split_at_sep(s.drop_first(), sep);
        seq![seq![s[0]] + rest[0]] + rest.drop_first()
    }
}

/// A split has at least one piece.
pub proof fn lemma_split_nonempty(s: Seq<char>, sep: char)
    ensures
        split_at_sep(s, sep).len() >= 1,
    decreases s.len(),
{
    if s.len() > 0 {
        lemma_split_nonempty(s.drop_first(), sep);
    }
}

/// Reading a split left to right: while `s[start..i]` holds no separator,
/// the split of the tail from `start` begins with that piece, and continues
/// after a separator at `i` with the split of the tail from `i + 1`.
proof fn lemma_split_section(s: Seq<char>, sep: char, start: int, i: int)
    requires
        0 <= start <= i <= s.len(),
        forall|j: int| start <= j < i ==> s[j] != sep,
    ensures
        i == s.len() ==> split_at_sep(s.skip(start), sep) == seq![s.subrange(start, i)],
        i < s.len() && s[i] == sep ==> split_at_sep(s.skip(start), sep) == seq![
            s.subrange(start, i),
        ] + split_at_sep(s.skip(i + 1), sep),
    decreases i - start,
{
    lemma_split_nonempty(s.skip(start), sep);
    if start == i {
        if i == s.len() {
            assert(s.skip(start) =~= Seq::<char>::empty());
            assert(s.subrange(start, i) =~= Seq::<char>::empty());
        } else if s[i] == sep {
            assert(s.skip(start).len() > 0 && s.skip(start)[0] == sep);
            assert(s.skip(start).drop_first() =~= s.skip(i + 1));
            assert(s.subrange(start, i) =~= Seq::<char>::empty());
        }
    } else {
        let t = s.skip(start);
        assert(t[0] == s[start]);
        assert(t.drop_first() =~= s.skip(start + 1));
        lemma_split_section(s, sep, start + 1, i);
        lemma_split_nonempty(s.skip(start + 1), sep);
        let rest = split_at_sep(s.skip(start + 1), sep);
        if i == s.len() {
            assert(rest == seq![s.subrange(start + 1, i)]);
            assert(seq![t[0]] + rest[0] =~= s.subrange(start, i));
            assert(split_at_sep(t, sep) =~= seq![s.subrange(start, i)]);
        } else if s[i] == sep {
            assert(rest == seq![s.subrange(start + 1, i)] + split_at_sep(s.skip(i + 1), sep));
            assert(seq![t[0]] + rest[0] =~= s.subrange(start, i));
            assert(rest.drop_first() =~= split_at_sep(s.skip(i + 1), sep));
            assert(split_at_sep(t, sep) =~= seq![s.subrange(start, i)] + split_at_sep(
                s.skip(i + 1),
                sep,
            ));
        }
    }
}

/// The views of a list of owned pieces.
pub open spec fn token_views(ts: Seq<String>) -> Seq<Seq<char>> {
    ts.map_values(|t: String| t@)
}

/// Cuts `s` at every occurrence of `sep` into owned pieces.
pub fn split_char(s: &str, sep: char) -> (r: Vec<String>)
    ensures
        token_views(r@) == split_at_sep(s@, sep),
        r@.len() >= 1,
{
    let n: usize = s.unicode_len();
    let mut out: Vec<String> = Vec::new();
    let mut start: usize = 0;
    let mut i: usize = 0;
    proof {
        assert(s@.skip(0) =~= s@);
        assert(token_views(out@) + split_at_sep(s@.skip(0), sep) =~= split_at_sep(s@, sep));
    }
    while i < n
        invariant
            n == s@.len(),
            start <= i <= n,
            forall|j: int| start <= j < i ==> s@[j] != sep,
            split_at_sep(s@, sep) == token_views(out@) + split_at_sep(s@.skip(start as int), sep),
        decreases n - i,
    {
        let c: char = s.get_char(i);
        if c == sep {
            let tok: String = String::from_str(s.substring_char(start, i));
            proof {
                lemma_split_section(s@, sep, start as int, i as int);
                assert(token_views(out@.push(tok)) =~= token_views(out@) + seq![
                    s@.subrange(start as int, i as int),
                ]);
                assert(token_views(out@.push(tok)) + split_at_sep(s@.skip(i as int + 1), sep)
                    =~= token_views(out@) + split_at_sep(s@.skip(start as int), sep));
            }
            out.push(tok);
            start = i + 1;
        }
        i = i + 1;
    }
    let tok: String = String::from_str(s.substring_char(start, n));
    proof {
        lemma_split_section(s@, sep, start as int, n as int);
        assert(token_views(out@.push(tok)) =~= token_views(out@) + seq![
            s@.subrange(start as int, n as int),
        ]);
        assert(token_views(out@.push(tok)) =~= split_at_sep(s@, sep));
    }
    out.push(tok);
    out
}

/// The character is a decimal digit.
pub open spec fn is_digit(c: char) -> bool {
    48 <= c as u32 <= 57
}

/// The value of a decimal digit character.
pub open spec fn digit_val(c: char) -> int {
    c as u32 - 48
}

/// Every character of the sequence is a decimal digit.
pub open spec fn all_digits(s: Seq<char>) -> bool {
    forall|i: int| 0 <= i < s.len() ==> is_digit(#[trigger] s[i])
}

/// The value of a sequence of decimal digits, most significant first.
pub open spec fn digits_val(s: Seq<char>) -> int
    decreases s.len(),
{
    if s.len() == 0 {
        0
    } else {
        digits_val(s.drop_last()) * 10 + digit_val(s.last())
    }
}

/// The sequence is an integer numeral: an optional sign followed by at
/// least one decimal digit, exactly the texts `str::parse` accepts for an
/// integer type.
pub open spec fn is_int_literal(s: Seq<char>) -> bool {
    if s.len() == 0 {
        false
    } else if s[0] == '-' || s[0] == '+' {
        s.len() >= 2 && all_digits(s.skip(1))
    } else {
        all_digits(s)
    }
}

/// The value of an integer numeral.
pub open spec fn int_literal_val(s: Seq<char>) -> int {
    if s.len() > 0 && s[0] == '-' {
        -digits_val(s.skip(1))
    } else if s.len() > 0 && s[0] == '+' {
        digits_val(s.skip(1))
    } else {
        digits_val(s)
    }
}

/// The value is representable as an `i32`.
pub open spec fn fits_i32(v: int) -> bool {
    -0x8000_0000 <= v < 0x8000_0000
}

/// A digit sequence has a nonnegative value.
proof fn lemma_digits_val_nonneg(s: Seq<char>)
    requires
        all_digits(s),
    ensures
        digits_val(s) >= 0,
    decreases s.len(),
{
    if s.len() > 0 {
        assert(forall|i: int| 0 <= i < s.drop_last().len() ==> is_digit(#[trigger] s.drop_last()[i]));
        lemma_digits_val_nonneg(s.drop_last());
    }
}

/// Dropping trailing digits cannot increase a digit sequence's value.
proof fn lemma_digits_prefix(s: Seq<char>, k: int)
    requires
        all_digits(s),
        0 <= k <= s.len(),
    ensures
        digits_val(s.take(k)) <= digits_val(s),
    decreases s.len() - k,
{
    if k < s.len() {
        assert(s.take(k + 1).drop_last() =~= s.take(k));
        assert(s.take(k + 1).last() == s[k]);
        assert(forall|i: int| 0 <= i < s.take(k).len() ==> is_digit(#[trigger] s.take(k)[i]));
        lemma_digits_val_nonneg(s.take(k));
        lemma_digits_prefix(s, k + 1);
    } else {
        assert(s.take(k) =~= s);
    }
}

/// Reads an integer numeral as an `i32`: the value when the text is a
/// numeral in range, and nothing on any other text.
pub fn parse_i32(s: &str) -> (r: Option<i32>)
    ensures
        r is Some <==> is_int_literal(s@) && fits_i32(int_literal_val(s@)),
        r matches Some(v) ==> v as int == int_literal_val(s@),
{
    let n: usize = s.unicode_len();
    if n == 0 {
        return None;
    }
    let c0: char = s.get_char(0);
    let start: usize = if c0 == '-' || c0 == '+' {
        1
    } else {
        0
    };
    let neg: bool = c0 == '-';
    if n == start {
        return None;
    }
    let ghost sd = s@.skip(start as int);
    let mut acc: u64 = 0;
    let mut i: usize = start;
    proof {
        assert(s@.subrange(start as int, start as int) =~= Seq::<char>::empty());
    }
    while i < n
        invariant
            n == s@.len(),
            n > start,
            start <= i <= n,
            start == 1 <==> (s@[0] == '-' || s@[0] == '+'),
            start <= 1,
            sd == s@.skip(start as int),
            forall|j: int| start <= j < i ==> is_digit(#[trigger] s@[j]),
            acc as int == digits_val(s@.subrange(start as int, i as int)),
            acc <= 0x8000_0000,
        decreases n - i,
    {
        let c: char = s.get_char(i);
        let d: u32 = c as u32;
        if d < 48 || d > 57 {
            proof {
                if is_int_literal(s@) {
                    if start == 1 {
                        assert(is_digit(s@.skip(1)[i as int - 1]));
                    } else {
                        assert(is_digit(s@[i as int]));
                    }
                }
            }
            return None;
        }
        proof {
            assert(s@.subrange(start as int, i as int + 1).drop_last() =~= s@.subrange(
                start as int,
                i as int,
            ));
            assert(s@.subrange(start as int, i as int + 1).last() == s@[i as int]);
        }
        acc = acc * 10 + ((d - 48) as u64);
        if acc > 0x8000_0000 {
            proof {
                if is_int_literal(s@) {
                    if start == 0 {
                        assert(sd =~= s@);
                    }
                    assert(all_digits(sd));
                    assert(sd.take(i as int + 1 - start) =~= s@.subrange(
                        start as int,
                        i as int + 1,
                    ));
                    lemma_digits_prefix(sd, i as int + 1 - start);
                }
            }
            return None;
        }
        i = i + 1;
    }
    proof {
        assert(s@.subrange(start as int, n as int) =~= sd);
        assert(all_digits(sd));
        if start == 0 {
            assert(sd =~= s@);
        }
    }
    if neg {
        Some((-(acc as i64)) as i32)
    } else {
        if acc > 0x7FFF_FFFF {
            None
        } else {
            Some(acc as i32)
        }
    }
}

/// The text with one trailing newline removed, then one trailing carriage
/// return: what is left of a line once its terminator is gone.
pub open spec fn trim_line_end(s: Seq<char>) -> Seq<char> {
    let t = if s.len() > 0 && s.last() == '\n' {
        s.drop_last()
    } else {
        s
    };
    if t.len() > 0 && t.last() == '\r' {
        t.drop_last()
    } else {
        t
    }
}

/// Strips one trailing newline, then one trailing carriage return.
pub fn clean_input<'a>(s: &'a str) -> (r: &'a str)
    ensures
        r@ == trim_line_end(s@),
{
    let mut n: usize = s.unicode_len();
    let mut r: &str = s;
    proof {
        assert(r@ =~= s@.subrange(0, n as int));
    }
    if n > 0 && r.get_char(n - 1) == '\n' {
        r = r.substring_char(0, n - 1);
        n = n - 1;
        proof {
            assert(r@ =~= s@.drop_last());
        }
    }
    if n > 0 && r.get_char(n - 1) == '\r' {
        let prev: &str = r;
        r = r.substring_char(0, n - 1);
        proof {
            assert(r@ =~= prev@.drop_last());
        }
    }
    r
}

/// Which rule a malformed line broke.
#[derive(Debug)]
pub enum ParseErrorKind {
    /// A comma-separated field is not an integer numeral in `i32` range;
    /// the field's text is carried for display.
    NotANumber(String),
    /// The line does not hold exactly four fields.
    WrongCount,
}

/// A malformed line of a record: its 1-based number, its text with the
/// line terminator removed, and the rule it broke.
#[derive(Debug)]
pub struct ParseError {
    pub line: usize,
    pub text: String,
    pub kind: ParseErrorKind,
}

/// The lines of a record: the text, minus one final line terminator, cut at
/// every newline, each line then shorn of a trailing carriage return.
pub open spec fn line_texts(s: Seq<char>) -> Seq<Seq<char>> {
    split_at_sep(trim_line_end(s), '\n').map_values(|l: Seq<char>| trim_line_end(l))
}

/// The comma-separated fields of a line.
pub open spec fn fields_of(l: Seq<char>) -> Seq<Seq<char>> {
    split_at_sep(l, ',')
}

/// The field is an integer numeral representable as an `i32`.
pub open spec fn good_field(f: Seq<char>) -> bool {
    is_int_literal(f) && fits_i32(int_literal_val(f))
}

/// The line parses: exactly four fields, each a numeral in range.
pub open spec fn line_ok(l: Seq<char>) -> bool {
    &&& fields_of(l).len() == 4
    &&& forall|k: int| 0 <= k < 4 ==> good_field(#[trigger] fields_of(l)[k])
}

/// The move a well-formed line describes, recorded as line number `ln`.
pub open spec fn record_of(l: Seq<char>, ln: int) -> MoveData {
    MoveData {
        init_x: int_literal_val(fields_of(l)[0]),
        init_y: int_literal_val(fields_of(l)[1]),
        dest_x: int_literal_val(fields_of(l)[2]),
        dest_y: int_literal_val(fields_of(l)[3]),
        line: ln,
        src: l,
    }
}

/// The whole move list a well-formed record describes.
pub open spec fn records_of(s: Seq<char>) -> Seq<MoveData> {
    Seq::new(line_texts(s).len(), |i: int| record_of(line_texts(s)[i], i + 1))
}

/// Every line of the record parses.
pub open spec fn all_lines_ok(s: Seq<char>) -> bool {
    forall|i: int| 0 <= i < line_texts(s).len() ==> line_ok(#[trigger] line_texts(s)[i])
}

/// The error names the first line of the record that does not parse,
/// carries that line's text, and says which rule it broke: a field that is
/// no numeral in range (naming the first such field) before a wrong field
/// count.
pub open spec fn parse_error_describes(s: Seq<char>, e: ParseError) -> bool {
    let ls = line_texts(s);
    &&& 1 <= e.line as int <= ls.len()
    &&& !line_ok(ls[e.line - 1])
    &&& forall|j: int| 0 <= j < e.line - 1 ==> line_ok(#[trigger] ls[j])
    &&& e.text@ == ls[e.line - 1]
    &&& match e.kind {
        ParseErrorKind::NotANumber(t) => exists|k: int|
            0 <= k < fields_of(ls[e.line - 1]).len() && t@ == fields_of(ls[e.line - 1])[k]
                && !good_field(#[trigger] fields_of(ls[e.line - 1])[k]) && forall|j: int|
                0 <= j < k ==> good_field(#[trigger] fields_of(ls[e.line - 1])[j]),
        ParseErrorKind::WrongCount => fields_of(ls[e.line - 1]).len() != 4 && forall|k: int|
            0 <= k < fields_of(ls[e.line - 1]).len() ==> good_field(
                #[trigger] fields_of(ls[e.line - 1])[k],
            ),
    }
}

/// Reads a whole record into a move list: the moves of [`records_of`] when
/// every line parses, and otherwise the first malformed line, its text, and
/// the rule it broke.
pub fn parse_moves(input: &str) -> (r: Result<Vec<Move>, ParseError>)
    ensures
        r is Ok <==> all_lines_ok(input@),
        r matches Ok(v) ==> datas(v@) == records_of(input@),
        r matches Err(e) ==> parse_error_describes(input@, e),
{
    let cleaned: &str = clean_input(input);
    let lines: Vec<String> = split_char(cleaned, '\n');
    let ghost ls = line_texts(input@);
    proof {
        assert(ls =~= token_views(lines@).map_values(|l: Seq<char>| trim_line_end(l)));
    }
    let mut out: Vec<Move> = Vec::new();
    let mut i: usize = 0;
    while i < lines.len()
        invariant
            ls == line_texts(input@),
            ls.len() == lines@.len(),
            ls =~= token_views(lines@).map_values(|l: Seq<char>| trim_line_end(l)),
            out@.len() == i,
            i <= lines@.len(),
            forall|j: int| 0 <= j < i ==> line_ok(#[trigger] ls[j]),
            forall|j: int| 0 <= j < i ==> (#[trigger] out@[j])@ == record_of(ls[j], j + 1),
        decreases lines@.len() - i,
    {
        let ln: usize = i + 1;
        let line: &str = clean_input(lines[i].as_str());
        proof {
            assert(line@ == ls[i as int]);
        }
        let fields: Vec<String> = split_char(line, ',');
        let mut vals: Vec<i32> = Vec::new();
        let mut k: usize = 0;
        while k < fields.len()
            invariant
                ls == line_texts(input@),
                ls.len() == lines@.len(),
                i < lines@.len(),
                ln as int == i + 1,
                forall|j: int| 0 <= j < i ==> line_ok(#[trigger] ls[j]),
                line@ == ls[i as int],
                token_views(fields@) == fields_of(line@),
                vals@.len() == k,
                k <= fields@.len(),
                forall|j: int| 0 <= j < k ==> good_field(#[trigger] fields_of(line@)[j]),
                forall|j: int|
                    0 <= j < k ==> (#[trigger] vals@[j]) as int == int_literal_val(
                        fields_of(line@)[j],
                    ),
            decreases fields@.len() - k,
        {
            match parse_i32(fields[k].as_str()) {
                None => {
                    let tok: String = fields[k].clone();
                    let e = ParseError {
                        line: ln,
                        text: String::from_str(line),
                        kind: ParseErrorKind::NotANumber(tok),
                    };
                    proof {
                        assert(!good_field(fields_of(line@)[k as int]));
                        assert(!line_ok(line@));
                        assert(line_texts(input@)[e.line - 1] == line@);
                        assert((k as int) < fields_of(line@).len());
                        assert(tok@ == fields_of(line@)[k as int]);
                        assert(forall|j: int|
                            0 <= j < k as int ==> good_field(#[trigger] fields_of(line@)[j]));
                    }
                    return Err(e);
                },
                Some(v) => {
                    vals.push(v);
                },
            }
            k = k + 1;
        }
        if fields.len() != 4 {
            return Err(
                ParseError {
                    line: ln,
                    text: String::from_str(line),
                    kind: ParseErrorKind::WrongCount,
                },
            );
        }
        let mov = Move {
            initial: Position { x: vals[0], y: vals[1] },
            destination: Position { x: vals[2], y: vals[3] },
            line: ln,
            src: String::from_str(line),
        };
        out.push(mov);
        i = i + 1;
    }
    proof {
        assert(datas(out@) =~= records_of(input@));
    }
    Ok(out)
}

} // verus!

use vstd::prelude::*;
use crate::error::LogError;

verus! {

/// A calendar date, no time component. Entries carry one, and it is stored
/// in the canonical `YYYY-MM-DD` text form that `date_text` describes, so
/// years have at most four digits.
#[derive(Clone, Copy, Debug, PartialEq, Eq, Structural)]
pub struct Date {
    pub year: i32,
    pub month: u32,
    pub day: u32,
}

pub open spec fn is_leap_year(y: int) -> bool {
    y % 4 == 0 && (y % 100 != 0 || y % 400 == 0)
}

pub open spec fn days_in_month(y: int, m: int) -> int {
    if m == 2 {
        if is_leap_year(y) {
            29
        } else {
            28
        }
    } else if m == 4 || m == 6 || m == 9 || m == 11 {
        30
    } else {
        31
    }
}

/// A date the store accepts: four-digit year, real month, real day of that
/// month (leap years included).
pub open spec fn valid_date(d: Date) -> bool {
    &&& 0 <= d.year <= 9999
    &&& 1 <= d.month <= 12
    &&& 1 <= d.day <= days_in_month(d.year as int, d.month as int)
}

pub open spec fn digit_char(n: int) -> char {
    if n == 0 {
        '0'
    } else if n == 1 {
        '1'
    } else if n == 2 {
        '2'
    } else if n == 3 {
        '3'
    } else if n == 4 {
        '4'
    } else if n == 5 {
        '5'
    } else if n == 6 {
        '6'
    } else if n == 7 {
        '7'
    } else if n == 8 {
        '8'
    } else {
        '9'
    }
}

/// The value of a decimal digit character, or -1 for any other character.
pub open spec fn digit_val(c: char) -> int {
    if c == '0' {
        0
    } else if c == '1' {
        1
    } else if c == '2' {
        2
    } else if c == '3' {
        3
    } else if c == '4' {
        4
    } else if c == '5' {
        5
    } else if c == '6' {
        6
    } else if c == '7' {
        7
    } else if c == '8' {
        8
    } else if c == '9' {
        9
    } else {
        -1
    }
}

pub open spec fn is_digit(c: char) -> bool {
    digit_val(c) >= 0
}

/// The canonical `YYYY-MM-DD` text of a date, zero-padded.
pub open spec fn date_text(d: Date) -> Seq<char> {
    seq![
        digit_char(d.year as int / 1000),
        digit_char(d.year as int / 100 % 10),
        digit_char(d.year as int / 10 % 10),
        digit_char(d.year as int % 10),
        '-',
        digit_char(d.month as int / 10),
        digit_char(d.month as int % 10),
        '-',
        digit_char(d.day as int / 10),
        digit_char(d.day as int % 10),
    ]
}

/// Ten characters in the shape `DDDD-DD-DD`, digits and dashes in place.
pub open spec fn date_shaped(s: Seq<char>) -> bool {
    &&& s.len() == 10
    &&& is_digit(s[0])
    &&& is_digit(s[1])
    &&& is_digit(s[2])
    &&& is_digit(s[3])
    &&& s[4] == '-'
    &&& is_digit(s[5])
    &&& is_digit(s[6])
    &&& s[7] == '-'
    &&& is_digit(s[8])
    &&& is_digit(s[9])
}

/// The date a well-shaped text denotes, before the validity check.
pub open spec fn denoted_date(s: Seq<char>) -> Date {
    Date {
        year: (digit_val(s[0]) * 1000 + digit_val(s[1]) * 100 + digit_val(s[2]) * 10 + digit_val(
            s[3],
        )) as i32,
        month: (digit_val(s[5]) * 10 + digit_val(s[6])) as u32,
        day: (digit_val(s[8]) * 10 + digit_val(s[9])) as u32,
    }
}

/// What parsing a user-supplied date text yields: the denoted date when the
/// text is exactly `YYYY-MM-DD` and names a real calendar day, nothing
/// otherwise.
pub open spec fn parse_spec(s: Seq<char>) -> Option<Date> {
    if date_shaped(s) && valid_date(denoted_date(s)) {
        Some(denoted_date(s))
    } else {
        None
    }
}

/// The digit characters of a canonical date text all parse back, so the
/// text of a valid date denotes that date again.
pub proof fn lemma_text_parses_back(d: Date)
    requires
        valid_date(d),
    ensures
        parse_spec(date_text(d)) == Some(d),
{
    let s = date_text(d);
    assert(date_shaped(s));
    assert(denoted_date(s).year == d.year) by {
        let y = d.year as int;
        assert(digit_val(digit_char(y / 1000)) == y / 1000);
        assert(digit_val(digit_char(y / 100 % 10)) == y / 100 % 10);
        assert(digit_val(digit_char(y / 10 % 10)) == y / 10 % 10);
        assert(digit_val(digit_char(y % 10)) == y % 10);
        assert(y / 1000 * 1000 + y / 100 % 10 * 100 + y / 10 % 10 * 10 + y % 10 == y) by (nonlinear_arith)
            requires
                0 <= y <= 9999,
        ;
    }
    assert(denoted_date(s).month == d.month) by {
        let m = d.month as int;
        assert(m / 10 * 10 + m % 10 == m) by (nonlinear_arith)
            requires
                0 <= m <= 99,
        ;
    }
    assert(denoted_date(s).day == d.day) by {
        let dd = d.day as int;
        assert(dd / 10 * 10 + dd % 10 == dd) by (nonlinear_arith)
            requires
                0 <= dd <= 99,
        ;
    }
    assert(denoted_date(s) == d);
}

/// A text that parses is the canonical text of the parsed date: parsing
/// accepts only the zero-padded `YYYY-MM-DD` form, so each date has exactly
/// one accepted text.
pub proof fn lemma_parse_is_canonical(s: Seq<char>, d: Date)
    requires
        parse_spec(s) == Some(d),
    ensures
        valid_date(d),
        s == date_text(d),
{
    assert(date_shaped(s) && d == denoted_date(s));
    let y = d.year as int;
    let m = d.month as int;
    let dd = d.day as int;
    assert(y == digit_val(s[0]) * 1000 + digit_val(s[1]) * 100 + digit_val(s[2]) * 10 + digit_val(
        s[3],
    ));
    assert(y / 1000 == digit_val(s[0]) && y / 100 % 10 == digit_val(s[1]) && y / 10 % 10
        == digit_val(s[2]) && y % 10 == digit_val(s[3])) by (nonlinear_arith)
        requires
            y == digit_val(s[0]) * 1000 + digit_val(s[1]) * 100 + digit_val(s[2]) * 10 + digit_val(
                s[3],
            ),
            0 <= digit_val(s[0]) <= 9,
            0 <= digit_val(s[1]) <= 9,
            0 <= digit_val(s[2]) <= 9,
            0 <= digit_val(s[3]) <= 9,
    ;
    assert(m / 10 == digit_val(s[5]) && m % 10 == digit_val(s[6])) by (nonlinear_arith)
        requires
            m == digit_val(s[5]) * 10 + digit_val(s[6]),
            0 <= digit_val(s[5]) <= 9,
            0 <= digit_val(s[6]) <= 9,
    ;
    assert(dd / 10 == digit_val(s[8]) && dd % 10 == digit_val(s[9])) by (nonlinear_arith)
        requires
            dd == digit_val(s[8]) * 10 + digit_val(s[9]),
            0 <= digit_val(s[8]) <= 9,
            0 <= digit_val(s[9]) <= 9,
    ;
    assert(forall|c: char| is_digit(c) ==> digit_char(digit_val(c)) == c);
    assert(s =~= date_text(d));
}

/// Distinct valid dates have distinct canonical texts.
pub proof fn lemma_text_injective(a: Date, b: Date)
    requires
        valid_date(a),
        valid_date(b),
        a != b,
    ensures
        date_text(a) != date_text(b),
{
    if date_text(a) == date_text(b) {
        lemma_text_parses_back(a);
        lemma_text_parses_back(b);
    }
}

/// A one-character string holding the given decimal digit.
pub(crate) fn digit_str(n: u32) -> (r: &'static str)
    requires
        n < 10,
    ensures
        r@ =~= seq![digit_char(n as int)],
{
    if n == 0 {
        proof {
            reveal_strlit("0");
        }
        "0"
    } else if n == 1 {
        proof {
            reveal_strlit("1");
        }
        "1"
    } else if n == 2 {
        proof {
            reveal_strlit("2");
        }
        "2"
    } else if n == 3 {
        proof {
            reveal_strlit("3");
        }
        "3"
    } else if n == 4 {
        proof {
            reveal_strlit("4");
        }
        "4"
    } else if n == 5 {
        proof {
            reveal_strlit("5");
        }
        "5"
    } else if n == 6 {
        proof {
            reveal_strlit("6");
        }
        "6"
    } else if n == 7 {
        proof {
            reveal_strlit("7");
        }
        "7"
    } else if n == 8 {
        proof {
            reveal_strlit("8");
        }
        "8"
    } else {
        proof {
            reveal_strlit("9");
        }
        "9"
    }
}

/// Renders a date in the canonical `YYYY-MM-DD` form entries are stored in.
pub fn format_date(d: &Date) -> (r: String)
    requires
        valid_date(*d),
    ensures
        r@ == date_text(*d),
{
    proof {
        reveal_strlit("-");
    }
    let y: u32 = d.year as u32;
    let mut s = String::new();
    s.append(digit_str(y / 1000));
    s.append(digit_str(y / 100 % 10));
    s.append(digit_str(y / 10 % 10));
    s.append(digit_str(y % 10));
    s.append("-");
    s.append(digit_str(d.month / 10));
    s.append(digit_str(d.month % 10));
    s.append("-");
    s.append(digit_str(d.day / 10));
    s.append(digit_str(d.day % 10));
    proof {
        assert(s@ =~= date_text(*d));
    }
    s
}

/// The value of a decimal digit character, `None` for any other character.
fn char_digit(c: char) -> (r: Option<u32>)
    ensures
        r matches Some(n) ==> n == digit_val(c) && is_digit(c),
        r is None ==> !is_digit(c),
{
    if c == '0' {
        Some(0)
    } else if c == '1' {
        Some(1)
    } else if c == '2' {
        Some(2)
    } else if c == '3' {
        Some(3)
    } else if c == '4' {
        Some(4)
    } else if c == '5' {
        Some(5)
    } else if c == '6' {
        Some(6)
    } else if c == '7' {
        Some(7)
    } else if c == '8' {
        Some(8)
    } else if c == '9' {
        Some(9)
    } else {
        None
    }
}

/// Parses a user-supplied date text. Exactly the texts of the form
/// `YYYY-MM-DD` that name a real calendar day are accepted; anything else is
/// rejected as an invalid argument before any store access.
pub fn parse_date(s: &str) -> (r: Result<Date, LogError>)
    ensures
        r matches Ok(d) ==> parse_spec(s@) == Some(d),
        r is Err <==> parse_spec(s@) is None,
        r is Err ==> r == Err::<Date, LogError>(LogError::InvalidArgument),
{
    if s.unicode_len() != 10 {
        return Err(LogError::InvalidArgument);
    }
    let c4 = s.get_char(4);
    let c7 = s.get_char(7);
    if c4 != '-' || c7 != '-' {
        return Err(LogError::InvalidArgument);
    }
    let d0 = char_digit(s.get_char(0));
    let d1 = char_digit(s.get_char(1));
    let d2 = char_digit(s.get_char(2));
    let d3 = char_digit(s.get_char(3));
    let d5 = char_digit(s.get_char(5));
    let d6 = char_digit(s.get_char(6));
    let d8 = char_digit(s.get_char(8));
    let d9 = char_digit(s.get_char(9));
    match (d0, d1, d2, d3, d5, d6, d8, d9) {
        (
            Some(y0),
            Some(y1),
            Some(y2),
            Some(y3),
            Some(m0),
            Some(m1),
            Some(a0),
            Some(a1),
        ) => {
            let d = Date {
                year: (y0 * 1000 + y1 * 100 + y2 * 10 + y3) as i32,
                month: m0 * 10 + m1,
                day: a0 * 10 + a1,
            };
            assert(date_shaped(s@));
            assert(d == denoted_date(s@));
            if date_in_range(&d) {
                Ok(d)
            } else {
                Err(LogError::InvalidArgument)
            }
        },
        _ => Err(LogError::InvalidArgument),
    }
}

/// Whether the fields name a real calendar day with a four-digit year.
pub fn date_in_range(d: &Date) -> (r: bool)
    ensures
        r == valid_date(*d),
{
    if d.year < 0 || d.year > 9999 || d.month < 1 || d.month > 12 || d.day < 1 {
        return false;
    }
    let leap: bool = d.year % 4 == 0 && (d.year % 100 != 0 || d.year % 400 == 0);
    let limit: u32 = if d.month == 2 {
        if leap {
            29
        } else {
            28
        }
    } else if d.month == 4 || d.month == 6 || d.month == 9 || d.month == 11 {
        30
    } else {
        31
    };
    d.day <= limit
}

} // verus!

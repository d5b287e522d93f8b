//! The name of the file that holds the tasks of a day.

use crate::clock::Date;
use vstd::prelude::*;

verus! {

/// The character of a decimal digit.
pub open spec fn digit(d: int) -> char {
    seq!['0', '1', '2', '3', '4', '5', '6', '7', '8', '9'][d]
}

/// A number in decimal digits, with zeros in front up to `width` digits.
pub open spec fn decimal(n: nat, width: int) -> Seq<char>
    decreases n, width,
{
    if n < 10 && width <= 1 {
        seq![digit(n as int)]
    } else {
        decimal(n / 10, width - 1).push(digit((n % 10) as int))
    }
}

/// A year in at least four digits; a year that cannot be written in four
/// digits gets its sign in front.
pub open spec fn year_text(year: int) -> Seq<char> {
    if 0 <= year <= 9999 {
        decimal(year as nat, 4)
    } else if year > 9999 {
        seq!['+'] + decimal(year as nat, 4)
    } else {
        seq!['-'] + decimal((-year) as nat, 4)
    }
}

/// A date as year, month and day with `_` between them, month and day in
/// two digits.
pub open spec fn date_stamp(date: Date) -> Seq<char> {
    year_text(date.year as int) + seq!['_'] + decimal(date.month as nat, 2) + seq!['_']
        + decimal(date.day as nat, 2)
}

/// The name of the file of a date.
pub open spec fn file_name_of(date: Date) -> Seq<char> {
    seq!['t', 'o', 'd', 'o', 's', '_'] + date_stamp(date) + seq!['.', 'j', 's', 'o', 'n']
}

/// The number that a sequence of decimal digits stands for.
pub open spec fn number_of(digits: Seq<char>) -> int
    decreases digits.len(),
{
    if digits.len() == 0 {
        0
    } else {
        number_of(digits.drop_last()) * 10 + (digits.last() as int - '0' as int)
    }
}

/// Decimal digits stand for the number that they were made of, and none of
/// them is a sign or a `_`.
pub proof fn lemma_decimal(n: nat, width: int)
    ensures
        number_of(decimal(n, width)) == n,
        decimal(n, width).len() >= 1,
        decimal(n, width).len() >= width,
        forall|i: int|
            0 <= i < decimal(n, width).len() ==> '0' <= #[trigger] decimal(n, width)[i] <= '9',
    decreases n, width,
{
    let text = decimal(n, width);
    if n < 10 && width <= 1 {
        assert(text.drop_last() =~= Seq::empty());
        assert(number_of(text.drop_last()) == 0);
    } else {
        let front = decimal(n / 10, width - 1);
        lemma_decimal(n / 10, width - 1);
        assert(text.drop_last() =~= front);
        assert forall|i: int| 0 <= i < text.len() implies '0' <= #[trigger] text[i] <= '9' by {
            if i < front.len() {
                assert(text[i] == front[i]);
            }
        }
    }
}

/// Two texts with a `_` between their parts, whose first parts hold no `_`,
/// are equal only where both parts are.
proof fn lemma_split_at_underscore(a: Seq<char>, b: Seq<char>, c: Seq<char>, d: Seq<char>)
    requires
        a + seq!['_'] + b == c + seq!['_'] + d,
        forall|i: int| 0 <= i < a.len() ==> #[trigger] a[i] != '_',
        forall|i: int| 0 <= i < c.len() ==> #[trigger] c[i] != '_',
    ensures
        a == c,
        b == d,
{
    let left = a + seq!['_'] + b;
    let right = c + seq!['_'] + d;
    if a.len() < c.len() {
        assert(left[a.len() as int] == '_');
        assert(right[a.len() as int] == c[a.len() as int]);
    }
    if c.len() < a.len() {
        assert(right[c.len() as int] == '_');
        assert(left[c.len() as int] == a[c.len() as int]);
    }
    assert(left.len() == right.len());
    assert forall|i: int| 0 <= i < a.len() implies a[i] == c[i] by {
        assert(left[i] == a[i]);
        assert(right[i] == c[i]);
    }
    assert(a =~= c);
    assert forall|i: int| 0 <= i < b.len() implies b[i] == d[i] by {
        assert(left[a.len() + 1 + i] == b[i]);
        assert(right[c.len() + 1 + i] == d[i]);
    }
    assert(b =~= d);
}

/// No sign and no `_` stands in the digits of a year, but for a sign in
/// front where the year needs one; and the text tells the year.
proof fn lemma_year_text(year: int)
    ensures
        forall|i: int| 0 <= i < year_text(year).len() ==> #[trigger] year_text(year)[i] != '_',
        year_text(year).len() >= 1,
        year_text(year)[0] == '+' <==> year > 9999,
        year_text(year)[0] == '-' <==> year < 0,
        number_of(
            if 0 <= year <= 9999 {
                year_text(year)
            } else {
                year_text(year).drop_first()
            },
        ) == if year < 0 {
            -year
        } else {
            year
        },
{
    let text = year_text(year);
    if 0 <= year <= 9999 {
        lemma_decimal(year as nat, 4);
    } else if year > 9999 {
        let digits = decimal(year as nat, 4);
        lemma_decimal(year as nat, 4);
        assert(text.drop_first() =~= digits);
        assert forall|i: int| 0 <= i < text.len() implies #[trigger] text[i] != '_' by {
            if i > 0 {
                assert(text[i] == digits[i - 1]);
            }
        }
    } else {
        let digits = decimal((-year) as nat, 4);
        lemma_decimal((-year) as nat, 4);
        assert(text.drop_first() =~= digits);
        assert forall|i: int| 0 <= i < text.len() implies #[trigger] text[i] != '_' by {
            if i > 0 {
                assert(text[i] == digits[i - 1]);
            }
        }
    }
}

/// The stamps of two dates are equal only where the dates are.
proof fn lemma_date_stamp_tells_date(a: Date, b: Date)
    requires
        date_stamp(a) == date_stamp(b),
    ensures
        a == b,
{
    let underscore = seq!['_'];
    let (a_year, b_year) = (year_text(a.year as int), year_text(b.year as int));
    let (a_month, b_month) = (decimal(a.month as nat, 2), decimal(b.month as nat, 2));
    let (a_day, b_day) = (decimal(a.day as nat, 2), decimal(b.day as nat, 2));
    lemma_year_text(a.year as int);
    lemma_year_text(b.year as int);
    lemma_decimal(a.month as nat, 2);
    lemma_decimal(b.month as nat, 2);
    lemma_decimal(a.day as nat, 2);
    lemma_decimal(b.day as nat, 2);
    assert(date_stamp(a) =~= a_year + underscore + (a_month + underscore + a_day));
    assert(date_stamp(b) =~= b_year + underscore + (b_month + underscore + b_day));
    lemma_split_at_underscore(
        a_year,
        a_month + underscore + a_day,
        b_year,
        b_month + underscore + b_day,
    );
    lemma_split_at_underscore(a_month, a_day, b_month, b_day);
}

/// Two dates have the same file name only where they are the same date: no
/// two days share a file.
pub proof fn lemma_file_name_tells_date(a: Date, b: Date)
    requires
        file_name_of(a) == file_name_of(b),
    ensures
        a == b,
{
    let prefix = seq!['t', 'o', 'd', 'o', 's', '_'];
    let suffix = seq!['.', 'j', 's', 'o', 'n'];
    let (a_name, b_name) = (file_name_of(a), file_name_of(b));
    assert(date_stamp(a) =~= a_name.subrange(6, a_name.len() - 5));
    assert(date_stamp(b) =~= b_name.subrange(6, b_name.len() - 5));
    lemma_date_stamp_tells_date(a, b);
}

/// A width below one digit asks for nothing more than one digit does.
proof fn lemma_decimal_unpadded(n: nat, width: int)
    requires
        width <= 1,
    ensures
        decimal(n, width) == decimal(n, 1),
    decreases n,
{
    if n >= 10 {
        lemma_decimal_unpadded(n / 10, width - 1);
        lemma_decimal_unpadded(n / 10, 0);
    }
}

fn digit_text(d: u64) -> (text: &'static str)
    requires
        d < 10,
    ensures
        text@ == seq![digit(d as int)],
{
    proof {
        reveal_strlit("0");
        reveal_strlit("1");
        reveal_strlit("2");
        reveal_strlit("3");
        reveal_strlit("4");
        reveal_strlit("5");
        reveal_strlit("6");
        reveal_strlit("7");
        reveal_strlit("8");
        reveal_strlit("9");
    }
    let text = if d == 0 {
        "0"
    } else if d == 1 {
        "1"
    } else if d == 2 {
        "2"
    } else if d == 3 {
        "3"
    } else if d == 4 {
        "4"
    } else if d == 5 {
        "5"
    } else if d == 6 {
        "6"
    } else if d == 7 {
        "7"
    } else if d == 8 {
        "8"
    } else {
        "9"
    };
    assert(text@ =~= seq![digit(d as int)]);
    text
}

/// Appends a number in decimal digits, with zeros in front up to `width`
/// digits.
fn push_decimal(out: &mut String, n: u64, width: u8)
    requires
        1 <= width,
    ensures
        final(out)@ == old(out)@ + decimal(n as nat, width as int),
    decreases n, width,
{
    if n < 10 && width <= 1 {
        out.append(digit_text(n));
    } else {
        let rest: u8 = if width > 1 {
            width - 1
        } else {
            1
        };
        assert(decimal((n / 10) as nat, rest as int) == decimal((n / 10) as nat, width - 1)) by {
            if width == 1 {
                lemma_decimal_unpadded((n / 10) as nat, 0);
            }
        }
        push_decimal(out, n / 10, rest);
        out.append(digit_text(n % 10));
        assert(out@ =~= old(out)@ + decimal(n as nat, width as int));
    }
}

/// The name of the file that holds the tasks of a date: `todos_`, the date
/// as year, month and day with `_` between them, and `.json`.
pub fn data_file_name(date: &Date) -> (name: String)
    ensures
        name@ == file_name_of(*date),
{
    proof {
        reveal_strlit("todos_");
        reveal_strlit("_");
        reveal_strlit("+");
        reveal_strlit("-");
        reveal_strlit(".json");
    }
    let mut name = String::from_str("todos_");
    assert(name@ =~= seq!['t', 'o', 'd', 'o', 's', '_']);
    let year: i64 = date.year as i64;
    if year < 0 {
        name.append("-");
        push_decimal(&mut name, (-year) as u64, 4);
    } else {
        if year > 9999 {
            name.append("+");
        }
        push_decimal(&mut name, year as u64, 4);
    }
    name.append("_");
    push_decimal(&mut name, date.month as u64, 2);
    name.append("_");
    push_decimal(&mut name, date.day as u64, 2);
    name.append(".json");
    assert(name@ =~= file_name_of(*date));
    name
}

} // verus!

//! What the pieces of a statement mean: the columns of a row, the conditions
//! that a row meets, and the places that values are bound to.

use vstd::prelude::*;

use crate::sql;
use crate::text;

verus! {

/// What a column of a row holds.
pub enum Cell {
    Number(int),
    /// A floating-point number, as its bit pattern.
    Real(u64),
    Text(Seq<char>),
}

/// The value of a decimal digit.
pub open spec fn digit_value(c: char) -> int {
    c as int - 48
}

/// The value of a row of decimal digits.
pub open spec fn digits_value(s: Seq<char>) -> int
    decreases s.len(),
{
    if s.len() == 0 {
        0
    } else {
        digits_value(s.drop_last()) * 10 + digit_value(s.last())
    }
}

/// The number that a text stands for where it is compared with a number.
pub open spec fn number_value(s: Seq<char>) -> int {
    if s.len() > 0 && s[0] == '-' {
        -digits_value(s.skip(1))
    } else {
        digits_value(s)
    }
}

/// How a condition tests a column.
pub enum Test {
    Equal,
    Below,
    Above,
    AtMost,
    AtLeast,
    Like,
    IsOne,
    IsZero,
    OneOf,
    NotEmpty,
}

/// So many question marks with commas between them.
pub open spec fn question_marks(n: nat) -> Seq<char>
    decreases n,
{
    if n == 0 {
        Seq::empty()
    } else if n == 1 {
        "?"@
    } else {
        question_marks((n - 1) as nat) + ",?"@
    }
}

/// How a test of `column` is written; `n` values are bound to it.
pub open spec fn written_test(column: Seq<char>, test: Test, n: nat) -> Seq<char> {
    match test {
        Test::Equal => column + " = ?"@,
        Test::Below => column + " < ?"@,
        Test::Above => column + " > ?"@,
        Test::AtMost => column + " <= ?"@,
        Test::AtLeast => column + " >= ?"@,
        Test::Like => column + " LIKE ?"@,
        Test::IsOne => column + " = 1"@,
        Test::IsZero => column + " = 0"@,
        Test::OneOf => column + " IN ("@ + question_marks(n) + ")"@,
        Test::NotEmpty => column + " IS NOT NULL AND "@ + column + " <> ''"@,
    }
}

/// The column and the test that a condition is read as.
pub open spec fn read_test(text: Seq<char>, n: nat) -> (Seq<char>, Test) {
    let k = text.len() as int;
    let before = text[k - 3];
    if text[k - 1] == '?' && before == '=' && text[k - 4] == '<' {
        (text.take(k - 5), Test::AtMost)
    } else if text[k - 1] == '?' && before == '=' && text[k - 4] == '>' {
        (text.take(k - 5), Test::AtLeast)
    } else if text[k - 1] == '?' && before == '=' {
        (text.take(k - 4), Test::Equal)
    } else if text[k - 1] == '?' && before == '<' {
        (text.take(k - 4), Test::Below)
    } else if text[k - 1] == '?' && before == '>' {
        (text.take(k - 4), Test::Above)
    } else if text[k - 1] == '?' {
        (text.take(k - 7), Test::Like)
    } else if text[k - 1] == '1' {
        (text.take(k - 4), Test::IsOne)
    } else if text[k - 1] == '0' {
        (text.take(k - 4), Test::IsZero)
    } else if text[k - 1] == ')' {
        (text.take(k - 6 - question_marks(n).len()), Test::OneOf)
    } else {
        (text.take((k - 23) / 2), Test::NotEmpty)
    }
}

/// The cell is what the text stands for.
pub open spec fn is_value(cell: Cell, arg: Seq<char>) -> bool {
    match cell {
        Cell::Number(v) => v == number_value(arg),
        Cell::Real(_) => false,
        Cell::Text(t) => t == arg,
    }
}

/// The cell passes the test with the values bound to it; `like` tells whether a
/// text is like a pattern.
pub open spec fn passes(
    test: Test,
    cell: Cell,
    args: Seq<Seq<char>>,
    like: spec_fn(Seq<char>, Seq<char>) -> bool,
) -> bool {
    match test {
        Test::Equal => is_value(cell, args[0]),
        Test::Below => cell matches Cell::Number(v) && v < number_value(args[0]),
        Test::Above => cell matches Cell::Number(v) && v > number_value(args[0]),
        Test::AtMost => cell matches Cell::Number(v) && v <= number_value(args[0]),
        Test::AtLeast => cell matches Cell::Number(v) && v >= number_value(args[0]),
        Test::Like => cell matches Cell::Text(t) && like(args[0], t),
        Test::IsOne => cell == Cell::Number(1),
        Test::IsZero => cell == Cell::Number(0),
        Test::OneOf => exists|i: int| 0 <= i < args.len() && is_value(cell, #[trigger] args[i]),
        Test::NotEmpty => cell matches Cell::Text(t) && t.len() > 0,
    }
}

/// A row meets a condition; `row` gives the columns of the row by their names.
pub open spec fn meets(
    c: sql::Cond,
    row: spec_fn(Seq<char>) -> Cell,
    like: spec_fn(Seq<char>, Seq<char>) -> bool,
) -> bool {
    let (column, test) = read_test(c.text, c.args.len());
    &&& c.text == written_test(column, test, c.args.len())
    &&& passes(test, row(column), c.args, like)
}

/// A row meets every condition.
pub open spec fn meets_all(
    c: Seq<sql::Cond>,
    row: spec_fn(Seq<char>) -> Cell,
    like: spec_fn(Seq<char>, Seq<char>) -> bool,
) -> bool {
    forall|i: int| 0 <= i < c.len() ==> meets(#[trigger] c[i], row, like)
}

/// The conditions as one text: all of them are demanded.
pub open spec fn conjunction(c: Seq<sql::Cond>) -> Seq<char>
    decreases c.len(),
{
    if c.len() == 0 {
        Seq::empty()
    } else if c.len() == 1 {
        c[0].text
    } else {
        conjunction(c.drop_last()) + " AND "@ + c.last().text
    }
}

/// The values of the conditions, one condition after another.
pub open spec fn conjunction_args(c: Seq<sql::Cond>) -> Seq<Seq<char>>
    decreases c.len(),
{
    if c.len() == 0 {
        Seq::empty()
    } else {
        conjunction_args(c.drop_last()) + c.last().args
    }
}

/// The clause demands every one of the conditions, and `args` are the values
/// that are bound to them from left to right.
pub open spec fn demands(clause: Seq<char>, args: Seq<Seq<char>>, c: Seq<sql::Cond>) -> bool {
    &&& args == conjunction_args(c)
    &&& clause == if c.len() == 0 {
        Seq::empty()
    } else {
        " WHERE "@ + conjunction(c)
    }
}

/// A clause of conditions demands them all.
pub proof fn law_where_clause_demands_every_condition(c: Seq<sql::Cond>)
    ensures
        demands(sql::where_clause(c), sql::bound_args(c), c),
{
    lemma_conjunction(c);
}

proof fn lemma_conjunction(c: Seq<sql::Cond>)
    ensures
        conjunction_args(c) == sql::bound_args(c),
        conjunction(c) == text::join(sql::cond_texts(c), " AND "@),
    decreases c.len(),
{
    if c.len() > 0 {
        lemma_conjunction(c.drop_last());
        assert(sql::cond_texts(c).drop_last() =~= sql::cond_texts(c.drop_last()));
        if c.len() == 1 {
            let t = sql::cond_texts(c);
            assert(t[0] == c[0].text);
        }
    }
}

/// A row meets the conditions of all parts exactly where it meets those of each.
pub proof fn lemma_meets_joined(
    parts: Seq<Seq<sql::Cond>>,
    row: spec_fn(Seq<char>) -> Cell,
    like: spec_fn(Seq<char>, Seq<char>) -> bool,
)
    ensures
        meets_all(sql::joined(parts), row, like) <==> forall|i: int|
            0 <= i < parts.len() ==> meets_all(#[trigger] parts[i], row, like),
    decreases parts.len(),
{
    reveal(sql::joined);
    if parts.len() > 0 {
        let rest = parts.drop_last();
        lemma_meets_joined(rest, row, like);
        lemma_meets_add(sql::joined(rest), parts.last(), row, like);
        assert(parts[parts.len() - 1] == parts.last());
        if meets_all(sql::joined(parts), row, like) {
            assert forall|i: int| 0 <= i < parts.len() implies meets_all(
                #[trigger] parts[i],
                row,
                like,
            ) by {
                if i < rest.len() {
                    assert(meets_all(rest[i], row, like));
                }
            }
        }
        if forall|i: int| 0 <= i < parts.len() ==> meets_all(#[trigger] parts[i], row, like) {
            assert forall|i: int| 0 <= i < rest.len() implies meets_all(
                #[trigger] rest[i],
                row,
                like,
            ) by {
                assert(meets_all(parts[i], row, like));
            }
        }
    }
}

pub proof fn lemma_meets_add(
    a: Seq<sql::Cond>,
    b: Seq<sql::Cond>,
    row: spec_fn(Seq<char>) -> Cell,
    like: spec_fn(Seq<char>, Seq<char>) -> bool,
)
    ensures
        meets_all(a + b, row, like) <==> meets_all(a, row, like) && meets_all(b, row, like),
{
    let s = a + b;
    if meets_all(s, row, like) {
        assert forall|i: int| 0 <= i < a.len() implies meets(#[trigger] a[i], row, like) by {
            assert(meets(s[i], row, like));
        }
        assert forall|i: int| 0 <= i < b.len() implies meets(#[trigger] b[i], row, like) by {
            assert(meets(s[a.len() + i], row, like));
        }
    }
    if meets_all(a, row, like) && meets_all(b, row, like) {
        assert forall|i: int| 0 <= i < s.len() implies meets(#[trigger] s[i], row, like) by {
            if i < a.len() {
                assert(meets(a[i], row, like));
            } else {
                assert(meets(b[i - a.len()], row, like));
            }
        }
    }
}

/// A decimal numeral stands for its number.
pub proof fn law_decimal_stands_for_its_number(n: nat)
    ensures
        number_value(text::decimal(n)) == n,
        digits_value(text::decimal(n)) == n,
        text::decimal(n).len() > 0,
        text::decimal(n)[0] != '-',
    decreases n,
{
    let s = text::decimal(n);
    if n < 10 {
        assert(s.drop_last() =~= Seq::empty());
        assert(digits_value(s.drop_last()) == 0);
    } else {
        law_decimal_stands_for_its_number(n / 10);
        assert(s.drop_last() =~= text::decimal(n / 10));
    }
}

/// A signed decimal numeral stands for its number.
pub proof fn law_signed_decimal_stands_for_its_number(n: int)
    ensures
        number_value(text::signed_decimal(n)) == n,
{
    if n >= 0 {
        law_decimal_stands_for_its_number(n as nat);
    } else {
        law_decimal_stands_for_its_number((-n) as nat);
        reveal_strlit("-");
        assert(text::signed_decimal(n).skip(1) =~= text::decimal((-n) as nat));
    }
}

/// A condition that is written as a test of a column is met exactly where the
/// column passes the test.
pub proof fn lemma_meets_test(
    c: sql::Cond,
    column: Seq<char>,
    test: Test,
    row: spec_fn(Seq<char>) -> Cell,
    like: spec_fn(Seq<char>, Seq<char>) -> bool,
)
    requires
        c.text == written_test(column, test, c.args.len()),
        column.len() > 0,
    ensures
        meets(c, row, like) == passes(test, row(column), c.args, like),
{
    reveal_strlit(" = ?");
    reveal_strlit(" < ?");
    reveal_strlit(" > ?");
    reveal_strlit(" <= ?");
    reveal_strlit(" >= ?");
    reveal_strlit(" LIKE ?");
    reveal_strlit(" = 1");
    reveal_strlit(" = 0");
    reveal_strlit(" IN (");
    reveal_strlit(")");
    reveal_strlit(" IS NOT NULL AND ");
    reveal_strlit(" <> ''");
    let k = c.text.len() as int;
    let read = read_test(c.text, c.args.len());
    match test {
        Test::Equal => {
            assert(c.text[k - 1] == '?' && c.text[k - 3] == '=' && c.text[k - 4] == ' ');
        },
        Test::Below => {
            assert(c.text[k - 1] == '?' && c.text[k - 3] == '<');
        },
        Test::Above => {
            assert(c.text[k - 1] == '?' && c.text[k - 3] == '>');
        },
        Test::AtMost => {
            assert(c.text[k - 1] == '?' && c.text[k - 3] == '=' && c.text[k - 4] == '<');
        },
        Test::AtLeast => {
            assert(c.text[k - 1] == '?' && c.text[k - 3] == '=' && c.text[k - 4] == '>');
        },
        Test::Like => {
            assert(c.text[k - 1] == '?' && c.text[k - 3] == 'E');
        },
        Test::IsOne => {
            assert(c.text[k - 1] == '1');
        },
        Test::IsZero => {
            assert(c.text[k - 1] == '0');
        },
        Test::OneOf => {
            assert(c.text[k - 1] == ')');
        },
        Test::NotEmpty => {
            assert(c.text[k - 1] == '\'');
        },
    }
    assert(read.1 == test);
    assert(read.0 =~= column);
}

pub proof fn lemma_one_arg(
    written: Seq<char>,
    column: Seq<char>,
    test: Test,
    arg: Seq<char>,
    row: spec_fn(Seq<char>) -> Cell,
    like: spec_fn(Seq<char>, Seq<char>) -> bool,
)
    requires
        written == written_test(column, test, 1),
        column.len() > 0,
    ensures
        meets_all(sql::one_arg(written, arg), row, like) == passes(
            test,
            row(column),
            seq![arg],
            like,
        ),
{
    let c = sql::Cond { text: written, args: seq![arg] };
    lemma_meets_test(c, column, test, row, like);
    assert(sql::one_arg(written, arg)[0] == c);
}

pub proof fn lemma_no_arg(
    written: Seq<char>,
    column: Seq<char>,
    test: Test,
    row: spec_fn(Seq<char>) -> Cell,
    like: spec_fn(Seq<char>, Seq<char>) -> bool,
)
    requires
        written == written_test(column, test, 0),
        column.len() > 0,
    ensures
        meets_all(sql::no_arg(written), row, like) == passes(
            test,
            row(column),
            Seq::empty(),
            like,
        ),
{
    let c = sql::Cond { text: written, args: Seq::empty() };
    lemma_meets_test(c, column, test, row, like);
    assert(sql::no_arg(written)[0] == c);
}

/// The first `n` texts of a list, with commas between them.
pub open spec fn listed(parts: Seq<Seq<char>>, n: nat) -> Seq<char>
    decreases n,
{
    if n == 0 {
        Seq::empty()
    } else if n == 1 {
        parts[0]
    } else {
        listed(parts, (n - 1) as nat) + ", "@ + parts[n - 1]
    }
}

/// The placeholders from the first to the `n`-th, by their numbers.
pub open spec fn numbered(n: nat) -> Seq<char>
    decreases n,
{
    if n == 0 {
        Seq::empty()
    } else if n == 1 {
        "?1"@
    } else {
        numbered((n - 1) as nat) + ", ?"@ + text::decimal(n)
    }
}

/// A query for columns of a table.
pub open spec fn select(columns: Seq<Seq<char>>, table: Seq<char>) -> Seq<char> {
    "SELECT "@ + listed(columns, columns.len()) + " FROM "@ + table
}

/// A statement that adds a row with a value for each column.
pub open spec fn insert(table: Seq<char>, columns: Seq<Seq<char>>) -> Seq<char> {
    "INSERT INTO "@ + table + " ("@ + listed(columns, columns.len()) + ") VALUES ("@ + numbered(
        columns.len(),
    ) + ")"@
}

/// An order by two columns, both newest first or both oldest first.
pub open spec fn order_by(first: Seq<char>, second: Seq<char>, descending: bool) -> Seq<char> {
    let way = if descending {
        " DESC"@
    } else {
        " ASC"@
    };
    " ORDER BY "@ + first + way + ", "@ + second + way
}

/// The text is the word, which is written in the letters `a` to `z`, in any case.
pub open spec fn spells(s: Seq<char>, word: Seq<char>) -> bool {
    &&& s.len() == word.len()
    &&& forall|i: int|
        0 <= i < s.len() ==> (#[trigger] s[i] == word[i] || s[i] as int == word[i] as int - 32)
}

pub proof fn lemma_spells(s: Seq<char>, word: Seq<char>)
    requires
        forall|i: int| 0 <= i < word.len() ==> 97 <= #[trigger] word[i] as int <= 122,
    ensures
        text::same_ignoring_ascii_case(s, word) <==> spells(s, word),
{
    if s.len() == word.len() {
        if text::same_ignoring_ascii_case(s, word) {
            assert forall|i: int| 0 <= i < s.len() implies (#[trigger] s[i] == word[i] || s[i] as int
                == word[i] as int - 32) by {
                assert(text::ascii_lower_code(s[i]) == text::ascii_lower_code(word[i]));
            }
        }
        if spells(s, word) {
            assert forall|i: int| 0 <= i < s.len() implies text::ascii_lower_code(#[trigger] s[i])
                == text::ascii_lower_code(word[i]) by {
                assert(97 <= word[i] as int <= 122);
            }
        }
    }
}

/// The words of requests, read in any case.
pub proof fn lemma_words(s: Seq<char>)
    ensures
        text::same_ignoring_ascii_case(s, "asc"@) <==> spells(s, seq!['a', 's', 'c']),
        text::same_ignoring_ascii_case(s, "desc"@) <==> spells(s, seq!['d', 'e', 's', 'c']),
        text::same_ignoring_ascii_case(s, "prev"@) <==> spells(s, seq!['p', 'r', 'e', 'v']),
        text::same_ignoring_ascii_case(s, "next"@) <==> spells(s, seq!['n', 'e', 'x', 't']),
{
    reveal_strlit("asc");
    reveal_strlit("desc");
    reveal_strlit("prev");
    reveal_strlit("next");
    assert("asc"@ =~= seq!['a', 's', 'c']);
    assert("desc"@ =~= seq!['d', 'e', 's', 'c']);
    assert("prev"@ =~= seq!['p', 'r', 'e', 'v']);
    assert("next"@ =~= seq!['n', 'e', 'x', 't']);
    lemma_spells(s, seq!['a', 's', 'c']);
    lemma_spells(s, seq!['d', 'e', 's', 'c']);
    lemma_spells(s, seq!['p', 'r', 'e', 'v']);
    lemma_spells(s, seq!['n', 'e', 'x', 't']);
}

/// The order asks for the oldest first.
pub open spec fn asks_ascending(order: Option<String>) -> bool {
    order matches Some(o) && spells(o@, seq!['a', 's', 'c'])
}

/// A bound value is the text of a number.
pub open spec fn is_number(v: sql::SqlValue, n: int) -> bool {
    v matches sql::SqlValue::Text(t) && number_value(t) == n
}

/// How the column of a row that is there is renewed.
pub enum Renewal {
    /// By the new value.
    Always,
    /// By the new value, where the column holds an empty text.
    WhereEmpty,
}

/// How the renewal of a column is written.
pub open spec fn written_renewal(column: Seq<char>, r: Renewal) -> Seq<char> {
    match r {
        Renewal::Always => column + " = excluded."@ + column,
        Renewal::WhereEmpty => column + " = CASE WHEN "@ + column + " = '' THEN excluded."@ + column
            + " ELSE "@ + column + " END"@,
    }
}

/// What a renewed column holds.
pub open spec fn renewed(r: Renewal, held: Cell, new: Cell) -> Cell {
    match r {
        Renewal::Always => new,
        Renewal::WhereEmpty => if held == Cell::Text(Seq::empty()) {
            new
        } else {
            held
        },
    }
}

/// A bound value is what the column holds.
pub open spec fn is_cell(v: sql::SqlValue, cell: Cell) -> bool {
    match v {
        sql::SqlValue::Integer(n) => cell == Cell::Number(n),
        sql::SqlValue::Unsigned(n) => cell == Cell::Number(n as int),
        sql::SqlValue::Real(b) => cell == Cell::Real(b),
        sql::SqlValue::Text(t) => is_value(cell, t),
    }
}

/// Each value stands at the place of its column.
pub open spec fn placed(
    columns: Seq<Seq<char>>,
    values: Seq<sql::SqlValue>,
    row: spec_fn(Seq<char>) -> Cell,
) -> bool {
    &&& columns.len() == values.len()
    &&& forall|i: int|
        0 <= i < columns.len() ==> is_cell(#[trigger] values[i], row(columns[i]))
}

/// The cells of a row that a query for columns reads, in their order.
pub open spec fn cells(columns: Seq<Seq<char>>, row: spec_fn(Seq<char>) -> Cell) -> Seq<Cell> {
    Seq::new(columns.len(), |i: int| row(columns[i]))
}

} // verus!

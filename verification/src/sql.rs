//! Statements handed to the database engine, and the pieces that list queries
//! are put together from.

use vstd::prelude::*;
use vstd::string::*;

use crate::error::DbError;
use crate::text;

verus! {

/// A value bound to a placeholder of a statement.
#[derive(Debug)]
pub enum SqlParam {
    /// A signed integer.
    Integer(i64),
    /// An unsigned integer; the engine refuses one above `i64::MAX`.
    Unsigned(u64),
    /// A floating-point number, as its IEEE-754 bit pattern.
    Real(u64),
    /// A text.
    Text(String),
}

/// What a bound value is.
pub enum SqlValue {
    Integer(int),
    Unsigned(nat),
    Real(u64),
    Text(Seq<char>),
}

impl View for SqlParam {
    type V = SqlValue;

    open spec fn view(&self) -> SqlValue {
        match self {
            SqlParam::Integer(v) => SqlValue::Integer(*v as int),
            SqlParam::Unsigned(v) => SqlValue::Unsigned(*v as nat),
            SqlParam::Real(v) => SqlValue::Real(*v),
            SqlParam::Text(v) => SqlValue::Text(v@),
        }
    }
}

/// The values of a list of parameters.
pub open spec fn values(params: Seq<SqlParam>) -> Seq<SqlValue> {
    Seq::new(params.len(), |i: int| params[i]@)
}

/// A list of texts as bound values.
pub open spec fn text_values(t: Seq<Seq<char>>) -> Seq<SqlValue> {
    Seq::new(t.len(), |i: int| SqlValue::Text(t[i]))
}

/// One statement with the values of its placeholders.
#[derive(Debug)]
pub struct Statement {
    pub sql: String,
    pub params: Vec<SqlParam>,
}

/// What a statement is.
#[verifier::ext_equal]
pub struct Command {
    pub sql: Seq<char>,
    pub params: Seq<SqlValue>,
}

impl View for Statement {
    type V = Command;

    open spec fn view(&self) -> Command {
        Command { sql: self.sql@, params: values(self.params@) }
    }
}

/// One prepared statement that is run once for each row of values.
#[derive(Debug)]
pub struct Batch {
    pub sql: String,
    pub rows: Vec<Vec<SqlParam>>,
}

/// What a batch is.
#[verifier::ext_equal]
pub struct BatchModel {
    pub sql: Seq<char>,
    pub rows: Seq<Seq<SqlValue>>,
}

impl View for Batch {
    type V = BatchModel;

    open spec fn view(&self) -> BatchModel {
        BatchModel { sql: self.sql@, rows: row_values(self.rows@) }
    }
}

/// The values of a list of rows.
pub open spec fn row_values(rows: Seq<Vec<SqlParam>>) -> Seq<Seq<SqlValue>> {
    Seq::new(rows.len(), |i: int| values(rows[i]@))
}

pub proof fn lemma_row_values_push(rows: Seq<Vec<SqlParam>>, row: Vec<SqlParam>)
    ensures
        row_values(rows.push(row)) == row_values(rows).push(values(row@)),
{
    assert(row_values(rows.push(row)) =~= row_values(rows).push(values(row@)));
}

/// A statement without placeholders.
pub open spec fn bare(sql: Seq<char>) -> Command {
    Command { sql, params: Seq::empty() }
}

/// Builds a statement without placeholders.
pub fn bare_statement(sql: &str) -> (r: Statement)
    ensures
        r@ == bare(sql@),
{
    let r = Statement { sql: sql.to_owned(), params: Vec::new() };
    assert(values(r.params@) =~= Seq::empty());
    r
}

/// Builds a statement with one placeholder.
pub fn unary_statement(sql: &str, a: SqlParam) -> (r: Statement)
    ensures
        r@ == (Command { sql: sql@, params: seq![a@] }),
{
    let mut params: Vec<SqlParam> = Vec::new();
    params.push(a);
    let r = Statement { sql: sql.to_owned(), params };
    assert(values(r.params@) =~= seq![a@]);
    r
}

/// Builds a statement with two placeholders.
pub fn binary_statement(sql: &str, a: SqlParam, b: SqlParam) -> (r: Statement)
    ensures
        r@ == (Command { sql: sql@, params: seq![a@, b@] }),
{
    let mut params: Vec<SqlParam> = Vec::new();
    params.push(a);
    params.push(b);
    let r = Statement { sql: sql.to_owned(), params };
    assert(values(r.params@) =~= seq![a@, b@]);
    r
}

/// Binds each text to a placeholder of its own.
pub fn text_params(args: Vec<String>) -> (r: Vec<SqlParam>)
    ensures
        values(r@) == text_values(text::texts(args@)),
{
    let mut r: Vec<SqlParam> = Vec::new();
    let mut i: usize = 0;
    while i < args.len()
        invariant
            i <= args@.len(),
            r@.len() == i,
            forall|j: int| 0 <= j < i ==> (#[trigger] r@[j])@ == SqlValue::Text(args@[j]@),
        decreases args@.len() - i,
    {
        r.push(SqlParam::Text(args[i].clone()));
        i += 1;
    }
    assert(values(r@) =~= text_values(text::texts(args@)));
    r
}

/// One condition of a `WHERE` clause, with the texts of its placeholders.
#[derive(Debug)]
pub struct Condition {
    pub text: String,
    pub args: Vec<String>,
}

/// What a condition is.
#[verifier::ext_equal]
pub struct Cond {
    pub text: Seq<char>,
    pub args: Seq<Seq<char>>,
}

impl View for Condition {
    type V = Cond;

    open spec fn view(&self) -> Cond {
        Cond { text: self.text@, args: text::texts(self.args@) }
    }
}

/// The models of a list of conditions.
pub open spec fn conds(v: Seq<Condition>) -> Seq<Cond> {
    Seq::new(v.len(), |i: int| v[i]@)
}

/// A condition with one placeholder, as a one-element list.
pub open spec fn one_arg(text: Seq<char>, arg: Seq<char>) -> Seq<Cond> {
    seq![Cond { text, args: seq![arg] }]
}

/// A condition without placeholders, as a one-element list.
pub open spec fn no_arg(text: Seq<char>) -> Seq<Cond> {
    seq![Cond { text, args: Seq::empty() }]
}

/// The texts of a list of conditions.
pub open spec fn cond_texts(c: Seq<Cond>) -> Seq<Seq<char>> {
    Seq::new(c.len(), |i: int| c[i].text)
}

/// The `WHERE` clause that demands every condition; empty when there is none.
pub open spec fn where_clause(c: Seq<Cond>) -> Seq<char> {
    if c.len() == 0 {
        Seq::empty()
    } else {
        " WHERE "@ + text::join(cond_texts(c), " AND "@)
    }
}

/// The texts of all placeholders, in order.
pub open spec fn bound_args(c: Seq<Cond>) -> Seq<Seq<char>>
    decreases c.len(),
{
    if c.len() == 0 {
        Seq::empty()
    } else {
        bound_args(c.drop_last()) + c.last().args
    }
}

/// Adds a condition with one placeholder.
pub fn push_one(list: &mut Vec<Condition>, text: &str, arg: String)
    ensures
        conds(final(list)@) == conds(old(list)@) + one_arg(text@, arg@),
{
    let mut args: Vec<String> = Vec::new();
    args.push(arg);
    let c = Condition { text: text.to_owned(), args };
    assert(text::texts(c.args@) =~= seq![arg@]);
    list.push(c);
    assert(conds(list@) =~= conds(old(list)@) + one_arg(text@, arg@));
}

/// Adds a condition without placeholders.
pub fn push_none(list: &mut Vec<Condition>, text: &str)
    ensures
        conds(final(list)@) == conds(old(list)@) + no_arg(text@),
{
    let c = Condition { text: text.to_owned(), args: Vec::new() };
    assert(text::texts(c.args@) =~= Seq::empty());
    list.push(c);
    assert(conds(list@) =~= conds(old(list)@) + no_arg(text@));
}

/// Renders the `WHERE` clause and collects the placeholder texts.
pub fn render_where(list: Vec<Condition>) -> (r: (String, Vec<String>))
    ensures
        r.0@ == where_clause(conds(list@)),
        text::texts(r.1@) == bound_args(conds(list@)),
{
    let mut args: Vec<String> = Vec::new();
    if list.len() == 0 {
        assert(text::texts(args@) =~= bound_args(conds(list@)));
        return (String::new(), args);
    }
    let ghost all = conds(list@);
    let mut body = String::new();
    let mut i: usize = 0;
    assert(all.take(0) =~= Seq::<Cond>::empty());
    while i < list.len()
        invariant
            all == conds(list@),
            i <= list@.len(),
            body@ == text::join(cond_texts(all.take(i as int)), " AND "@),
            text::texts(args@) == bound_args(all.take(i as int)),
        decreases list@.len() - i,
    {
        let ghost before = all.take(i as int);
        let ghost after = all.take(i + 1);
        assert(after.drop_last() =~= before);
        assert(after.last() == list@[i as int]@);
        assert(cond_texts(after).drop_last() =~= cond_texts(before));
        if i > 0 {
            body.append(" AND ");
        }
        body.append(list[i].text.as_str());
        let ghost start = args@;
        let mut j: usize = 0;
        while j < list[i as usize].args.len()
            invariant
                i < list@.len(),
                j <= list@[i as int].args@.len(),
                text::texts(args@) == text::texts(start) + text::texts(list@[i as int].args@).take(j as int),
            decreases list@[i as int].args@.len() - j,
        {
            let ghost held = args@;
            let ghost row = text::texts(list@[i as int].args@);
            args.push(list[i].args[j].clone());
            proof {
                text::lemma_texts_push(held, args@.last());
                assert(row.take(j + 1) =~= row.take(j as int).push(row[j as int]));
                assert(text::texts(args@) =~= text::texts(start) + row.take(j + 1));
            }
            j += 1;
        }
        assert(text::texts(list@[i as int].args@).take(j as int) =~= list@[i as int]@.args);
        i += 1;
    }
    assert(all.take(all.len() as int) =~= all);
    let mut clause = " WHERE ".to_owned();
    clause.append(body.as_str());
    (clause, args)
}

/// The clauses of a list query: the `WHERE` clause, the `ORDER BY` clause and
/// the texts of the placeholders.
#[verifier::ext_equal]
pub struct Clauses {
    pub where_text: Seq<char>,
    pub order_text: Seq<char>,
    pub args: Seq<Seq<char>>,
}

/// No filter and no order.
pub open spec fn no_clauses() -> Clauses {
    Clauses { where_text: Seq::empty(), order_text: Seq::empty(), args: Seq::empty() }
}

/// The clauses that were built.
pub open spec fn clauses(c: (String, String, Vec<String>)) -> Clauses {
    Clauses { where_text: c.0@, order_text: c.1@, args: text::texts(c.2@) }
}

/// The clauses that were built, or why none were.
pub open spec fn clauses_of(r: Result<(String, String, Vec<String>), DbError>) -> Result<
    Clauses,
    DbError,
> {
    match r {
        Ok(c) => Ok(clauses(c)),
        Err(e) => Err(e),
    }
}

/// The order asks for the oldest first.
pub open spec fn is_asc(order: Option<String>) -> bool {
    order matches Some(o) && text::same_ignoring_ascii_case(o@, "asc"@)
}

/// The order is absent or one of the two that exist.
pub open spec fn order_known(order: Option<String>) -> bool {
    order matches Some(o) ==> {
        ||| text::same_ignoring_ascii_case(o@, "asc"@)
        ||| text::same_ignoring_ascii_case(o@, "desc"@)
    }
}

/// There is such a page, and the number of rows before it is a 64-bit number.
pub open spec fn page_in_range(page_num: u64, page_size: u64) -> bool {
    &&& page_num >= 1
    &&& (page_num - 1) * page_size <= u64::MAX
}

/// Tells whether there is such a page and the number of rows before it is a 64-bit number.
pub fn page_fits(page_num: u64, page_size: u64) -> (r: bool)
    ensures
        r == page_in_range(page_num, page_size),
{
    page_num >= 1 && (page_num - 1).checked_mul(page_size).is_some()
}

/// How many rows come before a page.
pub fn page_offset(page_num: u64, page_size: u64) -> (r: u64)
    requires
        page_in_range(page_num, page_size),
    ensures
        r == (page_num - 1) * page_size,
{
    (page_num - 1) * page_size
}

/// How many `?` a text holds.
pub open spec fn placeholders(s: Seq<char>) -> nat
    decreases s.len(),
{
    if s.len() == 0 {
        0
    } else {
        placeholders(s.drop_last()) + if s.last() == '?' {
            1nat
        } else {
            0nat
        }
    }
}

pub proof fn lemma_placeholders_add(a: Seq<char>, b: Seq<char>)
    ensures
        placeholders(a + b) == placeholders(a) + placeholders(b),
    decreases b.len(),
{
    if b.len() == 0 {
        assert(a + b =~= a);
    } else {
        lemma_placeholders_add(a, b.drop_last());
        assert((a + b).drop_last() =~= a + b.drop_last());
    }
}

pub proof fn lemma_placeholders_none(s: Seq<char>)
    requires
        forall|i: int| 0 <= i < s.len() ==> s[i] != '?',
    ensures
        placeholders(s) == 0,
    decreases s.len(),
{
    if s.len() > 0 {
        lemma_placeholders_none(s.drop_last());
    }
}

pub proof fn lemma_placeholders_last(s: Seq<char>)
    requires
        s.len() > 0,
        s.last() == '?',
        forall|i: int| 0 <= i < s.len() - 1 ==> s[i] != '?',
    ensures
        placeholders(s) == 1,
{
    lemma_placeholders_none(s.drop_last());
}

/// A condition has as many texts as placeholders.
pub open spec fn bound(c: Cond) -> bool {
    placeholders(c.text) == c.args.len()
}

/// Every condition of a list has as many texts as placeholders.
pub open spec fn all_bound(c: Seq<Cond>) -> bool {
    forall|i: int| 0 <= i < c.len() ==> bound(#[trigger] c[i])
}

pub proof fn lemma_all_bound_add(a: Seq<Cond>, b: Seq<Cond>)
    requires
        all_bound(a),
        all_bound(b),
    ensures
        all_bound(a + b),
{
    assert forall|i: int| 0 <= i < (a + b).len() implies bound(#[trigger] (a + b)[i]) by {
        if i < a.len() {
            assert(bound(a[i]));
        } else {
            assert(bound(b[i - a.len()]));
        }
    }
}

pub proof fn lemma_cond_texts_add(a: Seq<Cond>, b: Seq<Cond>)
    ensures
        cond_texts(a + b) == cond_texts(a) + cond_texts(b),
{
    assert(cond_texts(a + b) =~= cond_texts(a) + cond_texts(b));
}

/// The conditions of several parts, one part after another.
#[verifier::opaque]
pub open spec fn joined(parts: Seq<Seq<Cond>>) -> Seq<Cond>
    decreases parts.len(),
{
    if parts.len() == 0 {
        Seq::empty()
    } else {
        joined(parts.drop_last()) + parts.last()
    }
}

pub proof fn lemma_joined_push(parts: Seq<Seq<Cond>>, part: Seq<Cond>)
    ensures
        joined(parts.push(part)) == joined(parts) + part,
{
    reveal(joined);
    assert(parts.push(part).drop_last() =~= parts);
}

pub proof fn lemma_joined_none()
    ensures
        joined(Seq::empty()) == Seq::<Cond>::empty(),
{
    reveal(joined);
}

/// Where every condition of every part has as many texts as placeholders, so
/// does every condition of all parts.
pub proof fn lemma_joined_bound(parts: Seq<Seq<Cond>>)
    requires
        forall|i: int| 0 <= i < parts.len() ==> all_bound(#[trigger] parts[i]),
    ensures
        all_bound(joined(parts)),
    decreases parts.len(),
{
    reveal(joined);
    if parts.len() > 0 {
        let rest = parts.drop_last();
        assert forall|i: int| 0 <= i < rest.len() implies all_bound(#[trigger] rest[i]) by {
            assert(all_bound(parts[i]));
        }
        lemma_joined_bound(rest);
        assert(all_bound(parts[parts.len() - 1]));
        lemma_all_bound_add(joined(rest), parts.last());
    }
}

/// Parts with the same texts have the same texts together.
pub proof fn lemma_joined_texts(a: Seq<Seq<Cond>>, b: Seq<Seq<Cond>>)
    requires
        a.len() == b.len(),
        forall|i: int| 0 <= i < a.len() ==> cond_texts(#[trigger] a[i]) == cond_texts(b[i]),
    ensures
        cond_texts(joined(a)) == cond_texts(joined(b)),
    decreases a.len(),
{
    reveal(joined);
    if a.len() > 0 {
        let x = a.drop_last();
        let y = b.drop_last();
        assert forall|i: int| 0 <= i < x.len() implies cond_texts(#[trigger] x[i]) == cond_texts(
            y[i],
        ) by {
            assert(cond_texts(a[i]) == cond_texts(b[i]));
        }
        lemma_joined_texts(x, y);
        assert(cond_texts(a[a.len() - 1]) == cond_texts(b[b.len() - 1]));
        lemma_cond_texts_add(joined(x), a.last());
        lemma_cond_texts_add(joined(y), b.last());
    }
}

/// The clause depends on the texts alone.
pub proof fn lemma_same_texts_same_clause(a: Seq<Cond>, b: Seq<Cond>)
    requires
        cond_texts(a) == cond_texts(b),
    ensures
        where_clause(a) == where_clause(b),
{
    assert(cond_texts(a).len() == cond_texts(b).len());
}

proof fn lemma_joined_placeholders(c: Seq<Cond>)
    requires
        all_bound(c),
    ensures
        placeholders(text::join(cond_texts(c), " AND "@)) == bound_args(c).len(),
    decreases c.len(),
{
    reveal_strlit(" AND ");
    if c.len() == 0 {
    } else {
        let rest = c.drop_last();
        assert(all_bound(rest)) by {
            assert forall|i: int| 0 <= i < rest.len() implies bound(#[trigger] rest[i]) by {
                assert(bound(c[i]));
            }
        }
        lemma_joined_placeholders(rest);
        assert(bound(c[c.len() - 1]));
        assert(cond_texts(c).drop_last() =~= cond_texts(rest));
        if c.len() > 1 {
            let head = text::join(cond_texts(rest), " AND "@);
            lemma_placeholders_none(" AND "@);
            lemma_placeholders_add(head, " AND "@);
            lemma_placeholders_add(head + " AND "@, c.last().text);
        } else {
            assert(bound_args(rest).len() == 0);
        }
    }
}

/// A `WHERE` clause has as many placeholders as there are texts to bind to them.
pub proof fn law_where_clause_is_bound(c: Seq<Cond>)
    requires
        all_bound(c),
    ensures
        placeholders(where_clause(c)) == bound_args(c).len(),
{
    reveal_strlit(" WHERE ");
    lemma_joined_placeholders(c);
    if c.len() > 0 {
        lemma_placeholders_none(" WHERE "@);
        lemma_placeholders_add(" WHERE "@, text::join(cond_texts(c), " AND "@));
    }
}

} // verus!

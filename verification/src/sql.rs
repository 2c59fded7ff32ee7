//! SQL statements: their text and the values bound to them.
use vstd::prelude::*;

verus! {

/// A value bound to a statement.
pub enum SqlValue {
    Null,
    Integer(i64),
    Text(String),
    /// A floating-point number, by its bits.
    Number(u64),
}

/// A bound value.
pub enum Bind {
    Null,
    Integer(i64),
    Text(Seq<char>),
    Number(u64),
}

/// A statement: its text and the values bound to it, in their order.
pub struct Query {
    pub text: Seq<char>,
    pub binds: Seq<Bind>,
}

impl SqlValue {
    /// The value that is bound.
    pub open spec fn bind(self) -> Bind {
        match self {
            SqlValue::Null => Bind::Null,
            SqlValue::Integer(n) => Bind::Integer(n),
            SqlValue::Text(t) => Bind::Text(t@),
            SqlValue::Number(bits) => Bind::Number(bits),
        }
    }
}

/// The values that are bound.
pub open spec fn binds(values: Seq<SqlValue>) -> Seq<Bind> {
    Seq::new(values.len(), |i: int| values[i].bind())
}

impl Query {
    /// The statement with more text.
    pub open spec fn plus(self, text: Seq<char>) -> Query {
        Query { text: self.text + text, binds: self.binds }
    }

    /// The statement with one more value.
    pub open spec fn with(self, value: Bind) -> Query {
        Query { text: self.text, binds: self.binds.push(value) }
    }

    /// The statement with a clause on a number, where there is one.
    pub open spec fn when_integer(self, value: Option<i64>, clause: Seq<char>) -> Query {
        match value {
            Some(n) => self.plus(clause).with(Bind::Integer(n)),
            None => self,
        }
    }

    /// The statement with a clause on a text, where there is one.
    pub open spec fn when_text(self, value: Option<Seq<char>>, clause: Seq<char>) -> Query {
        match value {
            Some(t) => self.plus(clause).with(Bind::Text(t)),
            None => self,
        }
    }
}

/// A statement to run.
pub struct Statement {
    pub sql: String,
    pub values: Vec<SqlValue>,
}

impl View for Statement {
    type V = Query;

    open spec fn view(&self) -> Query {
        Query { text: self.sql@, binds: binds(self.values@) }
    }
}

impl Statement {
    /// A statement without values.
    pub fn new(text: &str) -> (s: Statement)
        ensures
            s@ == (Query { text: text@, binds: Seq::empty() }),
    {
        let s = Statement { sql: text.to_owned(), values: Vec::new() };
        assert(s@.binds =~= Seq::<Bind>::empty());
        s
    }

    /// Adds text.
    pub fn add_text(&mut self, text: &str)
        ensures
            final(self)@ == old(self)@.plus(text@),
    {
        self.sql.append(text);
    }

    /// Binds one more value.
    pub fn add_value(&mut self, value: SqlValue)
        ensures
            final(self)@ == old(self)@.with(value.bind()),
    {
        self.values.push(value);
        assert(self@.binds =~= old(self)@.binds.push(value.bind()));
    }

    /// Adds a clause on a number, where there is one.
    pub fn add_integer(&mut self, value: Option<i64>, clause: &str)
        ensures
            final(self)@ == old(self)@.when_integer(value, clause@),
    {
        if let Some(n) = value {
            self.add_text(clause);
            self.add_value(SqlValue::Integer(n));
        }
    }

    /// Adds a clause on a text, where there is one.
    pub fn add_optional(&mut self, value: &Option<String>, clause: &str)
        ensures
            final(self)@ == old(self)@.when_text(crate::text::optional(*value), clause@),
    {
        if let Some(t) = value {
            self.add_text(clause);
            self.add_value(SqlValue::Text(t.clone()));
        }
    }
}

/// The number of placeholders in a text.
pub open spec fn marks(text: Seq<char>) -> nat
    decreases text.len(),
{
    if text.len() == 0 {
        0
    } else {
        marks(text.drop_last()) + if text.last() == '?' {
            1nat
        } else {
            0nat
        }
    }
}

/// The statement has as many placeholders as values.
pub open spec fn balanced(query: Query) -> bool {
    marks(query.text) == query.binds.len()
}

/// Texts side by side hold the placeholders of both.
pub proof fn lemma_marks_concat(a: Seq<char>, b: Seq<char>)
    ensures
        marks(a + b) == marks(a) + marks(b),
    decreases b.len(),
{
    if b.len() == 0 {
        assert(a + b =~= a);
    } else {
        assert((a + b).drop_last() =~= a + b.drop_last());
        lemma_marks_concat(a, b.drop_last());
    }
}

/// A text without question marks holds no placeholder.
pub proof fn lemma_no_marks(text: Seq<char>)
    requires
        !text.contains('?'),
    ensures
        marks(text) == 0,
    decreases text.len(),
{
    if text.len() > 0 {
        assert(text[text.len() - 1] == text.last());
        assert(!text.drop_last().contains('?')) by {
            assert forall|i: int| 0 <= i < text.len() - 1 implies text.drop_last()[i] != '?' by {
                assert(text.contains(text[i]));
            }
        }
        lemma_no_marks(text.drop_last());
    }
}

/// A clause with one placeholder and one value keeps a statement balanced.
pub proof fn lemma_clause(query: Query, clause: Seq<char>, value: Bind)
    requires
        balanced(query),
        marks(clause) == 1,
    ensures
        balanced(query.plus(clause).with(value)),
{
    lemma_marks_concat(query.text, clause);
}

/// Text without a placeholder keeps a statement balanced.
pub proof fn lemma_plain_text(query: Query, text: Seq<char>)
    requires
        balanced(query),
        marks(text) == 0,
    ensures
        balanced(query.plus(text)),
{
    lemma_marks_concat(query.text, text);
}

} // verus!

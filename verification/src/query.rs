//! The statement builder: a fluent configuration object that accumulates
//! fields, a source table, joins, filters, grouping, limit and offset, and
//! renders the statement text together with the bound values in placeholder
//! order.

use vstd::prelude::*;
use vstd::string::{StrSliceExecFns, StringExecFns};
use crate::text::{
    append_placeholder,
    join_with,
    push_char,
    spec_dec,
    spec_join_sep,
    spec_placeholders,
    usize_to_string,
};
use crate::value::{Value, ValueView};

verus! {

/// A table to select from or to join against: a name, optionally paired with
/// an alias. Implemented for a bare name and for a (name, alias) pair.
pub trait TableName {
    /// The table name.
    spec fn spec_table(&self) -> Seq<char>;

    /// The alias, where the target carries one.
    spec fn spec_alias(&self) -> Option<Seq<char>>;

    /// The table name and optional alias as owned strings.
    fn table(&self) -> (r: (String, Option<String>))
        ensures
            r.0@ == self.spec_table(),
            r.1.deep_view() == self.spec_alias(),
    ;
}

impl<'a> TableName for &'a str {
    open spec fn spec_table(&self) -> Seq<char> {
        self@
    }

    open spec fn spec_alias(&self) -> Option<Seq<char>> {
        None
    }

    fn table(&self) -> (r: (String, Option<String>)) {
        (String::from_str(*self), None)
    }
}

impl<'a> TableName for (&'a str, &'a str) {
    open spec fn spec_table(&self) -> Seq<char> {
        self.0@
    }

    open spec fn spec_alias(&self) -> Option<Seq<char>> {
        Some(self.1@)
    }

    fn table(&self) -> (r: (String, Option<String>)) {
        (String::from_str(self.0), Some(String::from_str(self.1)))
    }
}

/// The mathematical shape of a builder: every part of the statement still in
/// configuration form, over sequences of characters and value shapes.
pub ghost struct QueryView {
    /// The selected column expressions; empty renders as `*`.
    pub fields: Seq<Seq<char>>,
    /// The source table name.
    pub from: Seq<char>,
    /// The source alias, if one was set.
    pub from_alias: Option<Seq<char>>,
    /// The joins, in insertion order: (table, optional alias, ON predicate).
    pub joins: Seq<(Seq<char>, Option<Seq<char>>, Seq<char>)>,
    /// The filters, in insertion order: (predicate template, arity).
    pub filters: Seq<(Seq<char>, usize)>,
    /// The bound values, in placeholder order.
    pub values: Seq<ValueView>,
    /// The grouping expressions, in insertion order.
    pub group_by: Seq<Seq<char>>,
    /// The HAVING predicate, if one was set.
    pub having: Option<Seq<char>>,
    /// The LIMIT bound, if one was set.
    pub limit: Option<usize>,
    /// The OFFSET bound, if one was set.
    pub offset: Option<usize>,
}

impl QueryView {
    /// The view of a freshly created builder: everything empty or unset.
    pub open spec fn empty() -> QueryView {
        QueryView {
            fields: Seq::empty(),
            from: Seq::empty(),
            from_alias: None,
            joins: Seq::empty(),
            filters: Seq::empty(),
            values: Seq::empty(),
            group_by: Seq::empty(),
            having: None,
            limit: None,
            offset: None,
        }
    }
}

/// The number of bound values the filters consume in all: the sum of their
/// arities.
pub open spec fn spec_sum_arities(filters: Seq<(Seq<char>, usize)>) -> int
    decreases filters.len(),
{
    if filters.len() == 0 {
        0
    } else {
        spec_sum_arities(filters.drop_last()) + filters.last().1
    }
}

/// A statement builder for SELECT statements. Configuration operations
/// consume and return the builder, so calls chain; `build` renders the
/// statement text and the bound values without changing the builder.
pub struct SelectQuery {
    fields: Vec<String>,
    from: String,
    from_alias: Option<String>,
    joins: Vec<(String, Option<String>, String)>,
    filters: Vec<(String, usize)>,
    values: Vec<Value>,
    group_by: Vec<String>,
    having: Option<String>,
    limit: Option<usize>,
    offset: Option<usize>,
}

impl View for SelectQuery {
    type V = QueryView;

    closed spec fn view(&self) -> QueryView {
        QueryView {
            fields: self.fields.deep_view(),
            from: self.from@,
            from_alias: self.from_alias.deep_view(),
            joins: self.joins.deep_view(),
            filters: self.filters.deep_view(),
            values: self.values.deep_view(),
            group_by: self.group_by.deep_view(),
            having: self.having.deep_view(),
            limit: self.limit,
            offset: self.offset,
        }
    }
}

impl SelectQuery {
    /// The bound values line up one to one with the placeholders the filters
    /// will consume: the sum of the filter arities equals the number of
    /// values, at all times.
    #[verifier::type_invariant]
    spec fn inv(self) -> bool {
        spec_sum_arities(self@.filters) == self@.values.len()
    }

    /// A builder with no configuration at all.
    pub fn new() -> (r: SelectQuery)
        ensures
            r@ == QueryView::empty(),
    {
        let r = SelectQuery {
            fields: Vec::new(),
            from: String::new(),
            from_alias: None,
            joins: Vec::new(),
            filters: Vec::new(),
            values: Vec::new(),
            group_by: Vec::new(),
            having: None,
            limit: None,
            offset: None,
        };
        proof {
            assert(r@.fields =~= Seq::<Seq<char>>::empty());
            assert(r@.joins =~= Seq::<(Seq<char>, Option<Seq<char>>, Seq<char>)>::empty());
            assert(r@.filters =~= Seq::<(Seq<char>, usize)>::empty());
            assert(r@.values =~= Seq::<ValueView>::empty());
            assert(r@.group_by =~= Seq::<Seq<char>>::empty());
            assert(r@ == QueryView::empty());
        }
        r
    }

    /// A builder over a record's metadata: its table name and its field list.
    pub fn from_model(table: String, fields: Vec<String>) -> (r: SelectQuery)
        ensures
            r@ == (QueryView {
                from: table@,
                fields: fields.deep_view(),
                ..QueryView::empty()
            }),
    {
        let mut r = SelectQuery::new();
        r.from = table;
        r.fields = fields;
        r
    }

    /// A builder over a record's metadata, with an alias for the source table.
    pub fn from_model_with_alias(table: String, fields: Vec<String>, alias: &str) -> (r:
        SelectQuery)
        ensures
            r@ == (QueryView {
                from: table@,
                fields: fields.deep_view(),
                from_alias: Some(alias@),
                ..QueryView::empty()
            }),
    {
        let mut r = SelectQuery::new();
        r.from = table;
        r.fields = fields;
        r.from_alias = Some(String::from_str(alias));
        r
    }

    /// Sets the source table and clears any alias.
    pub fn from(self, table: &str) -> (r: SelectQuery)
        ensures
            r@ == (QueryView { from: table@, from_alias: None, ..self@ }),
    {
        proof {
            use_type_invariant(&self);
        }
        let mut q = self;
        q.from = String::from_str(table);
        q.from_alias = None;
        q
    }

    /// Sets the alias of the source table; a later call overwrites.
    pub fn alias(self, alias: &str) -> (r: SelectQuery)
        ensures
            r@ == (QueryView { from_alias: Some(alias@), ..self@ }),
    {
        proof {
            use_type_invariant(&self);
        }
        let mut q = self;
        q.from_alias = Some(String::from_str(alias));
        q
    }

    /// Replaces the field list wholesale.
    pub fn fields(self, fields: Vec<String>) -> (r: SelectQuery)
        ensures
            r@ == (QueryView { fields: fields.deep_view(), ..self@ }),
    {
        proof {
            use_type_invariant(&self);
        }
        let mut q = self;
        q.fields = fields;
        q
    }

    /// Appends a join against the target, kept in insertion order, with the
    /// ON predicate taken verbatim.
    pub fn join<T: TableName>(self, target: &T, on: &str) -> (r: SelectQuery)
        ensures
            r@ == (QueryView {
                joins: self@.joins.push((target.spec_table(), target.spec_alias(), on@)),
                ..self@
            }),
    {
        proof {
            use_type_invariant(&self);
        }
        let SelectQuery {
            fields,
            from,
            from_alias,
            mut joins,
            filters,
            values,
            group_by,
            having,
            limit,
            offset,
        } = self;
        let ghost old_joins = joins.deep_view();
        let (t, a) = target.table();
        joins.push((t, a, String::from_str(on)));
        proof {
            assert(joins.deep_view() =~= old_joins.push(
                (target.spec_table(), target.spec_alias(), on@),
            ));
        }
        SelectQuery {
            fields,
            from,
            from_alias,
            joins,
            filters,
            values,
            group_by,
            having,
            limit,
            offset,
        }
    }

    /// Appends a single-value filter: the template's placeholder marker will
    /// consume one numbered placeholder, and the value is appended to the
    /// bound values.
    pub fn filter(self, cond: &str, value: Value) -> (r: SelectQuery)
        ensures
            r@ == (QueryView {
                filters: self@.filters.push((cond@, 1usize)),
                values: self@.values.push(value@),
                ..self@
            }),
    {
        proof {
            use_type_invariant(&self);
        }
        let SelectQuery {
            fields,
            from,
            from_alias,
            joins,
            mut filters,
            mut values,
            group_by,
            having,
            limit,
            offset,
        } = self;
        let ghost old_filters = filters.deep_view();
        let ghost old_values = values.deep_view();
        filters.push((String::from_str(cond), 1));
        values.push(value);
        proof {
            assert(filters.deep_view() =~= old_filters.push((cond@, 1usize)));
            assert(values.deep_view() =~= old_values.push(value@));
            assert(filters.deep_view().drop_last() =~= old_filters);
        }
        SelectQuery {
            fields,
            from,
            from_alias,
            joins,
            filters,
            values,
            group_by,
            having,
            limit,
            offset,
        }
    }

    /// Appends a multi-value filter: the template's placeholder marker will
    /// consume one numbered placeholder per value, and the values are
    /// appended to the bound values in order.
    pub fn filtern(self, cond: &str, values: Vec<Value>) -> (r: SelectQuery)
        ensures
            r@ == (QueryView {
                filters: self@.filters.push((cond@, values@.len() as usize)),
                values: self@.values + values.deep_view(),
                ..self@
            }),
    {
        proof {
            use_type_invariant(&self);
        }
        let SelectQuery {
            fields,
            from,
            from_alias,
            joins,
            mut filters,
            values: mut bound,
            group_by,
            having,
            limit,
            offset,
        } = self;
        let ghost old_filters = filters.deep_view();
        let ghost old_values = bound.deep_view();
        let ghost added = values.deep_view();
        let mut more = values;
        let n = more.len();
        filters.push((String::from_str(cond), n));
        bound.append(&mut more);
        proof {
            assert(filters.deep_view() =~= old_filters.push((cond@, n)));
            assert(bound.deep_view() =~= old_values + added);
            assert(filters.deep_view().drop_last() =~= old_filters);
        }
        SelectQuery {
            fields,
            from,
            from_alias,
            joins,
            filters,
            values: bound,
            group_by,
            having,
            limit,
            offset,
        }
    }

    /// Appends one grouping expression; call once per expression.
    pub fn group_by(self, expr: &str) -> (r: SelectQuery)
        ensures
            r@ == (QueryView { group_by: self@.group_by.push(expr@), ..self@ }),
    {
        proof {
            use_type_invariant(&self);
        }
        let SelectQuery {
            fields,
            from,
            from_alias,
            joins,
            filters,
            values,
            mut group_by,
            having,
            limit,
            offset,
        } = self;
        let ghost old_groups = group_by.deep_view();
        group_by.push(String::from_str(expr));
        proof {
            assert(group_by.deep_view() =~= old_groups.push(expr@));
        }
        SelectQuery {
            fields,
            from,
            from_alias,
            joins,
            filters,
            values,
            group_by,
            having,
            limit,
            offset,
        }
    }

    /// Sets the HAVING predicate; a later call overwrites.
    pub fn having(self, predicate: &str) -> (r: SelectQuery)
        ensures
            r@ == (QueryView { having: Some(predicate@), ..self@ }),
    {
        proof {
            use_type_invariant(&self);
        }
        let mut q = self;
        q.having = Some(String::from_str(predicate));
        q
    }

    /// Sets the LIMIT bound; a later call overwrites.
    pub fn limit(self, limit: usize) -> (r: SelectQuery)
        ensures
            r@ == (QueryView { limit: Some(limit), ..self@ }),
    {
        proof {
            use_type_invariant(&self);
        }
        let mut q = self;
        q.limit = Some(limit);
        q
    }

    /// Sets the OFFSET bound; a later call overwrites.
    pub fn offset(self, offset: usize) -> (r: SelectQuery)
        ensures
            r@ == (QueryView { offset: Some(offset), ..self@ }),
    {
        proof {
            use_type_invariant(&self);
        }
        let mut q = self;
        q.offset = Some(offset);
        q
    }
}

/// The SELECT clause: the fields joined by `, `, or `*` for an empty list.
pub open spec fn spec_select_clause(fields: Seq<Seq<char>>) -> Seq<char> {
    if fields.len() == 0 {
        "SELECT *"@
    } else {
        "SELECT "@ + spec_join_sep(fields, ", "@)
    }
}

/// The FROM clause: the quoted table name, then the alias if one is set.
pub open spec fn spec_from_clause(from: Seq<char>, alias: Option<Seq<char>>) -> Seq<char> {
    " FROM \""@ + from + "\""@ + (match alias {
        Some(a) => " "@ + a,
        None => Seq::<char>::empty(),
    })
}

/// One JOIN clause: the quoted table, the alias if one is set, and the ON
/// predicate verbatim.
pub open spec fn spec_join_clause(j: (Seq<char>, Option<Seq<char>>, Seq<char>)) -> Seq<char> {
    " JOIN \""@ + j.0 + "\""@ + (match j.1 {
        Some(a) => " "@ + a,
        None => Seq::<char>::empty(),
    }) + " ON "@ + j.2
}

/// All JOIN clauses, in insertion order.
pub open spec fn spec_join_clauses(joins: Seq<(Seq<char>, Option<Seq<char>>, Seq<char>)>) -> Seq<
    char,
>
    decreases joins.len(),
{
    if joins.len() == 0 {
        Seq::empty()
    } else {
        spec_join_clauses(joins.drop_last()) + spec_join_clause(joins.last())
    }
}

/// The template with every placeholder marker `?` replaced by the
/// replacement text; other characters are kept verbatim.
pub open spec fn spec_replace_marker(template: Seq<char>, repl: Seq<char>) -> Seq<char>
    decreases template.len(),
{
    if template.len() == 0 {
        Seq::empty()
    } else {
        spec_replace_marker(template.drop_last(), repl) + (if template.last() == '?' {
            repl
        } else {
            seq![template.last()]
        })
    }
}

/// One rendered filter: its template with the marker replaced by the
/// placeholder tokens numbered from `start`.
pub open spec fn spec_filter_clause(f: (Seq<char>, usize), start: nat) -> Seq<char> {
    spec_replace_marker(f.0, spec_placeholders(start, f.1 as nat))
}

/// The rendered filters joined by ` AND `, each consuming its arity's worth
/// of consecutive placeholder numbers: the filter after a prefix of filters
/// starts at one past the sum of the prefix's arities.
pub open spec fn spec_where_list(filters: Seq<(Seq<char>, usize)>) -> Seq<char>
    decreases filters.len(),
{
    if filters.len() == 0 {
        Seq::empty()
    } else {
        spec_where_list(filters.drop_last()) + (if filters.len() == 1 {
            Seq::<char>::empty()
        } else {
            " AND "@
        }) + spec_filter_clause(
            filters.last(),
            (1 + spec_sum_arities(filters.drop_last())) as nat,
        )
    }
}

/// The WHERE clause, omitted entirely when there are no filters.
pub open spec fn spec_where_clause(filters: Seq<(Seq<char>, usize)>) -> Seq<char> {
    if filters.len() == 0 {
        Seq::empty()
    } else {
        " WHERE "@ + spec_where_list(filters)
    }
}

/// The GROUP BY clause, omitted when there are no grouping expressions.
pub open spec fn spec_group_clause(group_by: Seq<Seq<char>>) -> Seq<char> {
    if group_by.len() == 0 {
        Seq::empty()
    } else {
        " GROUP BY "@ + spec_join_sep(group_by, ", "@)
    }
}

/// The HAVING clause, omitted when no predicate is set.
pub open spec fn spec_having_clause(having: Option<Seq<char>>) -> Seq<char> {
    match having {
        Some(h) => " HAVING "@ + h,
        None => Seq::empty(),
    }
}

/// The LIMIT clause, omitted when no bound is set.
pub open spec fn spec_limit_clause(limit: Option<usize>) -> Seq<char> {
    match limit {
        Some(n) => " LIMIT "@ + spec_dec(n as nat),
        None => Seq::empty(),
    }
}

/// The OFFSET clause, omitted when no bound is set.
pub open spec fn spec_offset_clause(offset: Option<usize>) -> Seq<char> {
    match offset {
        Some(n) => " OFFSET "@ + spec_dec(n as nat),
        None => Seq::empty(),
    }
}

/// The whole rendered statement: the clauses in SQL grammar order.
pub open spec fn spec_render(q: QueryView) -> Seq<char> {
    spec_select_clause(q.fields) + spec_from_clause(q.from, q.from_alias) + spec_join_clauses(
        q.joins,
    ) + spec_where_clause(q.filters) + spec_group_clause(q.group_by) + spec_having_clause(q.having)
        + spec_limit_clause(q.limit) + spec_offset_clause(q.offset)
}

/// The run of `count` consecutive placeholder numbers starting at `start`.
pub open spec fn spec_number_run(start: nat, count: nat) -> Seq<nat> {
    Seq::new(count, |i: int| (start + i) as nat)
}

/// The placeholder numbers the filters consume, in rendering order: each
/// filter's run starts one past the number of values the filters before it
/// consume, exactly as the rendered WHERE clause numbers its tokens.
pub open spec fn spec_filter_numbers(filters: Seq<(Seq<char>, usize)>) -> Seq<nat>
    decreases filters.len(),
{
    if filters.len() == 0 {
        Seq::empty()
    } else {
        spec_filter_numbers(filters.drop_last()) + spec_number_run(
            (1 + spec_sum_arities(filters.drop_last())) as nat,
            filters.last().1 as nat,
        )
    }
}

/// Whatever filters a builder holds, the placeholder numbers its WHERE
/// clause consumes are exactly `1 ..= Σ arities`, contiguous and in filter
/// order: one number per bound value, so the value rendered for `$k` is the
/// k-th bound value.
pub proof fn lemma_placeholder_numbers(filters: Seq<(Seq<char>, usize)>)
    ensures
        spec_filter_numbers(filters) == spec_number_run(1, spec_sum_arities(filters) as nat),
        spec_filter_numbers(filters).len() == spec_sum_arities(filters),
    decreases filters.len(),
{
    lemma_sum_arities_nonneg(filters);
    if filters.len() == 0 {
        assert(spec_filter_numbers(filters) =~= spec_number_run(
            1,
            spec_sum_arities(filters) as nat,
        ));
    } else {
        lemma_placeholder_numbers(filters.drop_last());
        lemma_sum_arities_nonneg(filters.drop_last());
        assert(spec_filter_numbers(filters) =~= spec_number_run(
            1,
            spec_sum_arities(filters) as nat,
        ));
    }
}

/// Rendering does not change the builder and computes from it alone: any two
/// renders of the same unmodified builder yield the same text and the same
/// value sequence.
pub proof fn lemma_render_idempotent(
    q: QueryView,
    t1: Seq<char>,
    v1: Seq<ValueView>,
    t2: Seq<char>,
    v2: Seq<ValueView>,
)
    requires
        t1 == spec_render(q),
        v1 == q.values,
        t2 == spec_render(q),
        v2 == q.values,
    ensures
        t1 == t2,
        v1 == v2,
{
}

/// A builder with a source table and nothing else configured renders as
/// exactly `SELECT <fields joined by ", "> FROM "<table>"`, with `*`
/// standing in for an empty field list.
pub proof fn lemma_render_bare(q: QueryView)
    requires
        q.from_alias is None,
        q.joins.len() == 0,
        q.filters.len() == 0,
        q.group_by.len() == 0,
        q.having is None,
        q.limit is None,
        q.offset is None,
    ensures
        q.fields.len() > 0 ==> spec_render(q) == "SELECT "@ + spec_join_sep(q.fields, ", "@)
            + " FROM \""@ + q.from + "\""@,
        q.fields.len() == 0 ==> spec_render(q) == "SELECT *"@ + " FROM \""@ + q.from + "\""@,
{
    if q.fields.len() > 0 {
        assert(spec_render(q) =~= "SELECT "@ + spec_join_sep(q.fields, ", "@) + " FROM \""@
            + q.from + "\""@);
    } else {
        assert(spec_render(q) =~= "SELECT *"@ + " FROM \""@ + q.from + "\""@);
    }
}

/// A limit-only builder renders as the limit-free statement with exactly the
/// one `LIMIT` clause appended, and no `OFFSET` clause anywhere.
pub proof fn lemma_limit_appends_one_clause(q: QueryView, n: usize)
    requires
        q.limit == Some(n),
        q.offset is None,
    ensures
        spec_render(q) == spec_render(QueryView { limit: None, ..q }) + " LIMIT "@ + spec_dec(
            n as nat,
        ),
{
    assert(spec_render(q) =~= spec_render(QueryView { limit: None, ..q }) + " LIMIT "@
        + spec_dec(n as nat));
}

/// An offset-only builder renders as the offset-free statement with exactly
/// the one `OFFSET` clause appended, and no `LIMIT` clause anywhere.
pub proof fn lemma_offset_appends_one_clause(q: QueryView, n: usize)
    requires
        q.offset == Some(n),
        q.limit is None,
    ensures
        spec_render(q) == spec_render(QueryView { offset: None, ..q }) + " OFFSET "@ + spec_dec(
            n as nat,
        ),
{
    assert(spec_render(q) =~= spec_render(QueryView { offset: None, ..q }) + " OFFSET "@
        + spec_dec(n as nat));
}

/// The sum of a prefix of the arities never exceeds the sum of them all.
proof fn lemma_sum_arities_take_le(filters: Seq<(Seq<char>, usize)>, j: int)
    requires
        0 <= j <= filters.len(),
    ensures
        spec_sum_arities(filters.take(j)) <= spec_sum_arities(filters),
        spec_sum_arities(filters.take(j)) >= 0,
    decreases filters.len() - j,
{
    lemma_sum_arities_nonneg(filters.take(j));
    if j == filters.len() {
        assert(filters.take(j) =~= filters);
    } else {
        lemma_sum_arities_take_le(filters, j + 1);
        assert(filters.take(j + 1).drop_last() =~= filters.take(j));
        assert(spec_sum_arities(filters.take(j + 1)) == spec_sum_arities(filters.take(j))
            + filters[j].1);
    }
}

/// The sum of the arities is never negative.
proof fn lemma_sum_arities_nonneg(filters: Seq<(Seq<char>, usize)>)
    ensures
        spec_sum_arities(filters) >= 0,
    decreases filters.len(),
{
    if filters.len() > 0 {
        lemma_sum_arities_nonneg(filters.drop_last());
    }
}

/// Renders a filter template, replacing every `?` by the replacement text.
fn replace_marker(template: &String, repl: &String) -> (r: String)
    ensures
        r@ == spec_replace_marker(template@, repl@),
{
    let t = template.as_str();
    let n = t.unicode_len();
    let mut r = String::new();
    let mut i: usize = 0;
    proof {
        assert(r@ =~= spec_replace_marker(t@.take(0), repl@));
    }
    while i < n
        invariant
            t@ == template@,
            n == t@.len(),
            i <= n,
            r@ == spec_replace_marker(t@.take(i as int), repl@),
        decreases n - i,
    {
        let c = t.get_char(i);
        if c == '?' {
            r.append(repl.as_str());
        } else {
            push_char(&mut r, c);
        }
        proof {
            assert(t@.take(i + 1).drop_last() =~= t@.take(i as int));
            assert(t@.take(i + 1).last() == t@[i as int]);
        }
        i = i + 1;
    }
    proof {
        assert(t@.take(n as int) =~= t@);
    }
    r
}

/// Appends the JOIN clauses in insertion order.
fn append_joins(s: &mut String, joins: &Vec<(String, Option<String>, String)>)
    ensures
        final(s)@ == old(s)@ + spec_join_clauses(joins.deep_view()),
{
    let ghost jv = joins.deep_view();
    let ghost head = s@;
    let mut i: usize = 0;
    proof {
        assert(s@ =~= head + spec_join_clauses(jv.take(0)));
    }
    while i < joins.len()
        invariant
            jv == joins.deep_view(),
            jv.len() == joins@.len(),
            i <= joins@.len(),
            s@ == head + spec_join_clauses(jv.take(i as int)),
        decreases joins@.len() - i,
    {
        let j = &joins[i];
        s.append(" JOIN \"");
        s.append(j.0.as_str());
        s.append("\"");
        if let Some(a) = &j.1 {
            s.append(" ");
            s.append(a.as_str());
        }
        s.append(" ON ");
        s.append(j.2.as_str());
        proof {
            assert(jv[i as int] == (joins@[i as int].0@, joins@[i as int].1.deep_view(), joins@[
                i as int
            ].2@));
            assert(jv.take(i + 1).drop_last() =~= jv.take(i as int));
            assert(jv.take(i + 1).last() == jv[i as int]);
            assert(s@ =~= head + spec_join_clauses(jv.take(i + 1)));
        }
        i = i + 1;
    }
    proof {
        assert(jv.take(joins@.len() as int) =~= jv);
    }
}

/// Builds the comma-joined placeholder tokens for one filter: `arity` tokens
/// numbered upward from one past the `consumed` values before it.
fn placeholder_list(consumed: usize, arity: usize, total: usize) -> (r: String)
    requires
        consumed + arity <= total,
    ensures
        r@ == spec_placeholders((consumed + 1) as nat, arity as nat),
{
    let mut r = String::new();
    let mut k: usize = 0;
    proof {
        assert(r@ =~= spec_placeholders((consumed + 1) as nat, 0));
    }
    while k < arity
        invariant
            k <= arity,
            consumed + arity <= total,
            r@ == spec_placeholders((consumed + 1) as nat, k as nat),
        decreases arity - k,
    {
        append_placeholder(&mut r, consumed + k + 1, k == 0);
        proof {
            assert(r@ =~= spec_placeholders((consumed + 1) as nat, (k + 1) as nat));
        }
        k = k + 1;
    }
    r
}

/// Appends the WHERE clause: the filters in insertion order, joined by
/// ` AND `, each template's marker replaced by its run of consecutive
/// placeholder numbers; nothing when there are no filters.
fn append_where(s: &mut String, filters: &Vec<(String, usize)>, total: usize)
    requires
        spec_sum_arities(filters.deep_view()) == total as int,
    ensures
        final(s)@ == old(s)@ + spec_where_clause(filters.deep_view()),
{
    let ghost fv = filters.deep_view();
    let ghost head = s@;
    if filters.len() > 0 {
        s.append(" WHERE ");
    }
    let ghost opening = if fv.len() == 0 {
        Seq::<char>::empty()
    } else {
        " WHERE "@
    };
    let mut consumed: usize = 0;
    let mut i: usize = 0;
    proof {
        assert(fv.take(0) =~= Seq::<(Seq<char>, usize)>::empty());
        assert(s@ =~= head + opening + spec_where_list(fv.take(0)));
    }
    while i < filters.len()
        invariant
            fv == filters.deep_view(),
            fv.len() == filters@.len(),
            i <= filters@.len(),
            spec_sum_arities(fv) == total as int,
            consumed == spec_sum_arities(fv.take(i as int)),
            opening == (if fv.len() == 0 {
                Seq::<char>::empty()
            } else {
                " WHERE "@
            }),
            s@ == head + opening + spec_where_list(fv.take(i as int)),
        decreases filters@.len() - i,
    {
        if i > 0 {
            s.append(" AND ");
        }
        let arity = filters[i].1;
        proof {
            assert(fv[i as int] == (filters@[i as int].0@, filters@[i as int].1));
            lemma_sum_arities_take_le(fv, i + 1);
            assert(fv.take(i + 1).drop_last() =~= fv.take(i as int));
            assert(fv.take(i + 1).last() == fv[i as int]);
            assert(spec_sum_arities(fv.take(i + 1)) == spec_sum_arities(fv.take(i as int))
                + arity);
        }
        let tokens = placeholder_list(consumed, arity, total);
        let rendered = replace_marker(&filters[i].0, &tokens);
        s.append(rendered.as_str());
        consumed = consumed + arity;
        proof {
            assert(s@ =~= head + opening + spec_where_list(fv.take(i + 1)));
        }
        i = i + 1;
    }
    proof {
        assert(fv.take(filters@.len() as int) =~= fv);
    }
}

/// Appends the GROUP BY, HAVING, LIMIT and OFFSET clauses, each omitted when
/// unset.
fn append_tail(
    s: &mut String,
    group_by: &Vec<String>,
    having: &Option<String>,
    limit: Option<usize>,
    offset: Option<usize>,
)
    ensures
        final(s)@ == old(s)@ + spec_group_clause(group_by.deep_view()) + spec_having_clause(
            having.deep_view(),
        ) + spec_limit_clause(limit) + spec_offset_clause(offset),
{
    if group_by.len() > 0 {
        s.append(" GROUP BY ");
        let gl = join_with(group_by, ", ");
        s.append(gl.as_str());
    }
    if let Some(h) = having {
        s.append(" HAVING ");
        s.append(h.as_str());
    }
    if let Some(n) = limit {
        s.append(" LIMIT ");
        let d = usize_to_string(n);
        s.append(d.as_str());
    }
    if let Some(n) = offset {
        s.append(" OFFSET ");
        let d = usize_to_string(n);
        s.append(d.as_str());
    }
}

/// Copies the bound values, in order.
fn clone_values(values: &Vec<Value>) -> (r: Vec<Value>)
    ensures
        r.deep_view() == values.deep_view(),
        r@.len() == values@.len(),
{
    let mut r: Vec<Value> = Vec::new();
    let mut k: usize = 0;
    while k < values.len()
        invariant
            k <= values@.len(),
            r@ =~= values@.take(k as int),
        decreases values@.len() - k,
    {
        r.push(values[k].clone());
        proof {
            assert(r@ =~= values@.take(k + 1));
        }
        k = k + 1;
    }
    proof {
        assert(r@ =~= values@);
        assert(r.deep_view() =~= values.deep_view());
    }
    r
}

impl SelectQuery {
    /// Renders the statement text and the bound values, leaving the builder
    /// as it is: the text is the clauses in SQL grammar order with the
    /// filters' placeholder markers replaced by numbered placeholders
    /// `$1, $2, ...` assigned in filter order, and the values are returned
    /// in exactly that placeholder order, one per placeholder.
    pub fn build(&self) -> (r: (String, Vec<Value>))
        ensures
            r.0@ == spec_render(self@),
            r.1.deep_view() == self@.values,
            r.1@.len() == spec_sum_arities(self@.filters),
    {
        proof {
            use_type_invariant(self);
        }
        let total = self.values.len();
        let mut s = String::new();

        if self.fields.len() > 0 {
            s.append("SELECT ");
            let fl = join_with(&self.fields, ", ");
            s.append(fl.as_str());
        } else {
            s.append("SELECT *");
        }
        proof {
            assert(s@ =~= spec_select_clause(self@.fields));
        }

        s.append(" FROM \"");
        s.append(self.from.as_str());
        s.append("\"");
        if let Some(a) = &self.from_alias {
            s.append(" ");
            s.append(a.as_str());
        }
        proof {
            assert(s@ =~= spec_select_clause(self@.fields) + spec_from_clause(
                self@.from,
                self@.from_alias,
            ));
        }

        append_joins(&mut s, &self.joins);
        append_where(&mut s, &self.filters, total);
        append_tail(&mut s, &self.group_by, &self.having, self.limit, self.offset);
        proof {
            assert(s@ =~= spec_render(self@));
        }

        let vals = clone_values(&self.values);
        (s, vals)
    }

    /// The statement text alone, as the builder would render it now.
    pub fn statement_text(&self) -> (r: String)
        ensures
            r@ == spec_render(self@),
    {
        let (s, _) = self.build();
        s
    }
}

} // verus!

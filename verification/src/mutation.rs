//! The INSERT and UPDATE statement helpers: from a record's ordered
//! field/value pairs they produce the statement text and the bound values in
//! placeholder order, skipping the named fields and appending a RETURNING
//! clause when asked for one.

use vstd::prelude::*;
use vstd::string::StringExecFns;
use crate::text::{append_placeholder, contains_string, join_with, spec_dec, spec_join_sep,
    spec_placeholders, usize_to_string};
use crate::value::{Value, ValueView};

verus! {

/// The pairs kept after dropping every field whose name occurs in `skip`, in
/// their original order.
pub open spec fn spec_kept(pairs: Seq<(Seq<char>, ValueView)>, skip: Seq<Seq<char>>) -> Seq<
    (Seq<char>, ValueView),
>
    decreases pairs.len(),
{
    if pairs.len() == 0 {
        Seq::empty()
    } else {
        spec_kept(pairs.drop_last(), skip) + (if skip.contains(pairs.last().0) {
            Seq::empty()
        } else {
            seq![pairs.last()]
        })
    }
}

/// The kept values, in pair order: the values bound to the statement.
pub open spec fn spec_kept_values(kept: Seq<(Seq<char>, ValueView)>) -> Seq<ValueView> {
    kept.map_values(|p: (Seq<char>, ValueView)| p.1)
}

/// The kept column names, each double-quoted, joined by `, `.
pub open spec fn spec_quoted_cols(kept: Seq<(Seq<char>, ValueView)>) -> Seq<char>
    decreases kept.len(),
{
    if kept.len() == 0 {
        Seq::empty()
    } else {
        spec_quoted_cols(kept.drop_last()) + (if kept.len() == 1 {
            Seq::<char>::empty()
        } else {
            ", "@
        }) + "\""@ + kept.last().0 + "\""@
    }
}

/// The `"column" = $k` assignments joined by `, `, where `k` is the column's
/// position among the kept pairs, counted from 1.
pub open spec fn spec_set_list(kept: Seq<(Seq<char>, ValueView)>) -> Seq<char>
    decreases kept.len(),
{
    if kept.len() == 0 {
        Seq::empty()
    } else {
        spec_set_list(kept.drop_last()) + (if kept.len() == 1 {
            Seq::<char>::empty()
        } else {
            ", "@
        }) + "\""@ + kept.last().0 + "\" = $"@ + spec_dec(kept.len() as nat)
    }
}

/// The RETURNING clause: the field names quoted and joined, or nothing when
/// no field is asked for.
pub open spec fn spec_returning_clause(returning: Seq<Seq<char>>) -> Seq<char> {
    if returning.len() == 0 {
        Seq::empty()
    } else {
        " RETURNING \""@ + spec_join_sep(returning, "\", \""@) + "\""@
    }
}

/// The whole INSERT statement for the kept pairs: quoted columns, one
/// numbered placeholder per kept value, and the RETURNING clause.
pub open spec fn spec_insert_text(
    table: Seq<char>,
    pairs: Seq<(Seq<char>, ValueView)>,
    skip: Seq<Seq<char>>,
    returning: Seq<Seq<char>>,
) -> Seq<char> {
    let kept = spec_kept(pairs, skip);
    "INSERT INTO \""@ + table + "\" ("@ + spec_quoted_cols(kept) + ") VALUES ("@
        + spec_placeholders(1, kept.len()) + ")"@ + spec_returning_clause(returning)
}

/// The whole UPDATE statement for the kept pairs: `SET` assignments with one
/// numbered placeholder each, the caller's key predicate after `WHERE`, and
/// the RETURNING clause.
pub open spec fn spec_update_text(
    table: Seq<char>,
    pairs: Seq<(Seq<char>, ValueView)>,
    skip: Seq<Seq<char>>,
    predicate: Seq<char>,
    returning: Seq<Seq<char>>,
) -> Seq<char> {
    let kept = spec_kept(pairs, skip);
    "UPDATE \""@ + table + "\" SET "@ + spec_set_list(kept) + " WHERE "@ + predicate
        + spec_returning_clause(returning)
}

/// Appends the RETURNING clause, or nothing when no field is asked for.
fn append_returning(s: &mut String, returning: &Vec<String>)
    ensures
        final(s)@ == old(s)@ + spec_returning_clause(returning.deep_view()),
{
    if returning.len() > 0 {
        s.append(" RETURNING \"");
        let j = join_with(returning, "\", \"");
        s.append(j.as_str());
        s.append("\"");
    }
}

/// Builds an INSERT statement for the record's field/value pairs: every pair
/// whose name is not in `skip` contributes a quoted column, a numbered
/// placeholder counted from `$1` in pair order, and its value; the
/// `returning` fields are appended as a RETURNING clause. Returns the
/// statement text and the bound values in placeholder order.
pub fn insert(
    table: &str,
    pairs: &Vec<(String, Value)>,
    skip: &Vec<String>,
    returning: &Vec<String>,
) -> (r: (String, Vec<Value>))
    ensures
        r.0@ == spec_insert_text(
            table@,
            pairs.deep_view(),
            skip.deep_view(),
            returning.deep_view(),
        ),
        r.1.deep_view() == spec_kept_values(spec_kept(pairs.deep_view(), skip.deep_view())),
        r.1@.len() == spec_kept(pairs.deep_view(), skip.deep_view()).len(),
{
    let ghost pv = pairs.deep_view();
    let ghost sv = skip.deep_view();
    let mut cols = String::new();
    let mut tokens = String::new();
    let mut vals: Vec<Value> = Vec::new();
    let mut i: usize = 0;
    proof {
        assert(pv.take(0) =~= Seq::<(Seq<char>, ValueView)>::empty());
        assert(cols@ =~= spec_quoted_cols(spec_kept(pv.take(0), sv)));
        assert(tokens@ =~= spec_placeholders(1, spec_kept(pv.take(0), sv).len()));
        assert(vals.deep_view() =~= spec_kept_values(spec_kept(pv.take(0), sv)));
    }
    while i < pairs.len()
        invariant
            pv == pairs.deep_view(),
            sv == skip.deep_view(),
            pv.len() == pairs@.len(),
            i <= pairs@.len(),
            vals@.len() == spec_kept(pv.take(i as int), sv).len(),
            vals@.len() <= i,
            cols@ == spec_quoted_cols(spec_kept(pv.take(i as int), sv)),
            tokens@ == spec_placeholders(1, spec_kept(pv.take(i as int), sv).len()),
            vals.deep_view() == spec_kept_values(spec_kept(pv.take(i as int), sv)),
        decreases pairs@.len() - i,
    {
        let ghost kept = spec_kept(pv.take(i as int), sv);
        let p = &pairs[i];
        let skipped = contains_string(skip, &p.0);
        proof {
            assert(pv[i as int] == (pairs@[i as int].0@, pairs@[i as int].1.deep_view()));
            assert(pv.take(i + 1).drop_last() =~= pv.take(i as int));
            assert(pv.take(i + 1).last() == pv[i as int]);
        }
        if !skipped {
            let first = vals.len() == 0;
            let ghost kept2 = spec_kept(pv.take(i + 1), sv);
            proof {
                assert(kept2 =~= kept.push(pv[i as int]));
                assert(kept2.drop_last() =~= kept);
            }
            if !first {
                cols.append(", ");
            }
            cols.append("\"");
            cols.append(p.0.as_str());
            cols.append("\"");
            append_placeholder(&mut tokens, vals.len() + 1, first);
            let ghost vd = vals.deep_view();
            vals.push(p.1.clone());
            proof {
                assert(cols@ =~= spec_quoted_cols(kept2));
                assert(tokens@ =~= spec_placeholders(1, kept2.len()));
                assert(vals.deep_view() =~= vd.push(pv[i as int].1));
                assert(spec_kept_values(kept2) =~= spec_kept_values(kept).push(pv[i as int].1));
                assert(vals.deep_view() =~= spec_kept_values(kept2));
            }
        } else {
            proof {
                assert(spec_kept(pv.take(i + 1), sv) =~= kept);
            }
        }
        i = i + 1;
    }
    proof {
        assert(pv.take(pairs@.len() as int) =~= pv);
    }

    let mut s = String::new();
    s.append("INSERT INTO \"");
    s.append(table);
    s.append("\" (");
    s.append(cols.as_str());
    s.append(") VALUES (");
    s.append(tokens.as_str());
    s.append(")");
    append_returning(&mut s, returning);
    proof {
        assert(s@ =~= spec_insert_text(table@, pv, sv, returning.deep_view()));
    }
    (s, vals)
}

/// Builds an UPDATE statement for the record's field/value pairs: every pair
/// whose name is not in `skip` contributes a `"column" = $k` assignment with
/// its placeholder numbered from `$1` in pair order, and its value; the
/// caller's key predicate follows `WHERE` verbatim, and the `returning`
/// fields are appended as a RETURNING clause. Returns the statement text and
/// the bound values in placeholder order.
pub fn update(
    table: &str,
    pairs: &Vec<(String, Value)>,
    skip: &Vec<String>,
    predicate: &str,
    returning: &Vec<String>,
) -> (r: (String, Vec<Value>))
    ensures
        r.0@ == spec_update_text(
            table@,
            pairs.deep_view(),
            skip.deep_view(),
            predicate@,
            returning.deep_view(),
        ),
        r.1.deep_view() == spec_kept_values(spec_kept(pairs.deep_view(), skip.deep_view())),
        r.1@.len() == spec_kept(pairs.deep_view(), skip.deep_view()).len(),
{
    let ghost pv = pairs.deep_view();
    let ghost sv = skip.deep_view();
    let mut assignments = String::new();
    let mut vals: Vec<Value> = Vec::new();
    let mut i: usize = 0;
    proof {
        assert(pv.take(0) =~= Seq::<(Seq<char>, ValueView)>::empty());
        assert(assignments@ =~= spec_set_list(spec_kept(pv.take(0), sv)));
        assert(vals.deep_view() =~= spec_kept_values(spec_kept(pv.take(0), sv)));
    }
    while i < pairs.len()
        invariant
            pv == pairs.deep_view(),
            sv == skip.deep_view(),
            pv.len() == pairs@.len(),
            i <= pairs@.len(),
            vals@.len() == spec_kept(pv.take(i as int), sv).len(),
            vals@.len() <= i,
            assignments@ == spec_set_list(spec_kept(pv.take(i as int), sv)),
            vals.deep_view() == spec_kept_values(spec_kept(pv.take(i as int), sv)),
        decreases pairs@.len() - i,
    {
        let ghost kept = spec_kept(pv.take(i as int), sv);
        let p = &pairs[i];
        let skipped = contains_string(skip, &p.0);
        proof {
            assert(pv[i as int] == (pairs@[i as int].0@, pairs@[i as int].1.deep_view()));
            assert(pv.take(i + 1).drop_last() =~= pv.take(i as int));
            assert(pv.take(i + 1).last() == pv[i as int]);
        }
        if !skipped {
            let first = vals.len() == 0;
            let ghost kept2 = spec_kept(pv.take(i + 1), sv);
            proof {
                assert(kept2 =~= kept.push(pv[i as int]));
                assert(kept2.drop_last() =~= kept);
            }
            if !first {
                assignments.append(", ");
            }
            assignments.append("\"");
            assignments.append(p.0.as_str());
            assignments.append("\" = $");
            let d = usize_to_string(vals.len() + 1);
            assignments.append(d.as_str());
            let ghost vd = vals.deep_view();
            vals.push(p.1.clone());
            proof {
                assert(assignments@ =~= spec_set_list(kept2));
                assert(vals.deep_view() =~= vd.push(pv[i as int].1));
                assert(spec_kept_values(kept2) =~= spec_kept_values(kept).push(pv[i as int].1));
                assert(vals.deep_view() =~= spec_kept_values(kept2));
            }
        } else {
            proof {
                assert(spec_kept(pv.take(i + 1), sv) =~= kept);
            }
        }
        i = i + 1;
    }
    proof {
        assert(pv.take(pairs@.len() as int) =~= pv);
    }

    let mut s = String::new();
    s.append("UPDATE \"");
    s.append(table);
    s.append("\" SET ");
    s.append(assignments.as_str());
    s.append(" WHERE ");
    s.append(predicate);
    append_returning(&mut s, returning);
    proof {
        assert(s@ =~= spec_update_text(table@, pv, sv, predicate@, returning.deep_view()));
    }
    (s, vals)
}

} // verus!

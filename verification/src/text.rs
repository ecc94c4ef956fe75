//! Small text-building helpers shared by the renderers: decimal numbers,
//! separator-joined lists, and numbered placeholder tokens.

use vstd::prelude::*;
use vstd::string::StringExecFns;

verus! {

/// Relies on `String::push`: appends exactly the one character to the string.
#[verifier::external_body]
pub(crate) fn push_char(s: &mut String, c: char)
    ensures
        final(s)@ == old(s)@ + seq![c],
{
    s.push(c)
}

/// The character for one decimal digit.
pub open spec fn spec_digit(d: nat) -> char {
    if d == 0 {
        '0'
    } else if d == 1 {
        '1'
    } else if d == 2 {
        '2'
    } else if d == 3 {
        '3'
    } else if d == 4 {
        '4'
    } else if d == 5 {
        '5'
    } else if d == 6 {
        '6'
    } else if d == 7 {
        '7'
    } else if d == 8 {
        '8'
    } else {
        '9'
    }
}

/// The decimal rendering of `n`, most significant digit first, with no sign
/// and no leading zero except for `n == 0` itself.
pub open spec fn spec_dec(n: nat) -> Seq<char>
    decreases n,
{
    if n < 10 {
        seq![spec_digit(n)]
    } else {
        spec_dec(n / 10).push(spec_digit(n % 10))
    }
}

fn digit_char(d: usize) -> (c: char)
    requires
        d < 10,
    ensures
        c == spec_digit(d as nat),
{
    if d == 0 {
        '0'
    } else if d == 1 {
        '1'
    } else if d == 2 {
        '2'
    } else if d == 3 {
        '3'
    } else if d == 4 {
        '4'
    } else if d == 5 {
        '5'
    } else if d == 6 {
        '6'
    } else if d == 7 {
        '7'
    } else if d == 8 {
        '8'
    } else {
        '9'
    }
}

/// Renders `n` in decimal.
pub fn usize_to_string(n: usize) -> (r: String)
    ensures
        r@ == spec_dec(n as nat),
    decreases n,
{
    if n < 10 {
        let mut r = String::new();
        push_char(&mut r, digit_char(n));
        proof {
            assert(r@ =~= spec_dec(n as nat));
        }
        r
    } else {
        let mut r = usize_to_string(n / 10);
        push_char(&mut r, digit_char(n % 10));
        proof {
            assert(r@ =~= spec_dec(n as nat));
        }
        r
    }
}

/// The items joined by the separator, in order, with no leading or trailing
/// separator.
pub open spec fn spec_join_sep(items: Seq<Seq<char>>, sep: Seq<char>) -> Seq<char>
    decreases items.len(),
{
    if items.len() == 0 {
        Seq::empty()
    } else if items.len() == 1 {
        items[0]
    } else {
        spec_join_sep(items.drop_last(), sep) + sep + items.last()
    }
}

/// Joins the strings with the separator between each neighbouring pair.
pub fn join_with(items: &Vec<String>, sep: &str) -> (r: String)
    ensures
        r@ == spec_join_sep(items.deep_view(), sep@),
{
    let ghost iv = items.deep_view();
    let mut r = String::new();
    let mut i: usize = 0;
    proof {
        assert(r@ =~= spec_join_sep(iv.take(0), sep@));
    }
    while i < items.len()
        invariant
            iv == items.deep_view(),
            iv.len() == items@.len(),
            i <= items@.len(),
            r@ == spec_join_sep(iv.take(i as int), sep@),
        decreases items@.len() - i,
    {
        if i > 0 {
            r.append(sep);
        }
        r.append(items[i].as_str());
        proof {
            assert(iv.take(i + 1).drop_last() =~= iv.take(i as int));
            assert(iv.take(i + 1).last() == iv[i as int]);
            assert(iv[i as int] == items@[i as int]@);
        }
        i = i + 1;
    }
    proof {
        assert(iv.take(items@.len() as int) =~= iv);
    }
    r
}

/// The comma-separated list of numbered placeholder tokens
/// `$start, $(start+1), ..., $(start+count-1)`; empty when `count == 0`.
pub open spec fn spec_placeholders(start: nat, count: nat) -> Seq<char>
    decreases count,
{
    if count == 0 {
        Seq::empty()
    } else {
        spec_placeholders(start, (count - 1) as nat) + (if count == 1 {
            Seq::<char>::empty()
        } else {
            ", "@
        }) + "$"@ + spec_dec((start + count - 1) as nat)
    }
}

/// Appends one numbered placeholder token, preceded by the list separator
/// unless it is the first of its list.
pub(crate) fn append_placeholder(s: &mut String, index: usize, first: bool)
    ensures
        final(s)@ == old(s)@ + (if first {
            Seq::<char>::empty()
        } else {
            ", "@
        }) + "$"@ + spec_dec(index as nat),
{
    if !first {
        s.append(", ");
    }
    s.append("$");
    let d = usize_to_string(index);
    s.append(d.as_str());
}

/// Whether the string occurs in the list.
pub(crate) fn contains_string(list: &Vec<String>, s: &String) -> (r: bool)
    ensures
        r == list.deep_view().contains(s@),
{
    let ghost lv = list.deep_view();
    let mut i: usize = 0;
    while i < list.len()
        invariant
            lv == list.deep_view(),
            lv.len() == list@.len(),
            i <= list@.len(),
            forall|j: int| 0 <= j < i ==> lv[j] != s@,
        decreases list@.len() - i,
    {
        if list[i] == *s {
            proof {
                assert(lv[i as int] == list@[i as int]@);
            }
            return true;
        }
        proof {
            assert(lv[i as int] == list@[i as int]@);
        }
        i = i + 1;
    }
    false
}

} // verus!

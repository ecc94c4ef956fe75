//! Conversion of a mixed-case type name into a lowercase table name.

use vstd::prelude::*;
use vstd::string::StrSliceExecFns;
use crate::text::push_char;

verus! {

/// An ASCII capital letter.
pub open spec fn spec_is_upper(c: char) -> bool {
    'A' <= c && c <= 'Z'
}

/// Lowers an ASCII capital letter; any other character is unchanged.
pub open spec fn spec_lower_char(c: char) -> char {
    if spec_is_upper(c) {
        (c as u8 + 32) as char
    } else {
        c
    }
}

/// What one character of the name contributes to the table name: the first
/// character is lowered with no separator, an internal capital gets an
/// underscore before its lowered form, and anything else is kept as it is.
pub open spec fn spec_name_char(c: char, pos: int) -> Seq<char> {
    if pos == 0 {
        seq![spec_lower_char(c)]
    } else if spec_is_upper(c) {
        seq!['_', spec_lower_char(c)]
    } else {
        seq![c]
    }
}

/// The table name derived from a mixed-case type name: each character's
/// contribution under `spec_name_char`, in order.
pub open spec fn spec_table_name(name: Seq<char>) -> Seq<char>
    decreases name.len(),
{
    if name.len() == 0 {
        Seq::empty()
    } else {
        spec_table_name(name.drop_last()) + spec_name_char(name.last(), name.len() - 1)
    }
}

/// Converts a mixed-case type name into a lowercase, underscore-separated
/// table name: every internal capital letter is preceded by an underscore and
/// lowered, and the first character is lowered with no underscore.
pub fn convert_table_name(name: &str) -> (r: String)
    ensures
        r@ == spec_table_name(name@),
{
    let n = name.unicode_len();
    let mut r = String::new();
    let mut i: usize = 0;
    while i < n
        invariant
            n == name@.len(),
            i <= n,
            r@ == spec_table_name(name@.take(i as int)),
        decreases n - i,
    {
        let c = name.get_char(i);
        if i == 0 {
            push_char(&mut r, lower_char(c));
        } else if 'A' <= c && c <= 'Z' {
            push_char(&mut r, '_');
            push_char(&mut r, lower_char(c));
        } else {
            push_char(&mut r, c);
        }
        proof {
            assert(name@.take(i + 1).drop_last() =~= name@.take(i as int));
            assert(name@.take(i + 1).last() == name@[i as int]);
        }
        i = i + 1;
    }
    proof {
        assert(name@.take(n as int) =~= name@);
    }
    r
}

/// Lowers one ASCII capital letter, leaving every other character unchanged.
fn lower_char(c: char) -> (r: char)
    ensures
        r == spec_lower_char(c),
{
    if 'A' <= c && c <= 'Z' {
        (c as u8 + 32) as char
    } else {
        c
    }
}

/// A name with no capital letter after its first character converts to the
/// lowered first character followed by the rest unchanged.
pub proof fn lemma_table_name_no_internal_upper(name: Seq<char>)
    requires
        forall|i: int| 1 <= i < name.len() ==> !spec_is_upper(#[trigger] name[i]),
        name.len() > 0,
    ensures
        spec_table_name(name) == seq![spec_lower_char(name[0])] + name.skip(1),
    decreases name.len(),
{
    if name.len() == 1 {
        assert(spec_table_name(name.drop_last()) == Seq::<char>::empty());
        assert(spec_table_name(name) =~= seq![spec_lower_char(name[0])] + name.skip(1));
    } else {
        lemma_table_name_no_internal_upper(name.drop_last());
        assert(spec_table_name(name) =~= seq![spec_lower_char(name[0])] + name.skip(1));
    }
}

} // verus!

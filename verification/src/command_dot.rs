//! Text for the labels of DOT drawings.

use vstd::prelude::*;

use crate::syntax::push_char;

verus! {

/// The characters that DOT record labels give a meaning to.
pub open spec fn dot_special(c: char) -> bool {
    c == '\\' || c == '"' || c == '{' || c == '}' || c == '|' || c == '<' || c == '>'
}

/// A character as it stands in a DOT label: a special one is preceded by a
/// backslash.
pub open spec fn dot_escaped_char(c: char) -> Seq<char> {
    if dot_special(c) {
        seq!['\\', c]
    } else {
        seq![c]
    }
}

/// Every character of `s` escaped, in order.
pub open spec fn dot_escaped(s: Seq<char>) -> Seq<char>
    decreases s.len(),
{
    if s.len() == 0 {
        Seq::empty()
    } else {
        dot_escaped(s.drop_last()) + dot_escaped_char(s.last())
    }
}

/// `label` with a backslash before each backslash, double quote, brace,
/// bar and angle bracket.
pub fn escape_dot_label(label: &str) -> (r: String)
    ensures
        r@ == dot_escaped(label@),
{
    let n = label.unicode_len();
    let mut out = String::new();
    let mut i: usize = 0;
    while i < n
        invariant
            i <= n,
            n == label@.len(),
            out@ == dot_escaped(label@.subrange(0, i as int)),
        decreases n - i,
    {
        let c = label.get_char(i);
        if c == '\\' || c == '"' || c == '{' || c == '}' || c == '|' || c == '<' || c == '>' {
            push_char(&mut out, '\\');
            push_char(&mut out, c);
        } else {
            push_char(&mut out, c);
        }
        proof {
            let sub = label@.subrange(0, i + 1);
            assert(sub.drop_last() =~= label@.subrange(0, i as int));
            assert(sub.last() == c);
            assert(out@ =~= dot_escaped(sub));
        }
        i = i + 1;
    }
    proof {
        assert(label@.subrange(0, n as int) =~= label@);
    }
    out
}

} // verus!

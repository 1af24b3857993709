//! Output formats of compile runs and the YAML text of their options.

use vstd::prelude::*;

use crate::syntax::push_char;

verus! {

/// The formats a compile run can write its drawing in.
#[derive(Debug, Clone, Copy, PartialEq, Eq, Structural)]
pub enum OutputFormat {
    Dot,
}

impl OutputFormat {
    /// The format's name.
    pub fn as_str(self) -> (r: &'static str)
        ensures
            r@ == "dot"@,
    {
        match self {
            OutputFormat::Dot => "dot",
        }
    }
}

/// A character as it stands inside a double-quoted YAML string: a
/// backslash or a double quote is preceded by a backslash.
pub open spec fn yaml_escaped_char(c: char) -> Seq<char> {
    if c == '\\' {
        seq!['\\', '\\']
    } else if c == '"' {
        seq!['\\', '"']
    } else {
        seq![c]
    }
}

/// Every character of `s` escaped, in order.
pub open spec fn yaml_escaped(s: Seq<char>) -> Seq<char>
    decreases s.len(),
{
    if s.len() == 0 {
        Seq::empty()
    } else {
        yaml_escaped(s.drop_last()) + yaml_escaped_char(s.last())
    }
}

/// `value` as a double-quoted YAML string.
pub fn yaml_string(value: &str) -> (r: String)
    ensures
        r@ == seq!['"'] + yaml_escaped(value@) + seq!['"'],
{
    let n = value.unicode_len();
    let mut out = String::new();
    proof {
        reveal_strlit("");
    }
    push_char(&mut out, '"');
    let mut i: usize = 0;
    while i < n
        invariant
            i <= n,
            n == value@.len(),
            out@ == seq!['"'] + yaml_escaped(value@.subrange(0, i as int)),
        decreases n - i,
    {
        let c = value.get_char(i);
        if c == '\\' {
            push_char(&mut out, '\\');
            push_char(&mut out, '\\');
        } else if c == '"' {
            push_char(&mut out, '\\');
            push_char(&mut out, '"');
        } else {
            push_char(&mut out, c);
        }
        proof {
            let sub = value@.subrange(0, i + 1);
            assert(sub.drop_last() =~= value@.subrange(0, i as int));
            assert(sub.last() == c);
            assert(out@ =~= seq!['"'] + yaml_escaped(sub));
        }
        i = i + 1;
    }
    push_char(&mut out, '"');
    proof {
        assert(value@.subrange(0, n as int) =~= value@);
    }
    out
}

} // verus!

//! Quoting of text for the push-subscription store's SQL statements.
use vstd::prelude::*;

verus! {

/// `s` with each single quote doubled.
pub open spec fn sql_escaped(s: Seq<char>) -> Seq<char>
    decreases s.len(),
{
    if s.len() == 0 {
        Seq::empty()
    } else {
        sql_escaped(s.drop_last()) + if s.last() == '\'' {
            seq!['\'', '\'']
        } else {
            seq![s.last()]
        }
    }
}

/// Doubles every single quote of `string`, so that it can stand inside a
/// quoted SQL literal.
pub fn escape(string: &str) -> (r: String)
    ensures
        r@ == sql_escaped(string@),
{
    let n = string.unicode_len();
    let mut r = String::new();
    let mut i: usize = 0;
    proof {
        reveal_strlit("''");
        assert(string@.subrange(0, 0) =~= Seq::<char>::empty());
    }
    while i < n
        invariant
            n == string@.len(),
            i <= n,
            "''"@ == seq!['\'', '\''],
            r@ == sql_escaped(string@.subrange(0, i as int)),
        decreases n - i,
    {
        let c = string.get_char(i);
        proof {
            let next = string@.subrange(0, i + 1);
            assert(next.drop_last() =~= string@.subrange(0, i as int));
            assert(next.last() == c);
        }
        if c == '\'' {
            r.append("''");
        } else {
            let piece = string.substring_char(i, i + 1);
            assert(piece@ =~= seq![c]);
            r.append(piece);
        }
        i = i + 1;
    }
    proof {
        assert(string@.subrange(0, n as int) =~= string@);
    }
    r
}

/// `escape` on a value that may be absent.
pub fn escape_option(opt: &Option<String>) -> (r: Option<String>)
    ensures
        match (opt, r) {
            (Some(x), Some(y)) => y@ == sql_escaped(x@),
            (None, None) => true,
            _ => false,
        },
{
    match opt {
        Some(x) => Some(escape(x.as_str())),
        None => None,
    }
}

} // verus!

//! The filter predicate that selects every record of one file path.
use vstd::prelude::*;

verus! {

/// `s` with each single quote doubled, so that it can stand inside a
/// single-quoted literal of the engine's filter language.
pub open spec fn escape_quotes(s: Seq<char>) -> Seq<char>
    decreases s.len(),
{
    if s.len() == 0 {
        seq![]
    } else {
        escape_quotes(s.drop_last()) + escaped_char(s.last())
    }
}

pub open spec fn escaped_char(c: char) -> Seq<char> {
    if c == '\'' {
        seq!['\'', '\'']
    } else {
        seq![c]
    }
}

/// The predicate `path = '<escaped path>'`.
pub open spec fn path_predicate(path: Seq<char>) -> Seq<char> {
    "path = '"@ + escape_quotes(path) + "'"@
}

proof fn lemma_escape_prefix(s: Seq<char>, i: int)
    requires
        0 <= i < s.len(),
    ensures
        escape_quotes(s.subrange(0, i + 1)) == escape_quotes(s.subrange(0, i)) + escaped_char(s[i]),
{
    let t = s.subrange(0, i + 1);
    assert(t.drop_last() =~= s.subrange(0, i));
}

/// Doubles every single quote of `s`.
pub fn escape_single_quotes(s: &str) -> (r: String)
    ensures
        r@ == escape_quotes(s@),
{
    let n = s.unicode_len();
    let mut out = String::new();
    let mut i: usize = 0;
    while i < n
        invariant
            n == s@.len(),
            i <= n,
            out@ == escape_quotes(s@.subrange(0, i as int)),
        decreases n - i,
    {
        let c = s.get_char(i);
        proof {
            lemma_escape_prefix(s@, i as int);
        }
        if c == '\'' {
            out.append("''");
            proof {
                reveal_strlit("''");
            }
        } else {
            let one = s.substring_char(i, i + 1);
            assert(one@ =~= seq![c]);
            out.append(one);
        }
        i = i + 1;
    }
    assert(s@.subrange(0, n as int) =~= s@);
    out
}

/// The filter that selects exactly the records whose `path` equals `path`,
/// with quotes in the path escaped so that they cannot end the literal early.
pub fn delete_predicate(path: &str) -> (r: String)
    ensures
        r@ == path_predicate(path@),
{
    let escaped = escape_single_quotes(path);
    let mut r = String::from_str("path = '");
    r.append(escaped.as_str());
    r.append("'");
    proof {
        reveal_strlit("path = '");
        reveal_strlit("'");
    }
    r
}

} // verus!

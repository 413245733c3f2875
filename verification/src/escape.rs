//! Escaping for string values embedded in the destination store's textual
//! statement syntax. Exactly two characters need escaping — backslash and
//! double quote — each by a preceding backslash. Anything else, control
//! characters included, passes through unchanged.

use vstd::prelude::*;
use vstd::string::StrSliceExecFns;
use vstd::string::StringExecFns;

verus! {

/// The escaped form of one character: backslash and double quote gain a
/// leading backslash, every other character stands for itself.
pub open spec fn escape_char(c: char) -> Seq<char> {
    if c == '\\' {
        seq!['\\', '\\']
    } else if c == '"' {
        seq!['\\', '"']
    } else {
        seq![c]
    }
}

/// The escaped form of a whole string: each character replaced by its
/// escaped form, in order.
pub open spec fn escape_seq(s: Seq<char>) -> Seq<char>
    decreases s.len(),
{
    if s.len() == 0 {
        Seq::empty()
    } else {
        escape_seq(s.drop_last()) + escape_char(s.last())
    }
}

/// Reads an escaped string body back: a backslash must be followed by a
/// backslash or a double quote and yields that character; a bare double
/// quote cannot occur inside a string body; everything else stands for
/// itself. Returns `None` on a body the grammar does not produce.
pub open spec fn unescape_seq(s: Seq<char>) -> Option<Seq<char>>
    decreases s.len(),
{
    if s.len() == 0 {
        Some(Seq::empty())
    } else if s[0] == '\\' {
        if s.len() >= 2 && (s[1] == '\\' || s[1] == '"') {
            match unescape_seq(s.subrange(2, s.len() as int)) {
                Some(rest) => Some(seq![s[1]] + rest),
                None => None,
            }
        } else {
            None
        }
    } else if s[0] == '"' {
        None
    } else {
        match unescape_seq(s.drop_first()) {
            Some(rest) => Some(seq![s[0]] + rest),
            None => None,
        }
    }
}

proof fn lemma_escape_first(s: Seq<char>)
    requires
        s.len() >= 1,
    ensures
        escape_seq(s) == escape_char(s[0]) + escape_seq(s.drop_first()),
    decreases s.len(),
{
    if s.len() == 1 {
        assert(s.drop_last() =~= Seq::<char>::empty());
        assert(s.drop_first() =~= Seq::<char>::empty());
        assert(escape_seq(s) =~= escape_char(s[0]) + escape_seq(s.drop_first()));
    } else {
        lemma_escape_first(s.drop_last());
        assert(s.drop_last()[0] == s[0]);
        assert(s.drop_last().drop_first() =~= s.drop_first().drop_last());
        assert(s.drop_first().last() == s.last());
        assert(escape_seq(s) =~= escape_char(s[0]) + escape_seq(s.drop_first()));
    }
}

/// Escaping then unescaping gives back the original string, whatever it
/// held: the escape codec loses nothing.
pub proof fn lemma_escape_roundtrip(s: Seq<char>)
    ensures
        unescape_seq(escape_seq(s)) == Some(s),
    decreases s.len(),
{
    if s.len() == 0 {
        assert(unescape_seq(escape_seq(s)) =~= Some(s));
    } else {
        lemma_escape_roundtrip(s.drop_first());
        lemma_escape_first(s);
        let e = escape_seq(s);
        let rest = escape_seq(s.drop_first());
        if s[0] == '\\' || s[0] == '"' {
            assert(e =~= seq!['\\', s[0]] + rest);
            assert(e.len() >= 2);
            assert(e[0] == '\\');
            assert(e[1] == s[0]);
            assert(e.subrange(2, e.len() as int) =~= rest);
            assert(seq![s[0]] + s.drop_first() =~= s);
        } else {
            assert(e =~= seq![s[0]] + rest);
            assert(e[0] == s[0]);
            assert(e.drop_first() =~= rest);
            assert(seq![s[0]] + s.drop_first() =~= s);
        }
    }
}

/// Escapes a string for embedding between double quotes in a statement.
pub fn escape_string(s: &str) -> (r: String)
    ensures
        r@ == escape_seq(s@),
{
    let n = s.unicode_len();
    let mut out = String::new();
    let mut i: usize = 0;
    while i < n
        invariant
            n == s@.len(),
            i <= n,
            out@ == escape_seq(s@.subrange(0, i as int)),
        decreases n - i,
    {
        let c = s.get_char(i);
        if c == '\\' {
            out.append("\\\\");
            proof {
                reveal_strlit("\\\\");
            }
        } else if c == '"' {
            out.append("\\\"");
            proof {
                reveal_strlit("\\\"");
            }
        } else {
            let piece = s.substring_char(i, i + 1);
            out.append(piece);
            proof {
                assert(piece@ =~= seq![s@[i as int]]);
            }
        }
        proof {
            assert(s@.subrange(0, (i + 1) as int).drop_last() =~= s@.subrange(0, i as int));
            assert(s@.subrange(0, (i + 1) as int).last() == s@[i as int]);
            assert(out@ =~= escape_seq(s@.subrange(0, (i + 1) as int)));
        }
        i = i + 1;
    }
    proof {
        assert(s@.subrange(0, n as int) =~= s@);
    }
    out
}

/// Reads an escaped string body back, undoing `escape_string`. Returns
/// `None` where the input is not a well-formed escaped body.
pub fn unescape_string(s: &str) -> (r: Option<String>)
    ensures
        match r {
            Some(t) => unescape_seq(s@) == Some(t@),
            None => unescape_seq(s@) is None,
        },
{
    let n = s.unicode_len();
    let mut out = String::new();
    let mut i: usize = 0;
    proof {
        assert(s@.subrange(0, n as int) =~= s@);
        match unescape_seq(s@) {
            Some(rest) => {
                assert(Seq::<char>::empty() + rest =~= rest);
            },
            None => {},
        }
    }
    while i < n
        invariant
            n == s@.len(),
            i <= n,
            unescape_seq(s@) == match unescape_seq(s@.subrange(i as int, n as int)) {
                Some(rest) => Some(out@ + rest),
                None => None::<Seq<char>>,
            },
        decreases n - i,
    {
        let ghost tail = s@.subrange(i as int, n as int);
        let c = s.get_char(i);
        proof {
            assert(tail[0] == s@[i as int]);
        }
        if c == '\\' {
            if i + 1 >= n {
                proof {
                    assert(tail.len() == 1);
                    assert(unescape_seq(tail) is None);
                }
                return None;
            }
            let c2 = s.get_char(i + 1);
            proof {
                assert(tail[1] == s@[i + 1 as int]);
            }
            if c2 == '\\' || c2 == '"' {
                let piece = s.substring_char(i + 1, i + 2);
                out.append(piece);
                proof {
                    assert(piece@ =~= seq![tail[1]]);
                    assert(tail.subrange(2, tail.len() as int) =~= s@.subrange(
                        (i + 2) as int,
                        n as int,
                    ));
                }
                i = i + 2;
            } else {
                proof {
                    assert(unescape_seq(tail) is None);
                }
                return None;
            }
        } else if c == '"' {
            proof {
                assert(unescape_seq(tail) is None);
            }
            return None;
        } else {
            let piece = s.substring_char(i, i + 1);
            out.append(piece);
            proof {
                assert(piece@ =~= seq![tail[0]]);
                assert(tail.drop_first() =~= s@.subrange((i + 1) as int, n as int));
            }
            i = i + 1;
        }
    }
    proof {
        assert(s@.subrange(n as int, n as int) =~= Seq::<char>::empty());
        assert(out@ + Seq::<char>::empty() =~= out@);
    }
    Some(out)
}

} // verus!

//! The statement serializer: renders one add-fact — a subject temp
//! identifier, an attribute token, and a typed value — into the destination
//! store's textual syntax, one bracketed statement per line.

use crate::escape::escape_seq;
use crate::escape::escape_string;
use crate::numeral::dec_i64;
use crate::numeral::i64_to_dec_string;
use vstd::prelude::*;
use vstd::string::StringExecFns;

verus! {

/// One typed statement value: a reference to a temp identifier, a string,
/// a plain signed integer, or an instant-tagged microsecond timestamp.
pub enum Value {
    Ref(String),
    Text(String),
    Long(i64),
    Instant(i64),
}

/// A string quoted for the statement syntax: escaped and wrapped in double
/// quotes. Subjects, reference targets and string values all render so.
pub open spec fn quote_seq(s: Seq<char>) -> Seq<char> {
    seq!['"'] + escape_seq(s) + seq!['"']
}

/// The rendering of a reference value.
pub open spec fn ref_value_seq(t: Seq<char>) -> Seq<char> {
    quote_seq(t)
}

/// The rendering of a string value.
pub open spec fn text_value_seq(s: Seq<char>) -> Seq<char> {
    quote_seq(s)
}

/// The rendering of a plain integer value.
pub open spec fn long_value_seq(n: i64) -> Seq<char> {
    dec_i64(n)
}

/// The rendering of an instant value: the microsecond count behind an
/// explicit instant type tag.
pub open spec fn instant_value_seq(micros: i64) -> Seq<char> {
    "#instmicros "@ + dec_i64(micros)
}

/// The rendering of a whole add-statement, given the already rendered
/// value: one leading space, the add form, the quoted subject, the bare
/// attribute token, the value, and a closing bracket with a newline.
#[verifier::opaque]
pub open spec fn statement_seq(subject: Seq<char>, attr: Seq<char>, value: Seq<char>) -> Seq<
    char,
> {
    " [:db/add "@ + quote_seq(subject) + " "@ + attr + " "@ + value + "]\n"@
}

/// The rendering of a typed value.
pub open spec fn value_seq(v: Value) -> Seq<char> {
    match v {
        Value::Ref(t) => ref_value_seq(t@),
        Value::Text(s) => text_value_seq(s@),
        Value::Long(n) => long_value_seq(n),
        Value::Instant(m) => instant_value_seq(m),
    }
}

fn append_quoted(out: &mut String, s: &str)
    ensures
        final(out)@ == old(out)@ + quote_seq(s@),
{
    out.append("\"");
    let e = escape_string(s);
    out.append(e.as_str());
    out.append("\"");
    proof {
        reveal_strlit("\"");
        assert("\""@ =~= seq!['"']);
        assert(final(out)@ =~= old(out)@ + quote_seq(s@));
    }
}

/// Renders one add-statement from its typed parts.
pub fn render_statement(subject: &str, attr: &str, value: &Value) -> (r: String)
    ensures
        r@ == statement_seq(subject@, attr@, value_seq(*value)),
{
    let mut out = String::from_str(" [:db/add ");
    append_quoted(&mut out, subject);
    out.append(" ");
    out.append(attr);
    out.append(" ");
    match value {
        Value::Ref(t) => append_quoted(&mut out, t.as_str()),
        Value::Text(s) => append_quoted(&mut out, s.as_str()),
        Value::Long(n) => {
            let d = i64_to_dec_string(*n);
            out.append(d.as_str());
        },
        Value::Instant(m) => {
            out.append("#instmicros ");
            let d = i64_to_dec_string(*m);
            out.append(d.as_str());
        },
    }
    out.append("]\n");
    proof {
        reveal(statement_seq);
        assert(out@ =~= statement_seq(subject@, attr@, value_seq(*value)));
    }
    out
}

} // verus!

//! Laws of the texts: numbers, error messages and notes.
use crate::decimal::decimal;
use crate::error::StoreError;
use crate::membership::NodeId;
use crate::router::RouterError;
use crate::snapshot::pretty_json;
use vstd::prelude::*;

verus! {

/// A number below ten is written as its digit, and ten times a number and a digit as the number
/// followed by the digit.
pub proof fn law_decimal_appends_digits(n: nat, d: nat)
    requires
        d < 10,
    ensures
        decimal(d) == seq!["0123456789"@[d as int]],
        n > 0 ==> decimal(10 * n + d) == decimal(n).push("0123456789"@[d as int]),
{
    reveal_strlit("0123456789");
    assert(decimal(d) =~= seq!["0123456789"@[d as int]]);
    if n > 0 {
        assert((10 * n + d) / 10 == n);
        assert((10 * n + d) % 10 == d);
        assert(decimal(10 * n + d) =~= decimal(n).push("0123456789"@[d as int]));
    }
}

/// A log that lacks the applied entry is told in these words; an error of `serde_json` is left to
/// its own.
pub proof fn law_store_error_text(error: StoreError)
    ensures
        match error {
            StoreError::InconsistentLog => error.text() == Some(
                "a query was received which was expecting data to be in place which does not exist in the log"@,
            ),
            StoreError::Json(_) => error.text() == None::<Seq<char>>,
        },
{
}

/// A node that is not found is named in the text in between its fixed words; isolation names none.
pub proof fn law_router_error_text(node: NodeId)
    ensures
        (RouterError::NodeNotFound { node }).text() == "node "@ + decimal(node as nat)
            + " not found in routing table"@,
        RouterError::TargetIsolated.text() == "target node is isolated"@,
{
}

/// The text of an array of bytes: of no bytes, of one byte, and with one byte more, which comes on
/// a line of its own before the closing bracket.
pub proof fn law_pretty_json_appends_lines(bytes: Seq<u8>, b: u8)
    ensures
        pretty_json(Seq::empty()) == "[]"@,
        pretty_json(seq![b]) == "[\n  "@ + decimal(b as nat) + "\n]"@,
        bytes.len() > 0 ==> pretty_json(bytes.push(b)) == pretty_json(bytes).take(
            pretty_json(bytes).len() - 2,
        ) + ",\n  "@ + decimal(b as nat) + "\n]"@,
{
    reveal_strlit("[]");
    reveal_strlit("[");
    reveal_strlit("\n]");
    reveal_strlit("\n  ");
    reveal_strlit("[\n  ");
    assert(pretty_json(seq![b]) =~= "[\n  "@ + decimal(b as nat) + "\n]"@);
    if bytes.len() > 0 {
        assert(bytes.push(b).drop_last() =~= bytes);
        assert(pretty_json(bytes.push(b)) =~= pretty_json(bytes).take(
            pretty_json(bytes).len() - 2,
        ) + ",\n  "@ + decimal(b as nat) + "\n]"@);
    }
}

} // verus!

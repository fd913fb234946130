//! Calendar dates as text, and their order.
//!
//! A date is written `YYYY-MM-DD`. Dates are never parsed: they are ordered as
//! text, byte by byte, which for this form is the order of the calendar.

use vstd::prelude::*;
use vstd::utf8::*;

verus! {

/// A calendar day in the form `YYYY-MM-DD`.
pub type Date = String;

/// How one date stands to another.
#[derive(Clone, Copy, Debug, PartialEq, Eq, Structural)]
pub enum DateOrder {
    Earlier,
    Same,
    Later,
}

/// `a` and `b` agree on their first `k` bytes, and at position `k` either `a`
/// has ended while `b` goes on, or `a` holds the smaller byte.
pub open spec fn bytes_precede_at(a: Seq<u8>, b: Seq<u8>, k: int) -> bool {
    &&& 0 <= k <= a.len()
    &&& k < b.len()
    &&& forall|j: int| 0 <= j < k ==> #[trigger] a[j] == b[j]
    &&& (k == a.len() || a[k] < b[k])
}

/// Strict lexicographic order on byte strings.
pub open spec fn bytes_precede(a: Seq<u8>, b: Seq<u8>) -> bool {
    exists|k: int| bytes_precede_at(a, b, k)
}

/// The text `a` comes before the text `b` in the order of strings: byte by
/// byte in their UTF-8 form.
pub open spec fn text_before(a: Seq<char>, b: Seq<char>) -> bool {
    bytes_precede(encode_utf8(a), encode_utf8(b))
}

/// `a` is an earlier date than `b`: the text of `a` comes before the text of
/// `b`.
pub open spec fn date_before(a: Seq<char>, b: Seq<char>) -> bool {
    text_before(a, b)
}

/// No byte string precedes itself, and no two precede each other.
pub proof fn lemma_bytes_precede_asymmetric(a: Seq<u8>, b: Seq<u8>)
    requires
        bytes_precede(a, b),
    ensures
        !bytes_precede(b, a),
        a != b,
{
    let k = choose|k: int| bytes_precede_at(a, b, k);
    if bytes_precede(b, a) {
        let m = choose|m: int| bytes_precede_at(b, a, m);
        if m < k {
            assert(a[m] == b[m]);
        } else if k < m {
            assert(b[k] == a[k]);
        }
    }
}

/// The order on byte strings is transitive.
pub proof fn lemma_bytes_precede_transitive(a: Seq<u8>, b: Seq<u8>, c: Seq<u8>)
    requires
        bytes_precede(a, b),
        bytes_precede(b, c),
    ensures
        bytes_precede(a, c),
{
    let k = choose|k: int| bytes_precede_at(a, b, k);
    let m = choose|m: int| bytes_precede_at(b, c, m);
    let n = if k <= m { k } else { m };
    assert forall|j: int| 0 <= j < n implies #[trigger] a[j] == c[j] by {
        assert(a[j] == b[j]);
        assert(b[j] == c[j]);
    }
    if k < m {
        assert(b[k] == c[k]);
    } else if m < k {
        assert(a[m] == b[m]);
    }
    assert(bytes_precede_at(a, c, n));
}

/// Byte strings that agree on their first `k` bytes are the same, or one of
/// them precedes the other.
proof fn lemma_bytes_precede_from(a: Seq<u8>, b: Seq<u8>, k: int)
    requires
        0 <= k <= a.len(),
        k <= b.len(),
        forall|j: int| 0 <= j < k ==> #[trigger] a[j] == b[j],
    ensures
        a == b || bytes_precede(a, b) || bytes_precede(b, a),
    decreases a.len() - k,
{
    if k == a.len() {
        if k == b.len() {
            assert(a =~= b);
        } else {
            assert(bytes_precede_at(a, b, k));
        }
    } else if k == b.len() {
        assert(bytes_precede_at(b, a, k));
    } else if a[k] < b[k] {
        assert(bytes_precede_at(a, b, k));
    } else if b[k] < a[k] {
        assert(bytes_precede_at(b, a, k));
    } else {
        lemma_bytes_precede_from(a, b, k + 1);
    }
}

/// Of two different byte strings one precedes the other.
pub proof fn lemma_bytes_precede_total(a: Seq<u8>, b: Seq<u8>)
    ensures
        a == b || bytes_precede(a, b) || bytes_precede(b, a),
{
    lemma_bytes_precede_from(a, b, 0);
}

/// Two texts with the same bytes are the same text.
pub proof fn lemma_same_bytes_same_text(a: Seq<char>, b: Seq<char>)
    requires
        encode_utf8(a) == encode_utf8(b),
    ensures
        a == b,
{
    encode_utf8_decode_utf8(a);
    encode_utf8_decode_utf8(b);
}

/// No date is before itself, and of two dates at most one is before the other.
pub proof fn lemma_date_before_asymmetric(a: Seq<char>, b: Seq<char>)
    requires
        date_before(a, b),
    ensures
        !date_before(b, a),
        a != b,
{
    lemma_bytes_precede_asymmetric(encode_utf8(a), encode_utf8(b));
}

/// The order of dates is transitive.
pub proof fn lemma_date_before_transitive(a: Seq<char>, b: Seq<char>, c: Seq<char>)
    requires
        date_before(a, b),
        date_before(b, c),
    ensures
        date_before(a, c),
{
    lemma_bytes_precede_transitive(encode_utf8(a), encode_utf8(b), encode_utf8(c));
}

/// Of two different dates one is before the other.
pub proof fn lemma_date_before_total(a: Seq<char>, b: Seq<char>)
    ensures
        a == b || date_before(a, b) || date_before(b, a),
{
    lemma_bytes_precede_total(encode_utf8(a), encode_utf8(b));
    if encode_utf8(a) == encode_utf8(b) {
        lemma_same_bytes_same_text(a, b);
    }
}

/// Says how `a` stands to `b` in the order of dates.
pub fn compare_dates(a: &str, b: &str) -> (r: DateOrder)
    ensures
        r == DateOrder::Earlier <==> date_before(a@, b@),
        r == DateOrder::Same <==> a@ == b@,
        r == DateOrder::Later <==> date_before(b@, a@),
{
    let x = a.as_bytes();
    let y = b.as_bytes();
    let mut i: usize = 0;
    while i < x.len() && i < y.len()
        invariant
            x@ == encode_utf8(a@),
            y@ == encode_utf8(b@),
            i <= x@.len(),
            i <= y@.len(),
            forall|j: int| 0 <= j < i ==> #[trigger] x@[j] == y@[j],
        decreases x@.len() - i,
    {
        if x[i] < y[i] {
            proof {
                assert(bytes_precede_at(x@, y@, i as int));
                lemma_date_before_asymmetric(a@, b@);
            }
            return DateOrder::Earlier;
        }
        if x[i] > y[i] {
            proof {
                assert(bytes_precede_at(y@, x@, i as int));
                lemma_date_before_asymmetric(b@, a@);
            }
            return DateOrder::Later;
        }
        i += 1;
    }
    if i < y.len() {
        proof {
            assert(bytes_precede_at(x@, y@, i as int));
            lemma_date_before_asymmetric(a@, b@);
        }
        DateOrder::Earlier
    } else if i < x.len() {
        proof {
            assert(bytes_precede_at(y@, x@, i as int));
            lemma_date_before_asymmetric(b@, a@);
        }
        DateOrder::Later
    } else {
        proof {
            assert(x@ =~= y@);
            lemma_same_bytes_same_text(a@, b@);
            if date_before(a@, b@) {
                lemma_date_before_asymmetric(a@, b@);
            }
        }
        DateOrder::Same
    }
}

} // verus!

//! The fields of a message that nobody here knows. They are kept where a message is passed on.
use crate::wire::{no_unknown, unknown_size, write_unknown};
use vstd::prelude::*;

verus! {

/// Unknown fields, by their numbers.
#[derive(Debug, PartialEq, Eq)]
pub struct Unknown {
    fields: protobuf::UnknownFields,
}

impl View for Unknown {
    type V = Map<u32, Seq<crate::wire::UnknownValue>>;

    closed spec fn view(&self) -> Map<u32, Seq<crate::wire::UnknownValue>> {
        crate::wire::unknown_contents(self.fields)
    }
}

/// The values of a field stand in the order of their kinds.
pub open spec fn sorted(q: Seq<crate::wire::UnknownValue>) -> bool {
    forall|i: int, j: int|
        0 <= i < j < q.len() ==> (#[trigger] q[i]).rank() <= (#[trigger] q[j]).rank()
}

/// Fields that a reader can have come upon: each has a number and a value, and the values stand in
/// their order.
pub open spec fn valid(m: Map<u32, Seq<crate::wire::UnknownValue>>) -> bool {
    &&& crate::wire::writable(m)
    &&& forall|n: u32| #[trigger] m.contains_key(n) ==> m[n].len() > 0 && sorted(m[n])
}

/// No value would be taken for one of the strings of a message.
pub open spec fn foreign(m: Map<u32, Seq<crate::wire::UnknownValue>>) -> bool {
    forall|n: u32| #[trigger]
        m.contains_key(n) && n <= 2 ==> forall|i: int|
            0 <= i < m[n].len() ==> !((#[trigger] m[n][i]) is Bytes)
}

impl Unknown {
    /// What is kept is what a reader can have come upon.
    #[verifier::type_invariant]
    pub open spec fn inv(self) -> bool {
        valid(self@) && foreign(self@)
    }

    /// No unknown fields.
    pub fn none() -> (r: Unknown)
        ensures
            r@ == crate::wire::no_fields(),
    {
        Unknown { fields: no_unknown() }
    }

    /// What was read.
    pub(crate) fn of(fields: protobuf::UnknownFields) -> (r: Unknown)
        requires
            valid(crate::wire::unknown_contents(fields)),
            foreign(crate::wire::unknown_contents(fields)),
        ensures
            r@ == crate::wire::unknown_contents(fields),
            valid(r@),
            foreign(r@),
    {
        Unknown { fields }
    }

    /// How many bytes the fields take, in whatever order.
    pub(crate) fn size(&self) -> (r: u64)
        ensures
            forall|order: Seq<u32>|
                crate::wire::in_order(self@, order) ==> r as nat
                    == #[trigger] crate::wire::fields_bytes(self@, order).len(),
    {
        proof {
            use_type_invariant(self);
        }
        unknown_size(&self.fields)
    }

    /// Appends the fields, in an order that is left open.
    pub(crate) fn write(&self, buf: &mut Vec<u8>)
        ensures
            crate::wire::appended(self@, old(buf)@, final(buf)@),
    {
        proof {
            use_type_invariant(self);
        }
        write_unknown(buf, &self.fields)
    }
}

/// Where there are no fields there is one order of them.
pub proof fn lemma_no_order(order: Seq<u32>)
    ensures
        crate::wire::in_order(crate::wire::no_fields(), order)
            <==> order == Seq::<u32>::empty(),
{
    if crate::wire::in_order(crate::wire::no_fields(), order) {
        if order.len() > 0 {
            assert(order.contains(order[0]));
            assert(crate::wire::no_fields().contains_key(order[0]));
        }
        assert(order =~= Seq::empty());
    }
}

proof fn lemma_with_value(q: Seq<crate::wire::UnknownValue>, v: crate::wire::UnknownValue)
    requires
        sorted(q),
    ensures
        sorted(crate::wire::with_value(q, v)),
        crate::wire::with_value(q, v).len() == q.len() + 1,
        forall|i: int|
            0 <= i <= q.len() ==> (#[trigger] crate::wire::with_value(q, v)[i]) == v || q.contains(
                crate::wire::with_value(q, v)[i],
            ),
    decreases q.len(),
{
    let w = crate::wire::with_value(q, v);
    if q.len() == 0 || q.last().rank() <= v.rank() {
        assert forall|i: int| 0 <= i <= q.len() implies (#[trigger] w[i]) == v || q.contains(
            w[i],
        ) by {
            if i < q.len() {
                assert(w[i] == q[i]);
            }
        }
    } else {
        let less = q.drop_last();
        let x = crate::wire::with_value(less, v);
        lemma_with_value(less, v);
        assert forall|i: int| 0 <= i < x.len() implies (#[trigger] x[i]).rank()
            <= q.last().rank() && (x[i] == v || q.contains(x[i])) by {
            if x[i] != v {
                let k = choose|k: int| 0 <= k < less.len() && less[k] == x[i];
                assert(q[k] == x[i]);
            }
        }
        assert(q.contains(q[q.len() - 1]));
        assert forall|i: int| 0 <= i <= q.len() implies (#[trigger] w[i]) == v || q.contains(
            w[i],
        ) by {
            if i < x.len() {
                assert(w[i] == x[i]);
            }
        }
    }
}

/// A field that was read leaves the unknown fields valid.
pub(crate) proof fn lemma_field_added(
    m: Map<u32, Seq<crate::wire::UnknownValue>>,
    tag: u32,
    s: Seq<u8>,
)
    requires
        valid(m),
        crate::wire::plain_value(tag, s) is Some,
    ensures
        valid(crate::wire::with_field(m, tag / 8, crate::wire::plain_value(tag, s).unwrap().0)),
        foreign(m) && tag != 10 && tag != 18 ==> foreign(
            crate::wire::with_field(m, tag / 8, crate::wire::plain_value(tag, s).unwrap().0),
        ),
{
    let v = crate::wire::plain_value(tag, s).unwrap().0;
    let n = tag / 8;
    let q = if m.contains_key(n) {
        m[n]
    } else {
        Seq::empty()
    };
    let w = crate::wire::with_value(q, v);
    let after = crate::wire::with_field(m, n, v);
    crate::wire::lemma_varint32_value(s);
    lemma_with_value(q, v);
    assert(crate::wire::short(v));
    assert forall|i: int| 0 <= i < w.len() implies crate::wire::short(#[trigger] w[i]) by {
        if w[i] != v {
            let k = choose|k: int| 0 <= k < q.len() && q[k] == w[i];
            assert(crate::wire::short(m[n][k]));
        }
    }
    assert forall|k: u32| #[trigger] after.contains_key(k) implies 0 < k <= 0x1fff_ffff
        && after[k].len() > 0 && sorted(after[k]) && forall|i: int|
        0 <= i < after[k].len() ==> crate::wire::short(#[trigger] after[k][i]) by {
        if k != n {
            assert(m.contains_key(k));
        }
    }
    if foreign(m) && tag != 10 && tag != 18 {
        assert forall|k: u32| #[trigger] after.contains_key(k) && k <= 2 implies forall|i: int|
            0 <= i < after[k].len() ==> !((#[trigger] after[k][i]) is Bytes) by {
            if k != n {
                assert(m.contains_key(k));
            } else {
                assert forall|i: int| 0 <= i < w.len() implies !((#[trigger] w[i]) is Bytes) by {
                    if w[i] != v {
                        let j = choose|j: int| 0 <= j < q.len() && q[j] == w[i];
                        assert(m.contains_key(n));
                        assert(!(m[n][j] is Bytes));
                    }
                }
            }
        }
    }
}

} // verus!

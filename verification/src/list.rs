//! The persistent cons-list over values.
//!
//! A list is either empty or a pair of a head value and a tail list.
//! Appending or indexing never mutates an existing list: `append`
//! materializes both operands and rebuilds a fresh list, `index` walks
//! the chain.  A list's model is the sequence of its element views, so
//! two lists denoting the same sequence are equal in every contract
//! here.

use crate::vm::val_view;
use crate::vm::vals_view;
use crate::vm::ErrorKind;
use crate::vm::VMValue;
use crate::vm::ValueView;
use vstd::prelude::*;

verus! {

/// An immutable singly-linked list of values.
#[derive(Debug, PartialEq)]
pub enum List {
    Pair(VMValue, Box<List>),
    Nil,
}

/// The sequence of element views a list denotes.
pub open spec fn list_view(l: List) -> Seq<ValueView>
    decreases l,
{
    match l {
        List::Nil => Seq::empty(),
        List::Pair(h, t) => seq![val_view(h)] + list_view(*t),
    }
}

impl View for List {
    type V = Seq<ValueView>;

    open spec fn view(&self) -> Seq<ValueView> {
        list_view(*self)
    }
}

impl Clone for List {
    /// A structural copy denoting the same sequence.
    fn clone(&self) -> (res: Self)
        ensures
            res@ == self@,
        decreases self,
    {
        match self {
            List::Nil => List::Nil,
            List::Pair(h, t) => List::Pair(h.clone(), Box::new((**t).clone())),
        }
    }
}

impl List {
    /// The elements of the list, in order, as a vector.
    pub fn to_vec(&self) -> (r: Vec<VMValue>)
        ensures
            vals_view(r@) == self@,
    {
        let mut current = self;
        let mut ret: Vec<VMValue> = Vec::new();
        proof {
            assert(vals_view(ret@) + current@ =~= self@);
        }
        loop
            invariant
                vals_view(ret@) + current@ == self@,
            decreases *current,
        {
            match current {
                List::Pair(value, next) => {
                    let ghost ret_old = ret@;
                    ret.push(value.clone());
                    proof {
                        crate::vm::lemma_vals_view_push(ret_old, ret@.last());
                        assert(vals_view(ret@) + next@ =~= vals_view(ret_old) + current@);
                    }
                    current = next;
                },
                List::Nil => {
                    proof {
                        assert(vals_view(ret@) + Seq::<ValueView>::empty() =~= vals_view(ret@));
                    }
                    return ret;
                },
            }
        }
    }

    /// Builds the list denoting exactly the elements of `vec`, in
    /// order.  The list is built tail-first, so no partially-built
    /// state is ever observable.
    pub fn from_vec(vec: Vec<VMValue>) -> (r: Box<List>)
        ensures
            r@ == vals_view(vec@),
    {
        let ghost orig = vec@;
        let mut vec = vec;
        let mut list = List::Nil;
        proof {
            assert(vec@ =~= orig.subrange(0, vec@.len() as int));
            assert(vals_view(orig.subrange(orig.len() as int, orig.len() as int)) =~= Seq::<
                ValueView,
            >::empty());
        }
        while vec.len() > 0
            invariant
                vec@.len() <= orig.len(),
                vec@ == orig.subrange(0, vec@.len() as int),
                list_view(list) == vals_view(orig.subrange(vec@.len() as int, orig.len() as int)),
            decreases vec@.len(),
        {
            let ghost before = vec@;
            let v = vec.pop().unwrap();
            proof {
                assert(vec@ =~= orig.subrange(0, vec@.len() as int));
            }
            list = List::Pair(v, Box::new(list));
            proof {
                let n = vec@.len() as int;
                crate::vm::lemma_vals_view_drop_first(orig.subrange(n, orig.len() as int));
                assert(orig.subrange(n, orig.len() as int).drop_first() =~= orig.subrange(
                    n + 1,
                    orig.len() as int,
                ));
                assert(orig.subrange(n, orig.len() as int)[0] == before.last());
            }
        }
        proof {
            assert(orig.subrange(0, orig.len() as int) =~= orig);
        }
        Box::new(list)
    }

    /// The list denoting `self` followed by `other`; neither input is
    /// changed.
    pub fn append(&self, other: &List) -> (r: Box<List>)
        ensures
            r@ == self@ + other@,
    {
        let mut vec = self.to_vec();
        let mut ovec = other.to_vec();
        proof {
            crate::vm::lemma_vals_view_concat(vec@, ovec@);
        }
        vec.append(&mut ovec);
        List::from_vec(vec)
    }

    /// The element at zero-based position `i`: out of bounds exactly
    /// when `i` is negative or not below the list's length.
    pub fn index(&self, i: i32) -> (r: Result<VMValue, ErrorKind>)
        ensures
            0 <= i < self@.len() ==> (r matches Ok(v) && val_view(v) == self@[i as int]),
            !(0 <= i < self@.len()) ==> (r matches Err(k) && k == ErrorKind::IndexOutOfBounds),
    {
        if i < 0 {
            return Err(ErrorKind::IndexOutOfBounds);
        }
        let mut current = self;
        let mut index = i;
        proof {
            assert(self@.subrange(0, self@.len() as int) =~= self@);
        }
        loop
            invariant
                0 <= index <= i,
                i as int - index as int <= self@.len(),
                current@ == self@.subrange(i as int - index as int, self@.len() as int),
            decreases *current,
        {
            match current {
                List::Pair(value, next) => {
                    proof {
                        assert(current@ == seq![val_view(*value)] + next@);
                    }
                    if index == 0 {
                        let r = value.clone();
                        proof {
                            assert(current@[0] == self@[i as int]);
                        }
                        return Ok(r);
                    }
                    proof {
                        assert(current@.drop_first() =~= self@.subrange(
                            i as int - index as int + 1,
                            self@.len() as int,
                        ));
                        assert(next@ =~= current@.drop_first());
                    }
                    current = next;
                    index = index - 1;
                },
                List::Nil => {
                    return Err(ErrorKind::IndexOutOfBounds);
                },
            }
        }
    }
}

impl List {
    /// Appends the comma-separated renderings of this list's elements
    /// to `out`.
    pub(crate) fn render_elems_into(&self, out: &mut Vec<char>)
        ensures
            final(out)@ == old(out)@ + crate::vm::render_elems(self@),
        decreases self,
    {
        match self {
            List::Nil => {
                proof {
                    assert(out@ =~= old(out)@ + crate::vm::render_elems(self@));
                }
            },
            List::Pair(h, t) => {
                h.render_into(out);
                match &**t {
                    List::Nil => {
                        proof {
                            assert(t@ =~= Seq::<ValueView>::empty());
                            assert(self@ =~= seq![val_view(*h)] + t@);
                            assert(self@.len() == 1 && self@[0] == val_view(*h));
                            assert(out@ =~= old(out)@ + crate::vm::render_elems(self@));
                        }
                    },
                    List::Pair(_, _) => {
                        out.push(',');
                        out.push(' ');
                        t.render_elems_into(out);
                        proof {
                            assert(self@.drop_first() =~= t@);
                            assert(self@[0] == val_view(*h));
                            assert(t@.len() > 0);
                            assert(out@ =~= old(out)@ + crate::vm::render_elems(self@));
                        }
                    },
                }
            },
        }
    }

    /// The text this list displays as: its elements' renderings,
    /// comma-separated, in brackets.
    pub fn render(&self) -> (r: String)
        ensures
            r@ == seq!['['] + crate::vm::render_elems(self@) + seq![']'],
    {
        let mut out: Vec<char> = Vec::new();
        out.push('[');
        self.render_elems_into(&mut out);
        out.push(']');
        proof {
            assert(out@ =~= seq!['['] + crate::vm::render_elems(self@) + seq![']']);
        }
        crate::text::string_from_chars(&out)
    }
}

/// Law: the vector round trip is lossless.  `v` denoting what `l`
/// denotes is exactly what `to_vec` ensures of its result, and `r`
/// denoting what `v` denotes is exactly what `from_vec` ensures; so a
/// list rebuilt from its own elements denotes the original list, and
/// order is preserved.
pub proof fn lemma_list_roundtrip(l: List, v: Vec<VMValue>, r: List)
    requires
        vals_view(v@) == l@,
        r@ == vals_view(v@),
    ensures
        r@ == l@,
{
}

/// Law: appending lists adds lengths, and the first element of the
/// second operand sits right after the first operand: with `r`
/// denoting `l1` followed by `l2` — what `append` ensures — the
/// length of `r` is the sum, and when `l2` is non-empty the element
/// of `r` at position `len(l1)` is the element of `l2` at zero.
pub proof fn lemma_append_len_index(l1: List, l2: List, r: List)
    requires
        r@ == l1@ + l2@,
    ensures
        r@.len() == l1@.len() + l2@.len(),
        l2@.len() > 0 ==> r@[l1@.len() as int] == l2@[0],
{
}

} // verus!

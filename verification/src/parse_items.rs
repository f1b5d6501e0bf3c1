//! The item-parsing interface and the length-prefixed vector parser that
//! every section grammar is built from.

use vstd::prelude::*;
use crate::parse_error::ParseError;
use crate::leb128::uleb_ok_at;
use crate::parse_num::{parse_varuint32, spec_parse_varuint32};

verus! {

/// A grammar production: a parser at a cursor position, together with the
/// specification of what it yields.
pub trait ParseItem: Sized + DeepView {
    /// What a parse at `pos` yields: the model of the value and the position
    /// after it, or the exact error.
    spec fn spec_parse(s: Seq<u8>, pos: int) -> Result<(Self::V, int), ParseError>;

    /// A successful parse moves the cursor forward, within bounds.
    proof fn spec_parse_bounds(s: Seq<u8>, pos: int)
        requires
            0 <= pos <= s.len(),
        ensures
            Self::spec_parse(s, pos) matches Ok(p) ==> pos <= p.1 <= s.len(),
    ;

    /// Parses one item at `pos`.
    fn parse(input: &[u8], pos: usize) -> (r: Result<(Self, usize), ParseError>)
        requires
            pos <= input@.len(),
        ensures
            match r {
                Ok(p) => Self::spec_parse(input@, pos as int) == Ok::<(Self::V, int), ParseError>(
                    (p.0.deep_view(), p.1 as int),
                ) && pos <= p.1 <= input@.len(),
                Err(e) => Self::spec_parse(input@, pos as int) == Err::<(Self::V, int), ParseError>(
                    e,
                ),
            },
    ;
}

impl ParseItem for u32 {
    /// An index or count: an unsigned 32-bit LEB128 integer.
    open spec fn spec_parse(s: Seq<u8>, pos: int) -> Result<(u32, int), ParseError> {
        spec_parse_varuint32(s, pos)
    }

    proof fn spec_parse_bounds(s: Seq<u8>, pos: int) {
        let tail = s.subrange(pos, s.len() as int);
        if exists|t: int| uleb_ok_at(tail, 5, 32, t) {
            let t = choose|t: int| uleb_ok_at(tail, 5, 32, t);
            assert(0 <= t < tail.len());
        }
    }

    fn parse(input: &[u8], pos: usize) -> (r: Result<(u32, usize), ParseError>) {
        parse_varuint32(input, pos)
    }
}

/// What parsing `count` items in sequence at `pos` yields.
pub open spec fn spec_parse_items<T: ParseItem>(s: Seq<u8>, pos: int, count: int) -> Result<
    (Seq<T::V>, int),
    ParseError,
>
    decreases count,
{
    if count <= 0 {
        Ok((Seq::empty(), pos))
    } else {
        match T::spec_parse(s, pos) {
            Ok((v, p)) => match spec_parse_items::<T>(s, p, count - 1) {
                Ok((rest, end)) => Ok((seq![v] + rest, end)),
                Err(e) => Err(e),
            },
            Err(e) => Err(e),
        }
    }
}

/// A successful item-vector parse moves the cursor forward, within bounds.
pub proof fn lemma_spec_parse_items_bounds<T: ParseItem>(s: Seq<u8>, pos: int, count: int)
    requires
        0 <= pos <= s.len(),
    ensures
        spec_parse_items::<T>(s, pos, count) matches Ok(p) ==> pos <= p.1 <= s.len(),
    decreases count,
{
    if count > 0 {
        T::spec_parse_bounds(s, pos);
        match T::spec_parse(s, pos) {
            Ok(p) => {
                lemma_spec_parse_items_bounds::<T>(s, p.1, count - 1);
            },
            Err(_) => {},
        }
    }
}

/// Parses `count` items in sequence, starting at `pos`.
pub fn parse_items<T: ParseItem>(input: &[u8], pos: usize, count: u32) -> (r: Result<
    (Vec<T>, usize),
    ParseError,
>)
    requires
        pos <= input@.len(),
    ensures
        match r {
            Ok(p) => spec_parse_items::<T>(input@, pos as int, count as int) == Ok::<
                (Seq<T::V>, int),
                ParseError,
            >((p.0.deep_view(), p.1 as int)) && pos <= p.1 <= input@.len(),
            Err(e) => spec_parse_items::<T>(input@, pos as int, count as int) == Err::<
                (Seq<T::V>, int),
                ParseError,
            >(e),
        },
{
    let ghost s = input@;
    let mut acc: Vec<T> = Vec::new();
    let mut cur: usize = pos;
    let mut i: u32 = 0;
    proof {
        assert(acc.deep_view() =~= Seq::<T::V>::empty());
    }
    while i < count
        invariant
            i <= count,
            pos <= cur <= s.len(),
            s == input@,
            ({
                match spec_parse_items::<T>(s, cur as int, count - i) {
                    Ok(p2) => spec_parse_items::<T>(s, pos as int, count as int) == Ok::<
                        (Seq<T::V>, int),
                        ParseError,
                    >((acc.deep_view() + p2.0, p2.1)),
                    Err(e) => spec_parse_items::<T>(s, pos as int, count as int) == Err::<
                        (Seq<T::V>, int),
                        ParseError,
                    >(e),
                }
            }),
        decreases count - i,
    {
        match T::parse(input, cur) {
            Ok((v, p)) => {
                proof {
                    lemma_spec_parse_items_bounds::<T>(s, p as int, count - i - 1);
                }
                let ghost old_view = acc.deep_view();
                acc.push(v);
                proof {
                    assert(acc.deep_view() =~= old_view + seq![v.deep_view()]);
                    match spec_parse_items::<T>(s, p as int, count - i - 1) {
                        Ok(q2) => {
                            assert(old_view + (seq![v.deep_view()] + q2.0) =~= (old_view + seq![
                                v.deep_view(),
                            ]) + q2.0);
                        },
                        Err(_) => {},
                    }
                }
                cur = p;
                i = i + 1;
            },
            Err(e) => {
                return Err(e);
            },
        }
    }
    proof {
        assert(spec_parse_items::<T>(s, cur as int, 0) == Ok::<(Seq<T::V>, int), ParseError>(
            (Seq::empty(), cur as int),
        ));
        assert(acc.deep_view() + Seq::<T::V>::empty() =~= acc.deep_view());
    }
    Ok((acc, cur))
}

} // verus!

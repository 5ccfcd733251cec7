//! Source positions: where in which source text a term was read.

use vstd::prelude::*;
use crate::address::{Cid, CidView};
use crate::error::{decoded, IpldError, IpldErrorView};
use crate::ipld::{lemma_list_view, Value, ValueView};

verus! {

/// A span of a source text, which is itself a block.
#[derive(Debug, PartialEq)]
pub struct Position {
    pub input: Cid,
    pub from_offset: u64,
    pub upto_offset: u64,
}

/// A position, or none.
#[derive(Debug, PartialEq)]
pub struct Pos(pub Option<Position>);

/// What a [`Position`] holds, as mathematical values.
pub struct PositionView {
    pub input: CidView,
    pub from_offset: u64,
    pub upto_offset: u64,
}

impl View for Position {
    type V = PositionView;

    open spec fn view(&self) -> PositionView {
        PositionView {
            input: self.input@,
            from_offset: self.from_offset,
            upto_offset: self.upto_offset,
        }
    }
}

impl View for Pos {
    type V = Option<PositionView>;

    open spec fn view(&self) -> Option<PositionView> {
        match self.0 {
            None => None,
            Some(p) => Some(p@),
        }
    }
}

impl Clone for Position {
    fn clone(&self) -> (r: Self)
        ensures
            r@ == self@,
    {
        Position {
            input: self.input.clone(),
            from_offset: self.from_offset,
            upto_offset: self.upto_offset,
        }
    }
}

impl Clone for Pos {
    fn clone(&self) -> (r: Self)
        ensures
            r@ == self@,
    {
        match &self.0 {
            None => Pos(None),
            Some(p) => Pos(Some(p.clone())),
        }
    }
}

impl Pos {
    /// The positions whose source text has an identifier that exists.
    pub open spec fn valid(p: Option<PositionView>) -> bool {
        p matches Some(x) ==> x.input.valid()
    }

    /// The canonical form of a position: the empty list for none, else the
    /// two offsets and a link to the source text.
    pub open spec fn spec_to_ipld(p: Option<PositionView>) -> ValueView {
        match p {
            None => ValueView::List(seq![]),
            Some(x) => ValueView::List(
                seq![
                    ValueView::Integer(x.from_offset as int),
                    ValueView::Integer(x.upto_offset as int),
                    ValueView::Link(x.input),
                ],
            ),
        }
    }

    /// The position that a value is the canonical form of.
    pub open spec fn spec_from_ipld(v: ValueView) -> Result<Option<PositionView>, IpldErrorView> {
        match v {
            ValueView::List(xs) => {
                if xs.len() == 0 {
                    Ok(None)
                } else if xs.len() == 3 {
                    match (xs[0], xs[1], xs[2]) {
                        (
                            ValueView::Integer(from),
                            ValueView::Integer(upto),
                            ValueView::Link(input),
                        ) => {
                            if 0 <= from <= u64::MAX && 0 <= upto <= u64::MAX {
                                Ok(
                                    Some(
                                        PositionView {
                                            input,
                                            from_offset: from as u64,
                                            upto_offset: upto as u64,
                                        },
                                    ),
                                )
                            } else {
                                Err(IpldErrorView::InvalidShape(v))
                            }
                        },
                        _ => Err(IpldErrorView::InvalidShape(v)),
                    }
                } else {
                    Err(IpldErrorView::InvalidShape(v))
                }
            },
            _ => Err(IpldErrorView::InvalidShape(v)),
        }
    }

    /// Decoding the canonical form of a position gives the position back.
    pub proof fn lemma_roundtrip(p: Option<PositionView>)
        ensures
            Self::spec_from_ipld(Self::spec_to_ipld(p)) == Ok::<
                Option<PositionView>,
                IpldErrorView,
            >(p),
    {
    }

    /// Only the canonical form of a position decodes to it.
    pub proof fn lemma_canonical(v: ValueView, p: Option<PositionView>)
        requires
            Self::spec_from_ipld(v) == Ok::<Option<PositionView>, IpldErrorView>(p),
        ensures
            v == Self::spec_to_ipld(p),
    {
        let xs = v->List_0;
        assert(xs =~= Self::spec_to_ipld(p)->List_0);
    }

    /// The canonical form of a valid position has a block.
    pub proof fn lemma_encodable(p: Option<PositionView>)
        requires
            Self::valid(p),
        ensures
            Self::spec_to_ipld(p).encodable(),
    {
        reveal_with_fuel(ValueView::encodable, 2);
    }

    /// The canonical form of the position.
    pub fn to_ipld(&self) -> (v: Value)
        ensures
            v@ == Self::spec_to_ipld(self@),
    {
        let mut items: Vec<Value> = Vec::new();
        match &self.0 {
            None => {},
            Some(x) => {
                items.push(Value::Integer(x.from_offset as i128));
                items.push(Value::Integer(x.upto_offset as i128));
                items.push(Value::Link(x.input.clone()));
            },
        }
        let v = Value::list(items);
        assert(v@->List_0 =~= Self::spec_to_ipld(self@)->List_0);
        v
    }

    /// The position that a value is the canonical form of.
    pub fn from_ipld(ipld: &Value) -> (r: Result<Pos, IpldError>)
        ensures
            decoded(r) == Self::spec_from_ipld(ipld@),
    {
        match ipld {
            Value::List(xs) => {
                proof {
                    lemma_list_view(*ipld);
                }
                if xs.len() == 0 {
                    return Ok(Pos(None));
                }
                if xs.len() == 3 {
                    match (&xs[0], &xs[1], &xs[2]) {
                        (Value::Integer(from), Value::Integer(upto), Value::Link(input)) => {
                            if 0 <= *from && *from <= u64::MAX as i128 && 0 <= *upto && *upto
                                <= u64::MAX as i128 {
                                return Ok(
                                    Pos(
                                        Some(
                                            Position {
                                                input: input.clone(),
                                                from_offset: *from as u64,
                                                upto_offset: *upto as u64,
                                            },
                                        ),
                                    ),
                                );
                            }
                        },
                        _ => {},
                    }
                }
                Err(IpldError::InvalidShape(ipld.clone()))
            },
            _ => Err(IpldError::InvalidShape(ipld.clone())),
        }
    }
}

} // verus!

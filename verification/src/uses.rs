//! Multiplicities: how often a bound variable may be used.

use vstd::prelude::*;
use crate::bytes::{fingerprint, same_text, text};
use crate::error::{IpldError, IpldErrorView};
use crate::ipld::{Value, ValueView};

verus! {

/// How often a bound variable may be used.
#[derive(Clone, Copy, Debug, PartialEq, Eq, Structural)]
pub enum Uses {
    /// Not at all.
    Zero,
    /// At most once.
    Affine,
    /// Exactly once.
    Once,
    /// Any number of times.
    Many,
}

impl Uses {
    /// The name of the multiplicity.
    pub open spec fn spec_name(self) -> Seq<char> {
        match self {
            Uses::Zero => "none"@,
            Uses::Affine => "affine"@,
            Uses::Once => "once"@,
            Uses::Many => "many"@,
        }
    }

    /// The multiplicity that a name stands for.
    pub open spec fn spec_from_name(x: Seq<char>) -> Option<Uses> {
        if x == "none"@ {
            Some(Uses::Zero)
        } else if x == "affine"@ {
            Some(Uses::Affine)
        } else if x == "once"@ {
            Some(Uses::Once)
        } else if x == "many"@ {
            Some(Uses::Many)
        } else {
            None
        }
    }

    /// The canonical form of the multiplicity: its name.
    pub open spec fn spec_to_ipld(self) -> ValueView {
        ValueView::String(self.spec_name())
    }

    /// The multiplicity that a value is the canonical form of.
    pub open spec fn spec_from_ipld(v: ValueView) -> Result<Uses, IpldErrorView> {
        match v {
            ValueView::String(x) => match Self::spec_from_name(x) {
                Some(u) => Ok(u),
                None => Err(IpldErrorView::UnknownTag(v)),
            },
            _ => Err(IpldErrorView::InvalidShape(v)),
        }
    }

    /// The canonical form of the multiplicity.
    pub fn to_ipld(self) -> (v: Value)
        ensures
            v@ == self.spec_to_ipld(),
    {
        match self {
            Uses::Zero => Value::String(text("none")),
            Uses::Affine => Value::String(text("affine")),
            Uses::Once => Value::String(text("once")),
            Uses::Many => Value::String(text("many")),
        }
    }

    /// The multiplicity that a value is the canonical form of.
    pub fn from_ipld(ipld: &Value) -> (r: Result<Uses, IpldError>)
        ensures
            match r {
                Ok(u) => Self::spec_from_ipld(ipld@) == Ok::<Uses, IpldErrorView>(u),
                Err(e) => Self::spec_from_ipld(ipld@) == Err::<Uses, IpldErrorView>(e@),
            },
    {
        match ipld {
            Value::String(x) => {
                if same_text(x.as_str(), "none") {
                    Ok(Uses::Zero)
                } else if same_text(x.as_str(), "affine") {
                    Ok(Uses::Affine)
                } else if same_text(x.as_str(), "once") {
                    Ok(Uses::Once)
                } else if same_text(x.as_str(), "many") {
                    Ok(Uses::Many)
                } else {
                    Err(IpldError::UnknownTag(ipld.clone()))
                }
            },
            _ => Err(IpldError::InvalidShape(ipld.clone())),
        }
    }
}

/// Decoding the canonical form of a multiplicity gives it back.
pub proof fn lemma_uses_roundtrip(u: Uses)
    ensures
        Uses::spec_from_ipld(u.spec_to_ipld()) == Ok::<Uses, IpldErrorView>(u),
{
    reveal_strlit("none");
    assert(fingerprint("none"@) == (4nat, 'n', 'o', 'n', 'e', 'e'));
    reveal_strlit("affine");
    assert(fingerprint("affine"@) == (6nat, 'a', 'f', 'f', 'i', 'e'));
    reveal_strlit("once");
    assert(fingerprint("once"@) == (4nat, 'o', 'n', 'c', 'e', 'e'));
    reveal_strlit("many");
    assert(fingerprint("many"@) == (4nat, 'm', 'a', 'n', 'y', 'y'));
}

} // verus!

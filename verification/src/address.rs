//! The identity of a mail participant: an optional display name and a bare
//! address. Two participants are the same entity only when both parts agree,
//! so the same email under two display names counts as two entities.

use vstd::prelude::*;

verus! {

/// Mathematical value of an [`Address`]: the pair of the optional display
/// name and the bare email address, as character sequences.
#[verifier::ext_equal]
pub struct AddressView {
    pub name: Option<Seq<char>>,
    pub addr: Seq<char>,
}

/// The mathematical values of a sequence of addresses, element by element.
pub open spec fn addr_views(s: Seq<Address>) -> Seq<AddressView> {
    s.map_values(|a: Address| a@)
}

/// One mail participant as it appears in a header field.
pub struct Address {
    /// Display name, absent when the header carried none.
    pub name: Option<String>,
    /// Bare email address; empty when the header carried none.
    pub addr: String,
}

impl View for Address {
    type V = AddressView;

    open spec fn view(&self) -> AddressView {
        AddressView {
            name: match self.name {
                Some(n) => Some(n@),
                None => None,
            },
            addr: self.addr@,
        }
    }
}

impl Clone for Address {
    fn clone(&self) -> (r: Self)
        ensures
            r@ == self@,
    {
        Address {
            name: match &self.name {
                Some(n) => Some(n.clone()),
                None => None,
            },
            addr: self.addr.clone(),
        }
    }
}

impl PartialEq for Address {
    fn eq(&self, other: &Self) -> (r: bool) {
        let names_eq = match (&self.name, &other.name) {
            (Some(a), Some(b)) => *a == *b,
            (None, None) => true,
            _ => false,
        };
        let r = names_eq && self.addr == other.addr;
        proof {
            if r {
                assert(self@ =~= other@);
            }
        }
        r
    }
}

impl vstd::std_specs::cmp::PartialEqSpecImpl for Address {
    open spec fn obeys_eq_spec() -> bool {
        true
    }

    open spec fn eq_spec(&self, other: &Self) -> bool {
        self@ == other@
    }
}

} // verus!

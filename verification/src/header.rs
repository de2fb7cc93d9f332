//! One message's structural summary: the participant lists of the four
//! header roles and the message date.

use vstd::prelude::*;
use crate::address::{Address, AddressView, addr_views};

verus! {

/// Mathematical value of a [`HeaderRecord`].
#[verifier::ext_equal]
pub struct HeaderView {
    pub from: Seq<AddressView>,
    pub to: Seq<AddressView>,
    pub cc: Seq<AddressView>,
    pub bcc: Seq<AddressView>,
    pub date: Seq<char>,
}

/// The normalized header of one message: who sent it, who received it in
/// each role, and when. Built once per message and read-only afterwards.
pub struct HeaderRecord {
    pub from: Vec<Address>,
    pub to: Vec<Address>,
    pub cc: Vec<Address>,
    pub bcc: Vec<Address>,
    /// RFC 3339 date text; empty when the message had no parseable date.
    pub date: String,
}

impl View for HeaderRecord {
    type V = HeaderView;

    open spec fn view(&self) -> HeaderView {
        HeaderView {
            from: addr_views(self.from@),
            to: addr_views(self.to@),
            cc: addr_views(self.cc@),
            bcc: addr_views(self.bcc@),
            date: self.date@,
        }
    }
}

} // verus!

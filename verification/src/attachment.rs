//! Decoded attachment parts of one message, and the choice of collision-safe
//! output filenames for them.

use vstd::prelude::*;
use crate::naming::{NameRegistry, name_used, str_views};

verus! {

/// Mathematical value of an [`Attachment`].
#[verifier::ext_equal]
pub struct AttachmentView {
    pub filename: Option<Seq<char>>,
    pub data: Seq<u8>,
}

/// One decoded attachment part: the declared filename, when the message
/// carried one, and the decoded payload bytes.
pub struct Attachment {
    pub filename: Option<String>,
    pub data: Vec<u8>,
}

impl View for Attachment {
    type V = AttachmentView;

    open spec fn view(&self) -> AttachmentView {
        AttachmentView {
            filename: match self.filename {
                Some(n) => Some(n@),
                None => None,
            },
            data: self.data@,
        }
    }
}

/// The mathematical values of a sequence of attachments.
pub open spec fn att_views(s: Seq<Attachment>) -> Seq<AttachmentView> {
    s.map_values(|a: Attachment| a@)
}

/// Choose one output filename per part, in order: the declared filename
/// where the part has one, else `fallback`, uniquified by the registry.
/// No chosen name repeats an earlier grant of the same run, so no file
/// written under these names overwrites another of the run.
pub fn attachment_names(parts: &Vec<Attachment>, fallback: &String, reg: &mut NameRegistry) -> (r:
    Vec<String>)
    ensures
        r@.len() == parts@.len(),
        final(reg).used_names() == old(reg).used_names() + str_views(r@),
        forall|i: int|
            0 <= i < r@.len() ==> !name_used(
                old(reg).used_names() + str_views(r@.subrange(0, i)),
                (#[trigger] r@[i])@,
            ),
        forall|i: int|
            0 <= i < r@.len() ==> {
                let wanted = match parts@[i]@.filename {
                    Some(d) => d,
                    None => fallback@,
                };
                !name_used(old(reg).used_names() + str_views(r@.subrange(0, i)), wanted) ==> (
                #[trigger] r@[i])@ == wanted
            },
{
    let mut names: Vec<String> = Vec::new();
    let n = parts.len();
    let mut i: usize = 0;
    proof {
        assert(old(reg).used_names() + str_views(names@) =~= old(reg).used_names());
    }
    while i < n
        invariant
            n == parts@.len(),
            i == names@.len(),
            i <= n,
            reg.used_names() == old(reg).used_names() + str_views(names@),
            forall|k: int|
                0 <= k < i ==> !name_used(
                    old(reg).used_names() + str_views(names@.subrange(0, k)),
                    (#[trigger] names@[k])@,
                ),
            forall|k: int|
                0 <= k < i ==> {
                    let wanted = match parts@[k]@.filename {
                        Some(d) => d,
                        None => fallback@,
                    };
                    !name_used(old(reg).used_names() + str_views(names@.subrange(0, k)), wanted)
                        ==> (#[trigger] names@[k])@ == wanted
                },
        decreases n - i,
    {
        let wanted = match &parts[i].filename {
            Some(d) => d.clone(),
            None => fallback.clone(),
        };
        let ghost pre = names@;
        let granted = reg.reserve(&wanted);
        names.push(granted);
        proof {
            assert(pre =~= names@.subrange(0, i as int));
            assert(str_views(names@) =~= str_views(pre).push(names@[i as int]@));
            assert(reg.used_names() =~= old(reg).used_names() + str_views(names@));
            assert forall|k: int| 0 <= k < i + 1 implies !name_used(
                old(reg).used_names() + str_views(names@.subrange(0, k)),
                (#[trigger] names@[k])@,
            ) by {
                assert(names@.subrange(0, k) =~= pre.subrange(0, k));
                if k < i {
                    assert(names@[k] == pre[k]);
                }
            }
            assert forall|k: int| 0 <= k < i + 1 implies {
                let wanted_k = match parts@[k]@.filename {
                    Some(d) => d,
                    None => fallback@,
                };
                !name_used(old(reg).used_names() + str_views(names@.subrange(0, k)), wanted_k)
                    ==> (#[trigger] names@[k])@ == wanted_k
            } by {
                assert(names@.subrange(0, k) =~= pre.subrange(0, k));
                if k < i {
                    assert(names@[k] == pre[k]);
                } else {
                    assert(names@.subrange(0, k) =~= pre);
                }
            }
        }
        i = i + 1;
    }
    proof {
        assert(names@.subrange(0, n as int) =~= names@);
    }
    names
}

} // verus!

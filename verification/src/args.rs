//! The server configuration, fixed at startup.

use vstd::prelude::*;
use crate::bytes::{SLASH, bytes_eq, tail_of};
use crate::resolve::{wf_root, norm_segments, spell_path};

verus! {

/// The configuration one server instance runs with: bind address and port,
/// the root directory served, whether mutation is disabled, and the
/// optional `user:pass` credential.
pub struct Args {
    pub address: String,
    pub port: u16,
    pub path: Vec<u8>,
    pub readonly: bool,
    pub auth: Option<Vec<u8>>,
}

impl Args {
    /// The root path is absolute and in normal form, as canonicalization
    /// leaves it.
    pub open spec fn wf(&self) -> bool {
        wf_root(self.path@)
    }
}

/// Checks that a root path is absolute and in normal form: spelling its
/// normalized segments back out returns it unchanged.
pub fn root_in_normal_form(path: &Vec<u8>) -> (r: bool)
    ensures
        r == wf_root(path@),
{
    if path.len() == 0 {
        return false;
    }
    if path[0] != SLASH {
        return false;
    }
    let rel = tail_of(path, 1);
    let empty_init: Vec<Vec<u8>> = Vec::new();
    proof {
        assert(empty_init.deep_view() =~= Seq::<Seq<u8>>::empty());
    }
    match norm_segments(&rel, &empty_init) {
        Option::Some(segs) => {
            let spelled = spell_path(&segs);
            bytes_eq(&spelled, path)
        },
        Option::None => false,
    }
}

} // verus!

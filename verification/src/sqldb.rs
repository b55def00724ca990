//! The package-database inventory stub.

use vstd::prelude::*;
use vstd::string::StrSliceExecFns;

verus! {

/// The banner the inventory stub reports.
pub open spec fn pkg_banner() -> Seq<char> {
    seq!['p', 'k', 'g', ' ', 'l', 'i', 's', 't']
}

/// The inventory summary of the local package database: the banner when the
/// database could be opened, the empty string otherwise.  Opening the
/// database is the caller's affair; the outcome is handed in.
pub fn pkg_info(db_opened: bool) -> (r: String)
    ensures
        r@ == (if db_opened {
            pkg_banner()
        } else {
            Seq::<char>::empty()
        }),
{
    if db_opened {
        let s: String = "pkg list".to_owned();
        proof {
            reveal_strlit("pkg list");
            assert(s@ =~= pkg_banner());
        }
        s
    } else {
        String::new()
    }
}

} // verus!

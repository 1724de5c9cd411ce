//! The online-accounts page definition: metadata for the page listing the
//! user's online accounts.

use vstd::prelude::*;

use crate::model::Meta;

verus! {

/// The metadata of the online-accounts page: named and iconed for the
/// accounts panel, titled and described for display, with no parent set.
pub fn page() -> (r: Meta)
    ensures
        r.name@ == "online-accounts"@,
        r.icon@ == "goa-panel-symbolic"@,
        r.title@ == "Online Accounts"@,
        r.description@ == "Connect to your online accounts"@,
        r.parent is None,
{
    Meta::new("online-accounts", "goa-panel-symbolic").title("Online Accounts").description(
        "Connect to your online accounts",
    )
}

} // verus!

//! The hexon tileset manager's queued operations. Carrying them out reads
//! files and talks to the tileset registry; which of them call for the
//! manager's list to be refreshed is decided here.

use vstd::prelude::*;

verus! {

/// An operation queued by the hexon manager dialog.
#[derive(Debug, Clone)]
pub enum HexonOp {
    /// Install the tileset archive at this path.
    Install(String),
    /// Remove the tileset with this id.
    Remove(String),
    /// Turn seeding of a tileset on or off.
    SetSeeding(String, bool),
    /// Just refresh the list.
    RefreshList,
}

/// An operation changes what the manager lists: an install only when it
/// succeeded; a removal or a seeding change whatever came of it; a refresh
/// request always.
pub open spec fn op_refreshes(op: HexonOp, install_succeeded: bool) -> bool {
    match op {
        HexonOp::Install(_) => install_succeeded,
        _ => true,
    }
}

/// Whether one carried-out operation calls for a refresh.
pub fn hexon_op_refreshes(op: &HexonOp, install_succeeded: bool) -> (r: bool)
    ensures
        r == op_refreshes(*op, install_succeeded),
{
    match op {
        HexonOp::Install(_) => install_succeeded,
        _ => true,
    }
}

/// Whether a drained batch calls for a refresh: some operation does, each
/// with the outcome of its install (ignored for other kinds).
pub fn hexon_batch_refreshes(ops: &Vec<HexonOp>, install_succeeded: &Vec<bool>) -> (r: bool)
    requires
        ops@.len() == install_succeeded@.len(),
    ensures
        r == exists|i: int| 0 <= i < ops@.len() && #[trigger] op_refreshes(ops@[i], install_succeeded@[i]),
{
    let mut k: usize = 0;
    while k < ops.len()
        invariant
            k <= ops@.len(),
            ops@.len() == install_succeeded@.len(),
            forall|j: int| 0 <= j < k ==> !#[trigger] op_refreshes(ops@[j], install_succeeded@[j]),
        decreases ops@.len() - k,
    {
        if hexon_op_refreshes(&ops[k], install_succeeded[k]) {
            return true;
        }
        k = k + 1;
    }
    false
}

/// Law: a failed install leaves the list as it was and asks for no
/// refresh; a successful install, a removal, a seeding change and a refresh
/// request always refresh.
pub proof fn law_refresh_after_every_change(op: HexonOp, install_succeeded: bool)
    ensures
        op is Install ==> (op_refreshes(op, install_succeeded) <==> install_succeeded),
        !(op is Install) ==> op_refreshes(op, install_succeeded),
{
}

} // verus!

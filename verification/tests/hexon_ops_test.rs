use fractalengine::hexon_ops::{hexon_batch_refreshes, hexon_op_refreshes, HexonOp};

#[test]
fn failed_install_alone_does_not_refresh() {
    assert!(!hexon_op_refreshes(&HexonOp::Install("a.hexon".into()), false));
    assert!(hexon_op_refreshes(&HexonOp::Install("a.hexon".into()), true));
    assert!(!hexon_batch_refreshes(&vec![HexonOp::Install("a.hexon".into())], &vec![false]));
}

#[test]
fn removals_and_seeding_refresh_whatever_happened() {
    assert!(hexon_op_refreshes(&HexonOp::Remove("h1".into()), false));
    assert!(hexon_op_refreshes(&HexonOp::SetSeeding("h1".into(), true), false));
    assert!(hexon_op_refreshes(&HexonOp::RefreshList, false));
    assert!(hexon_batch_refreshes(
        &vec![HexonOp::Install("a.hexon".into()), HexonOp::SetSeeding("h1".into(), false)],
        &vec![false, false]
    ));
    assert!(!hexon_batch_refreshes(&vec![], &vec![]));
}

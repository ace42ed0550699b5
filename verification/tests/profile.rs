use acolors::data::{GroupData, NodeData};

#[test]
fn test_sth() {}

#[test]
fn mod_it_works() -> Result<(), String> {
    Ok(())
}

#[test]
fn node_default_is_zero() {
    let n = NodeData::default();
    assert_eq!(n.port, 0);
    assert_eq!(n.name, "");
    let g = GroupData::default();
    assert_eq!(g.id, 0);
}

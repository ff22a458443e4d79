use fil_actor_hierarchical_sca::subnet_id::SubnetID;

#[test]
fn test_noop() {
    // Nothing is applied: a network name survives being written and read.
    let root = SubnetID::root();
    assert_eq!(SubnetID::from_str(root.to_string().as_str()).unwrap(), root);
}

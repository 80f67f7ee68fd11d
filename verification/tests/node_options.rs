use codspeed::exec_harness::node::set_node_options;

#[test]
fn option_is_added_once() {
    assert_eq!(set_node_options(""), "--perf-basic-prof");
    assert_eq!(
        set_node_options("--max-old-space-size=4096"),
        "--max-old-space-size=4096 --perf-basic-prof"
    );
    assert_eq!(
        set_node_options("  --perf-basic-prof   --inspect "),
        "--perf-basic-prof --inspect"
    );
    let once = set_node_options("--inspect");
    assert_eq!(set_node_options(&once), once);
}

use chat_node::node::InstallArgs;
use chat_node::node::NodeInfo;
use chat_node::node::ScaleStatus;
use chat_node::node::heartbeat;
use chat_node::node::init_canister;
use chat_node::node::migrate_to_node;
use chat_node::node::node_info;
use chat_node::node::scale_prepare;
use chat_node::node::scale_up;

fn registry(nodes: &[&str], index: &str) -> NodeInfo {
    let mut info = NodeInfo::new();
    for n in nodes {
        info.insert_node(n.to_string());
    }
    info.index_node = index.to_string();
    info
}

fn names(info: &NodeInfo) -> Vec<String> {
    info.all_nodes.clone()
}

#[test]
fn successful_scale_up_adds_exactly_one_node() {
    let mut info = registry(&["n1", "n2"], "n1");
    let status = scale_up(&mut info, Some("n3".to_string()), true);
    assert_eq!(status, ScaleStatus::Registered);
    assert_eq!(names(&info), vec!["n1".to_string(), "n2".to_string(), "n3".to_string()]);
    assert_eq!(info.index_node, "n1");
}

#[test]
fn scale_up_with_a_known_id_keeps_it_once() {
    let mut info = registry(&["n1", "n2"], "n1");
    let status = scale_up(&mut info, Some("n2".to_string()), true);
    assert_eq!(status, ScaleStatus::Registered);
    assert_eq!(names(&info), vec!["n1".to_string(), "n2".to_string()]);
    assert_eq!(info.index_node, "n1");
}

#[test]
fn failed_provision_or_deploy_changes_nothing() {
    let mut info = registry(&["n1"], "n1");
    assert_eq!(scale_up(&mut info, None, true), ScaleStatus::Failed);
    assert_eq!(names(&info), vec!["n1".to_string()]);
    assert_eq!(scale_up(&mut info, Some("n9".to_string()), false), ScaleStatus::Failed);
    assert_eq!(names(&info), vec!["n1".to_string()]);
    assert_eq!(info.index_node, "n1");
}

#[test]
fn scale_prepare_seeds_the_new_node() {
    let info = registry(&["n1", "n2"], "n1");
    let seed = scale_prepare(&info, &"n3".to_string());
    assert_eq!(names(&seed), vec!["n1".to_string(), "n2".to_string(), "n3".to_string()]);
    assert_eq!(seed.index_node, "n1");
    // the local registry itself is untouched by preparing a seed
    assert_eq!(names(&info), vec!["n1".to_string(), "n2".to_string()]);
}

#[test]
fn init_canister_takes_the_seed_when_given() {
    let current = registry(&["n1"], "n1");
    let seeded = registry(&["n1", "n2"], "n2");
    let r = init_canister(current, InstallArgs { node_info: Some(seeded) });
    assert_eq!(names(&r), vec!["n1".to_string(), "n2".to_string()]);
    assert_eq!(r.index_node, "n2");
    let current2 = registry(&["n1"], "n1");
    let kept = init_canister(current2, InstallArgs { node_info: None });
    assert_eq!(names(&kept), vec!["n1".to_string()]);
}

#[test]
fn node_info_projects_the_registry() {
    let info = registry(&["n1", "n2"], "n2");
    let v = node_info(&info);
    assert_eq!(v.all_nodes, vec!["n1".to_string(), "n2".to_string()]);
    assert_eq!(v.index_node, "n2");
}

#[test]
fn migration_is_declared_but_unimplemented() {
    assert!(migrate_to_node("n2".to_string()).is_err());
}

#[test]
fn maintenance_tick_is_a_no_op() {
    heartbeat();
}

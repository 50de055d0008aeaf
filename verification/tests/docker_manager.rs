use xrpl_packet_interceptor::docker_manager::{
    check_server_info, config_dir, generate_validator_configs, is_gone, is_network_container, server_info_verdict, key_generator_name, network_file, validator_config_dir,
    reports_success, validator_name, DockerContainer, ValidatorKeyData,
};
use xrpl_packet_interceptor::packet_client::proto::Partition;

fn key(n: u32) -> ValidatorKeyData {
    ValidatorKeyData {
        status: "success".to_string(),
        validation_key: format!("val_key{}", n),
        validation_private_key: format!("priv_key{}", n),
        validation_public_key: format!("pub_key{}", n),
        validation_seed: format!("seed{}", n),
    }
}

#[test]
fn test_generate_validator_configs() {
    let keys = vec![key(1), key(2)];
    let base = "[validation_seed]\n{validation_seed}\n";
    let configs = generate_validator_configs(".", &keys, "TEST", base, &vec![]);
    assert_eq!(configs.len(), 2);
    assert_eq!(configs[0].name, "TEST_validator_0");
    assert_eq!(configs[1].name, "TEST_validator_1");
    assert_eq!(configs[0].dir, "./network/validators/TEST_validator_0/config");
    assert_eq!(configs[1].dir, "./network/validators/TEST_validator_1/config");
    assert_eq!(configs[0].key_data, keys[0]);
    assert_eq!(configs[1].key_data, keys[1]);
    assert_eq!(configs[0].rippled_cfg, "[validation_seed]\nseed1\n");
    assert_eq!(configs[1].rippled_cfg, "[validation_seed]\nseed2\n");
    assert_eq!(configs[0].validators_txt, "[validators]\npub_key2", "Contents were not generated correctly");
    assert_eq!(configs[1].validators_txt, "[validators]\npub_key1", "Contents were not generated correctly");
}

#[test]
fn unl_partitions_shape_validator_lists() {
    let keys = vec![key(1), key(2), key(3)];
    let unl = vec![Partition { nodes: vec![0, 1] }, Partition { nodes: vec![1, 2] }];
    let configs = generate_validator_configs("/m", &keys, "P", "no placeholder", &unl);
    assert_eq!(configs[0].validators_txt, "[validators]\npub_key2");
    assert_eq!(configs[1].validators_txt, "[validators]\npub_key1\npub_key3");
    assert_eq!(configs[2].validators_txt, "[validators]\npub_key2");
    assert_eq!(configs[2].rippled_cfg, "no placeholder");
}

#[test]
fn placeholder_is_replaced_everywhere() {
    let keys = vec![key(7)];
    let configs = generate_validator_configs("/m", &keys, "X", "{validation_seed}{validation_seed} {validation_seed", &vec![]);
    assert_eq!(configs[0].rippled_cfg, "seed7seed7 {validation_seed");
    assert_eq!(configs[0].validators_txt, "[validators]\n");
}

#[test]
fn names_and_paths() {
    assert_eq!(validator_name("TEST", 12), "TEST_validator_12");
    assert_eq!(key_generator_name("TEST"), "TEST_key_generator");
    assert_eq!(config_dir("/mnt", "TEST_validator_0"), "/mnt/network/TEST_validator_0/config");
    assert_eq!(network_file("/mnt", "ledger.json"), "/mnt/network/ledger.json");
    assert_eq!(validator_config_dir("/mnt", "TEST_validator_0"), "/mnt/network/validators/TEST_validator_0/config");
}

#[test]
fn network_containers_are_recognised() {
    assert!(is_network_container("/validator_0"));
    assert!(is_network_container("/validator_"));
    assert!(is_network_container("/key_generator"));
    assert!(is_network_container("/key_generator_2"));
    assert!(!is_network_container("validator_0"));
    assert!(!is_network_container("/TEST_validator_0"));
    assert!(!is_network_container("/other"));
}

#[test]
fn server_info_availability() {
    assert!(check_server_info(r#"{"result": {"status": "success", "info": {}}}"#));
    assert!(!check_server_info(r#"{"result": {"status": "error"}}"#));
    assert!(!check_server_info(r#"{"result": {}}"#));
    assert!(!check_server_info(r#"{"result": {"status": 1}}"#));
    assert_eq!(server_info_verdict(r#"{"result": {"status": "success"}}"#), Some(true));
    assert_eq!(server_info_verdict(r#"[1, 2]"#), Some(false));
    assert_eq!(server_info_verdict("not json"), None);
    assert!(reports_success(Some("success".to_string())));
    assert!(!reports_success(Some("Success".to_string())));
    assert!(!reports_success(None));
}

#[test]
fn stopped_container_is_gone() {
    let listed = vec![Some("a".to_string()), None, Some("b".to_string())];
    assert!(!is_gone(&listed, &Some("b".to_string())));
    assert!(!is_gone(&listed, &None));
    assert!(is_gone(&listed, &Some("c".to_string())));
    assert!(is_gone(&vec![], &Some("a".to_string())));
}

#[test]
fn node_info_copies_the_container() {
    let c = DockerContainer { id: Some("abc".to_string()), name: "TEST_validator_3".to_string(), key_data: key(3) };
    let info = c.node_info();
    assert_eq!(info.hostname, "TEST_validator_3");
    assert_eq!(info.status, "success");
    assert_eq!(info.validation_public_key, "pub_key3");
    assert_eq!(info.validation_seed, "seed3");
    assert_eq!(info.validation_key, "val_key3");
    assert_eq!(info.validation_private_key, "priv_key3");
}

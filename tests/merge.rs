use nexus_conf::document::{conf_or_default, CliConf, ObjectId, Registry, RegistryFile, SuiNet};
use nexus_conf::merge::{apply, merge, merge_registry, resolve, resolve_set, ConfAction, Overrides};

fn oid(b: u8) -> ObjectId {
    ObjectId { bytes: [b; 32] }
}

fn no_overrides() -> Overrides {
    Overrides { net: None, wallet_path: None, registry: Registry::empty() }
}

fn full_registry(base: u8) -> Registry {
    Registry {
        workflow_pkg_id: Some(oid(base)),
        primitives_pkg_id: Some(oid(base + 1)),
        tool_registry_object_id: Some(oid(base + 2)),
        default_sap_object_id: Some(oid(base + 3)),
        network_id: Some(oid(base + 4)),
    }
}

fn registry_file(base: u8) -> RegistryFile {
    RegistryFile {
        workflow_pkg_id: oid(base),
        primitives_pkg_id: oid(base + 1),
        tool_registry_object_id: oid(base + 2),
        default_sap_object_id: oid(base + 3),
        network_id: oid(base + 4),
    }
}

fn saved(a: ConfAction) -> CliConf {
    match a {
        ConfAction::Save(c) => c,
        ConfAction::Show(_) => panic!("expected a document to save"),
    }
}

#[test]
fn test_conf_loads_and_saves() {
    let prev = conf_or_default(None);
    let ids = full_registry(10);
    let command = Overrides {
        net: Some(SuiNet::Mainnet),
        wallet_path: Some("/tmp/.nexus/wallet".to_string()),
        registry: ids,
    };
    let conf = saved(apply(prev, command, Some(registry_file(10))));
    assert_eq!(conf.network.net, SuiNet::Mainnet);
    assert_eq!(conf.network.wallet_path, "/tmp/.nexus/wallet");
    assert_eq!(conf.registry, ids);

    let command = Overrides { net: Some(SuiNet::Testnet), wallet_path: None, registry: Registry::empty() };
    let conf = saved(apply(conf, command, None));
    assert_eq!(conf.network.net, SuiNet::Testnet);
    assert_eq!(conf.network.wallet_path, "/tmp/.nexus/wallet");
    assert_eq!(conf.registry, ids);
}

#[test]
fn resolve_follows_precedence() {
    assert_eq!(resolve(Some(1u8), Some(2), Some(3)), Some(1));
    assert_eq!(resolve(None, Some(2u8), Some(3)), Some(2));
    assert_eq!(resolve(None, None, Some(3u8)), Some(3));
    assert_eq!(resolve::<u8>(None, None, None), None);
    assert_eq!(resolve_set(Some(7u8), 9), 7);
    assert_eq!(resolve_set(None, 9u8), 9);
}

#[test]
fn missing_file_gives_default() {
    let c = conf_or_default(None);
    assert_eq!(c, CliConf::default());
    assert_eq!(c.network.net, SuiNet::Localnet);
    assert_eq!(c.registry, Registry::empty());
    assert!(c.tools.is_empty());
    assert!(c.crypto.is_none());
}

#[test]
fn loaded_document_is_kept() {
    let mut c = CliConf::default();
    c.network.net = SuiNet::Devnet;
    assert_eq!(conf_or_default(Some(c.clone())), c);
}

#[test]
fn network_and_wallet_override_change_only_those_fields() {
    let o = Overrides { net: Some(SuiNet::Testnet), wallet_path: Some("/tmp/w".to_string()), registry: Registry::empty() };
    let next = saved(apply(CliConf::default(), o, None));
    let mut expected = CliConf::default();
    expected.network.net = SuiNet::Testnet;
    expected.network.wallet_path = "/tmp/w".to_string();
    assert_eq!(next, expected);
}

#[test]
fn registry_file_replaces_previous_value() {
    let mut prev = CliConf::default();
    prev.registry.workflow_pkg_id = Some(oid(1));
    let next = merge(prev, no_overrides(), Some(registry_file(2)));
    assert_eq!(next.registry.workflow_pkg_id, Some(oid(2)));
    assert_eq!(next.registry, full_registry(2));
}

#[test]
fn explicit_override_beats_registry_file() {
    let mut prev = CliConf::default();
    prev.registry.workflow_pkg_id = Some(oid(1));
    let mut o = no_overrides();
    o.registry.workflow_pkg_id = Some(oid(3));
    let next = merge(prev, o, Some(registry_file(2)));
    assert_eq!(next.registry.workflow_pkg_id, Some(oid(3)));
    assert_eq!(next.registry.primitives_pkg_id, Some(oid(3)));
    assert_eq!(next.registry.network_id, Some(oid(6)));
}

#[test]
fn unset_fields_are_preserved() {
    let mut prev = CliConf::default();
    prev.registry = full_registry(40);
    prev.network.auth_user = Some("user".to_string());
    let mut o = no_overrides();
    o.registry.network_id = Some(oid(99));
    let next = merge(prev.clone(), o, None);
    assert_eq!(next.registry.workflow_pkg_id, Some(oid(40)));
    assert_eq!(next.registry.default_sap_object_id, Some(oid(43)));
    assert_eq!(next.registry.network_id, Some(oid(99)));
    assert_eq!(next.network, prev.network);
}

#[test]
fn partial_registry_stays_partial() {
    let r = merge_registry(Registry::empty(), Registry { primitives_pkg_id: Some(oid(5)), ..Registry::empty() }, None);
    assert_eq!(r.primitives_pkg_id, Some(oid(5)));
    assert_eq!(r.workflow_pkg_id, None);
    assert_eq!(r.network_id, None);
}

#[test]
fn no_overrides_only_shows() {
    let mut prev = CliConf::default();
    prev.registry = full_registry(20);
    assert!(no_overrides().is_empty());
    assert_eq!(apply(prev.clone(), no_overrides(), None), ConfAction::Show(prev.clone()));
    assert_eq!(merge(prev.clone(), no_overrides(), None), prev);
}

#[test]
fn registry_file_alone_triggers_save() {
    let a = apply(CliConf::default(), no_overrides(), Some(registry_file(1)));
    assert_eq!(saved(a).registry, full_registry(1));
}

#[test]
fn merging_twice_changes_nothing_more() {
    let mut prev = CliConf::default();
    prev.registry = full_registry(30);
    let mut o = no_overrides();
    o.net = Some(SuiNet::Mainnet);
    o.registry.tool_registry_object_id = Some(oid(77));
    let once = merge(prev, o.clone(), Some(registry_file(50)));
    let twice = merge(once.clone(), o, Some(registry_file(50)));
    assert_eq!(once, twice);
}

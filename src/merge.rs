use vstd::prelude::*;
use crate::document::{CliConf, NetworkConf, ObjectId, Registry, RegistryFile, SuiNet};

verus! {

/// The precedence rule applied to every configurable field: an explicit
/// override wins, then a value from the registry file, then the value that
/// was already there.
pub open spec fn pick<T>(explicit: Option<T>, from_file: Option<T>, existing: Option<T>) -> Option<T> {
    if explicit is Some {
        explicit
    } else if from_file is Some {
        from_file
    } else {
        existing
    }
}

/// Resolves one field by `pick`.
pub fn resolve<T>(explicit: Option<T>, from_file: Option<T>, existing: Option<T>) -> (r: Option<T>)
    ensures
        r == pick(explicit, from_file, existing),
{
    match explicit {
        Some(v) => Some(v),
        None => match from_file {
            Some(v) => Some(v),
            None => existing,
        },
    }
}

/// Resolves a field that always has a value: the override if given, else the
/// existing value.
pub fn resolve_set<T>(explicit: Option<T>, existing: T) -> (r: T)
    ensures
        Some(r) == pick(explicit, None, Some(existing)),
{
    let r = resolve(explicit, None, Some(existing));
    r.unwrap()
}

/// Explicit overrides, one per configurable field; `None` leaves a field alone.
#[derive(Clone, Debug, PartialEq, Eq)]
pub struct Overrides {
    pub net: Option<SuiNet>,
    pub wallet_path: Option<String>,
    pub registry: Registry,
}

/// The registry fields that a registry file supplies.
pub open spec fn file_registry(f: Option<RegistryFile>) -> Registry {
    match f {
        Some(x) => Registry {
            workflow_pkg_id: Some(x.workflow_pkg_id),
            primitives_pkg_id: Some(x.primitives_pkg_id),
            tool_registry_object_id: Some(x.tool_registry_object_id),
            default_sap_object_id: Some(x.default_sap_object_id),
            network_id: Some(x.network_id),
        },
        None => Registry {
            workflow_pkg_id: None,
            primitives_pkg_id: None,
            tool_registry_object_id: None,
            default_sap_object_id: None,
            network_id: None,
        },
    }
}

pub open spec fn merged_registry(prev: Registry, o: Registry, from_file: Registry) -> Registry {
    Registry {
        workflow_pkg_id: pick(o.workflow_pkg_id, from_file.workflow_pkg_id, prev.workflow_pkg_id),
        primitives_pkg_id: pick(o.primitives_pkg_id, from_file.primitives_pkg_id, prev.primitives_pkg_id),
        tool_registry_object_id: pick(
            o.tool_registry_object_id,
            from_file.tool_registry_object_id,
            prev.tool_registry_object_id,
        ),
        default_sap_object_id: pick(
            o.default_sap_object_id,
            from_file.default_sap_object_id,
            prev.default_sap_object_id,
        ),
        network_id: pick(o.network_id, from_file.network_id, prev.network_id),
    }
}

/// The next document: each field resolved by `pick`; tools, credentials and
/// crypto state carried over untouched.
pub open spec fn merged(prev: CliConf, o: Overrides, f: Option<RegistryFile>) -> CliConf {
    CliConf {
        network: NetworkConf {
            net: pick(o.net, None, Some(prev.network.net)).unwrap(),
            wallet_path: pick(o.wallet_path, None, Some(prev.network.wallet_path)).unwrap(),
            auth_user: prev.network.auth_user,
            auth_password: prev.network.auth_password,
        },
        registry: merged_registry(prev.registry, o.registry, file_registry(f)),
        tools: prev.tools,
        crypto: prev.crypto,
    }
}

pub open spec fn no_overrides(o: Overrides, f: Option<RegistryFile>) -> bool {
    &&& o.net is None
    &&& o.wallet_path is None
    &&& o.registry == file_registry(None)
    &&& f is None
}

impl Overrides {
    /// True when no field is overridden, so the call only shows the document.
    pub fn is_empty(&self) -> (r: bool)
        ensures
            r == (self.net is None && self.wallet_path is None && self.registry == file_registry(None)),
    {
        self.net.is_none() && self.wallet_path.is_none() && self.registry.workflow_pkg_id.is_none()
            && self.registry.primitives_pkg_id.is_none()
            && self.registry.tool_registry_object_id.is_none()
            && self.registry.default_sap_object_id.is_none()
            && self.registry.network_id.is_none()
    }
}

fn file_field(f: Option<RegistryFile>, which: u8) -> (r: Option<ObjectId>)
    ensures
        which == 0 ==> r == file_registry(f).workflow_pkg_id,
        which == 1 ==> r == file_registry(f).primitives_pkg_id,
        which == 2 ==> r == file_registry(f).tool_registry_object_id,
        which == 3 ==> r == file_registry(f).default_sap_object_id,
        which >= 4 ==> r == file_registry(f).network_id,
{
    match f {
        Some(x) => Some(
            if which == 0 {
                x.workflow_pkg_id
            } else if which == 1 {
                x.primitives_pkg_id
            } else if which == 2 {
                x.tool_registry_object_id
            } else if which == 3 {
                x.default_sap_object_id
            } else {
                x.network_id
            },
        ),
        None => None,
    }
}

/// Merges the registry by precedence, field by field.
pub fn merge_registry(prev: Registry, o: Registry, f: Option<RegistryFile>) -> (r: Registry)
    ensures
        r == merged_registry(prev, o, file_registry(f)),
{
    Registry {
        workflow_pkg_id: resolve(o.workflow_pkg_id, file_field(f, 0), prev.workflow_pkg_id),
        primitives_pkg_id: resolve(o.primitives_pkg_id, file_field(f, 1), prev.primitives_pkg_id),
        tool_registry_object_id: resolve(
            o.tool_registry_object_id,
            file_field(f, 2),
            prev.tool_registry_object_id,
        ),
        default_sap_object_id: resolve(
            o.default_sap_object_id,
            file_field(f, 3),
            prev.default_sap_object_id,
        ),
        network_id: resolve(o.network_id, file_field(f, 4), prev.network_id),
    }
}

/// Computes the next document from the previous one, the explicit overrides
/// and an optional registry file.
pub fn merge(prev: CliConf, o: Overrides, f: Option<RegistryFile>) -> (r: CliConf)
    ensures
        r == merged(prev, o, f),
        prev.wf() ==> r.wf(),
{
    let CliConf { network, registry, tools, crypto } = prev;
    let NetworkConf { net, wallet_path, auth_user, auth_password } = network;
    let Overrides { net: o_net, wallet_path: o_wallet_path, registry: o_registry } = o;
    CliConf {
        network: NetworkConf {
            net: resolve_set(o_net, net),
            wallet_path: resolve_set(o_wallet_path, wallet_path),
            auth_user,
            auth_password,
        },
        registry: merge_registry(registry, o_registry, f),
        tools,
        crypto,
    }
}

/// What a configuration command does with the document.
#[derive(Clone, Debug, PartialEq, Eq)]
pub enum ConfAction {
    /// Nothing was overridden: show the document as it is.
    Show(CliConf),
    /// Write the merged document back.
    Save(CliConf),
}

/// Decides a configuration command: with no override and no registry file
/// the previous document is shown unchanged, otherwise the merged document
/// is saved.
pub fn apply(prev: CliConf, o: Overrides, f: Option<RegistryFile>) -> (r: ConfAction)
    ensures
        no_overrides(o, f) ==> r == ConfAction::Show(prev),
        !no_overrides(o, f) ==> r == ConfAction::Save(merged(prev, o, f)),
        prev.wf() ==> merged(prev, o, f).wf(),
{
    if o.is_empty() && f.is_none() {
        ConfAction::Show(prev)
    } else {
        ConfAction::Save(merge(prev, o, f))
    }
}

/// An explicit override decides its field, whatever the registry file or the
/// previous document hold.
pub proof fn lemma_override_wins(prev: CliConf, o: Overrides, f: Option<RegistryFile>)
    ensures
        o.net is Some ==> merged(prev, o, f).network.net == o.net.unwrap(),
        o.wallet_path is Some ==> merged(prev, o, f).network.wallet_path == o.wallet_path.unwrap(),
        o.registry.workflow_pkg_id is Some ==> merged(prev, o, f).registry.workflow_pkg_id
            == o.registry.workflow_pkg_id,
        o.registry.primitives_pkg_id is Some ==> merged(prev, o, f).registry.primitives_pkg_id
            == o.registry.primitives_pkg_id,
        o.registry.tool_registry_object_id is Some ==> merged(
            prev,
            o,
            f,
        ).registry.tool_registry_object_id == o.registry.tool_registry_object_id,
        o.registry.default_sap_object_id is Some ==> merged(prev, o, f).registry.default_sap_object_id
            == o.registry.default_sap_object_id,
        o.registry.network_id is Some ==> merged(prev, o, f).registry.network_id
            == o.registry.network_id,
{
}

/// Without an explicit override, a field that the registry file supplies
/// takes the file's value.
pub proof fn lemma_file_fallback(prev: CliConf, o: Overrides, f: RegistryFile)
    ensures
        o.registry.workflow_pkg_id is None ==> merged(prev, o, Some(f)).registry.workflow_pkg_id
            == Some(f.workflow_pkg_id),
        o.registry.primitives_pkg_id is None ==> merged(prev, o, Some(f)).registry.primitives_pkg_id
            == Some(f.primitives_pkg_id),
        o.registry.tool_registry_object_id is None ==> merged(
            prev,
            o,
            Some(f),
        ).registry.tool_registry_object_id == Some(f.tool_registry_object_id),
        o.registry.default_sap_object_id is None ==> merged(
            prev,
            o,
            Some(f),
        ).registry.default_sap_object_id == Some(f.default_sap_object_id),
        o.registry.network_id is None ==> merged(prev, o, Some(f)).registry.network_id == Some(
            f.network_id,
        ),
{
}

/// A field that neither an override nor the registry file supplies keeps its
/// previous value; so do the fields that no override can reach.
pub proof fn lemma_preserved(prev: CliConf, o: Overrides, f: Option<RegistryFile>)
    ensures
        o.net is None ==> merged(prev, o, f).network.net == prev.network.net,
        o.wallet_path is None ==> merged(prev, o, f).network.wallet_path == prev.network.wallet_path,
        f is None && o.registry.workflow_pkg_id is None ==> merged(prev, o, f).registry.workflow_pkg_id
            == prev.registry.workflow_pkg_id,
        f is None && o.registry.primitives_pkg_id is None ==> merged(
            prev,
            o,
            f,
        ).registry.primitives_pkg_id == prev.registry.primitives_pkg_id,
        f is None && o.registry.tool_registry_object_id is None ==> merged(
            prev,
            o,
            f,
        ).registry.tool_registry_object_id == prev.registry.tool_registry_object_id,
        f is None && o.registry.default_sap_object_id is None ==> merged(
            prev,
            o,
            f,
        ).registry.default_sap_object_id == prev.registry.default_sap_object_id,
        f is None && o.registry.network_id is None ==> merged(prev, o, f).registry.network_id
            == prev.registry.network_id,
        merged(prev, o, f).network.auth_user == prev.network.auth_user,
        merged(prev, o, f).network.auth_password == prev.network.auth_password,
        merged(prev, o, f).tools == prev.tools,
        merged(prev, o, f).crypto == prev.crypto,
{
}

/// With no override and no registry file the merge changes nothing.
pub proof fn lemma_no_op(prev: CliConf, o: Overrides, f: Option<RegistryFile>)
    requires
        no_overrides(o, f),
    ensures
        merged(prev, o, f) == prev,
{
    assert(merged(prev, o, f).network == prev.network);
    assert(merged(prev, o, f).registry == prev.registry);
}

/// Merging a second time with the same overrides and file changes nothing.
pub proof fn lemma_idempotent(prev: CliConf, o: Overrides, f: Option<RegistryFile>)
    ensures
        merged(merged(prev, o, f), o, f) == merged(prev, o, f),
{
    let once = merged(prev, o, f);
    assert(merged(once, o, f).network == once.network);
    assert(merged(once, o, f).registry == once.registry);
}

} // verus!

use vstd::prelude::*;

verus! {

/// The chain network the tool talks to.
#[derive(Clone, Copy, Debug, PartialEq, Eq, Structural)]
pub enum SuiNet {
    Localnet,
    Devnet,
    Testnet,
    Mainnet,
}

/// A 32-byte on-chain object identifier.
#[derive(Clone, Copy, Debug, PartialEq, Eq)]
pub struct ObjectId {
    pub bytes: [u8; 32],
}

/// Network settings: chain, wallet location and optional credentials.
#[derive(Clone, Debug, PartialEq, Eq)]
pub struct NetworkConf {
    pub net: SuiNet,
    pub wallet_path: String,
    pub auth_user: Option<String>,
    pub auth_password: Option<String>,
}

/// The on-chain objects the tool works against; each may still be unset.
#[derive(Clone, Copy, Debug, PartialEq, Eq)]
pub struct Registry {
    pub workflow_pkg_id: Option<ObjectId>,
    pub primitives_pkg_id: Option<ObjectId>,
    pub tool_registry_object_id: Option<ObjectId>,
    pub default_sap_object_id: Option<ObjectId>,
    pub network_id: Option<ObjectId>,
}

/// A complete set of registry objects, as read from a registry file.
#[derive(Clone, Copy, Debug, PartialEq, Eq)]
pub struct RegistryFile {
    pub workflow_pkg_id: ObjectId,
    pub primitives_pkg_id: ObjectId,
    pub tool_registry_object_id: ObjectId,
    pub default_sap_object_id: ObjectId,
    pub network_id: ObjectId,
}

/// Configuration of one tool, kept as its identifier and its serialized settings.
#[derive(Clone, Debug, PartialEq, Eq)]
pub struct ToolEntry {
    pub name: String,
    pub config: String,
}

/// The encrypted cryptographic section as it is stored: the key-derivation
/// salt, an encrypted empty message that tells whether a passphrase is the
/// right one, and the authenticated ciphertext of the section, each
/// encryption with its own nonce.
#[derive(Clone, Debug, PartialEq, Eq)]
pub struct SealedSection {
    pub salt: Vec<u8>,
    pub check_nonce: Vec<u8>,
    pub check: Vec<u8>,
    pub nonce: Vec<u8>,
    pub ciphertext: Vec<u8>,
}

/// The whole persisted configuration. `crypto` is `None` while no
/// cryptographic state has been stored.
#[derive(Clone, Debug, PartialEq, Eq)]
pub struct CliConf {
    pub network: NetworkConf,
    pub registry: Registry,
    pub tools: Vec<ToolEntry>,
    pub crypto: Option<SealedSection>,
}

/// No two tools share a name.
pub open spec fn tool_names_unique(ts: Seq<ToolEntry>) -> bool {
    forall|i: int, j: int| 0 <= i < j < ts.len() ==> ts[i].name@ != ts[j].name@
}

impl CliConf {
    /// The tools form a map from name to configuration.
    pub open spec fn wf(&self) -> bool {
        tool_names_unique(self.tools@)
    }
}

pub open spec fn empty_registry() -> Registry {
    Registry {
        workflow_pkg_id: None,
        primitives_pkg_id: None,
        tool_registry_object_id: None,
        default_sap_object_id: None,
        network_id: None,
    }
}

/// The document used when nothing has been persisted yet: local network, no
/// wallet path or credentials, empty registry, no tools, no crypto state.
pub open spec fn is_default_conf(c: CliConf) -> bool {
    &&& c.network.net == SuiNet::Localnet
    &&& c.network.wallet_path@.len() == 0
    &&& c.network.auth_user is None
    &&& c.network.auth_password is None
    &&& c.registry == empty_registry()
    &&& c.tools@.len() == 0
    &&& c.crypto is None
}

impl Registry {
    pub fn empty() -> (r: Registry)
        ensures
            r == empty_registry(),
    {
        Registry {
            workflow_pkg_id: None,
            primitives_pkg_id: None,
            tool_registry_object_id: None,
            default_sap_object_id: None,
            network_id: None,
        }
    }
}

impl Default for CliConf {
    fn default() -> (r: CliConf)
        ensures
            is_default_conf(r),
            r.wf(),
    {
        CliConf {
            network: NetworkConf {
                net: SuiNet::Localnet,
                wallet_path: String::new(),
                auth_user: None,
                auth_password: None,
            },
            registry: Registry::empty(),
            tools: Vec::new(),
            crypto: None,
        }
    }
}

/// Returns the loaded document, or the default one when no file was found.
pub fn conf_or_default(found: Option<CliConf>) -> (r: CliConf)
    ensures
        match found {
            Some(c) => r == c,
            None => is_default_conf(r),
        },
        found matches Some(c) ==> (r.wf() <==> c.wf()),
        found is None ==> r.wf(),
{
    match found {
        Some(c) => c,
        None => CliConf::default(),
    }
}

} // verus!

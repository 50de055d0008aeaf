//! The decisions behind setting up and tearing down the Docker containers that
//! run the validator nodes: container names and paths, the configuration files
//! of each validator, which containers belong to a network, and when a node
//! reports that it is available.
use vstd::prelude::*;
use vstd::std_specs::cmp::PartialEqSpecImpl;

use crate::is_valid_unl_connection;
use crate::packet_client::proto::{Partition, ValidatorNodeInfo};
use crate::spec_unl_trusts;
use crate::text::{decimal, has_prefix, join, replace_all, spec_decimal, spec_join, spec_replace, starts_with, string_views};

verus! {

/// All the data used for validation by one node.
#[derive(Debug, Clone)]
pub struct ValidatorKeyData {
    /// The status of the request that produced these data.
    pub status: String,
    /// The validation key of the node.
    pub validation_key: String,
    /// The validation private key of the node.
    pub validation_private_key: String,
    /// The validation public key of the node.
    pub validation_public_key: String,
    /// The seed the keys were made from.
    pub validation_seed: String,
}

impl View for ValidatorKeyData {
    type V = (Seq<char>, Seq<char>, Seq<char>, Seq<char>, Seq<char>);

    open spec fn view(&self) -> Self::V {
        (
            self.status@,
            self.validation_key@,
            self.validation_private_key@,
            self.validation_public_key@,
            self.validation_seed@,
        )
    }
}

impl PartialEq for ValidatorKeyData {
    fn eq(&self, other: &Self) -> (r: bool) {
        self.status == other.status && self.validation_key == other.validation_key
            && self.validation_private_key == other.validation_private_key
            && self.validation_public_key == other.validation_public_key
            && self.validation_seed == other.validation_seed
    }
}

impl PartialEqSpecImpl for ValidatorKeyData {
    open spec fn obeys_eq_spec() -> bool {
        true
    }

    open spec fn eq_spec(&self, other: &ValidatorKeyData) -> bool {
        self@ == other@
    }
}

impl ValidatorKeyData {
    /// A copy of these key data.
    pub fn duplicate(&self) -> (r: Self)
        ensures
            r@ == self@,
    {
        ValidatorKeyData {
            status: self.status.clone(),
            validation_key: self.validation_key.clone(),
            validation_private_key: self.validation_private_key.clone(),
            validation_public_key: self.validation_public_key.clone(),
            validation_seed: self.validation_seed.clone(),
        }
    }
}

/// A Docker container that runs a rippled instance.
#[derive(Debug, Clone)]
pub struct DockerContainer {
    /// The id of the container, once it runs.
    pub id: Option<String>,
    /// The name of the container.
    pub name: String,
    /// The key data of its node.
    pub key_data: ValidatorKeyData,
}

impl DockerContainer {
    /// What the controller is told about this container's node.
    pub fn node_info(&self) -> (info: ValidatorNodeInfo)
        ensures
            info.hostname@ == self.name@,
            info.status@ == self.key_data.status@,
            info.validation_key@ == self.key_data.validation_key@,
            info.validation_private_key@ == self.key_data.validation_private_key@,
            info.validation_public_key@ == self.key_data.validation_public_key@,
            info.validation_seed@ == self.key_data.validation_seed@,
    {
        ValidatorNodeInfo {
            hostname: self.name.clone(),
            status: self.key_data.status.clone(),
            validation_key: self.key_data.validation_key.clone(),
            validation_private_key: self.key_data.validation_private_key.clone(),
            validation_public_key: self.key_data.validation_public_key.clone(),
            validation_seed: self.key_data.validation_seed.clone(),
        }
    }
}

/// The name of the validator container number `index`.
pub open spec fn spec_validator_name(hostname_prefix: Seq<char>, index: nat) -> Seq<char> {
    hostname_prefix + "_validator_"@ + spec_decimal(index)
}

/// The name of the container that generates the validator keys.
pub open spec fn spec_key_generator_name(hostname_prefix: Seq<char>) -> Seq<char> {
    hostname_prefix + "_key_generator"@
}

/// The directory holding the key generator's configuration.
pub open spec fn spec_config_dir(network_path: Seq<char>, container_name: Seq<char>) -> Seq<char> {
    network_path + "/network/"@ + container_name + "/config"@
}

/// A file under the `network` directory of the mounted network path.
pub open spec fn spec_network_file(network_path: Seq<char>, relative: Seq<char>) -> Seq<char> {
    network_path + "/network/"@ + relative
}

/// The path of `relative` under the `network` directory of the mounted network path.
pub fn network_file(network_path: &str, relative: &str) -> (s: String)
    ensures
        s@ == spec_network_file(network_path@, relative@),
{
    let mut s = String::from_str(network_path);
    s.append("/network/");
    s.append(relative);
    s
}

/// The directory holding a validator's configuration files.
pub open spec fn spec_validator_config_dir(network_path: Seq<char>, container_name: Seq<char>) -> Seq<char> {
    network_path + "/network/validators/"@ + container_name + "/config"@
}

/// The directory, under the mounted network path, that holds the configuration
/// files of the validator container `container_name` and is mounted into it:
/// `<network_path>/network/validators/<container_name>/config`.
pub fn validator_config_dir(network_path: &str, container_name: &str) -> (s: String)
    ensures
        s@ == spec_validator_config_dir(network_path@, container_name@),
{
    let mut s = String::from_str(network_path);
    s.append("/network/validators/");
    s.append(container_name);
    s.append("/config");
    s
}

/// Names the validator container number `index`.
pub fn validator_name(hostname_prefix: &str, index: u64) -> (s: String)
    ensures
        s@ == spec_validator_name(hostname_prefix@, index as nat),
{
    let mut s = String::from_str(hostname_prefix);
    s.append("_validator_");
    s.append(decimal(index).as_str());
    s
}

/// Names the container that generates the validator keys.
pub fn key_generator_name(hostname_prefix: &str) -> (s: String)
    ensures
        s@ == spec_key_generator_name(hostname_prefix@),
{
    let mut s = String::from_str(hostname_prefix);
    s.append("_key_generator");
    s
}

/// The directory, under the mounted network path, that holds the key generator's configuration.
pub fn config_dir(network_path: &str, container_name: &str) -> (s: String)
    ensures
        s@ == spec_config_dir(network_path@, container_name@),
{
    let mut s = String::from_str(network_path);
    s.append("/network/");
    s.append(container_name);
    s.append("/config");
    s
}

/// A container listed by Docker is one of the network's: its name (which
/// Docker writes with a leading slash) starts with `validator_` or with
/// `key_generator`.
pub open spec fn spec_is_network_container(name: Seq<char>) -> bool {
    has_prefix(name, "/validator_"@) || has_prefix(name, "/key_generator"@)
}

/// Whether the container named `name` is one to stop when the network is torn down.
pub fn is_network_container(name: &str) -> (r: bool)
    ensures
        r == spec_is_network_container(name@),
{
    starts_with(name, "/validator_") || starts_with(name, "/key_generator")
}

/// The view of an optional container id.
pub open spec fn id_view(id: Option<String>) -> Option<Seq<char>> {
    match id {
        Some(s) => Some(s@),
        None => None,
    }
}

fn same_id(a: &Option<String>, b: &Option<String>) -> (r: bool)
    ensures
        r == (id_view(*a) == id_view(*b)),
{
    match (a, b) {
        (Some(x), Some(y)) => x.eq(y),
        (None, None) => true,
        _ => false,
    }
}

/// Whether the container with id `id` is absent from the listed ids: the
/// container has stopped.
pub fn is_gone(listed_ids: &Vec<Option<String>>, id: &Option<String>) -> (r: bool)
    ensures
        r == forall|j: int| 0 <= j < listed_ids@.len() ==> id_view(#[trigger] listed_ids@[j]) != id_view(*id),
{
    let mut k: usize = 0;
    while k < listed_ids.len()
        invariant
            k <= listed_ids@.len(),
            forall|j: int| 0 <= j < k ==> id_view(#[trigger] listed_ids@[j]) != id_view(*id),
        decreases listed_ids@.len() - k,
    {
        if same_id(&listed_ids[k], id) {
            return false;
        }
        k += 1;
    }
    true
}

/// The placeholder in the base configuration that receives a validator's seed.
pub open spec fn seed_placeholder() -> Seq<char> {
    "{validation_seed}"@
}

/// The public keys, among the first `m` key data, of the validators that
/// validator `i` trusts, in order.
pub open spec fn spec_unl_keys(keys: Seq<ValidatorKeyData>, i: int, unl_partitions: Seq<Partition>, m: int) -> Seq<Seq<char>>
    decreases m,
{
    if m <= 0 {
        Seq::empty()
    } else {
        let prev = spec_unl_keys(keys, i, unl_partitions, m - 1);
        if spec_unl_trusts(i as u32, (m - 1) as u32, unl_partitions) {
            prev.push(keys[m - 1].validation_public_key@)
        } else {
            prev
        }
    }
}

/// The contents of the `validators.txt` of validator `i`.
pub open spec fn spec_validators_file(keys: Seq<ValidatorKeyData>, i: int, unl_partitions: Seq<Partition>) -> Seq<char> {
    "[validators]\n"@ + spec_join(spec_unl_keys(keys, i, unl_partitions, keys.len() as int), "\n"@)
}

/// The configuration files of one validator, ready to be written.
pub struct ValidatorConfig {
    /// The name of the validator's container.
    pub name: String,
    /// The directory the files go to, which is mounted into the container.
    pub dir: String,
    /// The validator's key data.
    pub key_data: ValidatorKeyData,
    /// The contents of its `rippled.cfg`.
    pub rippled_cfg: String,
    /// The contents of its `validators.txt`.
    pub validators_txt: String,
}

/// `c` is the configuration of validator `i` among `keys`.
pub open spec fn is_validator_config(
    c: ValidatorConfig,
    i: int,
    keys: Seq<ValidatorKeyData>,
    network_path: Seq<char>,
    hostname_prefix: Seq<char>,
    base_config: Seq<char>,
    unl_partitions: Seq<Partition>,
) -> bool {
    &&& c.name@ == spec_validator_name(hostname_prefix, i as nat)
    &&& c.dir@ == spec_validator_config_dir(network_path, c.name@)
    &&& c.key_data@ == keys[i]@
    &&& c.rippled_cfg@ == spec_replace(base_config, seed_placeholder(), keys[i].validation_seed@)
    &&& c.validators_txt@ == spec_validators_file(keys, i, unl_partitions)
}

/// The `validators.txt` contents of validator `i`.
pub fn validators_file(keys: &Vec<ValidatorKeyData>, i: usize, unl_partitions: &Vec<Partition>) -> (s: String)
    ensures
        s@ == spec_validators_file(keys@, i as int, unl_partitions@),
{
    let mut trusted: Vec<String> = Vec::new();
    let mut j: usize = 0;
    while j < keys.len()
        invariant
            j <= keys@.len(),
            string_views(trusted@) == spec_unl_keys(keys@, i as int, unl_partitions@, j as int),
        decreases keys@.len() - j,
    {
        if is_valid_unl_connection(i as u32, j as u32, unl_partitions) {
            let key = keys[j].validation_public_key.clone();
            let ghost before = trusted@;
            trusted.push(key);
            assert(string_views(trusted@) =~= string_views(before).push(keys@[j as int].validation_public_key@));
        }
        j += 1;
    }
    let mut s = String::from_str("[validators]\n");
    let body = join(&trusted, "\n");
    s.append(body.as_str());
    proof { reveal_strlit("[validators]\n"); }
    s
}

/// The configuration files of every validator, in the directory
/// `<network_path>/network/validators/<name>/config`: the base configuration
/// with the validator's seed filled in, and the list of the public keys it trusts.
pub fn generate_validator_configs(
    network_path: &str,
    keys: &Vec<ValidatorKeyData>,
    hostname_prefix: &str,
    base_config: &str,
    unl_partitions: &Vec<Partition>,
) -> (configs: Vec<ValidatorConfig>)
    ensures
        configs@.len() == keys@.len(),
        forall|i: int| 0 <= i < keys@.len() ==>
            is_validator_config(#[trigger] configs@[i], i, keys@, network_path@, hostname_prefix@, base_config@, unl_partitions@),
{
    let placeholder = "{validation_seed}";
    proof {
        reveal_strlit("{validation_seed}");
        assert(placeholder@.len() > 0);
    }
    let mut configs: Vec<ValidatorConfig> = Vec::new();
    let mut i: usize = 0;
    while i < keys.len()
        invariant
            i <= keys@.len(),
            placeholder@ == seed_placeholder(),
            placeholder@.len() > 0,
            configs@.len() == i,
            forall|k: int| 0 <= k < i ==>
                is_validator_config(#[trigger] configs@[k], k, keys@, network_path@, hostname_prefix@, base_config@, unl_partitions@),
        decreases keys@.len() - i,
    {
        let name = validator_name(hostname_prefix, i as u64);
        let dir = validator_config_dir(network_path, name.as_str());
        let rippled_cfg = replace_all(base_config, placeholder, keys[i].validation_seed.as_str());
        let validators_txt = validators_file(keys, i, unl_partitions);
        let key_data = keys[i].duplicate();
        configs.push(ValidatorConfig { name, dir, key_data, rippled_cfg, validators_txt });
        i += 1;
    }
    configs
}

/// What `serde_json` finds in the JSON text `text` under `value[outer][inner]`:
/// `None` when the text is not JSON, `Some(None)` when there is no string
/// there, and `Some(Some(s))` when the string `s` is there.
pub uninterp spec fn json_nested_str(text: Seq<char>, outer: Seq<char>, inner: Seq<char>) -> Option<Option<Seq<char>>>;

/// Parses `text` with `serde_json::from_str` into a `serde_json::Value` and
/// reads the string at `value[outer][inner]`. The result is a function of the
/// three arguments alone; the JSON grammar is not restated here.
#[verifier::external_body]
fn json_nested_string(text: &str, outer: &str, inner: &str) -> (r: Option<Option<String>>)
    ensures
        match r {
            None => json_nested_str(text@, outer@, inner@) is None,
            Some(None) => json_nested_str(text@, outer@, inner@) == Some(None::<Seq<char>>),
            Some(Some(found)) => json_nested_str(text@, outer@, inner@) == Some(Some(found@)),
        },
{
    match serde_json::from_str::<serde_json::Value>(text) {
        Err(_) => None,
        Ok(value) => Some(value[outer][inner].as_str().map(String::from)),
    }
}

/// Whether a `server_info` answer reports success, given the string found at
/// its `result.status`, if any.
pub open spec fn spec_reports_success(status: Option<Seq<char>>) -> bool {
    match status {
        None => false,
        Some(s) => s == "success"@,
    }
}

/// The view of a status read from a JSON answer.
pub open spec fn status_view(status: Option<String>) -> Option<Seq<char>> {
    match status {
        None => None,
        Some(s) => Some(s@),
    }
}

/// Decides availability from the `result.status` of a `server_info` answer.
pub fn reports_success(status: Option<String>) -> (r: bool)
    ensures
        r == spec_reports_success(status_view(status)),
{
    match status {
        None => false,
        Some(s) => {
            let success = String::from_str("success");
            s == success
        },
    }
}

/// Whether the `server_info` answer `json_text` of a node reports that it is
/// available (`result.status` is `"success"`). Answers that are not JSON are
/// left out; `server_info_verdict` tells them apart.
pub fn check_server_info(json_text: &str) -> (r: bool)
    requires
        json_nested_str(json_text@, "result"@, "status"@) is Some,
    ensures
        r == spec_reports_success(json_nested_str(json_text@, "result"@, "status"@)->Some_0),
{
    match json_nested_string(json_text, "result", "status") {
        Some(status) => reports_success(status),
        None => false,
    }
}

/// Whether the `server_info` answer `json_text` reports that the node is
/// available; `None` when the answer is not JSON.
pub fn server_info_verdict(json_text: &str) -> (r: Option<bool>)
    ensures
        r == match json_nested_str(json_text@, "result"@, "status"@) {
            None => None,
            Some(status) => Some(spec_reports_success(status)),
        },
{
    match json_nested_string(json_text, "result", "status") {
        Some(_) => Some(check_server_info(json_text)),
        None => None,
    }
}

/// The public keys of a sequence of key data.
pub open spec fn public_keys(keys: Seq<ValidatorKeyData>) -> Seq<Seq<char>> {
    keys.map_values(|k: ValidatorKeyData| k.validation_public_key@)
}

/// With no UNL partition configured, each validator trusts every other
/// validator, in order, and not itself.
pub proof fn lemma_unl_without_partitions(keys: Seq<ValidatorKeyData>, i: int, m: int)
    requires
        0 <= i < keys.len(),
        0 <= m <= keys.len(),
        keys.len() <= 0x1_0000_0000,
    ensures
        spec_unl_keys(keys, i, Seq::<Partition>::empty(), m) == if m <= i {
            public_keys(keys.subrange(0, m))
        } else {
            public_keys(keys.subrange(0, i)) + public_keys(keys.subrange(i + 1, m))
        },
    decreases m,
{
    if m > 0 {
        lemma_unl_without_partitions(keys, i, m - 1);
        assert((i as u32 != (m - 1) as u32) == (i != m - 1));
        if m - 1 < i {
            assert(public_keys(keys.subrange(0, m)) =~= public_keys(keys.subrange(0, m - 1)).push(keys[m - 1].validation_public_key@));
        } else if m - 1 == i {
            assert(public_keys(keys.subrange(i + 1, m)) =~= Seq::<Seq<char>>::empty());
            assert(public_keys(keys.subrange(0, i)) + public_keys(keys.subrange(i + 1, m)) =~= public_keys(keys.subrange(0, m - 1)));
        } else {
            assert(public_keys(keys.subrange(i + 1, m)) =~= public_keys(keys.subrange(i + 1, m - 1)).push(keys[m - 1].validation_public_key@));
            assert(public_keys(keys.subrange(0, i)) + public_keys(keys.subrange(i + 1, m))
                =~= (public_keys(keys.subrange(0, i)) + public_keys(keys.subrange(i + 1, m - 1))).push(keys[m - 1].validation_public_key@));
        }
    } else {
        assert(public_keys(keys.subrange(0, m)) =~= Seq::<Seq<char>>::empty());
    }
}

} // verus!

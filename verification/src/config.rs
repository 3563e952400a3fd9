//! The configuration: its parts, the values that stand for what is left out,
//! and the rules that it has to meet.

use vstd::prelude::*;
use vstd::string::*;

verus! {

/// Everything that the collector is told.
#[derive(Debug, Clone)]
pub struct Config {
    /// The site whose meters are read.
    pub site_id: String,
    /// Where the gateway connects to.
    pub listen: ListenConfig,
    /// Where answers wait for their upload.
    pub storage: StorageConfig,
    /// Where answers are uploaded to.
    pub upload: UploadConfig,
    /// The units that are read.
    pub collectors: Vec<CollectorConfig>,
}

/// Where the gateway connects to.
#[derive(Debug, Clone)]
pub struct ListenConfig {
    pub bind: String,
    pub port: u16,
}

/// Where answers wait for their upload.
#[derive(Debug, Clone)]
pub struct StorageConfig {
    /// The path of the database.
    pub database: String,
    /// The most that the waiting answers may take up.
    pub max_bytes: u64,
}

/// Where and how answers are uploaded.
#[derive(Debug, Clone)]
pub struct UploadConfig {
    pub url: String,
    /// The name of the key that uploads are signed with.
    pub key_id: String,
    /// The key that uploads are signed with.
    pub secret: String,
    /// The most events that one upload holds.
    pub batch_size: usize,
    pub timeout_seconds: u64,
    /// The pause after an empty queue.
    pub interval_seconds: u64,
    /// The failures in a row after which uploads pause.
    pub max_retries: u32,
}

/// One unit and what is read from it.
#[derive(Debug, Clone)]
pub struct CollectorConfig {
    pub id: String,
    /// The unit's Modbus address.
    pub address: u8,
    /// The function code to read with.
    pub function: u8,
    /// The first register.
    pub start: u16,
    /// The number of registers.
    pub count: u16,
    /// The time between two reads.
    pub interval_seconds: u64,
    pub response_timeout_seconds: u64,
    /// How often a read without an answer is repeated.
    pub retries: u32,
}

/// The address to listen on: all of them.
pub fn default_bind() -> (bind: String)
    ensures
        bind@ == "0.0.0.0"@,
{
    "0.0.0.0".to_owned()
}

/// The port to listen on.
pub fn default_port() -> (port: u16)
    ensures
        port == 12345,
{
    12345
}

/// The path of the database.
pub fn default_db() -> (path: String)
    ensures
        path@ == "collector.db"@,
{
    "collector.db".to_owned()
}

/// The most that waiting answers may take up: one gibibyte.
pub fn default_queue_limit() -> (bytes: u64)
    ensures
        bytes == 1_073_741_824,
{
    1_073_741_824
}

/// The most events that one upload holds.
pub fn default_batch() -> (events: usize)
    ensures
        events == 100,
{
    100
}

/// The time that an upload may take.
pub fn default_upload_timeout() -> (seconds: u64)
    ensures
        seconds == 15,
{
    15
}

/// The pause after an empty queue.
pub fn default_upload_interval() -> (seconds: u64)
    ensures
        seconds == 5,
{
    5
}

/// The failures in a row after which uploads pause.
pub fn default_retry_max() -> (failures: u32)
    ensures
        failures == 8,
{
    8
}

/// The function code to read with: holding registers.
pub fn default_func() -> (function: u8)
    ensures
        function == 3,
{
    3
}

/// The number of registers to read.
pub fn default_count() -> (registers: u16)
    ensures
        registers == 32,
{
    32
}

/// The time between two reads.
pub fn default_poll() -> (seconds: u64)
    ensures
        seconds == 300,
{
    300
}

/// The time that an answer may take.
pub fn default_response_timeout() -> (seconds: u64)
    ensures
        seconds == 5,
{
    5
}

/// How often a read without an answer is repeated.
pub fn default_retries() -> (times: u32)
    ensures
        times == 2,
{
    2
}

impl Default for ListenConfig {
    fn default() -> (listen: Self)
        ensures
            listen.bind@ == "0.0.0.0"@,
            listen.port == 12345,
    {
        ListenConfig { bind: default_bind(), port: default_port() }
    }
}

impl Default for StorageConfig {
    fn default() -> (storage: Self)
        ensures
            storage.database@ == "collector.db"@,
            storage.max_bytes == 1_073_741_824,
    {
        StorageConfig { database: default_db(), max_bytes: default_queue_limit() }
    }
}

impl Default for UploadConfig {
    fn default() -> (upload: Self)
        ensures
            upload.url@ == Seq::<char>::empty(),
            upload.key_id@ == Seq::<char>::empty(),
            upload.secret@ == Seq::<char>::empty(),
            upload.batch_size == 100,
            upload.timeout_seconds == 15,
            upload.interval_seconds == 5,
            upload.max_retries == 8,
    {
        UploadConfig {
            url: String::new(),
            key_id: String::new(),
            secret: String::new(),
            batch_size: default_batch(),
            timeout_seconds: default_upload_timeout(),
            interval_seconds: default_upload_interval(),
            max_retries: default_retry_max(),
        }
    }
}

/// Why a configuration is refused.
#[derive(Debug, Clone)]
pub enum ConfigError {
    NoSiteId,
    NoCollectors,
    NoUpload,
    CollectorIds,
    CollectorAddresses,
    /// What the collector of this id is told is out of range.
    InvalidCollector(String),
}

/// Whether the `i`th collector's id is missing or taken by an earlier one.
pub open spec fn id_fault(collectors: Seq<CollectorConfig>, i: int) -> bool {
    ||| collectors[i].id@.len() == 0
    ||| exists|j: int| 0 <= j < i && #[trigger] collectors[j].id@ == collectors[i].id@
}

/// Whether the `i`th collector's address is zero or taken by an earlier one.
pub open spec fn address_fault(collectors: Seq<CollectorConfig>, i: int) -> bool {
    ||| collectors[i].address == 0
    ||| exists|j: int| 0 <= j < i && #[trigger] collectors[j].address == collectors[i].address
}

/// Whether what `c` is told to read is out of range.
pub open spec fn range_fault(c: CollectorConfig) -> bool {
    ||| !crate::modbus::is_read(c.function)
    ||| c.count == 0
    ||| c.count > 125
    ||| c.interval_seconds == 0
}

/// The first rule that the `i`th collector breaks.
pub open spec fn collector_fault(collectors: Seq<CollectorConfig>, i: int) -> Option<ConfigError> {
    if id_fault(collectors, i) {
        Some(ConfigError::CollectorIds)
    } else if address_fault(collectors, i) {
        Some(ConfigError::CollectorAddresses)
    } else if range_fault(collectors[i]) {
        Some(ConfigError::InvalidCollector(collectors[i].id))
    } else {
        None
    }
}

/// The first rule that the first faulty collector from `i` on breaks.
pub open spec fn first_fault(collectors: Seq<CollectorConfig>, i: int) -> Option<ConfigError>
    decreases collectors.len() - i,
{
    if i >= collectors.len() {
        None
    } else if collector_fault(collectors, i) is Some {
        collector_fault(collectors, i)
    } else {
        first_fault(collectors, i + 1)
    }
}

/// The secret that counts: the one from outside, unless it is empty.
pub open spec fn chosen_secret(configured: String, outside: Option<String>) -> String {
    match outside {
        Some(secret) => if secret@.len() == 0 {
            configured
        } else {
            secret
        },
        None => configured,
    }
}

/// The first rule that `config` breaks, with `secret` for its own.
pub open spec fn config_fault(config: Config, secret: String) -> Option<ConfigError> {
    if config.site_id@.len() == 0 {
        Some(ConfigError::NoSiteId)
    } else if config.collectors@.len() == 0 {
        Some(ConfigError::NoCollectors)
    } else if config.upload.url@.len() == 0 || config.upload.key_id@.len() == 0 || secret@.len()
        == 0 {
        Some(ConfigError::NoUpload)
    } else {
        first_fault(config.collectors@, 0)
    }
}

/// `config` as the collector works with it: with the secret that counts, and
/// with room for an event in every batch.
pub open spec fn settled(config: Config, outside: Option<String>) -> Config {
    Config {
        site_id: config.site_id,
        listen: config.listen,
        storage: config.storage,
        upload: UploadConfig {
            url: config.upload.url,
            key_id: config.upload.key_id,
            secret: chosen_secret(config.upload.secret, outside),
            batch_size: if config.upload.batch_size == 0 {
                1
            } else {
                config.upload.batch_size
            },
            timeout_seconds: config.upload.timeout_seconds,
            interval_seconds: config.upload.interval_seconds,
            max_retries: config.upload.max_retries,
        },
        collectors: config.collectors,
    }
}

fn id_taken(collectors: &Vec<CollectorConfig>, i: usize) -> (taken: bool)
    requires
        i < collectors@.len(),
    ensures
        taken == exists|j: int|
            0 <= j < i && #[trigger] collectors@[j].id@ == collectors@[i as int].id@,
{
    let mut j: usize = 0;
    while j < i
        invariant
            j <= i < collectors@.len(),
            forall|k: int|
                0 <= k < j ==> #[trigger] collectors@[k].id@ != collectors@[i as int].id@,
        decreases i - j,
    {
        if collectors[j].id == collectors[i].id {
            return true;
        }
        j += 1;
    }
    false
}

fn address_taken(collectors: &Vec<CollectorConfig>, i: usize) -> (taken: bool)
    requires
        i < collectors@.len(),
    ensures
        taken == exists|j: int|
            0 <= j < i && #[trigger] collectors@[j].address == collectors@[i as int].address,
{
    let mut j: usize = 0;
    while j < i
        invariant
            j <= i < collectors@.len(),
            forall|k: int|
                0 <= k < j ==> #[trigger] collectors@[k].address != collectors@[i as int].address,
        decreases i - j,
    {
        if collectors[j].address == collectors[i].address {
            return true;
        }
        j += 1;
    }
    false
}

/// The first rule that a collector breaks, in their order.
fn check_collectors(collectors: &Vec<CollectorConfig>) -> (fault: Option<ConfigError>)
    ensures
        fault == first_fault(collectors@, 0),
{
    let mut i: usize = 0;
    while i < collectors.len()
        invariant
            i <= collectors@.len(),
            first_fault(collectors@, 0) == first_fault(collectors@, i as int),
        decreases collectors@.len() - i,
    {
        let c = &collectors[i];
        if c.id.as_str().is_empty() || id_taken(collectors, i) {
            return Some(ConfigError::CollectorIds);
        }
        if c.address == 0 || address_taken(collectors, i) {
            return Some(ConfigError::CollectorAddresses);
        }
        if !(c.function == 3 || c.function == 4) || c.count == 0 || c.count > 125
            || c.interval_seconds == 0 {
            return Some(ConfigError::InvalidCollector(c.id.clone()));
        }
        i += 1;
    }
    None
}

impl Config {
    /// Makes a configuration out of what was read: a secret from outside that is
    /// not empty takes the place of the configured one, then the rules are
    /// checked in their order.
    pub fn load(parsed: Config, outside_secret: Option<String>) -> (res: Result<
        Config,
        ConfigError,
    >)
        ensures
            match config_fault(
                parsed,
                chosen_secret(parsed.upload.secret, outside_secret),
            ) {
                Some(fault) => res == Err::<Config, ConfigError>(fault),
                None => res == Ok::<Config, ConfigError>(settled(parsed, outside_secret)),
            },
    {
        let mut c = parsed;
        if let Some(secret) = outside_secret {
            if !secret.as_str().is_empty() {
                c.upload.secret = secret;
            }
        }
        if c.site_id.as_str().is_empty() {
            return Err(ConfigError::NoSiteId);
        }
        if c.collectors.is_empty() {
            return Err(ConfigError::NoCollectors);
        }
        if c.upload.url.as_str().is_empty() || c.upload.key_id.as_str().is_empty()
            || c.upload.secret.as_str().is_empty() {
            return Err(ConfigError::NoUpload);
        }
        if let Some(fault) = check_collectors(&c.collectors) {
            return Err(fault);
        }
        if c.upload.batch_size < 1 {
            c.upload.batch_size = 1;
        }
        Ok(c)
    }

    /// The rules that every loaded configuration meets.
    pub open spec fn valid(self) -> bool {
        &&& self.site_id@.len() > 0
        &&& self.upload.url@.len() > 0
        &&& self.upload.key_id@.len() > 0
        &&& self.upload.secret@.len() > 0
        &&& self.upload.batch_size >= 1
        &&& self.collectors@.len() > 0
        &&& forall|i: int| 0 <= i < self.collectors@.len() ==> (#[trigger] self.collectors@[i]).valid()
        &&& forall|i: int, j: int|
            0 <= i < j < self.collectors@.len() ==> {
                &&& (#[trigger] self.collectors@[i]).id@ != (#[trigger] self.collectors@[j]).id@
                &&& self.collectors@[i].address != self.collectors@[j].address
            }
    }
}

impl CollectorConfig {
    /// The rules that a collector meets by itself.
    pub open spec fn valid(self) -> bool {
        &&& self.id@.len() > 0
        &&& self.address != 0
        &&& crate::modbus::is_read(self.function)
        &&& 1 <= self.count <= 125
        &&& self.interval_seconds >= 1
    }
}

impl ConfigError {
    /// The error in words.
    pub open spec fn text(self) -> Seq<char> {
        match self {
            ConfigError::NoSiteId => "site_id is required"@,
            ConfigError::NoCollectors => "at least one collector is required"@,
            ConfigError::NoUpload => "upload.url, upload.key_id and upload.secret are required"@,
            ConfigError::CollectorIds => "collector ids must be non-empty and unique"@,
            ConfigError::CollectorAddresses => "collector addresses must be non-zero and unique"@,
            ConfigError::InvalidCollector(id) => "invalid collector "@ + id@,
        }
    }

    /// The error in words.
    pub fn message(&self) -> (message: String)
        ensures
            message@ == self.text(),
    {
        match self {
            ConfigError::NoSiteId => "site_id is required".to_owned(),
            ConfigError::NoCollectors => "at least one collector is required".to_owned(),
            ConfigError::NoUpload => "upload.url, upload.key_id and upload.secret are required".to_owned(),
            ConfigError::CollectorIds => "collector ids must be non-empty and unique".to_owned(),
            ConfigError::CollectorAddresses => "collector addresses must be non-zero and unique".to_owned(),
            ConfigError::InvalidCollector(id) => {
                let mut message = "invalid collector ".to_owned();
                message.append(id.as_str());
                message
            },
        }
    }
}

/// A run of collectors without a fault: none of them breaks a rule.
proof fn lemma_no_fault(collectors: Seq<CollectorConfig>, i: int)
    requires
        0 <= i <= collectors.len(),
    ensures
        first_fault(collectors, i) is None <==> forall|k: int|
            i <= k < collectors.len() ==> #[trigger] collector_fault(collectors, k) is None,
    decreases collectors.len() - i,
{
    if i < collectors.len() {
        lemma_no_fault(collectors, i + 1);
        if collector_fault(collectors, i) is None && first_fault(collectors, i + 1) is None {
            assert forall|k: int| i <= k < collectors.len() implies #[trigger] collector_fault(
                collectors,
                k,
            ) is None by {
                if k > i {
                    assert(i + 1 <= k);
                }
            }
        }
    }
}

/// Every configuration that is loaded meets the rules.
pub proof fn law_loaded_is_valid(parsed: Config, outside: Option<String>)
    requires
        config_fault(parsed, chosen_secret(parsed.upload.secret, outside)) is None,
    ensures
        settled(parsed, outside).valid(),
{
    let cs = parsed.collectors@;
    lemma_no_fault(cs, 0);
    assert forall|i: int| 0 <= i < cs.len() implies (#[trigger] cs[i]).valid() by {
        assert(collector_fault(cs, i) is None);
    }
    assert forall|i: int, j: int| 0 <= i < j < cs.len() implies {
        &&& (#[trigger] cs[i]).id@ != (#[trigger] cs[j]).id@
        &&& cs[i].address != cs[j].address
    } by {
        assert(collector_fault(cs, j) is None);
    }
}

/// A configuration that meets the rules is loaded as it is, so loading twice is
/// loading once.
pub proof fn law_valid_is_loaded_unchanged(config: Config)
    requires
        config.valid(),
    ensures
        config_fault(config, chosen_secret(config.upload.secret, None)) is None,
        settled(config, None) == config,
{
    let cs = config.collectors@;
    assert forall|k: int| 0 <= k < cs.len() implies #[trigger] collector_fault(cs, k) is None by {
        assert(cs[k].valid());
        assert(!id_fault(cs, k));
        assert(!address_fault(cs, k));
    }
    lemma_no_fault(cs, 0);
}

/// Unit addresses are single bytes, not zero and unique, so no loaded
/// configuration has more than 255 collectors.
pub proof fn law_collectors_are_few(config: Config)
    requires
        config.valid(),
    ensures
        config.collectors@.len() <= 255,
{
    let cs = config.collectors@;
    let addresses = cs.map_values(|c: CollectorConfig| c.address as int);
    assert(addresses.no_duplicates());
    addresses.unique_seq_to_set();
    vstd::set_lib::lemma_int_range(1, 256);
    assert forall|a: int| addresses.to_set().contains(a) implies vstd::set_lib::set_int_range(
        1,
        256,
    ).contains(a) by {
        let i = choose|i: int| 0 <= i < addresses.len() && addresses[i] == a;
        assert(cs[i].valid());
    }
    vstd::set_lib::lemma_len_subset(addresses.to_set(), vstd::set_lib::set_int_range(1, 256));
}

/// A configuration is loaded exactly where it names a site, a place to upload to
/// with a key and a secret, and at least one collector; where every collector has
/// an id and an address of its own, neither empty nor zero; and where every
/// collector reads 1 to 125 registers with function 3 or 4, and not without a
/// pause.
pub proof fn law_loaded_means_the_rules_are_met(config: Config, secret: String)
    ensures
        config_fault(config, secret) is None <==> {
            let cs = config.collectors@;
            &&& config.site_id@.len() > 0
            &&& cs.len() > 0
            &&& config.upload.url@.len() > 0
            &&& config.upload.key_id@.len() > 0
            &&& secret@.len() > 0
            &&& forall|i: int|
                0 <= i < cs.len() ==> {
                    &&& (#[trigger] cs[i]).id@.len() > 0
                    &&& cs[i].address != 0
                    &&& cs[i].function == 3 || cs[i].function == 4
                    &&& 1 <= cs[i].count <= 125
                    &&& cs[i].interval_seconds >= 1
                }
            &&& forall|i: int, j: int|
                0 <= i < j < cs.len() ==> {
                    &&& (#[trigger] cs[i]).id@ != (#[trigger] cs[j]).id@
                    &&& cs[i].address != cs[j].address
                }
        },
{
    let cs = config.collectors@;
    lemma_no_fault(cs, 0);
    if config_fault(config, secret) is None {
        assert forall|i: int| 0 <= i < cs.len() implies {
            &&& (#[trigger] cs[i]).id@.len() > 0
            &&& cs[i].address != 0
            &&& cs[i].function == 3 || cs[i].function == 4
            &&& 1 <= cs[i].count <= 125
            &&& cs[i].interval_seconds >= 1
        } by {
            assert(collector_fault(cs, i) is None);
        }
        assert forall|i: int, j: int| 0 <= i < j < cs.len() implies {
            &&& (#[trigger] cs[i]).id@ != (#[trigger] cs[j]).id@
            &&& cs[i].address != cs[j].address
        } by {
            assert(collector_fault(cs, j) is None);
        }
    }
    if {
        &&& forall|i: int|
            0 <= i < cs.len() ==> {
                &&& (#[trigger] cs[i]).id@.len() > 0
                &&& cs[i].address != 0
                &&& cs[i].function == 3 || cs[i].function == 4
                &&& 1 <= cs[i].count <= 125
                &&& cs[i].interval_seconds >= 1
            }
        &&& forall|i: int, j: int|
            0 <= i < j < cs.len() ==> {
                &&& (#[trigger] cs[i]).id@ != (#[trigger] cs[j]).id@
                &&& cs[i].address != cs[j].address
            }
    } {
        assert forall|k: int| 0 <= k < cs.len() implies #[trigger] collector_fault(
            cs,
            k,
        ) is None by {
            assert(cs[k].id@.len() > 0);
            assert(!id_fault(cs, k));
            assert(!address_fault(cs, k));
        }
    }
}

/// What is missing is told in order: first the site, then the collectors, then
/// the upload, and only then what the collectors do wrong.
pub proof fn law_missing_parts_are_told_in_order(config: Config, secret: String)
    ensures
        config.site_id@.len() == 0 <==> config_fault(config, secret) == Some(ConfigError::NoSiteId),
        config.site_id@.len() > 0 && config.collectors@.len() == 0 <==> config_fault(
            config,
            secret,
        ) == Some(ConfigError::NoCollectors),
        config.site_id@.len() > 0 && config.collectors@.len() > 0 && (config.upload.url@.len() == 0
            || config.upload.key_id@.len() == 0 || secret@.len() == 0) <==> config_fault(
            config,
            secret,
        ) == Some(ConfigError::NoUpload),
        config.site_id@.len() > 0 && config.collectors@.len() > 0 && config.upload.url@.len() > 0
            && config.upload.key_id@.len() > 0 && secret@.len() > 0 ==> config_fault(config, secret)
            == first_fault(config.collectors@, 0),
{
    lemma_fault_kinds(config.collectors@, 0);
}

proof fn lemma_fault_kinds(cs: Seq<CollectorConfig>, i: int)
    requires
        0 <= i <= cs.len(),
    ensures
        first_fault(cs, i) matches Some(fault) ==> fault is CollectorIds
            || fault is CollectorAddresses || fault is InvalidCollector,
    decreases cs.len() - i,
{
    if i < cs.len() {
        lemma_fault_kinds(cs, i + 1);
    }
}

/// Faults of the first `n` collectors do not depend on those behind them.
proof fn lemma_fault_of_prefix(cs: Seq<CollectorConfig>, n: int, i: int)
    requires
        0 <= i <= n <= cs.len(),
    ensures
        first_fault(cs.take(n), i) is None ==> first_fault(cs, i) == first_fault(cs, n),
    decreases n - i,
{
    if i < n {
        let head = cs.take(n);
        lemma_fault_of_prefix(cs, n, i + 1);
        assert(head[i] == cs[i]);
        assert(id_fault(head, i) == id_fault(cs, i)) by {
            if exists|j: int| 0 <= j < i && #[trigger] cs[j].id@ == cs[i].id@ {
                let j = choose|j: int| 0 <= j < i && #[trigger] cs[j].id@ == cs[i].id@;
                assert(head[j] == cs[j]);
            }
        }
        assert(address_fault(head, i) == address_fault(cs, i)) by {
            if exists|j: int| 0 <= j < i && #[trigger] cs[j].address == cs[i].address {
                let j = choose|j: int| 0 <= j < i && #[trigger] cs[j].address == cs[i].address;
                assert(head[j] == cs[j]);
            }
        }
    }
}

/// The first collector that the earlier ones do not get along with is the one
/// that is told of: by its id where that is empty or taken, else by its address
/// where that is zero or taken, else by its range. Where nothing is wrong with it
/// the collectors up to it are accepted.
pub proof fn law_first_faulty_collector_is_told(cs: Seq<CollectorConfig>, i: int)
    requires
        0 <= i < cs.len(),
        first_fault(cs.take(i), 0) is None,
    ensures
        first_fault(cs.take(0), 0) is None,
        ({
            let c = cs[i];
            let id_wrong = c.id@.len() == 0 || exists|j: int|
                0 <= j < i && (#[trigger] cs[j]).id@ == c.id@;
            let address_wrong = c.address == 0 || exists|j: int|
                0 <= j < i && (#[trigger] cs[j]).address == c.address;
            let range_wrong = !(c.function == 3 || c.function == 4) || c.count < 1 || c.count > 125
                || c.interval_seconds < 1;
            &&& id_wrong ==> first_fault(cs, 0) == Some(ConfigError::CollectorIds)
            &&& !id_wrong && address_wrong ==> first_fault(cs, 0) == Some(
                ConfigError::CollectorAddresses,
            )
            &&& !id_wrong && !address_wrong && range_wrong ==> first_fault(cs, 0) == Some(
                ConfigError::InvalidCollector(c.id),
            )
            &&& !id_wrong && !address_wrong && !range_wrong ==> first_fault(
                cs.take(i + 1),
                0,
            ) is None
        }),
{
    lemma_fault_of_prefix(cs, i, 0);
    let more = cs.take(i + 1);
    assert(more.take(i) =~= cs.take(i));
    lemma_fault_of_prefix(more, i, 0);
    assert(more[i] == cs[i]);
    assert(forall|j: int| 0 <= j < i ==> #[trigger] more[j] == cs[j]);
    let c = cs[i];
    let id_wrong = c.id@.len() == 0 || exists|j: int| 0 <= j < i && (#[trigger] cs[j]).id@ == c.id@;
    let address_wrong = c.address == 0 || exists|j: int|
        0 <= j < i && (#[trigger] cs[j]).address == c.address;
    assert(id_fault(cs, i) == id_wrong);
    assert(address_fault(cs, i) == address_wrong);
    if !id_wrong {
        assert(!id_fault(more, i));
    }
    if !address_wrong {
        assert(!address_fault(more, i));
    }
    assert(first_fault(more, i + 1) is None);
}

/// A secret from outside counts unless it is empty.
pub proof fn law_outside_secret_wins(configured: String, secret: String)
    ensures
        secret@.len() > 0 ==> chosen_secret(configured, Some(secret)) == secret,
        secret@.len() == 0 ==> chosen_secret(configured, Some(secret)) == configured,
        chosen_secret(configured, None) == configured,
{
}

/// Loading touches nothing but the secret and a batch size of zero, which
/// becomes one.
pub proof fn law_loading_touches_little(config: Config, outside: Option<String>)
    ensures
        settled(config, outside).site_id == config.site_id,
        settled(config, outside).listen == config.listen,
        settled(config, outside).storage == config.storage,
        settled(config, outside).collectors == config.collectors,
        settled(config, outside).upload.url == config.upload.url,
        settled(config, outside).upload.key_id == config.upload.key_id,
        settled(config, outside).upload.timeout_seconds == config.upload.timeout_seconds,
        settled(config, outside).upload.interval_seconds == config.upload.interval_seconds,
        settled(config, outside).upload.max_retries == config.upload.max_retries,
        settled(config, outside).upload.batch_size >= 1,
        config.upload.batch_size >= 1 ==> settled(config, outside).upload.batch_size
            == config.upload.batch_size,
        config.upload.batch_size == 0 ==> settled(config, outside).upload.batch_size == 1,
        outside is None ==> settled(config, outside).upload.secret == config.upload.secret,
        outside matches Some(secret) ==> settled(config, outside).upload.secret == if secret@.len()
            > 0 {
            secret
        } else {
            config.upload.secret
        },
{
}

/// An out of range collector is named at the end of the message, whatever its id.
pub proof fn law_message_names_the_collector(id: String)
    ensures
        ConfigError::InvalidCollector(id).text().len() == 18 + id@.len(),
        ConfigError::InvalidCollector(id).text().take(18) == "invalid collector "@,
        ConfigError::InvalidCollector(id).text().skip(18) == id@,
{
    reveal_strlit("invalid collector ");
    let text = ConfigError::InvalidCollector(id).text();
    assert(text.take(18) =~= "invalid collector "@);
    assert(text.skip(18) =~= id@);
}

} // verus!

//! Error types, one enum per layer.

use vstd::prelude::*;

use crate::entities::id::{address_text, EntityAddress};
use crate::entities::EntityId;
use crate::text::{occurs, occurs_at};

verus! {

/// Failure to parse a `device_id` / `entity_id` / `device_id.entity_id` string.
#[derive(Debug, Clone, PartialEq, Eq)]
pub enum IdParseError {
    InvalidId(String),
    InvalidAddress(String),
}

/// What an [`IdParseError`] says.
pub enum IdFault {
    InvalidId(Seq<char>),
    InvalidAddress(Seq<char>),
}

impl View for IdParseError {
    type V = IdFault;

    open spec fn view(&self) -> IdFault {
        match self {
            IdParseError::InvalidId(s) => IdFault::InvalidId(s@),
            IdParseError::InvalidAddress(s) => IdFault::InvalidAddress(s@),
        }
    }
}

/// The human-readable form of a fault.
pub open spec fn id_fault_message(fault: IdFault) -> Seq<char> {
    match fault {
        IdFault::InvalidId(s) => "invalid id '"@ + s + "': ids must match [a-z][a-z0-9_]*"@,
        IdFault::InvalidAddress(s) => "invalid entity address '"@ + s
            + "': expected 'device_id.entity_id'"@,
    }
}

impl IdParseError {
    /// The human-readable message.
    pub fn message(&self) -> (text: String)
        ensures
            text@ == id_fault_message(self@),
    {
        match self {
            IdParseError::InvalidId(s) => {
                let mut text: String = "invalid id '".to_owned();
                text.append(s.as_str());
                text.append("': ids must match [a-z][a-z0-9_]*");
                text
            },
            IdParseError::InvalidAddress(s) => {
                let mut text: String = "invalid entity address '".to_owned();
                text.append(s.as_str());
                text.append("': expected 'device_id.entity_id'");
                text
            },
        }
    }
}

/// Errors from parsing and validating the JSON configuration.
#[derive(Debug, PartialEq)]
pub enum ConfigError {
    /// The document is not JSON of the expected shape.
    Json(String),
    Id(IdParseError),
    DuplicateDevice(String),
    DuplicateEntity(EntityId),
    UnknownDriverKind { entity: EntityId, kind: String },
    InvalidDriverConfig { entity: EntityId, message: String },
    DomainMismatch { entity: EntityId, declared: &'static str, kind: String },
    UnknownBindingSource(EntityId),
    UnknownBindingTarget(EntityId),
    BindingSourceNotSensor(EntityId),
    BindingTargetNotActuator(EntityId),
}

/// What a [`ConfigError`] says.
pub enum ConfigFault {
    Json(Seq<char>),
    Id(IdFault),
    DuplicateDevice(Seq<char>),
    DuplicateEntity(EntityAddress),
    UnknownDriverKind { entity: EntityAddress, kind: Seq<char> },
    InvalidDriverConfig { entity: EntityAddress, message: Seq<char> },
    DomainMismatch { entity: EntityAddress, declared: Seq<char>, kind: Seq<char> },
    UnknownBindingSource(EntityAddress),
    UnknownBindingTarget(EntityAddress),
    BindingSourceNotSensor(EntityAddress),
    BindingTargetNotActuator(EntityAddress),
}

impl View for ConfigError {
    type V = ConfigFault;

    open spec fn view(&self) -> ConfigFault {
        match self {
            ConfigError::Json(s) => ConfigFault::Json(s@),
            ConfigError::Id(e) => ConfigFault::Id(e@),
            ConfigError::DuplicateDevice(s) => ConfigFault::DuplicateDevice(s@),
            ConfigError::DuplicateEntity(id) => ConfigFault::DuplicateEntity(id@),
            ConfigError::UnknownDriverKind { entity, kind } => ConfigFault::UnknownDriverKind {
                entity: entity@,
                kind: kind@,
            },
            ConfigError::InvalidDriverConfig { entity, message } => ConfigFault::InvalidDriverConfig {
                entity: entity@,
                message: message@,
            },
            ConfigError::DomainMismatch { entity, declared, kind } => ConfigFault::DomainMismatch {
                entity: entity@,
                declared: declared@,
                kind: kind@,
            },
            ConfigError::UnknownBindingSource(id) => ConfigFault::UnknownBindingSource(id@),
            ConfigError::UnknownBindingTarget(id) => ConfigFault::UnknownBindingTarget(id@),
            ConfigError::BindingSourceNotSensor(id) => ConfigFault::BindingSourceNotSensor(id@),
            ConfigError::BindingTargetNotActuator(id) => ConfigFault::BindingTargetNotActuator(id@),
        }
    }
}

/// The human-readable form of a fault.
pub open spec fn config_fault_message(fault: ConfigFault) -> Seq<char> {
    match fault {
        ConfigFault::Json(s) => "config is not valid JSON: "@ + s,
        ConfigFault::Id(e) => id_fault_message(e),
        ConfigFault::DuplicateDevice(s) => "duplicate device id '"@ + s + "'"@,
        ConfigFault::DuplicateEntity(id) => "duplicate entity id '"@ + address_text(id) + "'"@,
        ConfigFault::UnknownDriverKind { entity, kind } => "entity '"@ + address_text(entity)
            + "' uses unknown driver kind '"@ + kind + "'"@,
        ConfigFault::InvalidDriverConfig { entity, message } => "invalid driver config for entity '"@
            + address_text(entity) + "': "@ + message,
        ConfigFault::DomainMismatch { entity, declared, kind } => "entity '"@ + address_text(entity)
            + "' declares domain '"@ + declared + "' but driver kind '"@ + kind
            + "' cannot provide it"@,
        ConfigFault::UnknownBindingSource(id) => "binding source '"@ + address_text(id)
            + "' does not refer to a configured entity"@,
        ConfigFault::UnknownBindingTarget(id) => "binding target '"@ + address_text(id)
            + "' does not refer to a configured entity"@,
        ConfigFault::BindingSourceNotSensor(id) => "binding source '"@ + address_text(id)
            + "' is not a sensor entity"@,
        ConfigFault::BindingTargetNotActuator(id) => "binding target '"@ + address_text(id)
            + "' is not an actuator entity"@,
    }
}

fn about(before: &str, id: &EntityId, after: &str) -> (text: String)
    ensures
        text@ == before@ + address_text(id@) + after@,
{
    let mut text: String = before.to_owned();
    text.append(id.to_string().as_str());
    text.append(after);
    text
}

impl ConfigError {
    /// The human-readable message.
    pub fn message(&self) -> (text: String)
        ensures
            text@ == config_fault_message(self@),
    {
        match self {
            ConfigError::Json(s) => {
                let mut text: String = "config is not valid JSON: ".to_owned();
                text.append(s.as_str());
                text
            },
            ConfigError::Id(e) => e.message(),
            ConfigError::DuplicateDevice(s) => {
                let mut text: String = "duplicate device id '".to_owned();
                text.append(s.as_str());
                text.append("'");
                text
            },
            ConfigError::DuplicateEntity(id) => about("duplicate entity id '", id, "'"),
            ConfigError::UnknownDriverKind { entity, kind } => {
                let mut text: String = about("entity '", entity, "' uses unknown driver kind '");
                text.append(kind.as_str());
                text.append("'");
                text
            },
            ConfigError::InvalidDriverConfig { entity, message } => {
                let mut text: String = about("invalid driver config for entity '", entity, "': ");
                text.append(message.as_str());
                text
            },
            ConfigError::DomainMismatch { entity, declared, kind } => {
                let mut text: String = about("entity '", entity, "' declares domain '");
                text.append(*declared);
                text.append("' but driver kind '");
                text.append(kind.as_str());
                text.append("' cannot provide it");
                text
            },
            ConfigError::UnknownBindingSource(id) => about(
                "binding source '",
                id,
                "' does not refer to a configured entity",
            ),
            ConfigError::UnknownBindingTarget(id) => about(
                "binding target '",
                id,
                "' does not refer to a configured entity",
            ),
            ConfigError::BindingSourceNotSensor(id) => about(
                "binding source '",
                id,
                "' is not a sensor entity",
            ),
            ConfigError::BindingTargetNotActuator(id) => about(
                "binding target '",
                id,
                "' is not an actuator entity",
            ),
        }
    }
}

impl From<IdParseError> for ConfigError {
    fn from(e: IdParseError) -> (made: Self) {
        ConfigError::Id(e)
    }
}

impl vstd::std_specs::convert::FromSpecImpl<IdParseError> for ConfigError {
    open spec fn obeys_from_spec() -> bool {
        true
    }

    open spec fn from_spec(e: IdParseError) -> Self {
        ConfigError::Id(e)
    }
}

/// Errors from instantiating or operating a driver.
#[derive(Debug, PartialEq)]
pub enum DriverError {
    UnknownKind(String),
    InvalidConfig { instance: String, message: String },
    ResourceConflict(String),
    UnknownEntity { instance: String, entity: EntityId },
    UnsupportedCommand { instance: String, entity: EntityId },
    Display(String),
    /// An error of the ESP-IDF: its code, and what the ESP-IDF says about it.
    Esp { code: i32, description: String },
}

/// What a [`DriverError`] says.
pub enum DriverFault {
    UnknownKind(Seq<char>),
    InvalidConfig { instance: Seq<char>, message: Seq<char> },
    ResourceConflict(Seq<char>),
    UnknownEntity { instance: Seq<char>, entity: EntityAddress },
    UnsupportedCommand { instance: Seq<char>, entity: EntityAddress },
    Display(Seq<char>),
    Esp { code: i32, description: Seq<char> },
}

impl View for DriverError {
    type V = DriverFault;

    open spec fn view(&self) -> DriverFault {
        match self {
            DriverError::UnknownKind(s) => DriverFault::UnknownKind(s@),
            DriverError::InvalidConfig { instance, message } => DriverFault::InvalidConfig {
                instance: instance@,
                message: message@,
            },
            DriverError::ResourceConflict(s) => DriverFault::ResourceConflict(s@),
            DriverError::UnknownEntity { instance, entity } => DriverFault::UnknownEntity {
                instance: instance@,
                entity: entity@,
            },
            DriverError::UnsupportedCommand { instance, entity } => DriverFault::UnsupportedCommand {
                instance: instance@,
                entity: entity@,
            },
            DriverError::Display(s) => DriverFault::Display(s@),
            DriverError::Esp { code, description } => DriverFault::Esp {
                code: *code,
                description: description@,
            },
        }
    }
}

/// The human-readable form of a fault.
pub open spec fn driver_fault_message(fault: DriverFault) -> Seq<char> {
    match fault {
        DriverFault::UnknownKind(s) => "unknown driver kind '"@ + s + "'"@,
        DriverFault::InvalidConfig { instance, message } =>
            "invalid config for driver instance '"@ + instance + "': "@ + message,
        DriverFault::ResourceConflict(s) => "hardware resource conflict: "@ + s,
        DriverFault::UnknownEntity { instance, entity } => "driver instance '"@ + instance
            + "' does not expose entity '"@ + address_text(entity) + "'"@,
        DriverFault::UnsupportedCommand { instance, entity } => "driver instance '"@ + instance
            + "' cannot handle command for '"@ + address_text(entity) + "'"@,
        DriverFault::Display(s) => "display error: "@ + s,
        DriverFault::Esp { description, .. } => "esp-idf error: "@ + description,
    }
}

impl DriverError {
    /// The human-readable message.
    pub fn message(&self) -> (text: String)
        ensures
            text@ == driver_fault_message(self@),
    {
        match self {
            DriverError::UnknownKind(s) => {
                let mut text: String = "unknown driver kind '".to_owned();
                text.append(s.as_str());
                text.append("'");
                text
            },
            DriverError::InvalidConfig { instance, message } => {
                let mut text: String = "invalid config for driver instance '".to_owned();
                text.append(instance.as_str());
                text.append("': ");
                text.append(message.as_str());
                text
            },
            DriverError::ResourceConflict(s) => {
                let mut text: String = "hardware resource conflict: ".to_owned();
                text.append(s.as_str());
                text
            },
            DriverError::UnknownEntity { instance, entity } => {
                let mut text: String = "driver instance '".to_owned();
                text.append(instance.as_str());
                text.append("' does not expose entity '");
                text.append(entity.to_string().as_str());
                text.append("'");
                text
            },
            DriverError::UnsupportedCommand { instance, entity } => {
                let mut text: String = "driver instance '".to_owned();
                text.append(instance.as_str());
                text.append("' cannot handle command for '");
                text.append(entity.to_string().as_str());
                text.append("'");
                text
            },
            DriverError::Display(s) => {
                let mut text: String = "display error: ".to_owned();
                text.append(s.as_str());
                text
            },
            DriverError::Esp { description, .. } => {
                let mut text: String = "esp-idf error: ".to_owned();
                text.append(description.as_str());
                text
            },
        }
    }
}

/// Errors from constructing the binding engine.
#[derive(Debug, PartialEq)]
pub enum BindingError {
    UnknownSource(EntityId),
    UnknownTarget(EntityId),
    UnsupportedTarget { target: EntityId, entity_type: &'static str },
    DuplicateTarget(EntityId),
}

/// What a [`BindingError`] says.
pub enum BindingFault {
    UnknownSource(EntityAddress),
    UnknownTarget(EntityAddress),
    UnsupportedTarget { target: EntityAddress, entity_type: Seq<char> },
    DuplicateTarget(EntityAddress),
}

impl View for BindingError {
    type V = BindingFault;

    open spec fn view(&self) -> BindingFault {
        match self {
            BindingError::UnknownSource(id) => BindingFault::UnknownSource(id@),
            BindingError::UnknownTarget(id) => BindingFault::UnknownTarget(id@),
            BindingError::UnsupportedTarget { target, entity_type } => BindingFault::UnsupportedTarget {
                target: target@,
                entity_type: entity_type@,
            },
            BindingError::DuplicateTarget(id) => BindingFault::DuplicateTarget(id@),
        }
    }
}

/// The human-readable form of a fault.
pub open spec fn binding_fault_message(fault: BindingFault) -> Seq<char> {
    match fault {
        BindingFault::UnknownSource(id) => "binding source '"@ + address_text(id)
            + "' is not a known sensor entity"@,
        BindingFault::UnknownTarget(id) => "binding target '"@ + address_text(id)
            + "' is not a known actuator entity"@,
        BindingFault::UnsupportedTarget { target, entity_type } => "binding target '"@
            + address_text(target) + "' has entity type '"@ + entity_type
            + "', which cannot receive continuous source updates"@,
        BindingFault::DuplicateTarget(id) => "binding target '"@ + address_text(id)
            + "' is bound more than once; a target can have at most one binding"@,
    }
}

impl BindingError {
    /// The human-readable message.
    pub fn message(&self) -> (text: String)
        ensures
            text@ == binding_fault_message(self@),
    {
        match self {
            BindingError::UnknownSource(id) => about(
                "binding source '",
                id,
                "' is not a known sensor entity",
            ),
            BindingError::UnknownTarget(id) => about(
                "binding target '",
                id,
                "' is not a known actuator entity",
            ),
            BindingError::UnsupportedTarget { target, entity_type } => {
                let mut text: String = about("binding target '", target, "' has entity type '");
                text.append(*entity_type);
                text.append("', which cannot receive continuous source updates");
                text
            },
            BindingError::DuplicateTarget(id) => about(
                "binding target '",
                id,
                "' is bound more than once; a target can have at most one binding",
            ),
        }
    }
}

/// Top-level application error, for the program to report.
#[derive(Debug, PartialEq)]
pub enum AppError {
    Config(ConfigError),
    Driver(DriverError),
    Binding(BindingError),
}

impl AppError {
    /// The human-readable message.
    pub fn message(&self) -> (text: String)
        ensures
            text@ == match *self {
                AppError::Config(e) => "configuration error: "@ + config_fault_message(e@),
                AppError::Driver(e) => "driver error: "@ + driver_fault_message(e@),
                AppError::Binding(e) => "binding error: "@ + binding_fault_message(e@),
            },
    {
        match self {
            AppError::Config(e) => {
                let mut text: String = "configuration error: ".to_owned();
                text.append(e.message().as_str());
                text
            },
            AppError::Driver(e) => {
                let mut text: String = "driver error: ".to_owned();
                text.append(e.message().as_str());
                text
            },
            AppError::Binding(e) => {
                let mut text: String = "binding error: ".to_owned();
                text.append(e.message().as_str());
                text
            },
        }
    }
}

impl From<ConfigError> for AppError {
    fn from(e: ConfigError) -> (made: Self) {
        AppError::Config(e)
    }
}

impl vstd::std_specs::convert::FromSpecImpl<ConfigError> for AppError {
    open spec fn obeys_from_spec() -> bool {
        true
    }

    open spec fn from_spec(e: ConfigError) -> Self {
        AppError::Config(e)
    }
}

impl From<DriverError> for AppError {
    fn from(e: DriverError) -> (made: Self) {
        AppError::Driver(e)
    }
}

impl vstd::std_specs::convert::FromSpecImpl<DriverError> for AppError {
    open spec fn obeys_from_spec() -> bool {
        true
    }

    open spec fn from_spec(e: DriverError) -> Self {
        AppError::Driver(e)
    }
}

impl From<BindingError> for AppError {
    fn from(e: BindingError) -> (made: Self) {
        AppError::Binding(e)
    }
}

impl vstd::std_specs::convert::FromSpecImpl<BindingError> for AppError {
    open spec fn obeys_from_spec() -> bool {
        true
    }

    open spec fn from_spec(e: BindingError) -> Self {
        AppError::Binding(e)
    }
}

/// A text between two others occurs in the whole.
proof fn lemma_middle_occurs(before: Seq<char>, middle: Seq<char>, after: Seq<char>)
    ensures
        occurs(before + middle + after, middle),
{
    let whole = before + middle + after;
    let i = before.len() as int;
    assert(whole.subrange(i, i + middle.len()) =~= middle);
    assert(occurs_at(whole, middle, i));
}

/// Every message about a configuration's entity quotes the entity's whole address, and
/// what else there is to say: the driver's kind, or what the driver found wrong.
pub proof fn law_config_messages_quote_their_subject(
    id: EntityAddress,
    text: Seq<char>,
    declared: Seq<char>,
)
    ensures
        occurs(config_fault_message(ConfigFault::Json(text)), text),
        occurs(config_fault_message(ConfigFault::Id(IdFault::InvalidId(text))), text),
        occurs(config_fault_message(ConfigFault::Id(IdFault::InvalidAddress(text))), text),
        occurs(config_fault_message(ConfigFault::DuplicateDevice(text)), text),
        occurs(config_fault_message(ConfigFault::DuplicateEntity(id)), address_text(id)),
        ({
            let message = config_fault_message(
                ConfigFault::UnknownDriverKind { entity: id, kind: text },
            );
            occurs(message, address_text(id)) && occurs(message, text)
        }),
        ({
            let message = config_fault_message(
                ConfigFault::InvalidDriverConfig { entity: id, message: text },
            );
            occurs(message, address_text(id)) && occurs(message, text)
        }),
        ({
            let message = config_fault_message(
                ConfigFault::DomainMismatch { entity: id, declared, kind: text },
            );
            occurs(message, address_text(id)) && occurs(message, declared) && occurs(message, text)
        }),
        occurs(config_fault_message(ConfigFault::UnknownBindingSource(id)), address_text(id)),
        occurs(config_fault_message(ConfigFault::UnknownBindingTarget(id)), address_text(id)),
        occurs(config_fault_message(ConfigFault::BindingSourceNotSensor(id)), address_text(id)),
        occurs(config_fault_message(ConfigFault::BindingTargetNotActuator(id)), address_text(id)),
{
    let a = address_text(id);
    let none = Seq::<char>::empty();
    lemma_middle_occurs("config is not valid JSON: "@, text, none);
    assert("config is not valid JSON: "@ + text + none =~= "config is not valid JSON: "@ + text);
    lemma_middle_occurs("invalid id '"@, text, "': ids must match [a-z][a-z0-9_]*"@);
    lemma_middle_occurs("invalid entity address '"@, text, "': expected 'device_id.entity_id'"@);
    lemma_middle_occurs("duplicate device id '"@, text, "'"@);
    lemma_middle_occurs("duplicate entity id '"@, a, "'"@);
    let unknown = "entity '"@ + a + "' uses unknown driver kind '"@;
    lemma_middle_occurs(unknown, text, "'"@);
    lemma_middle_occurs("entity '"@, a, "' uses unknown driver kind '"@ + text + "'"@);
    assert("entity '"@ + a + ("' uses unknown driver kind '"@ + text + "'"@) =~= unknown + text
        + "'"@);
    let invalid = "invalid driver config for entity '"@ + a + "': "@;
    lemma_middle_occurs(invalid, text, none);
    assert(invalid + text + none =~= invalid + text);
    lemma_middle_occurs("invalid driver config for entity '"@, a, "': "@ + text);
    assert("invalid driver config for entity '"@ + a + ("': "@ + text) =~= invalid + text);
    let end = "' cannot provide it"@;
    let declares = "entity '"@ + a + "' declares domain '"@;
    let but = declares + declared + "' but driver kind '"@;
    lemma_middle_occurs(but, text, end);
    lemma_middle_occurs(declares, declared, "' but driver kind '"@ + text + end);
    assert(declares + declared + ("' but driver kind '"@ + text + end) =~= but + text + end);
    lemma_middle_occurs(
        "entity '"@,
        a,
        "' declares domain '"@ + declared + "' but driver kind '"@ + text + end,
    );
    assert("entity '"@ + a + ("' declares domain '"@ + declared + "' but driver kind '"@ + text
        + end) =~= but + text + end);
    lemma_middle_occurs("binding source '"@, a, "' does not refer to a configured entity"@);
    lemma_middle_occurs("binding target '"@, a, "' does not refer to a configured entity"@);
    lemma_middle_occurs("binding source '"@, a, "' is not a sensor entity"@);
    lemma_middle_occurs("binding target '"@, a, "' is not an actuator entity"@);
}

/// Every message of a driver or about a binding quotes what it is about: the kind, the
/// instance and entity, what is wrong or in use, or the address of source or target.
pub proof fn law_driver_and_binding_messages_quote_their_subject(
    id: EntityAddress,
    instance: Seq<char>,
    text: Seq<char>,
    code: i32,
)
    ensures
        occurs(driver_fault_message(DriverFault::UnknownKind(text)), text),
        ({
            let message = driver_fault_message(
                DriverFault::InvalidConfig { instance, message: text },
            );
            occurs(message, instance) && occurs(message, text)
        }),
        occurs(driver_fault_message(DriverFault::ResourceConflict(text)), text),
        ({
            let message = driver_fault_message(DriverFault::UnknownEntity { instance, entity: id });
            occurs(message, instance) && occurs(message, address_text(id))
        }),
        ({
            let message = driver_fault_message(
                DriverFault::UnsupportedCommand { instance, entity: id },
            );
            occurs(message, instance) && occurs(message, address_text(id))
        }),
        occurs(driver_fault_message(DriverFault::Display(text)), text),
        occurs(driver_fault_message(DriverFault::Esp { code, description: text }), text),
        occurs(binding_fault_message(BindingFault::UnknownSource(id)), address_text(id)),
        occurs(binding_fault_message(BindingFault::UnknownTarget(id)), address_text(id)),
        ({
            let message = binding_fault_message(
                BindingFault::UnsupportedTarget { target: id, entity_type: text },
            );
            occurs(message, address_text(id)) && occurs(message, text)
        }),
        occurs(binding_fault_message(BindingFault::DuplicateTarget(id)), address_text(id)),
{
    let a = address_text(id);
    let none = Seq::<char>::empty();
    lemma_middle_occurs("unknown driver kind '"@, text, "'"@);
    let invalid = "invalid config for driver instance '"@ + instance + "': "@;
    lemma_middle_occurs(invalid, text, none);
    assert(invalid + text + none =~= invalid + text);
    lemma_middle_occurs("invalid config for driver instance '"@, instance, "': "@ + text);
    assert("invalid config for driver instance '"@ + instance + ("': "@ + text) =~= invalid + text);
    lemma_middle_occurs("hardware resource conflict: "@, text, none);
    assert("hardware resource conflict: "@ + text + none =~= "hardware resource conflict: "@ + text);
    lemma_two_occur("driver instance '"@, instance, "' does not expose entity '"@, a, "'"@);
    lemma_two_occur("driver instance '"@, instance, "' cannot handle command for '"@, a, "'"@);
    lemma_middle_occurs("display error: "@, text, none);
    assert("display error: "@ + text + none =~= "display error: "@ + text);
    lemma_middle_occurs("esp-idf error: "@, text, none);
    assert("esp-idf error: "@ + text + none =~= "esp-idf error: "@ + text);
    lemma_middle_occurs("binding source '"@, a, "' is not a known sensor entity"@);
    lemma_middle_occurs("binding target '"@, a, "' is not a known actuator entity"@);
    lemma_two_occur(
        "binding target '"@,
        a,
        "' has entity type '"@,
        text,
        "', which cannot receive continuous source updates"@,
    );
    lemma_middle_occurs(
        "binding target '"@,
        a,
        "' is bound more than once; a target can have at most one binding"@,
    );
}

proof fn lemma_two_occur(
    before: Seq<char>,
    first: Seq<char>,
    between: Seq<char>,
    second: Seq<char>,
    after: Seq<char>,
)
    ensures
        occurs(before + first + between + second + after, first),
        occurs(before + first + between + second + after, second),
{
    lemma_middle_occurs(before + first + between, second, after);
    lemma_middle_occurs(before, first, between + second + after);
    assert(before + first + (between + second + after) =~= before + first + between + second
        + after);
}

} // verus!

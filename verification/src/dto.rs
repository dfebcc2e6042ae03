//! The rows that the admin UI's read pages show, and what a mutation
//! reports for each resource.

use vstd::prelude::*;

verus! {

/// A Kafka error code with its name and optional message.
#[derive(Debug, Clone, PartialEq, Eq)]
pub struct KafkaErrorDto {
    pub code: i16,
    pub name: String,
    pub message: Option<String>,
}

#[derive(Debug, Clone, PartialEq, Eq)]
pub struct TopicRow {
    pub name: String,
    pub topic_id: Option<String>,
    pub partition_count: i32,
    pub replication_factor: i32,
    pub error: Option<KafkaErrorDto>,
}

#[derive(Debug, Clone, PartialEq, Eq)]
pub struct GroupRow {
    pub group_id: String,
}

#[derive(Debug, Clone, PartialEq, Eq)]
pub struct AclRow {
    pub resource: String,
    pub pattern_type: String,
    pub principal: String,
    pub host: String,
    pub operation: String,
    pub permission: String,
}

#[derive(Debug, Clone, PartialEq, Eq)]
pub struct UserRow {
    pub username: String,
    pub principal: String,
}

/// One quota of one entity. The broker reports the value as a
/// floating-point number; the row holds the text it displays as.
#[derive(Debug, Clone, PartialEq, Eq)]
pub struct QuotaRow {
    pub entity: String,
    pub quota_type: String,
    pub value: String,
}

/// One partition replica in one log directory, or, with `partition`
/// negative, a directory the broker could not read.
#[derive(Debug, Clone, PartialEq, Eq)]
pub struct LogDirRow {
    pub log_dir: String,
    pub topic: String,
    pub partition: i32,
    pub partition_size: i64,
    pub offset_lag: i64,
    pub is_future_key: bool,
    pub error: Option<KafkaErrorDto>,
}

/// What a mutation did to one resource.
#[derive(Debug, Clone, PartialEq, Eq)]
pub struct ResourceOutcome {
    pub resource: String,
    pub error: Option<KafkaErrorDto>,
}

} // verus!

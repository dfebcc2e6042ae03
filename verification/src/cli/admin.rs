//! The admin subcommands' checks, which refuse a misuse before any
//! connection is made, and the lines they print for what the broker
//! answered.

use vstd::prelude::*;

use crate::cli::output::{
    json_array, json_array_value, json_bool, json_bool_value, json_fields, json_int, json_int_value,
    json_object_value, json_opt_text, json_opt_text_value, json_text, json_text_value, json_texts,
    json_texts_value, CommandResult,
};
use crate::cli::property_map::{map_of, pairs_list_map, PropertyMap};
use crate::dto::KafkaErrorDto;
use crate::text::{
    chars_of, find_char, first_index_of, int_text, parse_integer, parsed_integer, push_int_text,
    push_str, slice_chars, str_equal, string_from_chars,
};

verus! {

/// The JSON data of a dry run: `{"topics": [...], "dry_run": true}`.
pub open spec fn dry_run_data(topics: Seq<String>) -> serde_json::Value {
    json_object_value(seq!["topics"@, "dry_run"@], seq![json_texts_value(topics), json_bool_value(true)])
}

/// Splits `key=value` at its first `=`.
pub fn key_value(value: &str) -> (r: Result<(String, String), String>)
    ensures
        match first_index_of(value@, '=') {
            Some(i) => r matches Ok(kv) && kv.0@ == value@.subrange(0, i) && kv.1@ == value@.subrange(
                i + 1,
                value@.len() as int,
            ),
            None => r matches Err(m) && m@ == "expected key=value"@,
        },
{
    let chars = chars_of(value);
    let n = chars.len();
    match find_char(&chars, '=') {
        Some(i) => {
            let key = string_from_chars(slice_chars(&chars, 0, i).as_slice());
            let rest = string_from_chars(slice_chars(&chars, i + 1, n).as_slice());
            Ok((key, rest))
        },
        None => Err("expected key=value".to_owned()),
    }
}

/// Parses `name=level`, where the level is an `i16`.
pub fn feature_level(value: &str) -> (r: Result<(String, i16), String>)
    ensures
        match first_index_of(value@, '=') {
            Some(i) => match parsed_integer(value@.subrange(i + 1, value@.len() as int), -32768, 32767) {
                Some(level) => r matches Ok(f) && f.0@ == value@.subrange(0, i) && f.1 as int == level,
                None => r matches Err(m) && m@ == "feature level must be an integer"@,
            },
            None => r matches Err(m) && m@ == "expected key=value"@,
        },
{
    let (name, level_text) = key_value(value)?;
    let chars = chars_of(level_text.as_str());
    match parse_integer(&chars, -32768, 32767) {
        Some(level) => Ok((name, level as i16)),
        None => Err("feature level must be an integer".to_owned()),
    }
}

/// The topics command as asked: its action flags, the topics, and the
/// confirmations.
pub struct TopicsRequest {
    pub create: bool,
    pub delete: bool,
    pub list: bool,
    pub describe: bool,
    pub topics: Vec<String>,
    pub yes: bool,
    pub dry_run: bool,
}

/// Why the topics command refuses to run, if it does.
pub open spec fn topics_error(r: TopicsRequest) -> Option<Seq<char>> {
    if (r.create || r.delete || r.describe) && r.topics@.len() == 0 {
        Some("--topic is required for this operation"@)
    } else if r.delete && !r.yes && !r.dry_run {
        Some("topic deletion requires --yes (or --dry-run)"@)
    } else if r.dry_run && !r.create && !r.delete {
        Some("--dry-run is only valid with --create or --delete"@)
    } else {
        None
    }
}

fn refuse(message: &str) -> (r: Result<(), String>)
    ensures
        r matches Err(m) && m@ == message@,
{
    Err(message.to_owned())
}

impl TopicsRequest {
    /// Refuses a misuse before any connection is made.
    pub fn check(&self) -> (r: Result<(), String>)
        ensures
            r is Ok <==> topics_error(*self) is None,
            r matches Err(m) ==> topics_error(*self) == Some(m@),
    {
        if (self.create || self.delete || self.describe) && self.topics.len() == 0 {
            return refuse("--topic is required for this operation");
        }
        if self.delete && !self.yes && !self.dry_run {
            return refuse("topic deletion requires --yes (or --dry-run)");
        }
        if self.dry_run && !self.create && !self.delete {
            return refuse("--dry-run is only valid with --create or --delete");
        }
        Ok(())
    }

    /// The result of a dry run: a line per topic, the data the JSON output
    /// shows (the topics, and that it was a dry run), and no failure.
    pub fn dry_run_result(&self) -> (r: CommandResult)
        ensures
            r.human@.len() == self.topics@.len(),
            forall|i: int| 0 <= i < r.human@.len() ==> (#[trigger] r.human@[i])@ == "Would change topic "@ + self.topics@[i]@,
            r.data == dry_run_data(self.topics@),
            !r.failed,
    {
        let keys = vec!["topics", "dry_run"];
        let fields = vec![json_texts(&self.topics), json_bool(true)];
        proof {
            assert(keys@.map_values(|k: &str| k@) =~= seq!["topics"@, "dry_run"@]);
            assert(fields@ =~= seq![json_texts_value(self.topics@), json_bool_value(true)]);
        }
        CommandResult::success(self.dry_run_lines(), json_fields(keys, fields))
    }

    /// What a dry run reports: one line per topic.
    pub fn dry_run_lines(&self) -> (lines: Vec<String>)
        ensures
            lines@.len() == self.topics@.len(),
            forall|i: int| 0 <= i < lines@.len() ==> (#[trigger] lines@[i])@ == "Would change topic "@ + self.topics@[i]@,
    {
        let mut lines: Vec<String> = Vec::new();
        let mut i: usize = 0;
        while i < self.topics.len()
            invariant
                i <= self.topics@.len(),
                lines@.len() == i,
                forall|j: int| 0 <= j < i ==> (#[trigger] lines@[j])@ == "Would change topic "@ + self.topics@[j]@,
            decreases self.topics@.len() - i,
        {
            let mut line = String::new();
            push_str(&mut line, "Would change topic ");
            push_str(&mut line, self.topics[i].as_str());
            lines.push(line);
            i = i + 1;
        }
        lines
    }
}

/// The line for a resource that the broker refused.
pub open spec fn failure_line(subject: Seq<char>, e: KafkaErrorDto) -> Seq<char> {
    subject + "\tERROR\t"@ + e.name@ + " ("@ + int_text(e.code as int) + ")"@
}

/// The line for one resource: its error, or the success text.
pub open spec fn outcome_line(subject: Seq<char>, error: Option<KafkaErrorDto>, done: Seq<char>) -> Seq<char> {
    match error {
        Some(e) => failure_line(subject, e),
        None => done,
    }
}

fn push_failure(line: &mut String, e: &KafkaErrorDto)
    ensures
        final(line)@ == old(line)@ + "\tERROR\t"@ + e.name@ + " ("@ + int_text(e.code as int) + ")"@,
{
    push_str(line, "\tERROR\t");
    push_str(line, e.name.as_str());
    push_str(line, " (");
    push_int_text(line, e.code as i64);
    push_str(line, ")");
}

/// One line per resource: `<subject>\tERROR\t<name> (<code>)` for a
/// refused one, `<done><subject>.` for one that succeeded.
pub fn outcome_lines(outcomes: &Vec<(String, Option<KafkaErrorDto>)>, done: &str) -> (lines: Vec<String>)
    ensures
        lines@.len() == outcomes@.len(),
        forall|i: int|
            0 <= i < lines@.len() ==> (#[trigger] lines@[i])@ == outcome_line(
                outcomes@[i].0@,
                outcomes@[i].1,
                done@ + outcomes@[i].0@ + "."@,
            ),
{
    let mut lines: Vec<String> = Vec::new();
    let mut i: usize = 0;
    while i < outcomes.len()
        invariant
            i <= outcomes@.len(),
            lines@.len() == i,
            forall|j: int|
                0 <= j < i ==> (#[trigger] lines@[j])@ == outcome_line(
                    outcomes@[j].0@,
                    outcomes@[j].1,
                    done@ + outcomes@[j].0@ + "."@,
                ),
        decreases outcomes@.len() - i,
    {
        let (subject, error) = &outcomes[i];
        let mut line = String::new();
        match error {
            Some(e) => {
                push_str(&mut line, subject.as_str());
                push_failure(&mut line, e);
            },
            None => {
                push_str(&mut line, done);
                push_str(&mut line, subject.as_str());
                push_str(&mut line, ".");
            },
        }
        lines.push(line);
        i = i + 1;
    }
    lines
}

/// The JSON of a Kafka error: `null` for none, else its code, name and
/// message.
pub open spec fn kafka_error_value(e: Option<KafkaErrorDto>) -> serde_json::Value {
    match e {
        None => json_opt_text_value(None),
        Some(d) => json_object_value(
            seq!["code"@, "name"@, "message"@],
            seq![json_int_value(d.code as int), json_text_value(d.name@), json_opt_text_value(opt_text(d.message))],
        ),
    }
}

/// The JSON of a Kafka error, or `null`.
pub fn kafka_error_json(e: &Option<KafkaErrorDto>) -> (v: serde_json::Value)
    ensures
        v == kafka_error_value(*e),
{
    match e {
        None => json_opt_text(None),
        Some(d) => {
            let message = match &d.message {
                Some(m) => Some(m.clone()),
                None => None,
            };
            let keys = vec!["code", "name", "message"];
            let fields = vec![json_int(d.code as i64), json_text(d.name.clone()), json_opt_text(message)];
            proof {
                assert(keys@.map_values(|k: &str| k@) =~= seq!["code"@, "name"@, "message"@]);
                assert(opt_text(message) == opt_text(d.message));
                assert(fields@ =~= seq![
                    json_int_value(d.code as int),
                    json_text_value(d.name@),
                    json_opt_text_value(opt_text(d.message)),
                ]);
            }
            json_fields(keys, fields)
        },
    }
}

/// The JSON row of one resource's outcome: its name under `key`, and its
/// error.
pub open spec fn outcome_row_value(key: Seq<char>, outcome: (String, Option<KafkaErrorDto>)) -> serde_json::Value {
    json_object_value(seq![key, "error"@], seq![json_text_value(outcome.0@), kafka_error_value(outcome.1)])
}

/// The JSON rows of the outcomes, in order: each the resource's name under
/// `key` and its error.
pub fn outcome_rows(key: &str, outcomes: &Vec<(String, Option<KafkaErrorDto>)>) -> (v: serde_json::Value)
    ensures
        v == json_array_value(outcomes@.map_values(|o: (String, Option<KafkaErrorDto>)| outcome_row_value(key@, o))),
{
    let mut rows: Vec<serde_json::Value> = Vec::new();
    let mut i: usize = 0;
    while i < outcomes.len()
        invariant
            i <= outcomes@.len(),
            rows@ == outcomes@.subrange(0, i as int).map_values(
                |o: (String, Option<KafkaErrorDto>)| outcome_row_value(key@, o),
            ),
        decreases outcomes@.len() - i,
    {
        let keys = vec![key, "error"];
        let fields = vec![json_text(outcomes[i].0.clone()), kafka_error_json(&outcomes[i].1)];
        proof {
            assert(keys@.map_values(|k: &str| k@) =~= seq![key@, "error"@]);
            assert(fields@ =~= seq![json_text_value(outcomes@[i as int].0@), kafka_error_value(outcomes@[i as int].1)]);
        }
        let row = json_fields(keys, fields);
        rows.push(row);
        proof {
            assert(outcomes@.subrange(0, i + 1).map_values(
                |o: (String, Option<KafkaErrorDto>)| outcome_row_value(key@, o),
            ) =~= outcomes@.subrange(0, i as int).map_values(
                |o: (String, Option<KafkaErrorDto>)| outcome_row_value(key@, o),
            ).push(outcome_row_value(key@, outcomes@[i as int])));
        }
        i = i + 1;
    }
    assert(outcomes@.subrange(0, i as int) =~= outcomes@);
    json_array(rows)
}

/// What a command that changed several resources reports: a line per
/// resource, a JSON row per resource with its name under `key`, and a
/// failure when the broker refused any of them.
pub fn outcome_result(outcomes: &Vec<(String, Option<KafkaErrorDto>)>, done: &str, key: &str) -> (r: CommandResult)
    ensures
        r.human@.len() == outcomes@.len(),
        forall|i: int|
            0 <= i < r.human@.len() ==> (#[trigger] r.human@[i])@ == outcome_line(
                outcomes@[i].0@,
                outcomes@[i].1,
                done@ + outcomes@[i].0@ + "."@,
            ),
        r.data == json_array_value(outcomes@.map_values(|o: (String, Option<KafkaErrorDto>)| outcome_row_value(key@, o))),
        r.failed == exists|i: int| 0 <= i < outcomes@.len() && (#[trigger] outcomes@[i]).1 is Some,
{
    CommandResult::rows(outcome_lines(outcomes, done), outcome_rows(key, outcomes), any_failed(outcomes))
}

/// Whether the broker refused any of the resources.
pub fn any_failed(outcomes: &Vec<(String, Option<KafkaErrorDto>)>) -> (b: bool)
    ensures
        b == exists|i: int| 0 <= i < outcomes@.len() && (#[trigger] outcomes@[i]).1 is Some,
{
    let mut i: usize = 0;
    while i < outcomes.len()
        invariant
            i <= outcomes@.len(),
            forall|j: int| 0 <= j < i ==> (#[trigger] outcomes@[j]).1 is None,
        decreases outcomes@.len() - i,
    {
        if outcomes[i].1.is_some() {
            assert(outcomes@[i as int].1 is Some);
            return true;
        }
        i = i + 1;
    }
    false
}

/// What the topics command does once it passed its checks.
#[derive(Debug, Clone, Copy, PartialEq, Eq, Structural)]
pub enum TopicsAction {
    /// Reports what it would change, and connects to nothing.
    DryRun,
    Create,
    Delete,
    /// Reads the topics' metadata, to describe them or to list their names.
    Metadata { describe: bool },
}

pub open spec fn topics_action(r: TopicsRequest) -> TopicsAction {
    if r.dry_run {
        TopicsAction::DryRun
    } else if r.create {
        TopicsAction::Create
    } else if r.delete {
        TopicsAction::Delete
    } else {
        TopicsAction::Metadata { describe: r.describe }
    }
}

/// The topics command does what its flags say: a dry run changes nothing,
/// `--create` creates, `--delete` deletes, and only a request with none of
/// them reads metadata. Confirming with `--yes` never changes the action,
/// and a deletion that passed the checks was confirmed and deletes.
pub proof fn law_topics_action_follows_the_flags(r: TopicsRequest, yes: bool)
    ensures
        r.dry_run ==> topics_action(r) == TopicsAction::DryRun,
        !r.dry_run && r.create ==> topics_action(r) == TopicsAction::Create,
        !r.dry_run && !r.create && r.delete ==> topics_action(r) == TopicsAction::Delete,
        topics_action(r) is Metadata <==> !r.dry_run && !r.create && !r.delete,
        topics_action(r) == TopicsAction::Delete ==> r.delete,
        topics_action(TopicsRequest { yes, ..r }) == topics_action(r),
        topics_error(r) is None && r.delete && !r.create && !r.dry_run ==> r.yes && topics_action(r)
            == TopicsAction::Delete,
{
}

impl TopicsRequest {
    /// What the command does: a dry run first, then creation, deletion, or
    /// a metadata read.
    pub fn action(&self) -> (a: TopicsAction)
        ensures
            a == topics_action(*self),
    {
        if self.dry_run {
            TopicsAction::DryRun
        } else if self.create {
            TopicsAction::Create
        } else if self.delete {
            TopicsAction::Delete
        } else {
            TopicsAction::Metadata { describe: self.describe }
        }
    }
}

pub open spec fn pairs_view(pairs: Seq<(String, String)>) -> Seq<(Seq<char>, Seq<char>)> {
    pairs.map_values(|p: (String, String)| (p.0@, p.1@))
}

/// The configuration of new topics: the `--config` pairs, a later value of
/// a key replacing an earlier one.
pub fn topic_configs(pairs: &Vec<(String, String)>) -> (m: PropertyMap)
    ensures
        m@ == map_of(pairs_view(pairs@)),
{
    let mut m = PropertyMap::new();
    let mut i: usize = 0;
    while i < pairs.len()
        invariant
            i <= pairs@.len(),
            m@ == map_of(pairs_view(pairs@).subrange(0, i as int)),
        decreases pairs@.len() - i,
    {
        proof {
            let prefix = pairs_view(pairs@).subrange(0, i + 1);
            assert(prefix.drop_last() =~= pairs_view(pairs@).subrange(0, i as int));
        }
        m.insert(pairs[i].0.clone(), pairs[i].1.clone());
        i = i + 1;
    }
    assert(pairs_view(pairs@).subrange(0, i as int) =~= pairs_view(pairs@));
    m
}

/// A topic to create: its name, partitions, replicas and configuration.
pub struct TopicSpec {
    pub name: String,
    pub partitions: i32,
    pub replicas: i32,
    pub configs: Vec<(String, String)>,
}

/// The topics that `--create` asks for: one per `--topic`, in order, each
/// with the same partitions, replicas and configuration, a repeated
/// `--config` key keeping its last value.
pub fn create_specs(
    topics: &Vec<String>,
    partitions: i32,
    replicas: i32,
    configs: &Vec<(String, String)>,
) -> (specs: Vec<TopicSpec>)
    ensures
        specs@.len() == topics@.len(),
        forall|i: int|
            0 <= i < specs@.len() ==> {
                &&& (#[trigger] specs@[i]).name@ == topics@[i]@
                &&& specs@[i].partitions == partitions
                &&& specs@[i].replicas == replicas
                &&& pairs_list_map(specs@[i].configs@, map_of(pairs_view(configs@)))
            },
{
    let map = topic_configs(configs);
    let mut specs: Vec<TopicSpec> = Vec::new();
    let mut i: usize = 0;
    while i < topics.len()
        invariant
            i <= topics@.len(),
            map@ == map_of(pairs_view(configs@)),
            specs@.len() == i,
            forall|j: int|
                0 <= j < i ==> {
                    &&& (#[trigger] specs@[j]).name@ == topics@[j]@
                    &&& specs@[j].partitions == partitions
                    &&& specs@[j].replicas == replicas
                    &&& pairs_list_map(specs@[j].configs@, map_of(pairs_view(configs@)))
                },
        decreases topics@.len() - i,
    {
        specs.push(TopicSpec { name: topics[i].clone(), partitions, replicas, configs: map.entries() });
        i = i + 1;
    }
    specs
}

/// One change to a topic's configuration.
pub enum ConfigChange {
    Put { key: String, value: String },
    Delete { key: String },
}

/// The changes that `--alter` asks for: the additions in order, then the
/// deletions in order.
pub fn config_changes(add: &Vec<(String, String)>, delete: &Vec<String>) -> (changes: Vec<ConfigChange>)
    ensures
        changes@.len() == add@.len() + delete@.len(),
        forall|i: int|
            0 <= i < add@.len() ==> ((#[trigger] changes@[i]) matches ConfigChange::Put { key, value } && key@
                == add@[i].0@ && value@ == add@[i].1@),
        forall|j: int|
            0 <= j < delete@.len() ==> ((#[trigger] changes@[add@.len() + j]) matches ConfigChange::Delete { key }
                && key@ == delete@[j]@),
{
    let mut changes: Vec<ConfigChange> = Vec::new();
    let mut i: usize = 0;
    while i < add.len()
        invariant
            i <= add@.len(),
            changes@.len() == i,
            forall|k: int|
                0 <= k < i ==> ((#[trigger] changes@[k]) matches ConfigChange::Put { key, value } && key@
                    == add@[k].0@ && value@ == add@[k].1@),
        decreases add@.len() - i,
    {
        changes.push(ConfigChange::Put { key: add[i].0.clone(), value: add[i].1.clone() });
        i = i + 1;
    }
    let mut j: usize = 0;
    while j < delete.len()
        invariant
            j <= delete@.len(),
            changes@.len() == add@.len() + j,
            forall|k: int|
                0 <= k < add@.len() ==> ((#[trigger] changes@[k]) matches ConfigChange::Put { key, value } && key@
                    == add@[k].0@ && value@ == add@[k].1@),
            forall|k: int|
                0 <= k < j ==> ((#[trigger] changes@[add@.len() + k]) matches ConfigChange::Delete { key } && key@
                    == delete@[k]@),
        decreases delete@.len() - j,
    {
        changes.push(ConfigChange::Delete { key: delete[j].clone() });
        j = j + 1;
    }
    changes
}

/// The line that describes or lists a topic.
pub open spec fn topic_line(describe: bool, name: Seq<char>, partitions: int, replication: int) -> Seq<char> {
    if describe {
        "Topic: "@ + name + "\tPartitionCount: "@ + int_text(partitions) + "\tReplicationFactor: "@ + int_text(
            replication,
        )
    } else {
        name
    }
}

/// The line that `--describe` prints for a topic, or its bare name for
/// `--list`.
pub fn topic_line_text(describe: bool, name: &str, partitions: i32, replication: i32) -> (line: String)
    ensures
        line@ == topic_line(describe, name@, partitions as int, replication as int),
{
    let mut line = String::new();
    if describe {
        push_str(&mut line, "Topic: ");
        push_str(&mut line, name);
        push_str(&mut line, "\tPartitionCount: ");
        push_int_text(&mut line, partitions as i64);
        push_str(&mut line, "\tReplicationFactor: ");
        push_int_text(&mut line, replication as i64);
    } else {
        push_str(&mut line, name);
    }
    line
}

/// The line for one configuration override of a topic.
pub fn config_line(topic: &str, key: &str, value: &str) -> (line: String)
    ensures
        line@ == topic@ + "\t"@ + key@ + "="@ + value@,
{
    let mut line = String::new();
    push_str(&mut line, topic);
    push_str(&mut line, "\t");
    push_str(&mut line, key);
    push_str(&mut line, "=");
    push_str(&mut line, value);
    line
}

/// Whether `--alter` was given something to change.
pub fn check_config_alter(add_count: usize, delete_count: usize) -> (r: Result<(), String>)
    ensures
        r is Ok <==> add_count + delete_count > 0,
        r matches Err(m) ==> m@ == "--alter requires --add-config or --delete-config"@,
{
    if add_count == 0 && delete_count == 0 {
        return refuse("--alter requires --add-config or --delete-config");
    }
    Ok(())
}

/// The operation an ACL grants or denies.
#[derive(Debug, Clone, Copy, PartialEq, Eq, Structural)]
pub enum AclOperation {
    All,
    Read,
    Write,
    Create,
    Delete,
    Alter,
    Describe,
    ClusterAction,
    DescribeConfigs,
    AlterConfigs,
    IdempotentWrite,
}

/// Whether an ACL allows or denies.
#[derive(Debug, Clone, Copy, PartialEq, Eq, Structural)]
pub enum AclPermission {
    Allow,
    Deny,
}

/// The ACL command as asked.
pub struct AclsRequest {
    pub list: bool,
    pub add: bool,
    pub remove: bool,
    pub topic: Option<String>,
    pub allow_principal: Option<String>,
    pub deny_principal: Option<String>,
    pub operation: Option<AclOperation>,
    pub host: String,
    pub yes: bool,
}

/// Which ACLs a list or a removal covers; `None` matches any.
pub struct AclScope {
    pub topic: Option<String>,
    pub principal: Option<String>,
    pub host: Option<String>,
    pub operation: Option<AclOperation>,
    pub permission: Option<AclPermission>,
}

/// One ACL to create: a literal topic pattern.
pub struct AclGrant {
    pub topic: String,
    pub principal: String,
    pub host: String,
    pub operation: AclOperation,
    pub permission: AclPermission,
}

pub open spec fn opt_text(o: Option<String>) -> Option<Seq<char>> {
    match o {
        Some(s) => Some(s@),
        None => None,
    }
}

/// Deny when a principal to deny is given, else allow.
pub open spec fn acl_permission(r: AclsRequest) -> AclPermission {
    if r.deny_principal is Some {
        AclPermission::Deny
    } else {
        AclPermission::Allow
    }
}

/// The principal that the command names: the allowed one, else the denied one.
pub open spec fn acl_principal(r: AclsRequest) -> Option<Seq<char>> {
    match r.allow_principal {
        Some(p) => Some(p@),
        None => opt_text(r.deny_principal),
    }
}

/// Why the ACL command refuses to run, if it does.
pub open spec fn acls_error(r: AclsRequest) -> Option<Seq<char>> {
    if r.remove && !r.yes {
        Some("ACL removal requires --yes"@)
    } else if r.remove && r.topic is None && acl_principal(r) is None {
        Some("ACL removal requires a scope filter: --topic, --allow-principal or --deny-principal"@)
    } else {
        None
    }
}

fn clone_text(o: &Option<String>) -> (r: Option<String>)
    ensures
        opt_text(r) == opt_text(*o),
{
    match o {
        Some(s) => Some(s.clone()),
        None => None,
    }
}

impl AclsRequest {
    /// Refuses a misuse before any connection is made: a removal needs
    /// `--yes` and a scope, so that it never removes every ACL.
    pub fn check(&self) -> (r: Result<(), String>)
        ensures
            r is Ok <==> acls_error(*self) is None,
            r matches Err(m) ==> acls_error(*self) == Some(m@),
    {
        if self.remove && !self.yes {
            return refuse("ACL removal requires --yes");
        }
        if self.remove && self.topic.is_none() && self.allow_principal.is_none() && self.deny_principal.is_none() {
            return refuse("ACL removal requires a scope filter: --topic, --allow-principal or --deny-principal");
        }
        Ok(())
    }

    fn principal(&self) -> (p: Option<String>)
        ensures
            opt_text(p) == acl_principal(*self),
    {
        match &self.allow_principal {
            Some(p) => Some(p.clone()),
            None => clone_text(&self.deny_principal),
        }
    }

    fn permission(&self) -> (p: AclPermission)
        ensures
            p == acl_permission(*self),
    {
        if self.deny_principal.is_some() {
            AclPermission::Deny
        } else {
            AclPermission::Allow
        }
    }

    /// The ACLs that a list or a removal covers: the topic, the principal,
    /// a host other than `*`, the operation, and the permission when a
    /// principal is named.
    pub fn scope(&self) -> (s: AclScope)
        ensures
            opt_text(s.topic) == opt_text(self.topic),
            opt_text(s.principal) == acl_principal(*self),
            opt_text(s.host) == (if self.host@ == "*"@ { None } else { Some(self.host@) }),
            s.operation == self.operation,
            s.permission == (if acl_principal(*self) is Some { Some(acl_permission(*self)) } else { None }),
    {
        let principal = self.principal();
        let permission = if principal.is_some() {
            Some(self.permission())
        } else {
            None
        };
        let host = if str_equal(self.host.as_str(), "*") {
            None
        } else {
            Some(self.host.clone())
        };
        AclScope { topic: clone_text(&self.topic), principal, host, operation: self.operation, permission }
    }

    /// The ACL that `--add` creates, or what it lacks.
    pub fn grant(&self) -> (r: Result<AclGrant, String>)
        ensures
            self.topic is None ==> (r matches Err(m) && m@ == "--topic is required with --add"@),
            self.topic is Some && acl_principal(*self) is None ==> (r matches Err(m) && m@
                == "--allow-principal or --deny-principal is required"@),
            self.topic is Some && acl_principal(*self) is Some && self.operation is None ==> (r matches Err(m)
                && m@ == "--operation is required"@),
            self.topic is Some && acl_principal(*self) is Some && self.operation is Some ==> r is Ok,
            r matches Ok(g) ==> {
                &&& Some(g.topic@) == opt_text(self.topic)
                &&& Some(g.principal@) == acl_principal(*self)
                &&& g.host@ == self.host@
                &&& Some(g.operation) == self.operation
                &&& g.permission == acl_permission(*self)
            },
    {
        let topic = match &self.topic {
            Some(t) => t.clone(),
            None => {
                return Err("--topic is required with --add".to_owned());
            },
        };
        let principal = match self.principal() {
            Some(p) => p,
            None => {
                return Err("--allow-principal or --deny-principal is required".to_owned());
            },
        };
        let operation = match self.operation {
            Some(op) => op,
            None => {
                return Err("--operation is required".to_owned());
            },
        };
        Ok(AclGrant { topic, principal, host: self.host.clone(), operation, permission: self.permission() })
    }
}

/// The line that reports an ACL creation.
pub fn acl_created_line(failed: bool) -> (line: String)
    ensures
        line@ == (if failed { "ACL creation failed"@ } else { "ACL created"@ }),
{
    if failed {
        "ACL creation failed".to_owned()
    } else {
        "ACL created".to_owned()
    }
}

/// The line for one ACL entry.
pub fn acl_entry_line(
    resource_type: &str,
    resource_name: &str,
    principal: &str,
    operation: &str,
    permission: &str,
) -> (line: String)
    ensures
        line@ == resource_type@ + "\t"@ + resource_name@ + "\t"@ + principal@ + "\t"@ + operation@ + "\t"@
            + permission@,
{
    let mut line = String::new();
    push_str(&mut line, resource_type);
    push_str(&mut line, "\t");
    push_str(&mut line, resource_name);
    push_str(&mut line, "\t");
    push_str(&mut line, principal);
    push_str(&mut line, "\t");
    push_str(&mut line, operation);
    push_str(&mut line, "\t");
    push_str(&mut line, permission);
    line
}

/// The consumer-group command as asked.
pub struct ConsumerGroupsRequest {
    pub describe: bool,
    pub reset_offsets: bool,
    pub group: String,
    pub topic: Option<String>,
    pub partition: Option<i32>,
    pub to_offset: Option<i64>,
    pub yes: bool,
}

/// One offset to reset: the topic, the partition and the offset.
pub struct OffsetReset {
    pub topic: String,
    pub partition: i32,
    pub offset: i64,
}

/// Why the consumer-group command refuses to run, if it does.
pub open spec fn groups_error(r: ConsumerGroupsRequest) -> Option<Seq<char>> {
    if r.reset_offsets && !r.yes {
        Some("offset reset requires --yes"@)
    } else if (r.partition matches Some(p) && p < 0) || (r.to_offset matches Some(o) && o < 0) {
        Some("--partition and --to-offset must be non-negative"@)
    } else {
        None
    }
}

impl ConsumerGroupsRequest {
    /// Refuses a misuse before any connection is made.
    pub fn check(&self) -> (r: Result<(), String>)
        ensures
            r is Ok <==> groups_error(*self) is None,
            r matches Err(m) ==> groups_error(*self) == Some(m@),
    {
        if self.reset_offsets && !self.yes {
            return refuse("offset reset requires --yes");
        }
        let bad_partition = match self.partition {
            Some(p) => p < 0,
            None => false,
        };
        let bad_offset = match self.to_offset {
            Some(o) => o < 0,
            None => false,
        };
        if bad_partition || bad_offset {
            return refuse("--partition and --to-offset must be non-negative");
        }
        Ok(())
    }

    /// The offset that `--reset-offsets` sets, or what it lacks.
    pub fn reset(&self) -> (r: Result<OffsetReset, String>)
        ensures
            self.topic is None ==> (r matches Err(m) && m@ == "--topic is required with --reset-offsets"@),
            self.topic is Some && self.partition is None ==> (r matches Err(m) && m@
                == "--partition is required with --reset-offsets"@),
            self.topic is Some && self.partition is Some && self.to_offset is None ==> (r matches Err(m) && m@
                == "--to-offset is required with --reset-offsets"@),
            self.topic is Some && self.partition is Some && self.to_offset is Some ==> r is Ok,
            r matches Ok(o) ==> Some(o.topic@) == opt_text(self.topic) && Some(o.partition) == self.partition
                && Some(o.offset) == self.to_offset,
    {
        let topic = match &self.topic {
            Some(t) => t.clone(),
            None => {
                return Err("--topic is required with --reset-offsets".to_owned());
            },
        };
        let partition = match self.partition {
            Some(p) => p,
            None => {
                return Err("--partition is required with --reset-offsets".to_owned());
            },
        };
        let offset = match self.to_offset {
            Some(o) => o,
            None => {
                return Err("--to-offset is required with --reset-offsets".to_owned());
            },
        };
        Ok(OffsetReset { topic, partition, offset })
    }
}

/// The line for one partition whose offset was reset, or that the broker refused.
pub fn reset_line(group: &str, topic: &str, partition: i32, error: &Option<KafkaErrorDto>) -> (line: String)
    ensures
        line@ == outcome_line(
            group@ + "\t"@ + topic@ + "\t"@ + int_text(partition as int),
            *error,
            "Reset group "@ + group@ + " topic "@ + topic@ + " partition "@ + int_text(partition as int) + "."@,
        ),
{
    let mut line = String::new();
    match error {
        Some(e) => {
            push_str(&mut line, group);
            push_str(&mut line, "\t");
            push_str(&mut line, topic);
            push_str(&mut line, "\t");
            push_int_text(&mut line, partition as i64);
            push_failure(&mut line, e);
        },
        None => {
            push_str(&mut line, "Reset group ");
            push_str(&mut line, group);
            push_str(&mut line, " topic ");
            push_str(&mut line, topic);
            push_str(&mut line, " partition ");
            push_int_text(&mut line, partition as i64);
            push_str(&mut line, ".");
        },
    }
    line
}

/// A lower-case hexadecimal digit.
pub open spec fn lower_hex_digit(d: int) -> char {
    if d < 10 {
        ((d + 48) as u8) as char
    } else {
        ((d + 87) as u8) as char
    }
}

/// How `serde_json` writes one character inside a string: `"` and `\`
/// escaped, the control characters with a short escape written as one,
/// the other characters below U+0020 as `\u00` and two hexadecimal digits,
/// everything else as it is.
pub open spec fn json_char_text(c: char) -> Seq<char> {
    if c == '"' {
        seq!['\\', '"']
    } else if c == '\\' {
        seq!['\\', '\\']
    } else if c == '\u{8}' {
        seq!['\\', 'b']
    } else if c == '\t' {
        seq!['\\', 't']
    } else if c == '\n' {
        seq!['\\', 'n']
    } else if c == '\u{c}' {
        seq!['\\', 'f']
    } else if c == '\r' {
        seq!['\\', 'r']
    } else if (c as int) < 0x20 {
        seq!['\\', 'u', '0', '0', lower_hex_digit(c as int / 16), lower_hex_digit(c as int % 16)]
    } else {
        seq![c]
    }
}

pub open spec fn json_chars_text(s: Seq<char>) -> Seq<char>
    decreases s.len(),
{
    if s.len() == 0 {
        Seq::empty()
    } else {
        json_chars_text(s.drop_last()) + json_char_text(s.last())
    }
}

/// The JSON text of a string, as `serde_json` writes it: quoted, with its
/// special characters escaped.
pub open spec fn json_string_text(s: Seq<char>) -> Seq<char> {
    seq!['"'] + json_chars_text(s) + seq!['"']
}

/// Writes a string as JSON text (`serde_json`'s `Display` of a string
/// value). Claimed: the text is `json_string_text` of the string.
#[verifier::external_body]
fn json_string(s: &str) -> (t: String)
    ensures
        t@ == json_string_text(s@),
{
    serde_json::Value::String(s.to_owned()).to_string()
}

/// The line for one committed offset of a group: the topic as the JSON
/// output shows it, then the partition and the offset.
pub fn group_offset_line(group: &str, topic: &str, partition: i32, offset: i64) -> (line: String)
    ensures
        line@ == group@ + "\t"@ + json_string_text(topic@) + "\t"@ + int_text(partition as int) + "\t"@ + int_text(
            offset as int,
        ),
{
    let topic_json = json_string(topic);
    offset_line(group, topic_json.as_str(), partition, offset)
}

/// The line for one committed offset; the topic arrives as the JSON text
/// that the output shows for it.
pub fn offset_line(group: &str, topic_json: &str, partition: i32, offset: i64) -> (line: String)
    ensures
        line@ == group@ + "\t"@ + topic_json@ + "\t"@ + int_text(partition as int) + "\t"@ + int_text(offset as int),
{
    let mut line = String::new();
    push_str(&mut line, group);
    push_str(&mut line, "\t");
    push_str(&mut line, topic_json);
    push_str(&mut line, "\t");
    push_int_text(&mut line, partition as i64);
    push_str(&mut line, "\t");
    push_int_text(&mut line, offset as i64);
    line
}

/// A range of feature versions.
pub struct FeatureRange {
    pub name: String,
    pub min_version: i16,
    pub max_version: i16,
}

pub open spec fn range_text(r: FeatureRange) -> Seq<char> {
    int_text(r.min_version as int) + "-"@ + int_text(r.max_version as int)
}

/// The finalized range of the first finalized feature named `name`, or `-`.
pub open spec fn finalized_text(finalized: Seq<FeatureRange>, name: Seq<char>) -> Seq<char>
    decreases finalized.len(),
{
    if finalized.len() == 0 {
        "-"@
    } else if finalized[0].name@ == name {
        range_text(finalized[0])
    } else {
        finalized_text(finalized.drop_first(), name)
    }
}

fn push_range(line: &mut String, r: &FeatureRange)
    ensures
        final(line)@ == old(line)@ + range_text(*r),
{
    push_int_text(line, r.min_version as i64);
    push_str(line, "-");
    push_int_text(line, r.max_version as i64);
}

/// The line for one supported feature: its name, its supported range, and
/// its finalized range or `-`.
pub fn feature_line(supported: &FeatureRange, finalized: &Vec<FeatureRange>) -> (line: String)
    ensures
        line@ == supported.name@ + "\t"@ + range_text(*supported) + "\t"@ + finalized_text(
            finalized@,
            supported.name@,
        ),
{
    let mut line = String::new();
    push_str(&mut line, supported.name.as_str());
    push_str(&mut line, "\t");
    push_range(&mut line, supported);
    push_str(&mut line, "\t");
    let mut i: usize = 0;
    assert(finalized@.subrange(0, finalized@.len() as int) =~= finalized@);
    while i < finalized.len()
        invariant
            i <= finalized@.len(),
            finalized_text(finalized@, supported.name@) == finalized_text(
                finalized@.subrange(i as int, finalized@.len() as int),
                supported.name@,
            ),
            line@ == supported.name@ + "\t"@ + range_text(*supported) + "\t"@,
        decreases finalized@.len() - i,
    {
        let ghost rest = finalized@.subrange(i as int, finalized@.len() as int);
        if finalized[i].name == supported.name {
            assert(rest[0] == finalized@[i as int]);
            push_range(&mut line, &finalized[i]);
            return line;
        }
        assert(rest.drop_first() =~= finalized@.subrange(i + 1, finalized@.len() as int));
        i = i + 1;
    }
    push_str(&mut line, "-");
    line
}

/// Whether the features command was told which way to move which features.
pub fn check_feature_update(upgrade: bool, downgrade: bool, feature_count: usize) -> (r: Result<(), String>)
    ensures
        r is Ok <==> upgrade != downgrade && feature_count > 0,
        r matches Err(m) ==> m@ == "choose --upgrade or --downgrade with one or more --feature name=level"@,
{
    if upgrade == downgrade || feature_count == 0 {
        return refuse("choose --upgrade or --downgrade with one or more --feature name=level");
    }
    Ok(())
}

/// Why the reassignment command refuses to run, if it does.
pub fn check_reassignment(execute: bool, verify: bool, yes: bool) -> (r: Result<(), String>)
    ensures
        execute == verify ==> (r matches Err(m) && m@ == "choose --execute or --verify"@),
        execute != verify && execute && !yes ==> (r matches Err(m) && m@ == "reassignment execution requires --yes"@),
        r is Ok <==> execute != verify && (!execute || yes),
{
    if execute == verify {
        return refuse("choose --execute or --verify");
    }
    if execute && !yes {
        return refuse("reassignment execution requires --yes");
    }
    Ok(())
}

/// Whether a `--verify` found the reassignment unfinished.
pub fn reassignment_incomplete(verify: bool, status: &str) -> (b: bool)
    ensures
        b == (verify && status@ != "InSync"@),
{
    verify && !str_equal(status, "InSync")
}

/// The line that reports a reassignment's status.
pub fn reassignment_line(topic: &str, status: &str) -> (line: String)
    ensures
        line@ == topic@ + ": "@ + status@,
{
    let mut line = String::new();
    push_str(&mut line, topic);
    push_str(&mut line, ": ");
    push_str(&mut line, status);
    line
}

/// A destructive command passes its checks only when it was confirmed:
/// a topic deletion with `--yes` (or as a dry run), an ACL removal with
/// `--yes` and a scope that names a topic or a principal, so that it never
/// removes every ACL, and an offset reset with `--yes`.
pub proof fn law_destructive_commands_need_confirmation(
    topics: TopicsRequest,
    acls: AclsRequest,
    groups: ConsumerGroupsRequest,
)
    ensures
        topics_error(topics) is None && topics.delete ==> topics.yes || topics.dry_run,
        acls_error(acls) is None && acls.remove ==> acls.yes && (acls.topic is Some || acl_principal(acls) is Some),
        groups_error(groups) is None && groups.reset_offsets ==> groups.yes,
{
}

} // verus!

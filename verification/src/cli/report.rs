//! What the admin commands report once the broker answered: a line per
//! resource for a person, a JSON row per resource for a program, and
//! whether any part failed.

use vstd::prelude::*;

use crate::cli::admin::{
    acl_created_line, acl_entry_line, any_failed, config_line, feature_line, finalized_text, group_offset_line,
    json_string_text, kafka_error_json, kafka_error_value, opt_text, outcome_line, outcome_lines, range_text,
    reassignment_incomplete, reassignment_line, reset_line, topic_line, topic_line_text, FeatureRange,
};
use crate::cli::output::{
    json_array, json_array_value, json_fields, json_int, json_int_value, json_object, json_object_value,
    json_opt_text, json_opt_text_value, json_text, json_text_value, CommandResult,
};
use crate::dto::{KafkaErrorDto, TopicRow};
use crate::text::int_text;

verus! {

/// The JSON row of a topic's metadata.
pub open spec fn topic_row_value(row: TopicRow) -> serde_json::Value {
    json_object_value(
        seq!["topic"@, "topic_id"@, "partitions"@, "replication_factor"@, "error"@],
        seq![
            json_text_value(row.name@),
            json_opt_text_value(opt_text(row.topic_id)),
            json_int_value(row.partition_count as int),
            json_int_value(row.replication_factor as int),
            kafka_error_value(row.error),
        ],
    )
}

/// What `--list` and `--describe` report: a line per topic, its JSON row,
/// and a failure when the broker refused any topic.
pub fn topic_metadata_result(describe: bool, rows: &Vec<TopicRow>) -> (r: CommandResult)
    ensures
        r.human@.len() == rows@.len(),
        forall|i: int|
            0 <= i < rows@.len() ==> (#[trigger] r.human@[i])@ == topic_line(
                describe,
                rows@[i].name@,
                rows@[i].partition_count as int,
                rows@[i].replication_factor as int,
            ),
        r.data == json_array_value(Seq::new(rows@.len(), |i: int| topic_row_value(rows@[i]))),
        r.failed == exists|i: int| 0 <= i < rows@.len() && (#[trigger] rows@[i]).error is Some,
{
    let mut human: Vec<String> = Vec::new();
    let mut values: Vec<serde_json::Value> = Vec::new();
    let mut failed = false;
    let mut i: usize = 0;
    while i < rows.len()
        invariant
            i <= rows@.len(),
            human@.len() == i,
            forall|j: int|
                0 <= j < i ==> (#[trigger] human@[j])@ == topic_line(
                    describe,
                    rows@[j].name@,
                    rows@[j].partition_count as int,
                    rows@[j].replication_factor as int,
                ),
            values@ == Seq::new(i as nat, |j: int| topic_row_value(rows@[j])),
            failed == exists|j: int| 0 <= j < i && (#[trigger] rows@[j]).error is Some,
        decreases rows@.len() - i,
    {
        let row = &rows[i];
        human.push(topic_line_text(describe, row.name.as_str(), row.partition_count, row.replication_factor));
        let topic_id = match &row.topic_id {
            Some(id) => Some(id.clone()),
            None => None,
        };
        let fields = vec![
            json_text(row.name.clone()),
            json_opt_text(topic_id),
            json_int(row.partition_count as i64),
            json_int(row.replication_factor as i64),
            kafka_error_json(&row.error),
        ];
        let keys = vec!["topic", "topic_id", "partitions", "replication_factor", "error"];
        proof {
            assert(keys@.map_values(|k: &str| k@) =~= seq!["topic"@, "topic_id"@, "partitions"@, "replication_factor"@, "error"@]);
            assert(opt_text(topic_id) == opt_text(row.topic_id));
            assert(fields@ =~= seq![
                json_text_value(row.name@),
                json_opt_text_value(opt_text(row.topic_id)),
                json_int_value(row.partition_count as int),
                json_int_value(row.replication_factor as int),
                kafka_error_value(row.error),
            ]);
        }
        let value = json_fields(keys, fields);
        proof {
            assert(values@.push(value) =~= Seq::new((i + 1) as nat, |j: int| topic_row_value(rows@[j])));
        }
        values.push(value);
        if row.error.is_some() {
            failed = true;
        }
        proof {
            if failed {
                if rows@[i as int].error is None {
                    let j = choose|j: int| 0 <= j < i && (#[trigger] rows@[j]).error is Some;
                    assert(0 <= j < i + 1 && rows@[j].error is Some);
                } else {
                    assert(0 <= i < i + 1 && rows@[i as int].error is Some);
                }
            }
        }
        i = i + 1;
    }
    CommandResult::rows(human, json_array(values), failed)
}

/// The JSON row of a created topic: its name, its id and its error.
pub open spec fn created_row_value(outcome: (String, Option<KafkaErrorDto>), topic_id: Option<String>) -> serde_json::Value {
    json_object_value(
        seq!["topic"@, "topic_id"@, "error"@],
        seq![json_text_value(outcome.0@), json_opt_text_value(opt_text(topic_id)), kafka_error_value(outcome.1)],
    )
}

/// What `--create` reports: a line per topic, its JSON row with the id the
/// broker gave it, and a failure when the broker refused any topic.
pub fn created_topics_result(outcomes: &Vec<(String, Option<KafkaErrorDto>)>, topic_ids: &Vec<Option<String>>) -> (r:
    CommandResult)
    requires
        topic_ids@.len() == outcomes@.len(),
    ensures
        r.human@.len() == outcomes@.len(),
        forall|i: int|
            0 <= i < r.human@.len() ==> (#[trigger] r.human@[i])@ == outcome_line(
                outcomes@[i].0@,
                outcomes@[i].1,
                "Created topic "@ + outcomes@[i].0@ + "."@,
            ),
        r.data == json_array_value(
            Seq::new(outcomes@.len(), |i: int| created_row_value(outcomes@[i], topic_ids@[i])),
        ),
        r.failed == exists|i: int| 0 <= i < outcomes@.len() && (#[trigger] outcomes@[i]).1 is Some,
{
    let mut values: Vec<serde_json::Value> = Vec::new();
    let mut i: usize = 0;
    while i < outcomes.len()
        invariant
            i <= outcomes@.len(),
            topic_ids@.len() == outcomes@.len(),
            values@ == Seq::new(i as nat, |j: int| created_row_value(outcomes@[j], topic_ids@[j])),
        decreases outcomes@.len() - i,
    {
        let topic_id = match &topic_ids[i] {
            Some(id) => Some(id.clone()),
            None => None,
        };
        let keys = vec!["topic", "topic_id", "error"];
        let fields = vec![json_text(outcomes[i].0.clone()), json_opt_text(topic_id), kafka_error_json(&outcomes[i].1)];
        proof {
            assert(keys@.map_values(|k: &str| k@) =~= seq!["topic"@, "topic_id"@, "error"@]);
            assert(opt_text(topic_id) == opt_text(topic_ids@[i as int]));
            assert(fields@ =~= seq![
                json_text_value(outcomes@[i as int].0@),
                json_opt_text_value(opt_text(topic_ids@[i as int])),
                kafka_error_value(outcomes@[i as int].1),
            ]);
        }
        let value = json_fields(keys, fields);
        proof {
            assert(values@.push(value) =~= Seq::new(
                (i + 1) as nat,
                |j: int| created_row_value(outcomes@[j], topic_ids@[j]),
            ));
        }
        values.push(value);
        i = i + 1;
    }
    CommandResult::rows(outcome_lines(outcomes, "Created topic "), json_array(values), any_failed(outcomes))
}

/// The JSON row of one created ACL: its error.
pub open spec fn acl_outcome_value(error: Option<KafkaErrorDto>) -> serde_json::Value {
    json_object_value(seq!["error"@], seq![kafka_error_value(error)])
}

/// What `--add` reports: one line, whether the ACL was created, a JSON row
/// per outcome with its error, and a failure when the broker refused any.
pub fn acl_created_result(errors: &Vec<Option<KafkaErrorDto>>) -> (r: CommandResult)
    ensures
        r.failed == exists|i: int| 0 <= i < errors@.len() && (#[trigger] errors@[i]) is Some,
        r.human@.len() == 1,
        r.human@[0]@ == (if r.failed { "ACL creation failed"@ } else { "ACL created"@ }),
        r.data == json_array_value(Seq::new(errors@.len(), |i: int| acl_outcome_value(errors@[i]))),
{
    let mut values: Vec<serde_json::Value> = Vec::new();
    let mut failed = false;
    let mut i: usize = 0;
    while i < errors.len()
        invariant
            i <= errors@.len(),
            values@ == Seq::new(i as nat, |j: int| acl_outcome_value(errors@[j])),
            failed == exists|j: int| 0 <= j < i && (#[trigger] errors@[j]) is Some,
        decreases errors@.len() - i,
    {
        let keys = vec!["error"];
        let fields = vec![kafka_error_json(&errors[i])];
        proof {
            assert(keys@.map_values(|k: &str| k@) =~= seq!["error"@]);
            assert(fields@ =~= seq![kafka_error_value(errors@[i as int])]);
        }
        let value = json_fields(keys, fields);
        proof {
            assert(values@.push(value) =~= Seq::new((i + 1) as nat, |j: int| acl_outcome_value(errors@[j])));
        }
        values.push(value);
        if errors[i].is_some() {
            failed = true;
        }
        proof {
            if failed {
                if errors@[i as int] is None {
                    let j = choose|j: int| 0 <= j < i && (#[trigger] errors@[j]) is Some;
                    assert(0 <= j < i + 1 && errors@[j] is Some);
                } else {
                    assert(0 <= i < i + 1 && errors@[i as int] is Some);
                }
            }
        }
        i = i + 1;
    }
    let mut human: Vec<String> = Vec::new();
    human.push(acl_created_line(failed));
    CommandResult::rows(human, json_array(values), failed)
}

/// An ACL as the broker lists it, each part by its name.
pub struct AclEntryText {
    pub resource_type: String,
    pub resource_name: String,
    pub pattern_type: String,
    pub principal: String,
    pub host: String,
    pub operation: String,
    pub permission: String,
}

/// The JSON row of a listed ACL.
pub open spec fn acl_entry_value(e: AclEntryText) -> serde_json::Value {
    json_object_value(
        seq![
            "resource_type"@,
            "resource_name"@,
            "pattern_type"@,
            "principal"@,
            "host"@,
            "operation"@,
            "permission"@,
        ],
        seq![
            json_text_value(e.resource_type@),
            json_text_value(e.resource_name@),
            json_text_value(e.pattern_type@),
            json_text_value(e.principal@),
            json_text_value(e.host@),
            json_text_value(e.operation@),
            json_text_value(e.permission@),
        ],
    )
}

/// What `--list` and `--remove` report of the ACLs: a line per ACL (its
/// resource, principal, operation and permission), its JSON row, and no
/// failure.
pub fn acl_entries_result(entries: &Vec<AclEntryText>) -> (r: CommandResult)
    ensures
        r.human@.len() == entries@.len(),
        forall|i: int|
            0 <= i < r.human@.len() ==> (#[trigger] r.human@[i])@ == entries@[i].resource_type@ + "\t"@
                + entries@[i].resource_name@ + "\t"@ + entries@[i].principal@ + "\t"@ + entries@[i].operation@
                + "\t"@ + entries@[i].permission@,
        r.data == json_array_value(Seq::new(entries@.len(), |i: int| acl_entry_value(entries@[i]))),
        !r.failed,
{
    let mut human: Vec<String> = Vec::new();
    let mut values: Vec<serde_json::Value> = Vec::new();
    let mut i: usize = 0;
    while i < entries.len()
        invariant
            i <= entries@.len(),
            human@.len() == i,
            forall|j: int|
                0 <= j < i ==> (#[trigger] human@[j])@ == entries@[j].resource_type@ + "\t"@ + entries@[j].resource_name@
                    + "\t"@ + entries@[j].principal@ + "\t"@ + entries@[j].operation@ + "\t"@ + entries@[j].permission@,
            values@ == Seq::new(i as nat, |j: int| acl_entry_value(entries@[j])),
        decreases entries@.len() - i,
    {
        let e = &entries[i];
        human.push(
            acl_entry_line(
                e.resource_type.as_str(),
                e.resource_name.as_str(),
                e.principal.as_str(),
                e.operation.as_str(),
                e.permission.as_str(),
            ),
        );
        let keys = vec!["resource_type", "resource_name", "pattern_type", "principal", "host", "operation", "permission"];
        let fields = vec![
            json_text(e.resource_type.clone()),
            json_text(e.resource_name.clone()),
            json_text(e.pattern_type.clone()),
            json_text(e.principal.clone()),
            json_text(e.host.clone()),
            json_text(e.operation.clone()),
            json_text(e.permission.clone()),
        ];
        proof {
            assert(keys@.map_values(|k: &str| k@) =~= seq![
                "resource_type"@,
                "resource_name"@,
                "pattern_type"@,
                "principal"@,
                "host"@,
                "operation"@,
                "permission"@,
            ]);
            assert(fields@ =~= seq![
                json_text_value(e.resource_type@),
                json_text_value(e.resource_name@),
                json_text_value(e.pattern_type@),
                json_text_value(e.principal@),
                json_text_value(e.host@),
                json_text_value(e.operation@),
                json_text_value(e.permission@),
            ]);
        }
        let value = json_fields(keys, fields);
        proof {
            assert(values@.push(value) =~= Seq::new((i + 1) as nat, |j: int| acl_entry_value(entries@[j])));
        }
        values.push(value);
        i = i + 1;
    }
    CommandResult::success(human, json_array(values))
}

/// The JSON row of one partition whose offset was reset.
pub open spec fn reset_row_value(group: Seq<char>, outcome: (String, i32, Option<KafkaErrorDto>)) -> serde_json::Value {
    json_object_value(
        seq!["group"@, "topic"@, "partition"@, "error"@],
        seq![
            json_text_value(group),
            json_text_value(outcome.0@),
            json_int_value(outcome.1 as int),
            kafka_error_value(outcome.2),
        ],
    )
}

/// What `--reset-offsets` reports: a line per partition, its JSON row, and
/// a failure when the broker refused any partition.
pub fn offsets_reset_result(group: &str, outcomes: &Vec<(String, i32, Option<KafkaErrorDto>)>) -> (r: CommandResult)
    ensures
        r.human@.len() == outcomes@.len(),
        forall|i: int|
            0 <= i < r.human@.len() ==> (#[trigger] r.human@[i])@ == outcome_line(
                group@ + "\t"@ + outcomes@[i].0@ + "\t"@ + int_text(outcomes@[i].1 as int),
                outcomes@[i].2,
                "Reset group "@ + group@ + " topic "@ + outcomes@[i].0@ + " partition "@ + int_text(
                    outcomes@[i].1 as int,
                ) + "."@,
            ),
        r.data == json_array_value(Seq::new(outcomes@.len(), |i: int| reset_row_value(group@, outcomes@[i]))),
        r.failed == exists|i: int| 0 <= i < outcomes@.len() && (#[trigger] outcomes@[i]).2 is Some,
{
    let mut human: Vec<String> = Vec::new();
    let mut values: Vec<serde_json::Value> = Vec::new();
    let mut failed = false;
    let mut i: usize = 0;
    while i < outcomes.len()
        invariant
            i <= outcomes@.len(),
            human@.len() == i,
            forall|j: int|
                0 <= j < i ==> (#[trigger] human@[j])@ == outcome_line(
                    group@ + "\t"@ + outcomes@[j].0@ + "\t"@ + int_text(outcomes@[j].1 as int),
                    outcomes@[j].2,
                    "Reset group "@ + group@ + " topic "@ + outcomes@[j].0@ + " partition "@ + int_text(
                        outcomes@[j].1 as int,
                    ) + "."@,
                ),
            values@ == Seq::new(i as nat, |j: int| reset_row_value(group@, outcomes@[j])),
            failed == exists|j: int| 0 <= j < i && (#[trigger] outcomes@[j]).2 is Some,
        decreases outcomes@.len() - i,
    {
        let outcome = &outcomes[i];
        human.push(reset_line(group, outcome.0.as_str(), outcome.1, &outcome.2));
        let keys = vec!["group", "topic", "partition", "error"];
        let fields = vec![
            json_text(group.to_string()),
            json_text(outcome.0.clone()),
            json_int(outcome.1 as i64),
            kafka_error_json(&outcome.2),
        ];
        proof {
            assert(keys@.map_values(|k: &str| k@) =~= seq!["group"@, "topic"@, "partition"@, "error"@]);
            assert(fields@ =~= seq![
                json_text_value(group@),
                json_text_value(outcome.0@),
                json_int_value(outcome.1 as int),
                kafka_error_value(outcome.2),
            ]);
        }
        let value = json_fields(keys, fields);
        proof {
            assert(values@.push(value) =~= Seq::new((i + 1) as nat, |j: int| reset_row_value(group@, outcomes@[j])));
        }
        values.push(value);
        if outcome.2.is_some() {
            failed = true;
        }
        proof {
            if failed {
                if outcomes@[i as int].2 is None {
                    let j = choose|j: int| 0 <= j < i && (#[trigger] outcomes@[j]).2 is Some;
                    assert(0 <= j < i + 1 && outcomes@[j].2 is Some);
                } else {
                    assert(0 <= i < i + 1 && outcomes@[i as int].2 is Some);
                }
            }
        }
        i = i + 1;
    }
    CommandResult::rows(human, json_array(values), failed)
}

/// The JSON row of one committed offset.
pub open spec fn offset_row_value(group: Seq<char>, offset: (String, i32, i64)) -> serde_json::Value {
    json_object_value(
        seq!["group"@, "topic"@, "partition"@, "offset"@],
        seq![
            json_text_value(group),
            json_text_value(offset.0@),
            json_int_value(offset.1 as int),
            json_int_value(offset.2 as int),
        ],
    )
}

/// What `--describe` of a group reports: a line per committed offset, its
/// JSON row, and no failure.
pub fn group_offsets_result(group: &str, offsets: &Vec<(String, i32, i64)>) -> (r: CommandResult)
    ensures
        r.human@.len() == offsets@.len(),
        forall|i: int|
            0 <= i < r.human@.len() ==> (#[trigger] r.human@[i])@ == group@ + "\t"@ + json_string_text(
                offsets@[i].0@,
            ) + "\t"@ + int_text(offsets@[i].1 as int) + "\t"@ + int_text(offsets@[i].2 as int),
        r.data == json_array_value(Seq::new(offsets@.len(), |i: int| offset_row_value(group@, offsets@[i]))),
        !r.failed,
{
    let mut human: Vec<String> = Vec::new();
    let mut values: Vec<serde_json::Value> = Vec::new();
    let mut i: usize = 0;
    while i < offsets.len()
        invariant
            i <= offsets@.len(),
            human@.len() == i,
            forall|j: int|
                0 <= j < i ==> (#[trigger] human@[j])@ == group@ + "\t"@ + json_string_text(offsets@[j].0@) + "\t"@
                    + int_text(offsets@[j].1 as int) + "\t"@ + int_text(offsets@[j].2 as int),
            values@ == Seq::new(i as nat, |j: int| offset_row_value(group@, offsets@[j])),
        decreases offsets@.len() - i,
    {
        let offset = &offsets[i];
        human.push(group_offset_line(group, offset.0.as_str(), offset.1, offset.2));
        let keys = vec!["group", "topic", "partition", "offset"];
        let fields = vec![
            json_text(group.to_string()),
            json_text(offset.0.clone()),
            json_int(offset.1 as i64),
            json_int(offset.2),
        ];
        proof {
            assert(keys@.map_values(|k: &str| k@) =~= seq!["group"@, "topic"@, "partition"@, "offset"@]);
            assert(fields@ =~= seq![
                json_text_value(group@),
                json_text_value(offset.0@),
                json_int_value(offset.1 as int),
                json_int_value(offset.2 as int),
            ]);
        }
        let value = json_fields(keys, fields);
        proof {
            assert(values@.push(value) =~= Seq::new((i + 1) as nat, |j: int| offset_row_value(group@, offsets@[j])));
        }
        values.push(value);
        i = i + 1;
    }
    CommandResult::success(human, json_array(values))
}

/// The JSON row of a feature's version range.
pub open spec fn feature_range_value(r: FeatureRange) -> serde_json::Value {
    json_object_value(
        seq!["feature"@, "min"@, "max"@],
        seq![json_text_value(r.name@), json_int_value(r.min_version as int), json_int_value(r.max_version as int)],
    )
}

/// The JSON rows of feature ranges, in order.
pub open spec fn feature_ranges_value(ranges: Seq<FeatureRange>) -> serde_json::Value {
    json_array_value(Seq::new(ranges.len(), |i: int| feature_range_value(ranges[i])))
}

fn feature_ranges_json(ranges: &Vec<FeatureRange>) -> (v: serde_json::Value)
    ensures
        v == feature_ranges_value(ranges@),
{
    let mut values: Vec<serde_json::Value> = Vec::new();
    let mut i: usize = 0;
    while i < ranges.len()
        invariant
            i <= ranges@.len(),
            values@ == Seq::new(i as nat, |j: int| feature_range_value(ranges@[j])),
        decreases ranges@.len() - i,
    {
        let r = &ranges[i];
        let keys = vec!["feature", "min", "max"];
        let fields = vec![json_text(r.name.clone()), json_int(r.min_version as i64), json_int(r.max_version as i64)];
        proof {
            assert(keys@.map_values(|k: &str| k@) =~= seq!["feature"@, "min"@, "max"@]);
            assert(fields@ =~= seq![
                json_text_value(r.name@),
                json_int_value(r.min_version as int),
                json_int_value(r.max_version as int),
            ]);
        }
        let value = json_fields(keys, fields);
        proof {
            assert(values@.push(value) =~= Seq::new((i + 1) as nat, |j: int| feature_range_value(ranges@[j])));
        }
        values.push(value);
        i = i + 1;
    }
    json_array(values)
}

/// The JSON of what `--describe` reports of the features.
pub open spec fn features_value(supported: Seq<FeatureRange>, finalized: Seq<FeatureRange>, epoch: i64) -> serde_json::Value {
    json_object_value(
        seq!["supported"@, "finalized"@, "finalized_features_epoch"@],
        seq![feature_ranges_value(supported), feature_ranges_value(finalized), json_int_value(epoch as int)],
    )
}

/// What `--describe` reports of the features: a line per supported feature
/// with its finalized range, the ranges and epoch as JSON, and no failure.
pub fn features_result(supported: &Vec<FeatureRange>, finalized: &Vec<FeatureRange>, epoch: i64) -> (r: CommandResult)
    ensures
        r.human@.len() == supported@.len(),
        forall|i: int|
            0 <= i < r.human@.len() ==> (#[trigger] r.human@[i])@ == supported@[i].name@ + "\t"@ + range_text(
                supported@[i],
            ) + "\t"@ + finalized_text(finalized@, supported@[i].name@),
        r.data == features_value(supported@, finalized@, epoch),
        !r.failed,
{
    let mut human: Vec<String> = Vec::new();
    let mut i: usize = 0;
    while i < supported.len()
        invariant
            i <= supported@.len(),
            human@.len() == i,
            forall|j: int|
                0 <= j < i ==> (#[trigger] human@[j])@ == supported@[j].name@ + "\t"@ + range_text(supported@[j])
                    + "\t"@ + finalized_text(finalized@, supported@[j].name@),
        decreases supported@.len() - i,
    {
        human.push(feature_line(&supported[i], finalized));
        i = i + 1;
    }
    let keys = vec!["supported", "finalized", "finalized_features_epoch"];
    let fields = vec![feature_ranges_json(supported), feature_ranges_json(finalized), json_int(epoch)];
    proof {
        assert(keys@.map_values(|k: &str| k@) =~= seq!["supported"@, "finalized"@, "finalized_features_epoch"@]);
        assert(fields@ =~= seq![feature_ranges_value(supported@), feature_ranges_value(finalized@), json_int_value(epoch as int)]);
    }
    CommandResult::success(human, json_fields(keys, fields))
}

/// The lines of a configuration listing: for each entity in order, a line
/// per override, `<entity>\t<key>=<value>`.
pub open spec fn config_lines(items: Seq<(String, Vec<(String, String)>)>) -> Seq<Seq<char>>
    decreases items.len(),
{
    if items.len() == 0 {
        Seq::empty()
    } else {
        let last = items.last();
        config_lines(items.drop_last()) + Seq::new(
            last.1@.len(),
            |j: int| last.0@ + "\t"@ + last.1@[j].0@ + "="@ + last.1@[j].1@,
        )
    }
}

/// The JSON object of an entity's overrides, keyed by name.
pub open spec fn overrides_value(overrides: Seq<(String, String)>) -> serde_json::Value {
    json_object_value(
        Seq::new(overrides.len(), |j: int| overrides[j].0@),
        Seq::new(overrides.len(), |j: int| json_text_value(overrides[j].1@)),
    )
}

/// The JSON row of one entity's configuration.
pub open spec fn config_row_value(entity_type: Seq<char>, item: (String, Vec<(String, String)>)) -> serde_json::Value {
    json_object_value(
        seq!["entity_type"@, "entity_name"@, "configs"@],
        seq![json_text_value(entity_type), json_text_value(item.0@), overrides_value(item.1@)],
    )
}

fn overrides_json(overrides: &Vec<(String, String)>) -> (v: serde_json::Value)
    ensures
        v == overrides_value(overrides@),
{
    let mut keys: Vec<String> = Vec::new();
    let mut values: Vec<serde_json::Value> = Vec::new();
    let mut i: usize = 0;
    while i < overrides.len()
        invariant
            i <= overrides@.len(),
            keys@.len() == i,
            keys@.map_values(|k: String| k@) == Seq::new(i as nat, |j: int| overrides@[j].0@),
            values@ == Seq::new(i as nat, |j: int| json_text_value(overrides@[j].1@)),
        decreases overrides@.len() - i,
    {
        let key = overrides[i].0.clone();
        let value = json_text(overrides[i].1.clone());
        proof {
            assert(key@ == overrides@[i as int].0@);
            assert(keys@.push(key).map_values(|k: String| k@) =~= keys@.map_values(|k: String| k@).push(key@));
            assert(Seq::new(i as nat, |j: int| overrides@[j].0@).push(key@) =~= Seq::new(
                (i + 1) as nat,
                |j: int| overrides@[j].0@,
            ));
            assert(values@.push(value) =~= Seq::new((i + 1) as nat, |j: int| json_text_value(overrides@[j].1@)));
        }
        keys.push(key);
        values.push(value);
        i = i + 1;
    }
    json_object(keys, values)
}

/// What `--describe` reports of configurations: a line per override, a
/// JSON row per entity with its overrides, and no failure.
pub fn configs_result(entity_type: &str, items: &Vec<(String, Vec<(String, String)>)>) -> (r: CommandResult)
    ensures
        r.human@.map_values(|l: String| l@) == config_lines(items@),
        r.data == json_array_value(Seq::new(items@.len(), |i: int| config_row_value(entity_type@, items@[i]))),
        !r.failed,
{
    let mut human: Vec<String> = Vec::new();
    let mut values: Vec<serde_json::Value> = Vec::new();
    let mut i: usize = 0;
    while i < items.len()
        invariant
            i <= items@.len(),
            human@.map_values(|l: String| l@) == config_lines(items@.subrange(0, i as int)),
            values@ == Seq::new(i as nat, |j: int| config_row_value(entity_type@, items@[j])),
        decreases items@.len() - i,
    {
        let item = &items[i];
        let ghost before = human@.map_values(|l: String| l@);
        let mut k: usize = 0;
        while k < item.1.len()
            invariant
                k <= item.1@.len(),
                human@.map_values(|l: String| l@) == before + Seq::new(
                    k as nat,
                    |j: int| item.0@ + "\t"@ + item.1@[j].0@ + "="@ + item.1@[j].1@,
                ),
            decreases item.1@.len() - k,
        {
            let line = config_line(item.0.as_str(), item.1[k].0.as_str(), item.1[k].1.as_str());
            proof {
                assert(human@.push(line).map_values(|l: String| l@) =~= human@.map_values(|l: String| l@).push(line@));
                assert(before + Seq::new(
                    (k + 1) as nat,
                    |j: int| item.0@ + "\t"@ + item.1@[j].0@ + "="@ + item.1@[j].1@,
                ) =~= (before + Seq::new(
                    k as nat,
                    |j: int| item.0@ + "\t"@ + item.1@[j].0@ + "="@ + item.1@[j].1@,
                )).push(line@));
            }
            human.push(line);
            k = k + 1;
        }
        proof {
            let upto = items@.subrange(0, i + 1);
            assert(upto.drop_last() =~= items@.subrange(0, i as int));
            assert(upto.last() == items@[i as int]);
        }
        let keys = vec!["entity_type", "entity_name", "configs"];
        let fields = vec![json_text(entity_type.to_string()), json_text(item.0.clone()), overrides_json(&item.1)];
        proof {
            assert(keys@.map_values(|k: &str| k@) =~= seq!["entity_type"@, "entity_name"@, "configs"@]);
            assert(fields@ =~= seq![json_text_value(entity_type@), json_text_value(item.0@), overrides_value(item.1@)]);
        }
        let value = json_fields(keys, fields);
        proof {
            assert(values@.push(value) =~= Seq::new((i + 1) as nat, |j: int| config_row_value(entity_type@, items@[j])));
        }
        values.push(value);
        i = i + 1;
    }
    assert(items@.subrange(0, i as int) =~= items@);
    CommandResult::success(human, json_array(values))
}

/// The JSON row of the reassignment command: the topic and the status.
pub open spec fn reassignment_value(topic: Seq<char>, status: Seq<char>) -> serde_json::Value {
    json_object_value(seq!["topic"@, "status"@], seq![json_text_value(topic), json_text_value(status)])
}

/// What the reassignment command reports for the status the broker gave:
/// its line, the topic and status as JSON, and, under `--verify`, a failure
/// unless the replicas are in sync.
pub fn reassignment_result(verify: bool, topic: &str, status: &str) -> (r: CommandResult)
    ensures
        r.human@.len() == 1,
        r.human@[0]@ == topic@ + ": "@ + status@,
        r.data == reassignment_value(topic@, status@),
        r.failed == (verify && status@ != "InSync"@),
{
    let line = reassignment_line(topic, status);
    let mut human: Vec<String> = Vec::new();
    human.push(line);
    let keys = vec!["topic", "status"];
    let fields = vec![json_text(topic.to_string()), json_text(status.to_string())];
    proof {
        assert(keys@.map_values(|k: &str| k@) =~= seq!["topic"@, "status"@]);
        assert(fields@ =~= seq![json_text_value(topic@), json_text_value(status@)]);
    }
    CommandResult::rows(human, json_fields(keys, fields), reassignment_incomplete(verify, status))
}

} // verus!

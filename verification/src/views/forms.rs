//! The mutation forms: which mutations exist, which page shows each one,
//! and the HTML of a form.
//!
//! The server ships no JavaScript, so a control that mutates the cluster has
//! to be a form that the browser itself submits. The hidden token proves
//! that the signed-in operator asked for the mutation; the server rejects a
//! body without it.

use vstd::prelude::*;

use crate::permissions::Capabilities;
use crate::text::{escaped, push_escaped_text, push_str};

verus! {

/// The form field that carries the CSRF token.
pub const CSRF_FIELD_NAME: &'static str = "csrf_token";

/// Every mutation the UI offers, one per endpoint.
#[derive(Debug, Clone, Copy, PartialEq, Eq, Structural)]
pub enum MutationKind {
    CreateTopic,
    AddPartitions,
    AlterTopicConfigs,
    DeleteTopic,
    CreateAcl,
    DeleteAcl,
    UpsertScram,
    DeleteScram,
    SetQuota,
    RemoveQuota,
    MoveReplica,
}

#[derive(Debug, Clone, Copy, PartialEq, Eq, Structural)]
pub enum FieldKind {
    Text,
    Number,
    Password,
    Hidden,
}

/// One input of a rendered mutation form.
#[derive(Debug, Clone, Copy, PartialEq, Eq)]
pub struct FormField {
    pub name: &'static str,
    pub label: &'static str,
    pub kind: FieldKind,
    pub value: &'static str,
}

impl FieldKind {
    pub open spec fn spec_text(self) -> Seq<char> {
        match self {
            FieldKind::Text => "text"@,
            FieldKind::Number => "number"@,
            FieldKind::Password => "password"@,
            FieldKind::Hidden => "hidden"@,
        }
    }

    pub fn text(self) -> (s: &'static str)
        ensures
            s@ == self.spec_text(),
    {
        match self {
            FieldKind::Text => "text",
            FieldKind::Number => "number",
            FieldKind::Password => "password",
            FieldKind::Hidden => "hidden",
        }
    }
}

fn text_field(name: &'static str, label: &'static str, value: &'static str) -> (f: FormField)
    ensures
        f == (FormField { name, label, kind: FieldKind::Text, value }),
{
    FormField { name, label, kind: FieldKind::Text, value }
}

fn number_field(name: &'static str, label: &'static str, value: &'static str) -> (f: FormField)
    ensures
        f == (FormField { name, label, kind: FieldKind::Number, value }),
{
    FormField { name, label, kind: FieldKind::Number, value }
}

impl MutationKind {
    /// The endpoint the form posts to.
    pub open spec fn spec_action(self) -> Seq<char> {
        match self {
            MutationKind::CreateTopic => "/topics/create"@,
            MutationKind::AddPartitions => "/topics/partitions"@,
            MutationKind::AlterTopicConfigs => "/topics/configs"@,
            MutationKind::DeleteTopic => "/topics/delete"@,
            MutationKind::CreateAcl => "/acls/create"@,
            MutationKind::DeleteAcl => "/acls/delete"@,
            MutationKind::UpsertScram => "/users/scram/upsert"@,
            MutationKind::DeleteScram => "/users/scram/delete"@,
            MutationKind::SetQuota => "/quotas/upsert"@,
            MutationKind::RemoveQuota => "/quotas/delete"@,
            MutationKind::MoveReplica => "/log-dirs/move"@,
        }
    }

    pub open spec fn spec_label(self) -> Seq<char> {
        match self {
            MutationKind::CreateTopic => "Create Topic"@,
            MutationKind::AddPartitions => "Add Partitions"@,
            MutationKind::AlterTopicConfigs => "Alter Topic Configs"@,
            MutationKind::DeleteTopic => "Delete Topic"@,
            MutationKind::CreateAcl => "Create ACL"@,
            MutationKind::DeleteAcl => "Delete ACL"@,
            MutationKind::UpsertScram => "Upsert SCRAM-SHA-512"@,
            MutationKind::DeleteScram => "Delete SCRAM User"@,
            MutationKind::SetQuota => "Set Quota"@,
            MutationKind::RemoveQuota => "Remove Quota"@,
            MutationKind::MoveReplica => "Move Replica"@,
        }
    }

    /// The capability a mutation needs: the form is shown, and the server
    /// takes the request, only when the operator has it.
    pub open spec fn spec_permitted(self, c: Capabilities) -> bool {
        match self {
            MutationKind::CreateTopic => c.create_topics,
            MutationKind::AddPartitions | MutationKind::AlterTopicConfigs => c.alter_topics,
            MutationKind::DeleteTopic => c.delete_topics,
            MutationKind::CreateAcl | MutationKind::DeleteAcl => c.alter_acls,
            MutationKind::UpsertScram | MutationKind::DeleteScram => c.alter_users,
            MutationKind::SetQuota | MutationKind::RemoveQuota => c.alter_quotas,
            MutationKind::MoveReplica => c.alter_log_dirs,
        }
    }

    pub open spec fn spec_fields(self) -> Seq<FormField> {
        match self {
            MutationKind::CreateTopic => seq![
                FormField { name: "name", label: "Name", kind: FieldKind::Text, value: "" },
                FormField { name: "partitions", label: "Partitions", kind: FieldKind::Number, value: "1" },
                FormField { name: "replicas", label: "Replicas", kind: FieldKind::Number, value: "1" },
                FormField { name: "configs", label: "Configs (name=value,name=value)", kind: FieldKind::Text, value: "" },
            ],
            MutationKind::AddPartitions => seq![
                FormField { name: "topic", label: "Topic", kind: FieldKind::Text, value: "" },
                FormField { name: "total_count", label: "Total partitions", kind: FieldKind::Number, value: "1" },
            ],
            MutationKind::AlterTopicConfigs => seq![
                FormField { name: "resource_type", label: "", kind: FieldKind::Hidden, value: "topic" },
                FormField { name: "resource_name", label: "Topic", kind: FieldKind::Text, value: "" },
                FormField { name: "configs", label: "Configs (name=value,name=value)", kind: FieldKind::Text, value: "" },
            ],
            MutationKind::DeleteTopic => seq![
                FormField { name: "name", label: "Name", kind: FieldKind::Text, value: "" },
            ],
            MutationKind::CreateAcl | MutationKind::DeleteAcl => acl_fields_spec(),
            MutationKind::UpsertScram => seq![
                FormField { name: "username", label: "Username", kind: FieldKind::Text, value: "" },
                FormField { name: "password", label: "Password", kind: FieldKind::Password, value: "" },
                FormField { name: "iterations", label: "Iterations", kind: FieldKind::Number, value: "4096" },
            ],
            MutationKind::DeleteScram => seq![
                FormField { name: "username", label: "Username", kind: FieldKind::Text, value: "" },
            ],
            MutationKind::SetQuota => seq![
                FormField { name: "entity", label: "User", kind: FieldKind::Text, value: "" },
                FormField { name: "quota_type", label: "Quota", kind: FieldKind::Text, value: "producer_byte_rate" },
                FormField { name: "value", label: "Value", kind: FieldKind::Text, value: "" },
            ],
            MutationKind::RemoveQuota => seq![
                FormField { name: "entity", label: "User", kind: FieldKind::Text, value: "" },
                FormField { name: "quota_type", label: "Quota", kind: FieldKind::Text, value: "producer_byte_rate" },
            ],
            MutationKind::MoveReplica => seq![
                FormField { name: "topic", label: "Topic", kind: FieldKind::Text, value: "" },
                FormField { name: "partition", label: "Partition", kind: FieldKind::Number, value: "0" },
                FormField { name: "destination_log_dir", label: "Destination log dir", kind: FieldKind::Text, value: "" },
            ],
        }
    }

    pub fn action(self) -> (s: &'static str)
        ensures
            s@ == self.spec_action(),
    {
        match self {
            MutationKind::CreateTopic => "/topics/create",
            MutationKind::AddPartitions => "/topics/partitions",
            MutationKind::AlterTopicConfigs => "/topics/configs",
            MutationKind::DeleteTopic => "/topics/delete",
            MutationKind::CreateAcl => "/acls/create",
            MutationKind::DeleteAcl => "/acls/delete",
            MutationKind::UpsertScram => "/users/scram/upsert",
            MutationKind::DeleteScram => "/users/scram/delete",
            MutationKind::SetQuota => "/quotas/upsert",
            MutationKind::RemoveQuota => "/quotas/delete",
            MutationKind::MoveReplica => "/log-dirs/move",
        }
    }

    pub fn label(self) -> (s: &'static str)
        ensures
            s@ == self.spec_label(),
    {
        match self {
            MutationKind::CreateTopic => "Create Topic",
            MutationKind::AddPartitions => "Add Partitions",
            MutationKind::AlterTopicConfigs => "Alter Topic Configs",
            MutationKind::DeleteTopic => "Delete Topic",
            MutationKind::CreateAcl => "Create ACL",
            MutationKind::DeleteAcl => "Delete ACL",
            MutationKind::UpsertScram => "Upsert SCRAM-SHA-512",
            MutationKind::DeleteScram => "Delete SCRAM User",
            MutationKind::SetQuota => "Set Quota",
            MutationKind::RemoveQuota => "Remove Quota",
            MutationKind::MoveReplica => "Move Replica",
        }
    }

    pub fn is_permitted(self, c: Capabilities) -> (b: bool)
        ensures
            b == self.spec_permitted(c),
    {
        match self {
            MutationKind::CreateTopic => c.can_create_topics(),
            MutationKind::AddPartitions | MutationKind::AlterTopicConfigs => c.can_alter_topics(),
            MutationKind::DeleteTopic => c.can_delete_topics(),
            MutationKind::CreateAcl | MutationKind::DeleteAcl => c.can_alter_acls(),
            MutationKind::UpsertScram | MutationKind::DeleteScram => c.can_alter_users(),
            MutationKind::SetQuota | MutationKind::RemoveQuota => c.can_alter_quotas(),
            MutationKind::MoveReplica => c.can_alter_log_dirs(),
        }
    }

    pub fn fields(self) -> (fields: Vec<FormField>)
        ensures
            fields@ == self.spec_fields(),
    {
        let mut f: Vec<FormField> = Vec::new();
        match self {
            MutationKind::CreateTopic => {
                f.push(text_field("name", "Name", ""));
                f.push(number_field("partitions", "Partitions", "1"));
                f.push(number_field("replicas", "Replicas", "1"));
                f.push(text_field("configs", "Configs (name=value,name=value)", ""));
            },
            MutationKind::AddPartitions => {
                f.push(text_field("topic", "Topic", ""));
                f.push(number_field("total_count", "Total partitions", "1"));
            },
            MutationKind::AlterTopicConfigs => {
                f.push(FormField { name: "resource_type", label: "", kind: FieldKind::Hidden, value: "topic" });
                f.push(text_field("resource_name", "Topic", ""));
                f.push(text_field("configs", "Configs (name=value,name=value)", ""));
            },
            MutationKind::DeleteTopic => {
                f.push(text_field("name", "Name", ""));
            },
            MutationKind::CreateAcl | MutationKind::DeleteAcl => {
                f.push(text_field("resource_type", "Resource type", "topic"));
                f.push(text_field("resource_name", "Resource name", ""));
                f.push(text_field("pattern_type", "Pattern type (literal or prefixed)", "literal"));
                f.push(text_field("principal", "Principal", "User:"));
                f.push(text_field("host", "Host", "*"));
                f.push(text_field("operation", "Operation", "read"));
                f.push(text_field("permission", "Permission", "allow"));
            },
            MutationKind::UpsertScram => {
                f.push(text_field("username", "Username", ""));
                f.push(FormField { name: "password", label: "Password", kind: FieldKind::Password, value: "" });
                f.push(number_field("iterations", "Iterations", "4096"));
            },
            MutationKind::DeleteScram => {
                f.push(text_field("username", "Username", ""));
            },
            MutationKind::SetQuota => {
                f.push(text_field("entity", "User", ""));
                f.push(text_field("quota_type", "Quota", "producer_byte_rate"));
                f.push(text_field("value", "Value", ""));
            },
            MutationKind::RemoveQuota => {
                f.push(text_field("entity", "User", ""));
                f.push(text_field("quota_type", "Quota", "producer_byte_rate"));
            },
            MutationKind::MoveReplica => {
                f.push(text_field("topic", "Topic", ""));
                f.push(number_field("partition", "Partition", "0"));
                f.push(text_field("destination_log_dir", "Destination log dir", ""));
            },
        }
        assert(f@ =~= self.spec_fields());
        f
    }
}

pub open spec fn acl_fields_spec() -> Seq<FormField> {
    seq![
        FormField { name: "resource_type", label: "Resource type", kind: FieldKind::Text, value: "topic" },
        FormField { name: "resource_name", label: "Resource name", kind: FieldKind::Text, value: "" },
        FormField { name: "pattern_type", label: "Pattern type (literal or prefixed)", kind: FieldKind::Text, value: "literal" },
        FormField { name: "principal", label: "Principal", kind: FieldKind::Text, value: "User:" },
        FormField { name: "host", label: "Host", kind: FieldKind::Text, value: "*" },
        FormField { name: "operation", label: "Operation", kind: FieldKind::Text, value: "read" },
        FormField { name: "permission", label: "Permission", kind: FieldKind::Text, value: "allow" },
    ]
}

/// The HTML of one form input.
pub open spec fn spec_field_html(f: FormField) -> Seq<char> {
    if f.kind == FieldKind::Hidden {
        "<input type=\"hidden\" name=\""@ + escaped(f.name@) + "\" value=\""@ + escaped(f.value@) + "\"/>"@
    } else {
        "<label>"@ + escaped(f.label@) + " "@ + "<input type=\""@ + escaped(f.kind.spec_text()) + "\" name=\""@
            + escaped(f.name@) + "\" value=\""@ + escaped(f.value@) + "\"/>"@ + "</label>"@
    }
}

pub open spec fn spec_fields_html(fields: Seq<FormField>) -> Seq<char>
    decreases fields.len(),
{
    if fields.len() == 0 {
        Seq::empty()
    } else {
        spec_fields_html(fields.drop_last()) + spec_field_html(fields.last())
    }
}

/// The HTML of one mutation form, carrying `token`.
pub open spec fn spec_form_html(kind: MutationKind, token: Seq<char>) -> Seq<char> {
    "<form class=\"mutation-form\" method=\"post\" action=\""@ + escaped(kind.spec_action()) + "\">"@ + "<h3>"@
        + escaped(kind.spec_label()) + "</h3>"@ + "<input type=\"hidden\" name=\""@ + escaped("csrf_token"@)
        + "\" value=\""@ + escaped(token) + "\"/>"@ + spec_fields_html(kind.spec_fields()) + "<button type=\"submit\">"@
        + escaped(kind.spec_label()) + "</button>"@ + "</form>"@
}

pub open spec fn spec_forms_html(kinds: Seq<MutationKind>, token: Seq<char>) -> Seq<char>
    decreases kinds.len(),
{
    if kinds.len() == 0 {
        Seq::empty()
    } else {
        spec_forms_html(kinds.drop_last(), token) + spec_form_html(kinds.last(), token)
    }
}

fn push_field(out: &mut String, f: FormField)
    ensures
        final(out)@ == old(out)@ + spec_field_html(f),
{
    if matches!(f.kind, FieldKind::Hidden) {
        push_str(out, "<input type=\"hidden\" name=\"");
        push_escaped_text(out, f.name);
        push_str(out, "\" value=\"");
        push_escaped_text(out, f.value);
        push_str(out, "\"/>");
    } else {
        push_str(out, "<label>");
        push_escaped_text(out, f.label);
        push_str(out, " ");
        push_str(out, "<input type=\"");
        push_escaped_text(out, f.kind.text());
        push_str(out, "\" name=\"");
        push_escaped_text(out, f.name);
        push_str(out, "\" value=\"");
        push_escaped_text(out, f.value);
        push_str(out, "\"/>");
        push_str(out, "</label>");
    }
}

/// Appends one mutation form carrying `token`.
pub fn push_form(out: &mut String, kind: MutationKind, token: &str)
    ensures
        final(out)@ == old(out)@ + spec_form_html(kind, token@),
{
    let ghost start = out@;
    push_str(out, "<form class=\"mutation-form\" method=\"post\" action=\"");
    push_escaped_text(out, kind.action());
    push_str(out, "\">");
    push_str(out, "<h3>");
    push_escaped_text(out, kind.label());
    push_str(out, "</h3>");
    push_str(out, "<input type=\"hidden\" name=\"");
    push_escaped_text(out, CSRF_FIELD_NAME);
    push_str(out, "\" value=\"");
    push_escaped_text(out, token);
    push_str(out, "\"/>");
    let ghost before_fields = out@;
    let fields = kind.fields();
    let mut i: usize = 0;
    while i < fields.len()
        invariant
            fields@ == kind.spec_fields(),
            i <= fields@.len(),
            out@ == before_fields + spec_fields_html(fields@.subrange(0, i as int)),
        decreases fields@.len() - i,
    {
        push_field(out, fields[i]);
        proof {
            assert(fields@.subrange(0, i + 1).drop_last() =~= fields@.subrange(0, i as int));
        }
        i = i + 1;
    }
    assert(fields@.subrange(0, i as int) =~= fields@);
    push_str(out, "<button type=\"submit\">");
    push_escaped_text(out, kind.label());
    push_str(out, "</button>");
    push_str(out, "</form>");
}

/// Appends the forms of `kinds`, in order.
pub fn push_forms(out: &mut String, kinds: &Vec<MutationKind>, token: &str)
    ensures
        final(out)@ == old(out)@ + spec_forms_html(kinds@, token@),
{
    let ghost start = out@;
    let mut i: usize = 0;
    while i < kinds.len()
        invariant
            i <= kinds@.len(),
            out@ == start + spec_forms_html(kinds@.subrange(0, i as int), token@),
        decreases kinds@.len() - i,
    {
        push_form(out, kinds[i], token);
        proof {
            assert(kinds@.subrange(0, i + 1).drop_last() =~= kinds@.subrange(0, i as int));
        }
        i = i + 1;
    }
    assert(kinds@.subrange(0, i as int) =~= kinds@);
}

} // verus!

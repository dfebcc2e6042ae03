//! The pages of the admin UI, what each one shows, and their HTML.

use vstd::prelude::*;

use super::forms::{push_forms, spec_forms_html, MutationKind};
use super::layout::{permitted_routes, sidebar_links_for, sidebar_routes, SidebarLink, links_for};
use super::Route;
use crate::dto::{AclRow, GroupRow, KafkaErrorDto, LogDirRow, QuotaRow, TopicRow, UserRow};
use crate::permissions::Capabilities;
use crate::text::{escaped, int_text, push_escaped, push_escaped_text, push_int_text, push_str, title_escaped};

verus! {

/// What a read page knows about its rows.
#[derive(Clone, PartialEq, Eq)]
pub enum ReadRouteState<T> {
    Loading,
    AuthenticationRequired,
    /// The session is valid and the operator's ACLs do not permit the page.
    NotPermitted,
    LoadFailed,
    Rows(Vec<T>),
}

#[derive(Debug, Clone, Copy, PartialEq, Eq, Structural)]
pub enum LoginRouteState {
    Form,
    AuthenticationFailed,
    /// No broker answered, so the UI cannot say whether the credentials are
    /// good.
    BrokerUnavailable,
}

/// What the shell knows about the operator it renders for.
///
/// An anonymous view carries no CSRF token, so it renders no mutation form:
/// nothing can prove that a signed-in operator asked for the mutation.
#[derive(Debug, PartialEq, Eq)]
pub struct OperatorView {
    capabilities: Capabilities,
    csrf_token: Option<String>,
}

impl OperatorView {
    /// A view without a token is the anonymous one: it is made only by
    /// `anonymous`, with every capability.
    #[verifier::type_invariant]
    closed spec fn tokenless_is_anonymous(self) -> bool {
        self.csrf_token is None ==> self.capabilities == Capabilities::spec_all()
    }

    pub closed spec fn spec_capabilities(&self) -> Capabilities {
        self.capabilities
    }

    pub closed spec fn spec_token(&self) -> Option<Seq<char>> {
        match &self.csrf_token {
            Some(t) => Some(t@),
            None => None,
        }
    }

    pub closed spec fn spec_anonymous() -> OperatorView {
        OperatorView { capabilities: Capabilities::spec_all(), csrf_token: None }
    }

    pub fn new(capabilities: Capabilities, csrf_token: String) -> (v: OperatorView)
        ensures
            v.spec_capabilities() == capabilities,
            v.spec_token() == Some(csrf_token@),
    {
        OperatorView { capabilities, csrf_token: Some(csrf_token) }
    }

    /// The view for a page that no session stands behind.
    pub fn anonymous() -> (v: OperatorView)
        ensures
            v == OperatorView::spec_anonymous(),
            v.spec_capabilities() == Capabilities::spec_all(),
            v.spec_token() is None,
    {
        OperatorView { capabilities: Capabilities::all(), csrf_token: None }
    }

    pub fn capabilities(&self) -> (c: Capabilities)
        ensures
            c == self.spec_capabilities(),
    {
        self.capabilities
    }

    /// The token that the view's forms carry; none exactly for the
    /// anonymous view.
    pub fn csrf_token(&self) -> (t: Option<&str>)
        ensures
            t matches Some(s) ==> self.spec_token() == Some(s@),
            t is None ==> self.spec_token() is None,
            t is None <==> *self == OperatorView::spec_anonymous(),
    {
        proof {
            use_type_invariant(self);
        }
        match &self.csrf_token {
            Some(t) => Some(t.as_str()),
            None => None,
        }
    }
}

impl Clone for OperatorView {
    /// The same capabilities and token.
    fn clone(&self) -> (v: OperatorView)
        ensures
            v == *self,
    {
        proof {
            use_type_invariant(self);
        }
        let csrf_token = match &self.csrf_token {
            Some(t) => Some(t.clone()),
            None => None,
        };
        OperatorView { capabilities: self.capabilities, csrf_token }
    }
}

impl Default for OperatorView {
    /// The anonymous view.
    fn default() -> (v: OperatorView)
        ensures
            v == OperatorView::spec_anonymous(),
    {
        OperatorView::anonymous()
    }
}

/// A page to render, with what it shows.
#[derive(Clone, PartialEq, Eq)]
pub enum RoutePage {
    Overview { message: Option<&'static str> },
    Login { state: LoginRouteState },
    Topics { state: ReadRouteState<TopicRow> },
    Groups { state: ReadRouteState<GroupRow> },
    Acls { state: ReadRouteState<AclRow> },
    Users { state: ReadRouteState<UserRow> },
    Quotas {
        state: ReadRouteState<QuotaRow>,
        /// The entity the rows belong to, when the operator asked for one
        /// other than their own account.
        entity: Option<String>,
    },
    LogDirs { state: ReadRouteState<LogDirRow> },
}

impl RoutePage {
    pub open spec fn spec_for_guarded(route: Route) -> RoutePage {
        match route {
            Route::Overview => RoutePage::Overview { message: None },
            Route::Login => RoutePage::Login { state: LoginRouteState::Form },
            Route::Topics => RoutePage::Topics { state: ReadRouteState::Loading },
            Route::Groups => RoutePage::Groups { state: ReadRouteState::Loading },
            Route::Acls => RoutePage::Acls { state: ReadRouteState::Loading },
            Route::Users => RoutePage::Users { state: ReadRouteState::Loading },
            Route::Quotas => RoutePage::Quotas { state: ReadRouteState::Loading, entity: None },
            Route::LogDirs => RoutePage::LogDirs { state: ReadRouteState::Loading },
        }
    }

    pub open spec fn spec_title(&self) -> Seq<char> {
        match self {
            RoutePage::Overview { .. } => "Krabka Admin"@,
            RoutePage::Login { .. } => "Sign in to Krabka"@,
            RoutePage::Topics { .. } => "Topics"@,
            RoutePage::Groups { .. } => "Consumer Groups"@,
            RoutePage::Acls { .. } => "ACLs"@,
            RoutePage::Users { .. } => "SCRAM Users"@,
            RoutePage::Quotas { .. } => "Quotas"@,
            RoutePage::LogDirs { .. } => "Log Dirs"@,
        }
    }

    pub fn overview() -> (p: RoutePage)
        ensures
            p == (RoutePage::Overview { message: None }),
    {
        RoutePage::Overview { message: None }
    }

    pub fn signed_in() -> (p: RoutePage)
        ensures
            p matches RoutePage::Overview { message: Some(m) } && m@ == "Signed in."@,
    {
        RoutePage::Overview { message: Some("Signed in.") }
    }

    pub fn login() -> (p: RoutePage)
        ensures
            p == (RoutePage::Login { state: LoginRouteState::Form }),
    {
        RoutePage::Login { state: LoginRouteState::Form }
    }

    pub fn login_failed() -> (p: RoutePage)
        ensures
            p == (RoutePage::Login { state: LoginRouteState::AuthenticationFailed }),
    {
        RoutePage::Login { state: LoginRouteState::AuthenticationFailed }
    }

    pub fn login_broker_unavailable() -> (p: RoutePage)
        ensures
            p == (RoutePage::Login { state: LoginRouteState::BrokerUnavailable }),
    {
        RoutePage::Login { state: LoginRouteState::BrokerUnavailable }
    }

    /// The page for `route` when no session stands behind the request: the
    /// login page, whatever the route.
    pub fn for_unauthenticated_route(route: Route) -> (p: RoutePage)
        ensures
            p == RoutePage::spec_for_guarded(route.spec_guard(false)),
    {
        Self::for_guarded_route(route.guard_for_authentication(false))
    }

    /// The page for `route` for a signed-in operator, before its rows load.
    pub fn for_authenticated_route(route: Route) -> (p: RoutePage)
        ensures
            p == RoutePage::spec_for_guarded(route.spec_guard(true)),
    {
        Self::for_guarded_route(route.guard_for_authentication(true))
    }

    fn for_guarded_route(route: Route) -> (p: RoutePage)
        ensures
            p == RoutePage::spec_for_guarded(route),
    {
        match route {
            Route::Overview => Self::overview(),
            Route::Login => Self::login(),
            Route::Topics => Self::topics(ReadRouteState::Loading),
            Route::Groups => Self::groups(ReadRouteState::Loading),
            Route::Acls => Self::acls(ReadRouteState::Loading),
            Route::Users => Self::users(ReadRouteState::Loading),
            Route::Quotas => Self::quotas(ReadRouteState::Loading),
            Route::LogDirs => Self::log_dirs(ReadRouteState::Loading),
        }
    }

    pub fn topics(state: ReadRouteState<TopicRow>) -> (p: RoutePage)
        ensures
            p == (RoutePage::Topics { state }),
    {
        RoutePage::Topics { state }
    }

    pub fn groups(state: ReadRouteState<GroupRow>) -> (p: RoutePage)
        ensures
            p == (RoutePage::Groups { state }),
    {
        RoutePage::Groups { state }
    }

    pub fn acls(state: ReadRouteState<AclRow>) -> (p: RoutePage)
        ensures
            p == (RoutePage::Acls { state }),
    {
        RoutePage::Acls { state }
    }

    pub fn users(state: ReadRouteState<UserRow>) -> (p: RoutePage)
        ensures
            p == (RoutePage::Users { state }),
    {
        RoutePage::Users { state }
    }

    pub fn quotas(state: ReadRouteState<QuotaRow>) -> (p: RoutePage)
        ensures
            p == (RoutePage::Quotas { state, entity: None }),
    {
        RoutePage::Quotas { state, entity: None }
    }

    pub fn quotas_for_entity(state: ReadRouteState<QuotaRow>, entity: Option<String>) -> (p: RoutePage)
        ensures
            p == (RoutePage::Quotas { state, entity }),
    {
        RoutePage::Quotas { state, entity }
    }

    pub fn log_dirs(state: ReadRouteState<LogDirRow>) -> (p: RoutePage)
        ensures
            p == (RoutePage::LogDirs { state }),
    {
        RoutePage::LogDirs { state }
    }

    pub fn title(&self) -> (t: &'static str)
        ensures
            t@ == self.spec_title(),
    {
        match self {
            RoutePage::Overview { .. } => "Krabka Admin",
            RoutePage::Login { .. } => "Sign in to Krabka",
            RoutePage::Topics { .. } => "Topics",
            RoutePage::Groups { .. } => "Consumer Groups",
            RoutePage::Acls { .. } => "ACLs",
            RoutePage::Users { .. } => "SCRAM Users",
            RoutePage::Quotas { .. } => "Quotas",
            RoutePage::LogDirs { .. } => "Log Dirs",
        }
    }

    /// The mutations a page offers to an operator permitted everything.
    pub open spec fn spec_mutations(&self) -> Seq<MutationKind> {
        match self {
            RoutePage::Topics { .. } => seq![
                MutationKind::CreateTopic,
                MutationKind::AddPartitions,
                MutationKind::AlterTopicConfigs,
                MutationKind::DeleteTopic,
            ],
            RoutePage::Acls { .. } => seq![MutationKind::CreateAcl, MutationKind::DeleteAcl],
            RoutePage::Users { .. } => seq![MutationKind::UpsertScram, MutationKind::DeleteScram],
            RoutePage::Quotas { .. } => seq![MutationKind::SetQuota, MutationKind::RemoveQuota],
            RoutePage::LogDirs { .. } => seq![MutationKind::MoveReplica],
            _ => Seq::empty(),
        }
    }

    fn mutations(&self) -> (m: Vec<MutationKind>)
        ensures
            m@ == self.spec_mutations(),
    {
        let mut m = Vec::new();
        match self {
            RoutePage::Topics { .. } => {
                m.push(MutationKind::CreateTopic);
                m.push(MutationKind::AddPartitions);
                m.push(MutationKind::AlterTopicConfigs);
                m.push(MutationKind::DeleteTopic);
            },
            RoutePage::Acls { .. } => {
                m.push(MutationKind::CreateAcl);
                m.push(MutationKind::DeleteAcl);
            },
            RoutePage::Users { .. } => {
                m.push(MutationKind::UpsertScram);
                m.push(MutationKind::DeleteScram);
            },
            RoutePage::Quotas { .. } => {
                m.push(MutationKind::SetQuota);
                m.push(MutationKind::RemoveQuota);
            },
            RoutePage::LogDirs { .. } => {
                m.push(MutationKind::MoveReplica);
            },
            _ => {},
        }
        assert(m@ =~= self.spec_mutations());
        m
    }
}

/// The mutations of `kinds` that `capabilities` permit, in order.
pub open spec fn permitted_mutations(kinds: Seq<MutationKind>, capabilities: Capabilities) -> Seq<MutationKind>
    decreases kinds.len(),
{
    if kinds.len() == 0 {
        Seq::empty()
    } else if kinds.last().spec_permitted(capabilities) {
        permitted_mutations(kinds.drop_last(), capabilities).push(kinds.last())
    } else {
        permitted_mutations(kinds.drop_last(), capabilities)
    }
}

/// The mutation forms a page shows: none without a CSRF token, else those
/// of its mutations that the operator's ACLs permit.
pub open spec fn page_forms(page: RoutePage, operator: OperatorView) -> Seq<MutationKind> {
    if operator.spec_token() is None {
        Seq::empty()
    } else {
        permitted_mutations(page.spec_mutations(), operator.spec_capabilities())
    }
}

fn mutation_forms(page: &RoutePage, operator: &OperatorView) -> (m: Vec<MutationKind>)
    ensures
        m@ == page_forms(*page, *operator),
{
    if operator.csrf_token().is_none() {
        return Vec::new();
    }
    let capabilities = operator.capabilities();
    let all = page.mutations();
    let mut shown: Vec<MutationKind> = Vec::new();
    let mut i: usize = 0;
    while i < all.len()
        invariant
            i <= all@.len(),
            shown@ == permitted_mutations(all@.subrange(0, i as int), capabilities),
        decreases all@.len() - i,
    {
        proof {
            assert(all@.subrange(0, i + 1).drop_last() =~= all@.subrange(0, i as int));
        }
        if all[i].is_permitted(capabilities) {
            shown.push(all[i]);
        }
        i = i + 1;
    }
    assert(all@.subrange(0, i as int) =~= all@);
    shown
}

/// The text one row shows in its list item.
pub trait RowText {
    spec fn spec_line(&self) -> Seq<char>;

    fn line(&self) -> (s: String)
        ensures
            s@ == self.spec_line(),
    ;
}

impl RowText for TopicRow {
    open spec fn spec_line(&self) -> Seq<char> {
        self.name@
    }

    fn line(&self) -> (s: String) {
        self.name.clone()
    }
}

impl RowText for GroupRow {
    open spec fn spec_line(&self) -> Seq<char> {
        self.group_id@
    }

    fn line(&self) -> (s: String) {
        self.group_id.clone()
    }
}

impl RowText for AclRow {
    open spec fn spec_line(&self) -> Seq<char> {
        self.resource@ + " "@ + self.pattern_type@ + " "@ + self.principal@ + " host="@ + self.host@ + " "@
            + self.operation@ + " "@ + self.permission@
    }

    fn line(&self) -> (s: String) {
        let mut s = String::new();
        push_str(&mut s, self.resource.as_str());
        push_str(&mut s, " ");
        push_str(&mut s, self.pattern_type.as_str());
        push_str(&mut s, " ");
        push_str(&mut s, self.principal.as_str());
        push_str(&mut s, " host=");
        push_str(&mut s, self.host.as_str());
        push_str(&mut s, " ");
        push_str(&mut s, self.operation.as_str());
        push_str(&mut s, " ");
        push_str(&mut s, self.permission.as_str());
        s
    }
}

impl RowText for UserRow {
    open spec fn spec_line(&self) -> Seq<char> {
        self.username@ + " "@ + self.principal@
    }

    fn line(&self) -> (s: String) {
        let mut s = String::new();
        push_str(&mut s, self.username.as_str());
        push_str(&mut s, " ");
        push_str(&mut s, self.principal.as_str());
        s
    }
}

impl RowText for QuotaRow {
    open spec fn spec_line(&self) -> Seq<char> {
        self.entity@ + " "@ + self.quota_type@ + " "@ + self.value@
    }

    fn line(&self) -> (s: String) {
        let mut s = String::new();
        push_str(&mut s, self.entity.as_str());
        push_str(&mut s, " ");
        push_str(&mut s, self.quota_type.as_str());
        push_str(&mut s, " ");
        push_str(&mut s, self.value.as_str());
        s
    }
}

/// One log-dir line.
///
/// A directory the broker could not read carries no partition data, so the
/// row says what went wrong instead of showing the empty topic and the `-1`
/// partition that stand for "no data".
pub open spec fn log_dir_location(row: LogDirRow) -> Seq<char> {
    if row.partition < 0 {
        row.log_dir@
    } else {
        row.log_dir@ + " "@ + row.topic@ + "/"@ + int_text(row.partition as int) + "-"@ + int_text(
            row.partition_size as int,
        )
    }
}

pub open spec fn log_dir_error_suffix(error: KafkaErrorDto) -> Seq<char> {
    match error.message {
        Some(m) => " error="@ + error.name@ + " ("@ + int_text(error.code as int) + "): "@ + m@,
        None => " error="@ + error.name@ + " ("@ + int_text(error.code as int) + ")"@,
    }
}

impl RowText for LogDirRow {
    open spec fn spec_line(&self) -> Seq<char> {
        match self.error {
            None => log_dir_location(*self),
            Some(e) => log_dir_location(*self) + log_dir_error_suffix(e),
        }
    }

    fn line(&self) -> (s: String) {
        let mut s = String::new();
        push_str(&mut s, self.log_dir.as_str());
        if self.partition >= 0 {
            push_str(&mut s, " ");
            push_str(&mut s, self.topic.as_str());
            push_str(&mut s, "/");
            push_int_text(&mut s, self.partition as i64);
            push_str(&mut s, "-");
            push_int_text(&mut s, self.partition_size);
        }
        match &self.error {
            None => {},
            Some(e) => {
                push_str(&mut s, " error=");
                push_str(&mut s, e.name.as_str());
                push_str(&mut s, " (");
                push_int_text(&mut s, e.code as i64);
                match &e.message {
                    Some(m) => {
                        push_str(&mut s, "): ");
                        push_str(&mut s, m.as_str());
                    },
                    None => {
                        push_str(&mut s, ")");
                    },
                }
            },
        }
        s
    }
}

/// The fixed texts of one read page.
pub struct SectionCopy {
    pub class: &'static str,
    pub heading: &'static str,
    pub loading: &'static str,
    pub not_permitted: &'static str,
    pub load_failed: &'static str,
    pub empty: &'static str,
}

pub open spec fn spec_topics_copy() -> SectionCopy {
    SectionCopy {
        class: "admin-section topics-section",
        heading: "Topics",
        loading: "Loading topics…",
        not_permitted: "Your ACLs do not permit topic access.",
        load_failed: "Unable to load topics.",
        empty: "No topics loaded yet.",
    }
}

pub open spec fn spec_groups_copy() -> SectionCopy {
    SectionCopy {
        class: "admin-section groups-section",
        heading: "Consumer Groups",
        loading: "Loading consumer groups…",
        not_permitted: "Your ACLs do not permit consumer group access.",
        load_failed: "Unable to load consumer groups.",
        empty: "No consumer groups loaded yet.",
    }
}

pub open spec fn spec_acls_copy() -> SectionCopy {
    SectionCopy {
        class: "admin-section acls-section",
        heading: "ACLs",
        loading: "Loading ACLs…",
        not_permitted: "Your ACLs do not permit ACL access.",
        load_failed: "Unable to load ACLs.",
        empty: "No ACLs loaded yet.",
    }
}

pub open spec fn spec_users_copy() -> SectionCopy {
    SectionCopy {
        class: "admin-section users-section",
        heading: "SCRAM Users",
        loading: "Loading SCRAM users…",
        not_permitted: "Your ACLs do not permit SCRAM user access.",
        load_failed: "Unable to load SCRAM users.",
        empty: "No SCRAM users loaded yet.",
    }
}

pub open spec fn spec_quotas_copy() -> SectionCopy {
    SectionCopy {
        class: "admin-section quotas-section",
        heading: "Quotas",
        loading: "Loading quotas…",
        not_permitted: "Your ACLs do not permit quota access.",
        load_failed: "Unable to load quotas.",
        empty: "No quotas loaded yet.",
    }
}

pub open spec fn spec_log_dirs_copy() -> SectionCopy {
    SectionCopy {
        class: "admin-section log-dirs-section",
        heading: "Log Dirs",
        loading: "Loading log-dir data…",
        not_permitted: "Your ACLs do not permit log-dir access.",
        load_failed: "Unable to load log-dir data.",
        empty: "No log-dir data loaded yet.",
    }
}

/// The message a read page shows in place of rows.
pub open spec fn state_message<T>(state: ReadRouteState<T>, copy: SectionCopy) -> Seq<char> {
    match state {
        ReadRouteState::Loading => copy.loading@,
        ReadRouteState::AuthenticationRequired => "Authentication required."@,
        ReadRouteState::NotPermitted => copy.not_permitted@,
        ReadRouteState::LoadFailed => copy.load_failed@,
        ReadRouteState::Rows(_) => copy.empty@,
    }
}

pub open spec fn spec_items<T: RowText>(rows: Seq<T>) -> Seq<char>
    decreases rows.len(),
{
    if rows.len() == 0 {
        Seq::empty()
    } else {
        spec_items(rows.drop_last()) + "<li>"@ + escaped(rows.last().spec_line()) + "</li>"@
    }
}

/// What a read page shows below its heading: the list of rows, or the
/// message that stands in for them.
pub open spec fn spec_read_body<T: RowText>(state: ReadRouteState<T>, copy: SectionCopy) -> Seq<char> {
    match state {
        ReadRouteState::Rows(rows) if rows@.len() > 0 => "<ul>"@ + spec_items(rows@) + "</ul>"@,
        _ => "<p>"@ + escaped(state_message(state, copy)) + "</p>"@,
    }
}

/// The form that asks for another user's quotas. It is a `GET`, so it
/// needs no token: it changes nothing.
pub open spec fn spec_lookup_html(entity: Seq<char>) -> Seq<char> {
    "<form class=\"quota-lookup-form\" method=\"get\" action=\"/quotas\"><label>User <input type=\"text\" name=\"entity\" value=\""@
        + escaped(entity) + "\"/></label><button type=\"submit\">Show quotas</button></form>"@
}

pub open spec fn spec_section<T: RowText>(
    state: ReadRouteState<T>,
    copy: SectionCopy,
    lookup: Option<Seq<char>>,
) -> Seq<char> {
    "<section class=\""@ + copy.class@ + "\"><h2>"@ + copy.heading@ + "</h2>"@ + match lookup {
        Some(e) => spec_lookup_html(e),
        None => Seq::empty(),
    } + spec_read_body(state, copy) + "</section>"@
}

pub open spec fn option_text(entity: Option<String>) -> Seq<char> {
    match entity {
        Some(e) => e@,
        None => Seq::empty(),
    }
}

/// The main content of a page of the operations shell.
pub open spec fn spec_content(page: RoutePage) -> Seq<char> {
    match page {
        RoutePage::Overview { message } => "<section><h2>Cluster Overview</h2><p>Broker administration shell is ready.</p>"@
            + match message {
            Some(m) => "<p>"@ + escaped(m@) + "</p>"@,
            None => Seq::empty(),
        } + "</section>"@,
        RoutePage::Topics { state } => spec_section(state, spec_topics_copy(), None),
        RoutePage::Groups { state } => spec_section(state, spec_groups_copy(), None),
        RoutePage::Acls { state } => spec_section(state, spec_acls_copy(), None),
        RoutePage::Users { state } => spec_section(state, spec_users_copy(), None),
        RoutePage::Quotas { state, entity } => spec_section(state, spec_quotas_copy(), Some(option_text(entity))),
        RoutePage::LogDirs { state } => spec_section(state, spec_log_dirs_copy(), None),
        RoutePage::Login { .. } => Seq::empty(),
    }
}

pub open spec fn spec_nav_html(routes: Seq<Route>) -> Seq<char>
    decreases routes.len(),
{
    if routes.len() == 0 {
        Seq::empty()
    } else {
        spec_nav_html(routes.drop_last()) + "<a class=\"nav-link\" href=\""@ + escaped(routes.last().spec_path())
            + "\">"@ + escaped(routes.last().spec_label()) + "</a>"@
    }
}

pub open spec fn spec_sign_out_html(token: Option<Seq<char>>) -> Seq<char> {
    match token {
        Some(t) => "<form class=\"sign-out-form\" method=\"post\" action=\"/logout\"><input type=\"hidden\" name=\"csrf_token\" value=\""@
            + escaped(t) + "\"/><button type=\"submit\">Sign out</button></form>"@,
        None => Seq::empty(),
    }
}

/// The operations shell around a page: the sidebar of permitted links, the
/// sign-out form of a signed-in operator, the content, and the mutation
/// forms the operator may use.
pub open spec fn spec_shell(page: RoutePage, operator: OperatorView) -> Seq<char> {
    "<div><section class=\"operations-shell\"><aside><h1>Krabka Operations</h1><nav>"@ + spec_nav_html(
        permitted_routes(sidebar_routes(), operator.spec_capabilities()),
    ) + "</nav>"@ + spec_sign_out_html(operator.spec_token()) + "</aside><main>"@ + spec_content(page)
        + spec_forms_html(page_forms(page, operator), match operator.spec_token() {
        Some(t) => t,
        None => Seq::empty(),
    }) + "</main></section></div>"@
}

pub open spec fn spec_login_message(state: LoginRouteState) -> Option<Seq<char>> {
    match state {
        LoginRouteState::Form => None,
        LoginRouteState::AuthenticationFailed => Some("Authentication failed."@),
        LoginRouteState::BrokerUnavailable => Some(
            "No broker answered. The cluster may be down; sign in again when it is back."@,
        ),
    }
}

/// The login page: the sign-in form, or the message of a failed attempt.
pub open spec fn spec_login(state: LoginRouteState) -> Seq<char> {
    "<div><section class=\"login-shell\"><h1>Sign in to Krabka Admin</h1><p>Authentication is required before broker operations are shown.</p>"@
        + match spec_login_message(state) {
        Some(m) => "<p class=\"login-message\">"@ + escaped(m) + "</p>"@,
        None => "<form method=\"post\" action=\"/login\"><label>Username <input name=\"username\" autocomplete=\"username\"/></label><label>Password <input name=\"password\" type=\"password\" autocomplete=\"current-password\"/></label><button type=\"submit\">Sign in</button></form>"@,
    } + "</section></div>"@
}

/// The body of a page.
pub open spec fn spec_body(page: RoutePage, operator: OperatorView) -> Seq<char> {
    match page {
        RoutePage::Login { state } => spec_login(state),
        _ => spec_shell(page, operator),
    }
}

/// A whole HTML document around the body of a page.
pub open spec fn spec_render_page(page: RoutePage, operator: OperatorView) -> Seq<char> {
    "<!doctype html>\n<html lang=\"en\"><head><meta charset=\"utf-8\"><meta name=\"viewport\" content=\"width=device-width, initial-scale=1\"><title>"@
        + title_escaped(page.spec_title()) + "</title></head><body>"@ + spec_body(page, operator)
        + "</body></html>"@
}

fn topics_copy() -> (c: SectionCopy)
    ensures
        c == spec_topics_copy(),
{
    SectionCopy {
        class: "admin-section topics-section",
        heading: "Topics",
        loading: "Loading topics…",
        not_permitted: "Your ACLs do not permit topic access.",
        load_failed: "Unable to load topics.",
        empty: "No topics loaded yet.",
    }
}

fn groups_copy() -> (c: SectionCopy)
    ensures
        c == spec_groups_copy(),
{
    SectionCopy {
        class: "admin-section groups-section",
        heading: "Consumer Groups",
        loading: "Loading consumer groups…",
        not_permitted: "Your ACLs do not permit consumer group access.",
        load_failed: "Unable to load consumer groups.",
        empty: "No consumer groups loaded yet.",
    }
}

fn acls_copy() -> (c: SectionCopy)
    ensures
        c == spec_acls_copy(),
{
    SectionCopy {
        class: "admin-section acls-section",
        heading: "ACLs",
        loading: "Loading ACLs…",
        not_permitted: "Your ACLs do not permit ACL access.",
        load_failed: "Unable to load ACLs.",
        empty: "No ACLs loaded yet.",
    }
}

fn users_copy() -> (c: SectionCopy)
    ensures
        c == spec_users_copy(),
{
    SectionCopy {
        class: "admin-section users-section",
        heading: "SCRAM Users",
        loading: "Loading SCRAM users…",
        not_permitted: "Your ACLs do not permit SCRAM user access.",
        load_failed: "Unable to load SCRAM users.",
        empty: "No SCRAM users loaded yet.",
    }
}

fn quotas_copy() -> (c: SectionCopy)
    ensures
        c == spec_quotas_copy(),
{
    SectionCopy {
        class: "admin-section quotas-section",
        heading: "Quotas",
        loading: "Loading quotas…",
        not_permitted: "Your ACLs do not permit quota access.",
        load_failed: "Unable to load quotas.",
        empty: "No quotas loaded yet.",
    }
}

fn log_dirs_copy() -> (c: SectionCopy)
    ensures
        c == spec_log_dirs_copy(),
{
    SectionCopy {
        class: "admin-section log-dirs-section",
        heading: "Log Dirs",
        loading: "Loading log-dir data…",
        not_permitted: "Your ACLs do not permit log-dir access.",
        load_failed: "Unable to load log-dir data.",
        empty: "No log-dir data loaded yet.",
    }
}

fn push_read_section<T: RowText>(
    out: &mut String,
    state: &ReadRouteState<T>,
    copy: &SectionCopy,
    lookup: Option<&str>,
)
    ensures
        final(out)@ == old(out)@ + spec_section(
            *state,
            *copy,
            match lookup {
                Some(e) => Some(e@),
                None => None,
            },
        ),
{
    push_str(out, "<section class=\"");
    push_str(out, copy.class);
    push_str(out, "\"><h2>");
    push_str(out, copy.heading);
    push_str(out, "</h2>");
    match lookup {
        Some(e) => {
            push_str(
                out,
                "<form class=\"quota-lookup-form\" method=\"get\" action=\"/quotas\"><label>User <input type=\"text\" name=\"entity\" value=\"",
            );
            push_escaped_text(out, e);
            push_str(out, "\"/></label><button type=\"submit\">Show quotas</button></form>");
        },
        None => {},
    }
    let ghost before_body = out@;
    let mut listed = false;
    match state {
        ReadRouteState::Rows(rows) => {
            if rows.len() > 0 {
                listed = true;
                push_str(out, "<ul>");
                let ghost start = out@;
                let mut i: usize = 0;
                while i < rows.len()
                    invariant
                        i <= rows@.len(),
                        out@ == start + spec_items(rows@.subrange(0, i as int)),
                    decreases rows@.len() - i,
                {
                    let line = rows[i].line();
                    push_str(out, "<li>");
                    push_escaped_text(out, line.as_str());
                    push_str(out, "</li>");
                    proof {
                        assert(rows@.subrange(0, i + 1).drop_last() =~= rows@.subrange(0, i as int));
                    }
                    i = i + 1;
                }
                assert(rows@.subrange(0, i as int) =~= rows@);
                push_str(out, "</ul>");
            }
        },
        _ => {},
    }
    if !listed {
        let message = match state {
            ReadRouteState::Loading => copy.loading,
            ReadRouteState::AuthenticationRequired => "Authentication required.",
            ReadRouteState::NotPermitted => copy.not_permitted,
            ReadRouteState::LoadFailed => copy.load_failed,
            ReadRouteState::Rows(_) => copy.empty,
        };
        push_str(out, "<p>");
        push_escaped_text(out, message);
        push_str(out, "</p>");
    }
    push_str(out, "</section>");
}

fn overview_message(page: &RoutePage) -> (m: Option<&'static str>)
    requires
        page is Overview,
    ensures
        *page == (RoutePage::Overview { message: m }),
{
    match page {
        RoutePage::Overview { message } => *message,
        _ => None,
    }
}

fn push_overview<'a>(out: &mut String, message: Option<&'a str>)
    ensures
        final(out)@ == old(out)@ + spec_content(RoutePage::Overview { message }),
{
    let ghost start = out@;
    push_str(out, "<section><h2>Cluster Overview</h2><p>Broker administration shell is ready.</p>");
    match message {
        Some(m) => {
            push_str(out, "<p>");
            push_escaped_text(out, m);
            push_str(out, "</p>");
        },
        None => {},
    }
    push_str(out, "</section>");
    assert(out@ =~= start + spec_content(RoutePage::Overview { message }));
}

fn push_content(out: &mut String, page: &RoutePage)
    ensures
        final(out)@ == old(out)@ + spec_content(*page),
{
    if matches!(page, RoutePage::Overview { .. }) {
        let message = overview_message(page);
        push_overview(out, message);
        return;
    }
    match page {
        RoutePage::Topics { state } => push_read_section(out, state, &topics_copy(), None),
        RoutePage::Groups { state } => push_read_section(out, state, &groups_copy(), None),
        RoutePage::Acls { state } => push_read_section(out, state, &acls_copy(), None),
        RoutePage::Users { state } => push_read_section(out, state, &users_copy(), None),
        RoutePage::Quotas { state, entity } => {
            let lookup_value: &str = match entity {
                Some(e) => e.as_str(),
                None => "",
            };
            proof {
                reveal_strlit("");
            }
            push_read_section(out, state, &quotas_copy(), Some(lookup_value));
        },
        RoutePage::LogDirs { state } => push_read_section(out, state, &log_dirs_copy(), None),
        _ => {
            assert(old(out)@ + spec_content(*page) =~= out@);
        },
    }
}

fn push_nav(out: &mut String, links: &Vec<SidebarLink>, Ghost(routes): Ghost<Seq<Route>>)
    requires
        links_for(links@, routes),
    ensures
        final(out)@ == old(out)@ + spec_nav_html(routes),
{
    let ghost start = out@;
    let mut i: usize = 0;
    while i < links.len()
        invariant
            links_for(links@, routes),
            i <= links@.len(),
            out@ == start + spec_nav_html(routes.subrange(0, i as int)),
        decreases links@.len() - i,
    {
        let link = links[i];
        proof {
            assert(links@[i as int].spec_is_for(routes[i as int]));
            assert(routes.subrange(0, i + 1).drop_last() =~= routes.subrange(0, i as int));
        }
        push_str(out, "<a class=\"nav-link\" href=\"");
        push_escaped_text(out, link.path);
        push_str(out, "\">");
        push_escaped_text(out, link.label);
        push_str(out, "</a>");
        i = i + 1;
    }
    assert(routes.subrange(0, i as int) =~= routes);
}

fn push_shell(out: &mut String, page: &RoutePage, operator: &OperatorView)
    ensures
        final(out)@ == old(out)@ + spec_shell(*page, *operator),
{
    let forms = mutation_forms(page, operator);
    let links = sidebar_links_for(operator.capabilities());
    push_str(out, "<div><section class=\"operations-shell\"><aside><h1>Krabka Operations</h1><nav>");
    push_nav(out, &links, Ghost(permitted_routes(sidebar_routes(), operator.spec_capabilities())));
    push_str(out, "</nav>");
    let token: &str = match operator.csrf_token() {
        Some(t) => {
            push_str(
                out,
                "<form class=\"sign-out-form\" method=\"post\" action=\"/logout\"><input type=\"hidden\" name=\"csrf_token\" value=\"",
            );
            push_escaped_text(out, t);
            push_str(out, "\"/><button type=\"submit\">Sign out</button></form>");
            t
        },
        None => "",
    };
    push_str(out, "</aside><main>");
    push_content(out, page);
    push_forms(out, &forms, token);
    push_str(out, "</main></section></div>");
}

fn push_login(out: &mut String, state: LoginRouteState)
    ensures
        final(out)@ == old(out)@ + spec_login(state),
{
    push_str(
        out,
        "<div><section class=\"login-shell\"><h1>Sign in to Krabka Admin</h1><p>Authentication is required before broker operations are shown.</p>",
    );
    match state {
        LoginRouteState::Form => {
            push_str(
                out,
                "<form method=\"post\" action=\"/login\"><label>Username <input name=\"username\" autocomplete=\"username\"/></label><label>Password <input name=\"password\" type=\"password\" autocomplete=\"current-password\"/></label><button type=\"submit\">Sign in</button></form>",
            );
        },
        LoginRouteState::AuthenticationFailed => {
            push_str(out, "<p class=\"login-message\">");
            push_escaped_text(out, "Authentication failed.");
            push_str(out, "</p>");
        },
        LoginRouteState::BrokerUnavailable => {
            push_str(out, "<p class=\"login-message\">");
            push_escaped_text(out, "No broker answered. The cluster may be down; sign in again when it is back.");
            push_str(out, "</p>");
        },
    }
    push_str(out, "</section></div>");
}

/// The body of a page, rendered for `operator`.
pub fn render_page_body_html_for_operator(page: &RoutePage, operator: &OperatorView) -> (html: String)
    ensures
        html@ == spec_body(*page, *operator),
{
    let mut html = String::new();
    match page {
        RoutePage::Login { state } => push_login(&mut html, *state),
        _ => push_shell(&mut html, page, operator),
    }
    html
}

/// The body of a page that no session stands behind.
pub fn render_page_body_html(page: &RoutePage) -> (html: String)
    ensures
        html@ == spec_body(*page, OperatorView::spec_anonymous()),
{
    render_page_body_html_for_operator(page, &OperatorView::anonymous())
}

/// The whole document of a page, rendered for `operator`.
pub fn render_page_for_operator(page: &RoutePage, operator: &OperatorView) -> (html: String)
    ensures
        html@ == spec_render_page(*page, *operator),
{
    let mut html = String::new();
    push_str(
        &mut html,
        "<!doctype html>\n<html lang=\"en\"><head><meta charset=\"utf-8\"><meta name=\"viewport\" content=\"width=device-width, initial-scale=1\"><title>",
    );
    push_escaped(&mut html, page.title());
    push_str(&mut html, "</title></head><body>");
    let body = render_page_body_html_for_operator(page, operator);
    push_str(&mut html, body.as_str());
    push_str(&mut html, "</body></html>");
    html
}

/// The whole document of a page that no session stands behind.
pub fn render_page(page: &RoutePage) -> (html: String)
    ensures
        html@ == spec_render_page(*page, OperatorView::spec_anonymous()),
{
    render_page_for_operator(page, &OperatorView::anonymous())
}

proof fn lemma_permitted_mutations(kinds: Seq<MutationKind>, capabilities: Capabilities)
    ensures
        forall|k: MutationKind|
            #[trigger] permitted_mutations(kinds, capabilities).contains(k) <==> kinds.contains(k)
                && k.spec_permitted(capabilities),
        (forall|i: int| 0 <= i < kinds.len() ==> #[trigger] kinds[i].spec_permitted(capabilities))
            ==> permitted_mutations(kinds, capabilities) == kinds,
    decreases kinds.len(),
{
    if kinds.len() > 0 {
        let d = kinds.drop_last();
        lemma_permitted_mutations(d, capabilities);
        let p = permitted_mutations(d, capabilities);
        assert forall|k: MutationKind| #[trigger] permitted_mutations(kinds, capabilities).contains(k)
            <==> kinds.contains(k) && k.spec_permitted(capabilities) by {
            if kinds.contains(k) {
                let i = choose|i: int| 0 <= i < kinds.len() && kinds[i] == k;
                if i < kinds.len() - 1 {
                    assert(d[i] == k);
                }
            }
            if d.contains(k) {
                let i = choose|i: int| 0 <= i < d.len() && d[i] == k;
                assert(kinds[i] == k);
            }
            if kinds.last().spec_permitted(capabilities) {
                let q = p.push(kinds.last());
                assert(q[q.len() - 1] == kinds.last());
                if q.contains(k) {
                    let i = choose|i: int| 0 <= i < q.len() && q[i] == k;
                    if i < p.len() {
                        assert(p[i] == k);
                    }
                }
                if p.contains(k) {
                    let i = choose|i: int| 0 <= i < p.len() && p[i] == k;
                    assert(q[i] == k);
                }
            }
        }
        if forall|i: int| 0 <= i < kinds.len() ==> #[trigger] kinds[i].spec_permitted(capabilities) {
            assert forall|i: int| 0 <= i < d.len() implies #[trigger] d[i].spec_permitted(capabilities) by {
                assert(d[i] == kinds[i]);
            }
            assert(kinds.last().spec_permitted(capabilities));
            assert(d.push(kinds.last()) =~= kinds);
        }
    }
}

/// A page rendered for no session shows neither a mutation form nor a
/// sign-out form: nothing can prove that a signed-in operator asked.
pub proof fn law_anonymous_page_offers_no_mutation(page: RoutePage)
    ensures
        page_forms(page, OperatorView::spec_anonymous()) == Seq::<MutationKind>::empty(),
        spec_sign_out_html(OperatorView::spec_anonymous().spec_token()) == Seq::<char>::empty(),
{
}

/// Every form a page shows is one of the page's mutations and one that the
/// operator's ACLs permit; a signed-in operator permitted everything gets
/// every mutation of the page, in order.
pub proof fn law_forms_follow_capabilities(page: RoutePage, operator: OperatorView, kind: MutationKind)
    ensures
        page_forms(page, operator).contains(kind) ==> page.spec_mutations().contains(kind) && kind.spec_permitted(
            operator.spec_capabilities(),
        ),
        operator.spec_token() is Some && page.spec_mutations().contains(kind) && kind.spec_permitted(
            operator.spec_capabilities(),
        ) ==> page_forms(page, operator).contains(kind),
        operator.spec_token() is Some && operator.spec_capabilities() == Capabilities::spec_all() ==> page_forms(
            page,
            operator,
        ) == page.spec_mutations(),
{
    lemma_permitted_mutations(page.spec_mutations(), operator.spec_capabilities());
}

/// Whatever route a request without a session asks for, it gets the login
/// form.
pub proof fn law_unauthenticated_routes_get_the_login_form(route: Route)
    ensures
        RoutePage::spec_for_guarded(route.spec_guard(false)) == (RoutePage::Login { state: LoginRouteState::Form }),
{
}

/// A signed-in operator's page carries a sign-out form with the session's
/// token.
pub proof fn law_signed_in_page_can_sign_out(operator: OperatorView)
    requires
        operator.spec_token() is Some,
    ensures
        spec_sign_out_html(operator.spec_token()) != Seq::<char>::empty(),
{
    let t = operator.spec_token().unwrap();
    let h = spec_sign_out_html(operator.spec_token());
    reveal_strlit("<form class=\"sign-out-form\" method=\"post\" action=\"/logout\"><input type=\"hidden\" name=\"csrf_token\" value=\"");
    assert(h.len() > 0);
}

} // verus!

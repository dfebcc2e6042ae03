//! The admin UI's routes, pages and their HTML.

pub mod layout;
pub mod page;
pub mod forms;

use vstd::prelude::*;

use crate::permissions::Capabilities;

pub use page::{
    render_page, render_page_body_html, render_page_body_html_for_operator, render_page_for_operator,
    LoginRouteState, OperatorView, ReadRouteState, RoutePage,
};

verus! {

/// The pages of the UI.
#[derive(Debug, Clone, Copy, PartialEq, Eq, Hash, Structural)]
pub enum Route {
    Overview,
    Login,
    Topics,
    Groups,
    Acls,
    Users,
    Quotas,
    LogDirs,
}

impl Route {
    pub open spec fn spec_path(self) -> Seq<char> {
        match self {
            Route::Overview => "/"@,
            Route::Login => "/login"@,
            Route::Topics => "/topics"@,
            Route::Groups => "/groups"@,
            Route::Acls => "/acls"@,
            Route::Users => "/users"@,
            Route::Quotas => "/quotas"@,
            Route::LogDirs => "/log-dirs"@,
        }
    }

    pub open spec fn spec_label(self) -> Seq<char> {
        match self {
            Route::Overview => "Overview"@,
            Route::Login => "Login"@,
            Route::Topics => "Topics"@,
            Route::Groups => "Groups"@,
            Route::Acls => "ACLs"@,
            Route::Users => "Users"@,
            Route::Quotas => "Quotas"@,
            Route::LogDirs => "Log Dirs"@,
        }
    }

    pub open spec fn spec_guard(self, is_authenticated: bool) -> Route {
        if is_authenticated || self == Route::Login {
            self
        } else {
            Route::Login
        }
    }

    pub open spec fn spec_is_permitted(self, capabilities: Capabilities) -> bool {
        match self {
            Route::Overview | Route::Login => true,
            Route::Topics => capabilities.view_topics,
            Route::Groups => capabilities.view_groups,
            Route::Acls => capabilities.view_acls,
            Route::Users => capabilities.view_users,
            Route::Quotas => capabilities.view_quotas,
            Route::LogDirs => capabilities.view_log_dirs,
        }
    }

    pub fn path(self) -> (p: &'static str)
        ensures
            p@ == self.spec_path(),
    {
        match self {
            Route::Overview => "/",
            Route::Login => "/login",
            Route::Topics => "/topics",
            Route::Groups => "/groups",
            Route::Acls => "/acls",
            Route::Users => "/users",
            Route::Quotas => "/quotas",
            Route::LogDirs => "/log-dirs",
        }
    }

    pub fn label(self) -> (l: &'static str)
        ensures
            l@ == self.spec_label(),
    {
        match self {
            Route::Overview => "Overview",
            Route::Login => "Login",
            Route::Topics => "Topics",
            Route::Groups => "Groups",
            Route::Acls => "ACLs",
            Route::Users => "Users",
            Route::Quotas => "Quotas",
            Route::LogDirs => "Log Dirs",
        }
    }

    /// The route a request for `self` lands on: itself for a signed-in
    /// operator, and the login page for anyone else.
    pub fn guard_for_authentication(self, is_authenticated: bool) -> (r: Route)
        ensures
            r == self.spec_guard(is_authenticated),
    {
        if is_authenticated || matches!(self, Route::Login) {
            return self;
        }
        Route::Login
    }

    /// Whether the operator's ACLs permit the page the route names.
    pub fn is_permitted(self, capabilities: Capabilities) -> (b: bool)
        ensures
            b == self.spec_is_permitted(capabilities),
    {
        match self {
            Route::Overview | Route::Login => true,
            Route::Topics => capabilities.can_view_topics(),
            Route::Groups => capabilities.can_view_groups(),
            Route::Acls => capabilities.can_view_acls(),
            Route::Users => capabilities.can_view_users(),
            Route::Quotas => capabilities.can_view_quotas(),
            Route::LogDirs => capabilities.can_view_log_dirs(),
        }
    }
}

/// A signed-in operator lands on the route asked for; anyone else lands on
/// the login page, and guarding twice changes nothing.
pub proof fn law_guard(route: Route, is_authenticated: bool)
    ensures
        route.spec_guard(true) == route,
        route.spec_guard(false) == Route::Login,
        route.spec_guard(is_authenticated).spec_guard(is_authenticated) == route.spec_guard(is_authenticated),
{
}

/// The overview and the login page need no ACL; every page is open to an
/// operator with every capability, and no page behind the broker is open to
/// one with none.
pub proof fn law_permission(route: Route, capabilities: Capabilities)
    ensures
        route == Route::Overview || route == Route::Login ==> route.spec_is_permitted(capabilities),
        route.spec_is_permitted(Capabilities::spec_all()),
        route.spec_is_permitted(Capabilities::spec_none()) <==> (route == Route::Overview || route
            == Route::Login),
{
}

/// Every route has a path of its own.
pub proof fn law_paths_are_distinct(a: Route, b: Route)
    ensures
        a.spec_path() == b.spec_path() ==> a == b,
{
    reveal_strlit("/");
    reveal_strlit("/login");
    reveal_strlit("/topics");
    reveal_strlit("/groups");
    reveal_strlit("/acls");
    reveal_strlit("/users");
    reveal_strlit("/quotas");
    reveal_strlit("/log-dirs");
    if a.spec_path() == b.spec_path() && a != b {
        assert(a.spec_path().len() == b.spec_path().len());
        assert(a.spec_path()[1] == b.spec_path()[1]);
        assert(a.spec_path()[2] == b.spec_path()[2]);
    }
}

/// The full page shown for `route` when no session stands behind the
/// request.
pub fn render_route_html(route: Route) -> (html: String)
    ensures
        html@ == page::spec_render_page(
            RoutePage::spec_for_guarded(route.spec_guard(false)),
            OperatorView::spec_anonymous(),
        ),
{
    render_page(&RoutePage::for_unauthenticated_route(route))
}

} // verus!

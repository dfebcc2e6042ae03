//! The operations sidebar.

use vstd::prelude::*;

use super::Route;
use crate::permissions::Capabilities;

verus! {

#[derive(Debug, Clone, Copy, PartialEq, Eq)]
pub struct SidebarLink {
    pub route: Route,
    pub path: &'static str,
    pub label: &'static str,
}

impl SidebarLink {
    /// A link whose path and label are those of its route.
    pub open spec fn spec_is_for(self, route: Route) -> bool {
        &&& self.route == route
        &&& self.path@ == route.spec_path()
        &&& self.label@ == route.spec_label()
    }

    fn new(route: Route) -> (link: SidebarLink)
        ensures
            link.spec_is_for(route),
    {
        SidebarLink { route, path: route.path(), label: route.label() }
    }
}

/// The routes of the sidebar, in order. The login page is not among them.
pub open spec fn sidebar_routes() -> Seq<Route> {
    seq![
        Route::Overview,
        Route::Topics,
        Route::Groups,
        Route::Acls,
        Route::Users,
        Route::Quotas,
        Route::LogDirs,
    ]
}

/// The routes of `routes` that `capabilities` permit, in order.
pub open spec fn permitted_routes(routes: Seq<Route>, capabilities: Capabilities) -> Seq<Route>
    decreases routes.len(),
{
    if routes.len() == 0 {
        Seq::empty()
    } else if routes.last().spec_is_permitted(capabilities) {
        permitted_routes(routes.drop_last(), capabilities).push(routes.last())
    } else {
        permitted_routes(routes.drop_last(), capabilities)
    }
}

/// Links that stand for the given routes, one for one.
pub open spec fn links_for(links: Seq<SidebarLink>, routes: Seq<Route>) -> bool {
    &&& links.len() == routes.len()
    &&& forall|i: int| 0 <= i < links.len() ==> #[trigger] links[i].spec_is_for(routes[i])
}

/// Every sidebar link, in order.
pub fn sidebar_links() -> (links: Vec<SidebarLink>)
    ensures
        links_for(links@, sidebar_routes()),
{
    let mut links = Vec::new();
    links.push(SidebarLink::new(Route::Overview));
    links.push(SidebarLink::new(Route::Topics));
    links.push(SidebarLink::new(Route::Groups));
    links.push(SidebarLink::new(Route::Acls));
    links.push(SidebarLink::new(Route::Users));
    links.push(SidebarLink::new(Route::Quotas));
    links.push(SidebarLink::new(Route::LogDirs));
    links
}

/// The sidebar links the operator's ACLs permit, in the order above.
pub fn sidebar_links_for(capabilities: Capabilities) -> (links: Vec<SidebarLink>)
    ensures
        links_for(links@, permitted_routes(sidebar_routes(), capabilities)),
{
    let all = sidebar_links();
    let mut links: Vec<SidebarLink> = Vec::new();
    let mut i: usize = 0;
    while i < all.len()
        invariant
            links_for(all@, sidebar_routes()),
            i <= all@.len(),
            links_for(links@, permitted_routes(sidebar_routes().subrange(0, i as int), capabilities)),
        decreases all@.len() - i,
    {
        let link = all[i];
        proof {
            assert(sidebar_routes().subrange(0, i + 1).drop_last() =~= sidebar_routes().subrange(0, i as int));
            assert(all@[i as int].spec_is_for(sidebar_routes()[i as int]));
        }
        if link.route.is_permitted(capabilities) {
            links.push(link);
        }
        i = i + 1;
    }
    assert(sidebar_routes().subrange(0, 7) =~= sidebar_routes());
    links
}

proof fn lemma_permitted_routes(routes: Seq<Route>, capabilities: Capabilities)
    ensures
        forall|r: Route|
            #[trigger] permitted_routes(routes, capabilities).contains(r) <==> routes.contains(r)
                && r.spec_is_permitted(capabilities),
        permitted_routes(routes, capabilities).len() <= routes.len(),
    decreases routes.len(),
{
    if routes.len() > 0 {
        lemma_permitted_routes(routes.drop_last(), capabilities);
        let p = permitted_routes(routes.drop_last(), capabilities);
        assert forall|r: Route| #[trigger] permitted_routes(routes, capabilities).contains(r) <==> routes.contains(
            r,
        ) && r.spec_is_permitted(capabilities) by {
            if routes.contains(r) {
                let i = choose|i: int| 0 <= i < routes.len() && routes[i] == r;
                if i < routes.len() - 1 {
                    assert(routes.drop_last()[i] == r);
                }
            }
            if routes.drop_last().contains(r) {
                let i = choose|i: int| 0 <= i < routes.drop_last().len() && routes.drop_last()[i] == r;
                assert(routes[i] == r);
            }
            if routes.last().spec_is_permitted(capabilities) {
                assert(p.push(routes.last()).last() == routes.last());
                if p.push(routes.last()).contains(r) {
                    let i = choose|i: int| 0 <= i < p.push(routes.last()).len() && p.push(routes.last())[i] == r;
                    if i < p.len() {
                        assert(p[i] == r);
                    }
                }
                if p.contains(r) {
                    let i = choose|i: int| 0 <= i < p.len() && p[i] == r;
                    assert(p.push(routes.last())[i] == r);
                }
            }
        }
    }
}

/// A sidebar link is shown exactly when its route is permitted; the login
/// page never is one; the overview always is; and an operator with every
/// capability sees every link.
pub proof fn law_sidebar_shows_permitted_routes(capabilities: Capabilities, route: Route)
    ensures
        permitted_routes(sidebar_routes(), capabilities).contains(route) <==> (route != Route::Login
            && route.spec_is_permitted(capabilities)),
        permitted_routes(sidebar_routes(), Capabilities::spec_all()) == sidebar_routes(),
        permitted_routes(sidebar_routes(), capabilities)[0] == Route::Overview,
{
    lemma_permitted_routes(sidebar_routes(), capabilities);
    if route != Route::Login {
        assert(sidebar_routes().contains(route)) by {
            match route {
                Route::Overview => assert(sidebar_routes()[0] == route),
                Route::Topics => assert(sidebar_routes()[1] == route),
                Route::Groups => assert(sidebar_routes()[2] == route),
                Route::Acls => assert(sidebar_routes()[3] == route),
                Route::Users => assert(sidebar_routes()[4] == route),
                Route::Quotas => assert(sidebar_routes()[5] == route),
                Route::LogDirs => assert(sidebar_routes()[6] == route),
                Route::Login => {},
            }
        }
    }
    reveal_with_fuel(permitted_routes, 8);
    assert(permitted_routes(sidebar_routes(), Capabilities::spec_all()) =~= sidebar_routes());
    assert(sidebar_routes().subrange(0, 1) =~= seq![Route::Overview]);
    lemma_prefix_first(capabilities);
}

proof fn lemma_prefix_first(capabilities: Capabilities)
    ensures
        permitted_routes(sidebar_routes(), capabilities)[0] == Route::Overview,
{
    let s = sidebar_routes();
    reveal_with_fuel(permitted_routes, 8);
    let p1 = permitted_routes(s.subrange(0, 1), capabilities);
    assert(s.subrange(0, 1).drop_last() =~= Seq::<Route>::empty());
    assert(p1 =~= seq![Route::Overview]);
    assert(s.subrange(0, 2).drop_last() =~= s.subrange(0, 1));
    assert(s.subrange(0, 3).drop_last() =~= s.subrange(0, 2));
    assert(s.subrange(0, 4).drop_last() =~= s.subrange(0, 3));
    assert(s.subrange(0, 5).drop_last() =~= s.subrange(0, 4));
    assert(s.subrange(0, 6).drop_last() =~= s.subrange(0, 5));
    assert(s.drop_last() =~= s.subrange(0, 6));
    lemma_keeps_first(s.subrange(0, 1), capabilities);
    lemma_keeps_first(s.subrange(0, 2), capabilities);
    lemma_keeps_first(s.subrange(0, 3), capabilities);
    lemma_keeps_first(s.subrange(0, 4), capabilities);
    lemma_keeps_first(s.subrange(0, 5), capabilities);
    lemma_keeps_first(s.subrange(0, 6), capabilities);
    lemma_keeps_first(s, capabilities);
}

proof fn lemma_keeps_first(s: Seq<Route>, capabilities: Capabilities)
    requires
        s.len() >= 1,
        s[0] == Route::Overview,
        s.len() >= 2 ==> permitted_routes(s.drop_last(), capabilities).len() >= 1 && permitted_routes(
            s.drop_last(),
            capabilities,
        )[0] == Route::Overview,
    ensures
        permitted_routes(s, capabilities).len() >= 1,
        permitted_routes(s, capabilities)[0] == Route::Overview,
{
    if s.len() == 1 {
        reveal_with_fuel(permitted_routes, 2);
        assert(s.drop_last() =~= Seq::<Route>::empty());
    }
}

} // verus!

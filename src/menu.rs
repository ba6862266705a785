use vstd::prelude::*;

verus! {

/// Name of the issues list view in the panel stack.
pub const ISSUES_VIEW_NAME: &'static str = "issues_view";

/// Name of the pull requests list view in the panel stack.
pub const PULL_REQUESTS_VIEW_NAME: &'static str = "pull_requests_view";

/// Name of the projects list view in the panel stack.
pub const PROJECTS_VIEW_NAME: &'static str = "projects_view";

/// Name of the detail view in the panel stack.
pub const DETAIL_VIEW_NAME: &'static str = "detail_view";

/// Name of the remote picker in the panel stack.
pub const REMOTE_EXPLORER_NAME: &'static str = "remote_explorer";

/// The views of the main menu; one of them is active.
#[derive(PartialEq, Eq, Structural, Clone, Copy, Debug)]
pub enum MenuItem {
    Issues,
    PullRequests,
    Projects,
}

/// The kinds of list request sent to the forge.
#[derive(PartialEq, Eq, Structural, Clone, Copy, Debug)]
pub enum RequestType {
    Issues,
    PullRequests,
    Projects,
}

pub open spec fn menu_index(item: MenuItem) -> nat {
    match item {
        MenuItem::Issues => 0,
        MenuItem::PullRequests => 1,
        MenuItem::Projects => 2,
    }
}

/// The view after `item` in the rotation.
pub open spec fn next_menu_item(item: MenuItem) -> MenuItem {
    match item {
        MenuItem::Issues => MenuItem::PullRequests,
        MenuItem::PullRequests => MenuItem::Projects,
        MenuItem::Projects => MenuItem::Issues,
    }
}

/// The view before `item` in the rotation.
pub open spec fn previous_menu_item(item: MenuItem) -> MenuItem {
    match item {
        MenuItem::Issues => MenuItem::Projects,
        MenuItem::PullRequests => MenuItem::Issues,
        MenuItem::Projects => MenuItem::PullRequests,
    }
}

/// The name under which the list view of `item` lives in the panel stack.
pub open spec fn view_name(item: MenuItem) -> Seq<char> {
    match item {
        MenuItem::Issues => ISSUES_VIEW_NAME@,
        MenuItem::PullRequests => PULL_REQUESTS_VIEW_NAME@,
        MenuItem::Projects => PROJECTS_VIEW_NAME@,
    }
}

/// The request that fills the list view of `item`.
pub open spec fn request_of(item: MenuItem) -> RequestType {
    match item {
        MenuItem::Issues => RequestType::Issues,
        MenuItem::PullRequests => RequestType::PullRequests,
        MenuItem::Projects => RequestType::Projects,
    }
}

/// The panel name of the list view that a request fills.
pub open spec fn request_view_name(request_type: RequestType) -> Seq<char> {
    match request_type {
        RequestType::Issues => ISSUES_VIEW_NAME@,
        RequestType::PullRequests => PULL_REQUESTS_VIEW_NAME@,
        RequestType::Projects => PROJECTS_VIEW_NAME@,
    }
}

impl MenuItem {
    /// The position of the view in the menu.
    pub fn to_index(&self) -> (r: usize)
        ensures
            r == menu_index(*self),
    {
        match self {
            MenuItem::Issues => 0,
            MenuItem::PullRequests => 1,
            MenuItem::Projects => 2,
        }
    }

    /// The title shown for the view.
    pub fn title(&self) -> (r: &'static str)
        ensures
            r@ == match *self {
                MenuItem::Issues => "Issues"@,
                MenuItem::PullRequests => "Pull requests"@,
                MenuItem::Projects => "Projects"@,
            },
    {
        match self {
            MenuItem::Issues => "Issues",
            MenuItem::PullRequests => "Pull requests",
            MenuItem::Projects => "Projects",
        }
    }

    /// The titles of the main menu, in menu order.
    pub fn to_main_menu_points_str() -> (r: [&'static str; 3])
        ensures
            r[0]@ == "Issues"@,
            r[1]@ == "Pull requests"@,
            r[2]@ == "Projects"@,
    {
        ["Issues", "Pull requests", "Projects"]
    }

    /// The views of the main menu, in menu order.
    pub fn to_main_menu_points() -> (r: [MenuItem; 3])
        ensures
            r[0] == MenuItem::Issues,
            r[1] == MenuItem::PullRequests,
            r[2] == MenuItem::Projects,
    {
        [MenuItem::Issues, MenuItem::PullRequests, MenuItem::Projects]
    }

    /// The view after this one in the rotation.
    pub fn next(&self) -> (r: MenuItem)
        ensures
            r == next_menu_item(*self),
    {
        match self {
            MenuItem::Issues => MenuItem::PullRequests,
            MenuItem::PullRequests => MenuItem::Projects,
            MenuItem::Projects => MenuItem::Issues,
        }
    }

    /// The view before this one in the rotation.
    pub fn previous(&self) -> (r: MenuItem)
        ensures
            r == previous_menu_item(*self),
    {
        match self {
            MenuItem::Issues => MenuItem::Projects,
            MenuItem::PullRequests => MenuItem::Issues,
            MenuItem::Projects => MenuItem::PullRequests,
        }
    }

    /// The panel name of this view's list.
    pub fn view_name(&self) -> (r: &'static str)
        ensures
            r@ == view_name(*self),
    {
        match self {
            MenuItem::Issues => ISSUES_VIEW_NAME,
            MenuItem::PullRequests => PULL_REQUESTS_VIEW_NAME,
            MenuItem::Projects => PROJECTS_VIEW_NAME,
        }
    }

    /// The request that fills this view.
    pub fn request_type(&self) -> (r: RequestType)
        ensures
            r == request_of(*self),
    {
        match self {
            MenuItem::Issues => RequestType::Issues,
            MenuItem::PullRequests => RequestType::PullRequests,
            MenuItem::Projects => RequestType::Projects,
        }
    }
}

impl RequestType {
    /// Every request type, in menu order.
    pub fn iter() -> (r: Vec<RequestType>)
        ensures
            r@ == seq![RequestType::Issues, RequestType::PullRequests, RequestType::Projects],
    {
        let r = vec![RequestType::Issues, RequestType::PullRequests, RequestType::Projects];
        assert(r@ =~= seq![RequestType::Issues, RequestType::PullRequests, RequestType::Projects]);
        r
    }

    /// The request type's name.
    pub fn to_str(self) -> (r: &'static str)
        ensures
            r@ == match self {
                RequestType::Issues => "IssuesRequest"@,
                RequestType::PullRequests => "PullRequestsRequest"@,
                RequestType::Projects => "ProjectsRequest"@,
            },
    {
        match self {
            RequestType::Issues => "IssuesRequest",
            RequestType::PullRequests => "PullRequestsRequest",
            RequestType::Projects => "ProjectsRequest",
        }
    }

    /// The panel name of the list view that this request fills.
    pub fn view_name(self) -> (r: &'static str)
        ensures
            r@ == request_view_name(self),
    {
        match self {
            RequestType::Issues => ISSUES_VIEW_NAME,
            RequestType::PullRequests => PULL_REQUESTS_VIEW_NAME,
            RequestType::Projects => PROJECTS_VIEW_NAME,
        }
    }
}

} // verus!

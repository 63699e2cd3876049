//! The pages of the navigation sidebar and its sections.
use vstd::prelude::*;

use crate::workspace_tree::ItemIcon;

verus! {

/// A page of the application shell.
#[derive(Clone, Copy, Debug, PartialEq, Eq, Structural)]
pub enum Page {
    Home,
    Form,
    Settings,
    About,
}

/// The key of a page's translated title.
pub open spec fn page_title_key(p: Page) -> Seq<char> {
    match p {
        Page::Home => "page-Home"@,
        Page::Form => "page-Form"@,
        Page::Settings => "page-Settings"@,
        Page::About => "page-About"@,
    }
}

impl Page {
    /// The key of the page's translated title.
    pub fn title(&self) -> (r: String)
        ensures
            r@ == page_title_key(*self),
    {
        match self {
            Page::Home => crate::domain::owned("page-Home"),
            Page::Form => crate::domain::owned("page-Form"),
            Page::Settings => crate::domain::owned("page-Settings"),
            Page::About => crate::domain::owned("page-About"),
        }
    }

    /// The page's icon in the sidebar.
    pub fn icon(&self) -> (r: ItemIcon)
        ensures
            r == match *self {
                Page::Home => ItemIcon::Inbox,
                Page::Form => ItemIcon::File,
                Page::Settings => ItemIcon::Settings2,
                Page::About => ItemIcon::Info,
            },
    {
        match self {
            Page::Home => ItemIcon::Inbox,
            Page::Form => ItemIcon::File,
            Page::Settings => ItemIcon::Settings2,
            Page::About => ItemIcon::Info,
        }
    }

    /// Every page, in the order the sidebar lists them.
    pub fn all() -> (r: Vec<Page>)
        ensures
            r@ == seq![Page::Home, Page::Form, Page::Settings, Page::About],
    {
        let mut v: Vec<Page> = Vec::new();
        v.push(Page::Home);
        v.push(Page::Form);
        v.push(Page::Settings);
        v.push(Page::About);
        proof {
            assert(v@ =~= seq![Page::Home, Page::Form, Page::Settings, Page::About]);
        }
        v
    }
}

/// The section the sidebar shows.
#[derive(Debug, Clone, Copy, PartialEq, Eq, Structural)]
pub enum SidebarSection {
    Collections,
    Environments,
}

impl Default for SidebarSection {
    fn default() -> (r: Self)
        ensures
            r == SidebarSection::Collections,
    {
        SidebarSection::Collections
    }
}

} // verus!

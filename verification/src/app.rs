//! The tuner's window: which page is open, and the state of every page.

use vstd::prelude::*;
use crate::pages::kernel::KernelPage;
use crate::pages::performance::PerformancePage;
use crate::pages::services::ServicesPage;
use crate::pages::storage::StoragePage;

verus! {

/// The pages the sidebar switches between.
#[derive(Debug, Clone, Copy, PartialEq, Eq, Structural)]
pub enum Page {
    Kernel,
    Services,
    Storage,
    Performance,
}

pub struct App {
    pub current_page: Page,
    pub kernel_page: KernelPage,
    pub services_page: ServicesPage,
    pub storage_page: StoragePage,
    pub performance_page: PerformancePage,
}

impl App {
    /// The window with the given pages, the kernel page open.
    pub fn new(
        kernel_page: KernelPage,
        services_page: ServicesPage,
        storage_page: StoragePage,
        performance_page: PerformancePage,
    ) -> (app: App)
        ensures
            app.current_page == Page::Kernel,
            app.kernel_page == kernel_page,
            app.services_page == services_page,
            app.storage_page == storage_page,
            app.performance_page == performance_page,
    {
        App { current_page: Page::Kernel, kernel_page, services_page, storage_page, performance_page }
    }

    /// Opens a page; every page keeps its state.
    pub fn select_page(&mut self, page: Page)
        ensures
            final(self).current_page == page,
            final(self).kernel_page == old(self).kernel_page,
            final(self).services_page == old(self).services_page,
            final(self).storage_page == old(self).storage_page,
            final(self).performance_page == old(self).performance_page,
    {
        self.current_page = page;
    }

    /// Whether `page` is the open one.
    pub fn is_open(&self, page: Page) -> (b: bool)
        ensures
            b == (self.current_page == page),
    {
        self.current_page == page
    }
}

} // verus!

//! The services page: the watched services under a filter, what each offers
//! to do, and the outcome of the last action.

use vstd::prelude::*;
use crate::backend::systemd::{
    list_services, listed, matches_filter, passes_filter, service_catalog_spec, service_views, Service,
};
use crate::pages::status::{done_status, done_text, error_status, error_text};
use crate::text::{chars_of, concat_chars, contains, lowercase};

verus! {

pub struct ServicesPage {
    pub services: Vec<Service>,
    pub filter: String,
    pub status_msg: String,
    pub status_is_error: bool,
}

/// What the user asked to do with a service: turn its start at boot on or
/// off (with whether it was on), stop it, or start it.
#[derive(Debug, Clone)]
pub enum ServiceAction {
    ToggleEnable(String, bool),
    Stop(String),
    Start(String),
}

/// The `systemctl` verb that carries out an action.
#[derive(Debug, Clone, Copy, PartialEq, Eq)]
pub enum ServiceCommand {
    Enable,
    Disable,
    Start,
    Stop,
}

pub open spec fn command_of(a: ServiceAction) -> ServiceCommand {
    match a {
        ServiceAction::ToggleEnable(_, was_enabled) => if was_enabled {
            ServiceCommand::Disable
        } else {
            ServiceCommand::Enable
        },
        ServiceAction::Stop(_) => ServiceCommand::Stop,
        ServiceAction::Start(_) => ServiceCommand::Start,
    }
}

pub open spec fn target_of(a: ServiceAction) -> Seq<char> {
    match a {
        ServiceAction::ToggleEnable(name, _) => name@,
        ServiceAction::Stop(name) => name@,
        ServiceAction::Start(name) => name@,
    }
}

/// The status line after an action succeeded.
pub open spec fn action_done_text(a: ServiceAction) -> Seq<char> {
    match a {
        ServiceAction::ToggleEnable(name, was_enabled) => done_text(
            (if was_enabled {
                "Отключена"@
            } else {
                "Включена"@
            }) + " "@ + name@,
        ),
        ServiceAction::Stop(name) => done_text("Остановлена "@ + name@),
        ServiceAction::Start(name) => done_text("Запущена "@ + name@),
    }
}

impl ServiceAction {
    /// The command that carries out the action, and the service it acts on.
    pub fn command(&self) -> (r: (ServiceCommand, &String))
        ensures
            r.0 == command_of(*self),
            r.1@ == target_of(*self),
    {
        match self {
            ServiceAction::ToggleEnable(name, was_enabled) => if *was_enabled {
                (ServiceCommand::Disable, name)
            } else {
                (ServiceCommand::Enable, name)
            },
            ServiceAction::Stop(name) => (ServiceCommand::Stop, name),
            ServiceAction::Start(name) => (ServiceCommand::Start, name),
        }
    }
}

/// The status label of a service: running, else starting at boot, else neither.
pub open spec fn status_label_text(enabled: bool, active: bool) -> Seq<char> {
    if active {
        "● active"@
    } else if enabled {
        "● enabled"@
    } else {
        "● inactive"@
    }
}

pub fn status_label(service: &Service) -> (s: String)
    ensures
        s@ == status_label_text(service.enabled, service.active),
{
    if service.active {
        "● active".to_owned()
    } else if service.enabled {
        "● enabled".to_owned()
    } else {
        "● inactive".to_owned()
    }
}

/// A running service offers to stop, a service that starts at boot offers to
/// start, and any other offers neither.
pub fn offered_action(service: &Service) -> (a: Option<ServiceAction>)
    ensures
        match a {
            Some(ServiceAction::Stop(n)) => service.active && n@ == service.name@,
            Some(ServiceAction::Start(n)) => !service.active && service.enabled && n@ == service.name@,
            Some(ServiceAction::ToggleEnable(_, _)) => false,
            None => !service.active && !service.enabled,
        },
{
    if service.active {
        Some(ServiceAction::Stop(service.name.clone()))
    } else if service.enabled {
        Some(ServiceAction::Start(service.name.clone()))
    } else {
        None
    }
}

/// Every service offers to switch its start at boot.
pub fn toggle_action(service: &Service) -> (a: ServiceAction)
    ensures
        a matches ServiceAction::ToggleEnable(n, was) && n@ == service.name@ && was == service.enabled,
{
    ServiceAction::ToggleEnable(service.name.clone(), service.enabled)
}

/// The label of the switch: off for a service that starts at boot, on otherwise.
pub fn toggle_label(enabled: bool) -> (s: String)
    ensures
        s@ == (if enabled {
            "Выкл"@
        } else {
            "Вкл"@
        }),
{
    if enabled {
        "Выкл".to_owned()
    } else {
        "Вкл".to_owned()
    }
}

impl ServicesPage {
    /// The page with every watched service in the state `states` gives it
    /// (see [`list_services`]), no filter and no status.
    pub fn new(states: &Vec<(bool, bool)>) -> (page: ServicesPage)
        requires
            states.len() == service_catalog_spec().len(),
        ensures
            service_views(page.services@) == listed(service_catalog_spec().len(), Seq::empty(), states@),
            page.filter@ == Seq::<char>::empty(),
            page.status_msg@ == Seq::<char>::empty(),
            !page.status_is_error,
    {
        let filter = String::new();
        let services = list_services(filter.as_str(), states);
        ServicesPage { services, filter, status_msg: String::new(), status_is_error: false }
    }

    /// Lists the services anew under the current filter; the filter and the
    /// status stay.
    pub fn refresh(&mut self, states: &Vec<(bool, bool)>)
        requires
            states.len() == service_catalog_spec().len(),
        ensures
            service_views(final(self).services@) == listed(
                service_catalog_spec().len(),
                old(self).filter@,
                states@,
            ),
            final(self).filter == old(self).filter,
            final(self).status_msg == old(self).status_msg,
            final(self).status_is_error == old(self).status_is_error,
    {
        self.services = list_services(self.filter.as_str(), states);
    }

    /// Whether the `i`-th listed service shows under the current filter.
    pub fn shows_service(&self, i: usize) -> (r: bool)
        requires
            i < self.services.len(),
        ensures
            r == passes_filter(self.services[i as int].name@, self.filter@),
            r == (self.filter@.len() == 0 || contains(lowercase(self.services[i as int].name@), lowercase(self.filter@))),
    {
        matches_filter(self.services[i].name.as_str(), self.filter.as_str())
    }

    /// Records how an action ended: a success reports what was done to which
    /// service, a failure its error.
    pub fn record_action(&mut self, action: &ServiceAction, result: Result<(), String>)
        ensures
            final(self).services == old(self).services,
            final(self).filter == old(self).filter,
            match result {
                Ok(_) => !final(self).status_is_error && final(self).status_msg@ == action_done_text(
                    *action,
                ),
                Err(e) => final(self).status_is_error && final(self).status_msg@ == error_text(e@),
            },
    {
        match result {
            Ok(_) => {
                let what = match action {
                    ServiceAction::ToggleEnable(name, was_enabled) => {
                        let verb = if *was_enabled {
                            chars_of("Отключена")
                        } else {
                            chars_of("Включена")
                        };
                        concat_chars(&concat_chars(&verb, &chars_of(" ")), &chars_of(name.as_str()))
                    },
                    ServiceAction::Stop(name) => concat_chars(
                        &chars_of("Остановлена "),
                        &chars_of(name.as_str()),
                    ),
                    ServiceAction::Start(name) => concat_chars(
                        &chars_of("Запущена "),
                        &chars_of(name.as_str()),
                    ),
                };
                self.status_msg = done_status(&what);
                self.status_is_error = false;
            },
            Err(e) => {
                self.status_msg = error_status(e.as_str());
                self.status_is_error = true;
            },
        }
    }
}

} // verus!

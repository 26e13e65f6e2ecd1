//! System services: the catalogue the tuner watches, which of them a filter
//! shows, and what `systemctl` reports of them.

use vstd::prelude::*;
use crate::text::{contains, contains_chars, chars_of, lowercase, to_lowercase, trim, trimmed};

verus! {

/// A service with its state as `systemctl` reported it.
#[derive(Debug, Clone)]
pub struct Service {
    pub name: String,
    pub description: String,
    pub enabled: bool,
    pub active: bool,
    pub status: String,
}

/// The plain values of a [`Service`].
pub struct ServiceView {
    pub name: Seq<char>,
    pub description: Seq<char>,
    pub enabled: bool,
    pub active: bool,
    pub status: Seq<char>,
}

impl View for Service {
    type V = ServiceView;

    open spec fn view(&self) -> ServiceView {
        ServiceView {
            name: self.name@,
            description: self.description@,
            enabled: self.enabled,
            active: self.active,
            status: self.status@,
        }
    }
}

pub open spec fn svc(name: &str, description: &str) -> (Seq<char>, Seq<char>) {
    (name@, description@)
}

/// The services the tuner watches, by name and description, in the order it lists them.
pub open spec fn service_catalog_spec() -> Seq<(Seq<char>, Seq<char>)> {
    seq![
        svc("NetworkManager", "Менеджер сети"),
        svc("bluetooth", "Bluetooth сервис"),
        svc("cups", "Драйверы печати"),
        svc("ssh", "SSH сервер"),
        svc("docker", "Docker контейнеры"),
        svc("pipewire", "Аудио сервер"),
        svc("pipewire-pulse", "PulseAudio совместимость"),
        svc("wireplumber", "Менеджер аудио устройств"),
        svc("powertop", "Оптимизация батареи"),
        svc("tlp", "Управление питанием"),
        svc("fstrim.timer", "Автоматический TRIM"),
        svc("firewalld", "Межсетевой экран"),
        svc("chronyd", "Синхронизация времени"),
        svc("systemd-timesyncd", "Синхронизация времени (systemd)"),
        svc("gpu-manager", "GPU менеджер"),
        svc("multipathd", "Multipath для дисков"),
        svc("ModemManager", "Мобильные модемы"),
    ]
}

pub open spec fn text_pair_views(v: Seq<(String, String)>) -> Seq<(Seq<char>, Seq<char>)> {
    v.map_values(|e: (String, String)| (e.0@, e.1@))
}

fn catalog_entry(name: &str, description: &str) -> (e: (String, String))
    ensures
        (e.0@, e.1@) == svc(name, description),
{
    (name.to_owned(), description.to_owned())
}

/// The services the tuner watches, by name and description.
pub fn service_catalog() -> (out: Vec<(String, String)>)
    ensures
        text_pair_views(out@) == service_catalog_spec(),
{
    let mut out: Vec<(String, String)> = Vec::new();
    out.push(catalog_entry("NetworkManager", "Менеджер сети"));
    out.push(catalog_entry("bluetooth", "Bluetooth сервис"));
    out.push(catalog_entry("cups", "Драйверы печати"));
    out.push(catalog_entry("ssh", "SSH сервер"));
    out.push(catalog_entry("docker", "Docker контейнеры"));
    out.push(catalog_entry("pipewire", "Аудио сервер"));
    out.push(catalog_entry("pipewire-pulse", "PulseAudio совместимость"));
    out.push(catalog_entry("wireplumber", "Менеджер аудио устройств"));
    out.push(catalog_entry("powertop", "Оптимизация батареи"));
    out.push(catalog_entry("tlp", "Управление питанием"));
    out.push(catalog_entry("fstrim.timer", "Автоматический TRIM"));
    out.push(catalog_entry("firewalld", "Межсетевой экран"));
    out.push(catalog_entry("chronyd", "Синхронизация времени"));
    out.push(catalog_entry("systemd-timesyncd", "Синхронизация времени (systemd)"));
    out.push(catalog_entry("gpu-manager", "GPU менеджер"));
    out.push(catalog_entry("multipathd", "Multipath для дисков"));
    out.push(catalog_entry("ModemManager", "Мобильные модемы"));
    assert(text_pair_views(out@) =~= service_catalog_spec());
    out
}

/// A name passes a filter when the filter is empty or the name, in lower
/// case, holds the filter in lower case.
pub open spec fn passes_filter(name: Seq<char>, filter: Seq<char>) -> bool {
    filter.len() == 0 || contains(lowercase(name), lowercase(filter))
}

/// The filter test, given the lower-case forms of the name and the filter.
pub fn filter_accepts(filter: &str, lower_name: &str, lower_filter: &str) -> (r: bool)
    ensures
        r == (filter@.len() == 0 || contains(lower_name@, lower_filter@)),
{
    if filter.is_empty() {
        return true;
    }
    contains_chars(&chars_of(lower_name), &chars_of(lower_filter))
}

/// Whether a name passes a filter.
pub fn matches_filter(name: &str, filter: &str) -> (r: bool)
    ensures
        r == passes_filter(name@, filter@),
        r == (filter@.len() == 0 || contains(lowercase(name@), lowercase(filter@))),
{
    let lower_name = to_lowercase(name);
    let lower_filter = to_lowercase(filter);
    filter_accepts(filter, lower_name.as_str(), lower_filter.as_str())
}

/// The status word of a service: `active` when it runs, else `enabled` when
/// it starts at boot, else `inactive`.
pub open spec fn status_word(enabled: bool, active: bool) -> Seq<char> {
    if active {
        "active"@
    } else if enabled {
        "enabled"@
    } else {
        "inactive"@
    }
}

pub fn service_status(enabled: bool, active: bool) -> (s: String)
    ensures
        s@ == status_word(enabled, active),
{
    if active {
        "active".to_owned()
    } else if enabled {
        "enabled".to_owned()
    } else {
        "inactive".to_owned()
    }
}

/// The service of catalogue entry `e` in the given state.
pub open spec fn service_in_state(e: (Seq<char>, Seq<char>), enabled: bool, active: bool) -> ServiceView {
    ServiceView {
        name: e.0,
        description: e.1,
        enabled,
        active,
        status: status_word(enabled, active),
    }
}

/// The services among the first `n` of the catalogue that pass the filter,
/// each in the state that `states` gives it (`(enabled, active)`, by
/// catalogue index).
pub open spec fn listed(n: nat, filter: Seq<char>, states: Seq<(bool, bool)>) -> Seq<ServiceView>
    decreases n,
{
    if n == 0 {
        Seq::empty()
    } else {
        let prev = listed((n - 1) as nat, filter, states);
        let e = service_catalog_spec()[n - 1];
        if passes_filter(e.0, filter) {
            prev.push(service_in_state(e, states[n - 1].0, states[n - 1].1))
        } else {
            prev
        }
    }
}

/// With no filter, every one of the first `n` catalogue services is listed,
/// in catalogue order, each in its given state.
pub proof fn law_empty_filter_lists_all(n: nat, states: Seq<(bool, bool)>)
    requires
        n <= service_catalog_spec().len(),
    ensures
        listed(n, Seq::empty(), states).len() == n,
        forall|i: int|
            0 <= i < n ==> #[trigger] listed(n, Seq::empty(), states)[i] == service_in_state(
                service_catalog_spec()[i],
                states[i].0,
                states[i].1,
            ),
    decreases n,
{
    if n > 0 {
        law_empty_filter_lists_all((n - 1) as nat, states);
    }
}

/// Every listed service passes the filter, is a catalogue service in its
/// given state, and its status word is the one its state gives; listed
/// services keep catalogue order.
pub proof fn law_listed_services_pass_filter(n: nat, filter: Seq<char>, states: Seq<(bool, bool)>)
    requires
        n <= service_catalog_spec().len(),
    ensures
        listed(n, filter, states).len() <= n,
        forall|j: int|
            0 <= j < listed(n, filter, states).len() ==> {
                let s = #[trigger] listed(n, filter, states)[j];
                &&& passes_filter(s.name, filter)
                &&& s.status == status_word(s.enabled, s.active)
                &&& exists|i: int|
                    0 <= i < n && s == service_in_state(
                        service_catalog_spec()[i],
                        states[i].0,
                        states[i].1,
                    )
            },
    decreases n,
{
    if n > 0 {
        law_listed_services_pass_filter((n - 1) as nat, filter, states);
        let prev = listed((n - 1) as nat, filter, states);
        let cur = listed(n, filter, states);
        assert forall|j: int| 0 <= j < cur.len() implies {
            let s = #[trigger] cur[j];
            &&& passes_filter(s.name, filter)
            &&& s.status == status_word(s.enabled, s.active)
            &&& exists|i: int|
                0 <= i < n && s == service_in_state(service_catalog_spec()[i], states[i].0, states[i].1)
        } by {
            if j < prev.len() {
                assert(cur[j] == prev[j]);
                let s = prev[j];
                let i = choose|i: int|
                    0 <= i < n - 1 && s == service_in_state(service_catalog_spec()[i], states[i].0, states[i].1);
                assert(0 <= i < n);
            } else {
                let i = n - 1;
                assert(cur[j] == service_in_state(service_catalog_spec()[i], states[i].0, states[i].1));
            }
        }
    }
}

/// Catalogue index `i` names a service whose name, in lower case, holds the
/// filter in lower case, or the filter is empty.
pub open spec fn index_passes(filter: Seq<char>) -> spec_fn(int) -> bool {
    |i: int|
        filter.len() == 0 || contains(lowercase(service_catalog_spec()[i].0), lowercase(filter))
}

pub open spec fn index_service(states: Seq<(bool, bool)>) -> spec_fn(int) -> ServiceView {
    |i: int| service_in_state(service_catalog_spec()[i], states[i].0, states[i].1)
}

/// The listing is exactly the catalogue services, among the first `n`, whose
/// lower-case name holds the lower-case filter (all of them for an empty
/// filter), in catalogue order, each in its given state: none that passes is
/// left out, none that fails is let in.
pub proof fn law_listing_is_filtered_catalogue(n: nat, filter: Seq<char>, states: Seq<(bool, bool)>)
    requires
        n <= service_catalog_spec().len(),
    ensures
        listed(n, filter, states) == Seq::new(n, |i: int| i).filter(index_passes(filter)).map_values(
            index_service(states),
        ),
    decreases n,
{
    let idx = Seq::new(n, |i: int| i);
    if n == 0 {
        reveal(Seq::filter);
        assert(idx.filter(index_passes(filter)) =~= Seq::<int>::empty());
        assert(listed(n, filter, states) =~= idx.filter(index_passes(filter)).map_values(index_service(states)));
    } else {
        law_listing_is_filtered_catalogue((n - 1) as nat, filter, states);
        let prev_idx = Seq::new((n - 1) as nat, |i: int| i);
        assert(idx =~= prev_idx.push(n - 1));
        prev_idx.lemma_filter_push(n - 1, index_passes(filter));
        let pf = prev_idx.filter(index_passes(filter));
        if index_passes(filter)(n - 1) {
            assert(pf.push(n - 1).map_values(index_service(states)) =~= pf.map_values(index_service(states)).push(
                index_service(states)(n - 1),
            ));
        }
    }
}

/// Every catalogue service whose name passes the filter is listed, in its
/// given state.
pub proof fn law_passing_services_listed(n: nat, filter: Seq<char>, states: Seq<(bool, bool)>)
    requires
        n <= service_catalog_spec().len(),
    ensures
        forall|i: int|
            0 <= i < n && (filter.len() == 0 || contains(
                lowercase(#[trigger] service_catalog_spec()[i].0),
                lowercase(filter),
            )) ==> exists|j: int|
                0 <= j < listed(n, filter, states).len() && listed(n, filter, states)[j] == service_in_state(
                    service_catalog_spec()[i],
                    states[i].0,
                    states[i].1,
                ),
    decreases n,
{
    if n > 0 {
        law_passing_services_listed((n - 1) as nat, filter, states);
        let prev = listed((n - 1) as nat, filter, states);
        let cur = listed(n, filter, states);
        assert forall|i: int|
            0 <= i < n && (filter.len() == 0 || contains(
                lowercase(#[trigger] service_catalog_spec()[i].0),
                lowercase(filter),
            )) implies exists|j: int|
                0 <= j < cur.len() && cur[j] == service_in_state(
                    service_catalog_spec()[i],
                    states[i].0,
                    states[i].1,
                ) by {
            if i < n - 1 {
                let j = choose|j: int|
                    0 <= j < prev.len() && prev[j] == service_in_state(
                        service_catalog_spec()[i],
                        states[i].0,
                        states[i].1,
                    );
                assert(cur[j] == prev[j]);
            } else {
                assert(cur[prev.len() as int] == service_in_state(
                    service_catalog_spec()[i],
                    states[i].0,
                    states[i].1,
                ));
            }
        }
    }
}

pub open spec fn service_views(v: Seq<Service>) -> Seq<ServiceView> {
    v.map_values(|s: Service| s@)
}

/// The watched services that pass `filter`, in catalogue order, each in the
/// state that `states` gives it: `states[i]` is `(enabled, active)` as
/// `systemctl` reported it for the `i`-th catalogue service (only those that
/// pass the filter are read).
pub fn list_services(filter: &str, states: &Vec<(bool, bool)>) -> (out: Vec<Service>)
    requires
        states.len() == service_catalog_spec().len(),
    ensures
        service_views(out@) == listed(service_catalog_spec().len(), filter@, states@),
        forall|i: int|
            0 <= i < service_catalog_spec().len() && (filter@.len() == 0 || contains(
                lowercase(#[trigger] service_catalog_spec()[i].0),
                lowercase(filter@),
            )) ==> exists|j: int|
                0 <= j < out.len() && out[j]@ == service_in_state(
                    service_catalog_spec()[i],
                    states[i].0,
                    states[i].1,
                ),
        forall|j: int|
            0 <= j < out.len() ==> (filter@.len() == 0 || contains(
                lowercase(#[trigger] out[j].name@),
                lowercase(filter@),
            )),
{
    let catalog = service_catalog();
    let mut out: Vec<Service> = Vec::new();
    let mut i: usize = 0;
    while i < catalog.len()
        invariant
            i <= catalog.len() == states.len() == service_catalog_spec().len(),
            text_pair_views(catalog@) == service_catalog_spec(),
            service_views(out@) == listed(i as nat, filter@, states@),
        decreases catalog.len() - i,
    {
        let ghost before = out@;
        let ghost e = service_catalog_spec()[i as int];
        proof {
            assert(text_pair_views(catalog@)[i as int] == e);
        }
        let name = &catalog[i].0;
        if matches_filter(name.as_str(), filter) {
            let (enabled, active) = states[i];
            let s = Service {
                name: name.clone(),
                description: catalog[i].1.clone(),
                enabled,
                active,
                status: service_status(enabled, active),
            };
            out.push(s);
            proof {
                assert(service_views(out@) =~= service_views(before).push(
                    service_in_state(e, enabled, active),
                ));
            }
        }
        i += 1;
    }
    proof {
        let n = service_catalog_spec().len();
        law_passing_services_listed(n, filter@, states@);
        law_listed_services_pass_filter(n, filter@, states@);
        let l = listed(n, filter@, states@);
        assert forall|i: int|
            0 <= i < n && (filter@.len() == 0 || contains(
                lowercase(#[trigger] service_catalog_spec()[i].0),
                lowercase(filter@),
            )) implies exists|j: int|
                0 <= j < out.len() && out[j]@ == service_in_state(
                    service_catalog_spec()[i],
                    states[i].0,
                    states[i].1,
                ) by {
            let j = choose|j: int|
                0 <= j < l.len() && l[j] == service_in_state(
                    service_catalog_spec()[i],
                    states[i].0,
                    states[i].1,
                );
            assert(service_views(out@)[j] == out@[j]@);
        }
        assert forall|j: int| 0 <= j < out.len() implies (filter@.len() == 0 || contains(
            lowercase(#[trigger] out[j].name@),
            lowercase(filter@),
        )) by {
            assert(service_views(out@)[j] == out@[j]@);
            assert(l[j] == out@[j]@);
        }
    }
    out
}

/// `systemctl is-enabled` said the service is enabled.
pub fn is_service_enabled(stdout: &str) -> (b: bool)
    ensures
        b == (trimmed(stdout@) == "enabled"@),
{
    trim(stdout) == "enabled".to_owned()
}

/// `systemctl is-active` said the unit is active.
pub fn is_service_active(stdout: &str) -> (b: bool)
    ensures
        b == (trimmed(stdout@) == "active"@),
{
    trim(stdout) == "active".to_owned()
}

} // verus!

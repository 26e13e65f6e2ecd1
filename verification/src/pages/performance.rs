//! The performance page: the processor, the power profiles with one of them
//! selected, and the outcome of the last change.

use vstd::prelude::*;
use crate::backend::performance::{
    get_power_profiles, power_profiles_spec, profile_views, CpuInfo, CpuView, PowerProfile, ProfileView,
};
use crate::pages::status::{done_status, done_text, error_status, error_text};
use crate::text::{chars_of, concat_chars};

verus! {

/// The page's state. A profile is always selected.
pub struct PerformancePage {
    cpu: CpuInfo,
    profiles: Vec<PowerProfile>,
    selected_profile: usize,
    status_msg: String,
    status_is_error: bool,
}

pub struct PerformanceView {
    pub cpu: CpuView,
    pub profiles: Seq<ProfileView>,
    pub selected_profile: nat,
    pub status_msg: Seq<char>,
    pub status_is_error: bool,
}

impl View for PerformancePage {
    type V = PerformanceView;

    closed spec fn view(&self) -> PerformanceView {
        PerformanceView {
            cpu: self.cpu@,
            profiles: profile_views(self.profiles@),
            selected_profile: self.selected_profile as nat,
            status_msg: self.status_msg@,
            status_is_error: self.status_is_error,
        }
    }
}

/// The text that reports a profile applied.
pub open spec fn profile_applied_text(name: Seq<char>) -> Seq<char> {
    done_text("Профиль '"@ + name + "' применён"@)
}

/// The text that reports a governor set.
pub open spec fn governor_set_text(governor: Seq<char>) -> Seq<char> {
    done_text("Governor = "@ + governor)
}

impl PerformancePage {
    #[verifier::type_invariant]
    spec fn selection_in_range(self) -> bool {
        &&& self.selected_profile < self.profiles.len()
        &&& profile_views(self.profiles@) == power_profiles_spec()
    }

    /// The page with the processor as read, the power profiles with the first
    /// selected, and no status.
    pub fn new(cpu: CpuInfo) -> (page: PerformancePage)
        ensures
            page@.cpu == cpu@,
            page@.profiles == power_profiles_spec(),
            page@.selected_profile == 0,
            page@.status_msg == Seq::<char>::empty(),
            !page@.status_is_error,
    {
        let profiles = get_power_profiles();
        assert(profile_views(profiles@).len() == profiles@.len());
        PerformancePage {
            cpu,
            profiles,
            selected_profile: 0,
            status_msg: String::new(),
            status_is_error: false,
        }
    }

    /// Takes the processor as read anew; all else stays.
    pub fn refresh(&mut self, cpu: CpuInfo)
        ensures
            final(self)@ == (PerformanceView { cpu: cpu@, ..old(self)@ }),
    {
        proof {
            use_type_invariant(&*self);
        }
        self.cpu = cpu;
    }

    pub fn cpu(&self) -> (c: &CpuInfo)
        ensures
            c@ == self@.cpu,
    {
        &self.cpu
    }

    pub fn profiles(&self) -> (p: &Vec<PowerProfile>)
        ensures
            profile_views(p@) == self@.profiles,
    {
        &self.profiles
    }

    pub fn selected_profile(&self) -> (i: usize)
        ensures
            i as nat == self@.selected_profile,
            i < self@.profiles.len(),
    {
        proof {
            use_type_invariant(self);
        }
        self.selected_profile
    }

    /// The selected profile.
    pub fn selected(&self) -> (p: &PowerProfile)
        ensures
            p@ == self@.profiles[self@.selected_profile as int],
    {
        proof {
            use_type_invariant(self);
        }
        &self.profiles[self.selected_profile]
    }

    pub fn status_msg(&self) -> (s: &String)
        ensures
            s@ == self@.status_msg,
    {
        &self.status_msg
    }

    pub fn status_is_error(&self) -> (b: bool)
        ensures
            b == self@.status_is_error,
    {
        self.status_is_error
    }

    /// Selects the `i`-th profile.
    pub fn select_profile(&mut self, i: usize)
        requires
            i < old(self)@.profiles.len(),
        ensures
            final(self)@ == (PerformanceView { selected_profile: i as nat, ..old(self)@ }),
    {
        proof {
            use_type_invariant(&*self);
        }
        self.selected_profile = i;
    }

    /// Whether `governor` is the one in use.
    pub fn is_current_governor(&self, governor: &String) -> (b: bool)
        ensures
            b == (governor@ == self@.cpu.governor),
    {
        *governor == self.cpu.governor
    }

    /// Records how setting the governor ended: a success makes it the one in
    /// use and reports it, a failure its error.
    pub fn record_governor(&mut self, governor: &str, result: Result<(), String>)
        ensures
            final(self)@.profiles == old(self)@.profiles,
            final(self)@.selected_profile == old(self)@.selected_profile,
            final(self)@.cpu.model == old(self)@.cpu.model,
            final(self)@.cpu.cores == old(self)@.cpu.cores,
            final(self)@.cpu.available_governors == old(self)@.cpu.available_governors,
            final(self)@.cpu.frequency == old(self)@.cpu.frequency,
            match result {
                Ok(_) => {
                    &&& final(self)@.cpu.governor == governor@
                    &&& !final(self)@.status_is_error
                    &&& final(self)@.status_msg == governor_set_text(governor@)
                },
                Err(e) => {
                    &&& final(self)@.cpu.governor == old(self)@.cpu.governor
                    &&& final(self)@.status_is_error
                    &&& final(self)@.status_msg == error_text(e@)
                },
            },
    {
        proof {
            use_type_invariant(&*self);
        }
        match result {
            Ok(_) => {
                self.cpu.governor = governor.to_owned();
                self.status_msg = done_status(&concat_chars(&chars_of("Governor = "), &chars_of(governor)));
                self.status_is_error = false;
            },
            Err(e) => {
                self.status_msg = error_status(e.as_str());
                self.status_is_error = true;
            },
        }
    }

    /// Records how applying the selected profile ended: a success reports its
    /// name, a failure its error.
    pub fn record_profile(&mut self, result: Result<(), String>)
        ensures
            final(self)@.cpu == old(self)@.cpu,
            final(self)@.profiles == old(self)@.profiles,
            final(self)@.selected_profile == old(self)@.selected_profile,
            match result {
                Ok(_) => {
                    &&& !final(self)@.status_is_error
                    &&& final(self)@.status_msg == profile_applied_text(
                        old(self)@.profiles[old(self)@.selected_profile as int].name,
                    )
                },
                Err(e) => final(self)@.status_is_error && final(self)@.status_msg == error_text(e@),
            },
    {
        proof {
            use_type_invariant(&*self);
        }
        match result {
            Ok(_) => {
                let name = chars_of(self.profiles[self.selected_profile].name.as_str());
                let what = concat_chars(&concat_chars(&chars_of("Профиль '"), &name), &chars_of("' применён"));
                self.status_msg = done_status(&what);
                self.status_is_error = false;
            },
            Err(e) => {
                self.status_msg = error_status(e.as_str());
                self.status_is_error = true;
            },
        }
    }
}

} // verus!

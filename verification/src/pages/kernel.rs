//! The kernel page: the common parameters, a search over them, and the
//! outcome of the last change.

use vstd::prelude::*;
use crate::backend::sysctl::{are_common_params, common_catalog, get_common_params, SysctlParam};
use crate::pages::status::{done_status, done_text, error_status, error_text};
use crate::text::{chars_of, concat_chars, contains, contains_chars, lowercase, to_lowercase};

verus! {

pub struct KernelPage {
    pub params: Vec<SysctlParam>,
    pub search: String,
    pub status_msg: String,
    pub status_is_error: bool,
}

/// A parameter shows under a search when the search is empty or its key or
/// its description, in lower case, holds the search in lower case.
pub open spec fn param_shown(key: Seq<char>, description: Seq<char>, search: Seq<char>) -> bool {
    ||| search.len() == 0
    ||| contains(lowercase(key), lowercase(search))
    ||| contains(lowercase(description), lowercase(search))
}

/// The search is case-insensitive on key and description alike: a parameter
/// shows exactly when the search is empty, or its key or its description, in
/// lower case, holds the search in lower case.
pub proof fn law_search_case_insensitive(key: Seq<char>, description: Seq<char>, search: Seq<char>)
    ensures
        search.len() == 0 ==> param_shown(key, description, search),
        contains(lowercase(key), lowercase(search)) ==> param_shown(key, description, search),
        contains(lowercase(description), lowercase(search)) ==> param_shown(key, description, search),
        param_shown(key, description, search) ==> search.len() == 0 || contains(lowercase(key), lowercase(search))
            || contains(lowercase(description), lowercase(search)),
{
}

/// The search test, given the lower-case forms of key, description and search.
pub fn search_accepts(search: &str, lower_key: &str, lower_description: &str, lower_search: &str) -> (r: bool)
    ensures
        r == (search@.len() == 0 || contains(lower_key@, lower_search@) || contains(
            lower_description@,
            lower_search@,
        )),
{
    if search.is_empty() {
        return true;
    }
    let s = chars_of(lower_search);
    contains_chars(&chars_of(lower_key), &s) || contains_chars(&chars_of(lower_description), &s)
}

/// The text that reports a parameter set to a value.
pub open spec fn applied_text(key: Seq<char>, value: Seq<char>) -> Seq<char> {
    done_text(key + " = "@ + value)
}

impl KernelPage {
    /// The page with the common parameters as `readings` gives them (see
    /// [`get_common_params`]), no search and no status.
    pub fn new(readings: &Vec<Result<String, String>>) -> (page: KernelPage)
        requires
            readings.len() == common_catalog().len(),
        ensures
            are_common_params(page.params@, readings@),
            page.search@ == Seq::<char>::empty(),
            page.status_msg@ == Seq::<char>::empty(),
            !page.status_is_error,
    {
        let params = get_common_params(readings);
        KernelPage { params, search: String::new(), status_msg: String::new(), status_is_error: false }
    }

    /// Reads the parameters anew; the search and the status stay.
    pub fn refresh(&mut self, readings: &Vec<Result<String, String>>)
        requires
            readings.len() == common_catalog().len(),
        ensures
            are_common_params(final(self).params@, readings@),
            final(self).search == old(self).search,
            final(self).status_msg == old(self).status_msg,
            final(self).status_is_error == old(self).status_is_error,
    {
        self.params = get_common_params(readings);
    }

    /// Whether the `i`-th parameter shows under the current search.
    pub fn shows_param(&self, i: usize) -> (r: bool)
        requires
            i < self.params.len(),
        ensures
            r == param_shown(self.params[i as int].key@, self.params[i as int].description@, self.search@),
            r == (self.search@.len() == 0 || contains(lowercase(self.params[i as int].key@), lowercase(self.search@))
                || contains(lowercase(self.params[i as int].description@), lowercase(self.search@))),
    {
        let p = &self.params[i];
        let lk = to_lowercase(p.key.as_str());
        let ld = to_lowercase(p.description.as_str());
        let ls = to_lowercase(self.search.as_str());
        search_accepts(self.search.as_str(), lk.as_str(), ld.as_str(), ls.as_str())
    }

    /// Records how writing the `i`-th parameter ended: a success reports the
    /// key and the value set, a failure its error.
    pub fn record_apply(&mut self, i: usize, result: Result<(), String>)
        requires
            i < old(self).params.len(),
        ensures
            final(self).params == old(self).params,
            final(self).search == old(self).search,
            match result {
                Ok(_) => !final(self).status_is_error && final(self).status_msg@ == applied_text(
                    old(self).params[i as int].key@,
                    old(self).params[i as int].value@,
                ),
                Err(e) => final(self).status_is_error && final(self).status_msg@ == error_text(e@),
            },
    {
        match result {
            Ok(_) => {
                let p = &self.params[i];
                let what = concat_chars(
                    &concat_chars(&chars_of(p.key.as_str()), &chars_of(" = ")),
                    &chars_of(p.value.as_str()),
                );
                self.status_msg = done_status(&what);
                self.status_is_error = false;
            },
            Err(e) => {
                self.status_msg = error_status(e.as_str());
                self.status_is_error = true;
            },
        }
    }

    /// Sets the value field of the `i`-th parameter, as the user typed it.
    pub fn set_param_value(&mut self, i: usize, value: String)
        requires
            i < old(self).params.len(),
        ensures
            final(self).params.len() == old(self).params.len(),
            final(self).params[i as int].value == value,
            final(self).params[i as int].key == old(self).params[i as int].key,
            final(self).params[i as int].description == old(self).params[i as int].description,
            final(self).params[i as int].category == old(self).params[i as int].category,
            final(self).params[i as int].default == old(self).params[i as int].default,
            forall|j: int| 0 <= j < final(self).params.len() && j != i ==> final(self).params[j] == old(self).params[j],
            final(self).search == old(self).search,
            final(self).status_msg == old(self).status_msg,
            final(self).status_is_error == old(self).status_is_error,
    {
        let p = &self.params[i];
        let q = SysctlParam {
            key: p.key.clone(),
            value,
            description: p.description.clone(),
            category: p.category.clone(),
            default: p.default.clone(),
        };
        self.params.set(i, q);
    }
}

} // verus!

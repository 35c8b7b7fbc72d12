use vstd::prelude::*;

use vstd::std_specs::cmp::PartialEqSpec;

use crate::error::Error;
use crate::profile::{profile_valid, RequestProfile};
use crate::response::ResponseProfile;

verus! {

/// Whether a value equals its type's default.
pub fn is_default<T: Default + PartialEq>(t: &T) -> (r: bool)
    ensures
        exists|d: T| #[trigger] call_ensures(T::default, (), d) && (T::obeys_eq_spec() ==> r == t.eq_spec(&d)),
{
    let d = T::default();
    let r = *t == d;
    assert(call_ensures(T::default, (), d) && (T::obeys_eq_spec() ==> r == t.eq_spec(&d)));
    r
}

/// A configuration that is checked once loaded.
pub trait ValidateConfig {
    /// Whether every profile of the configuration is well formed.
    spec fn valid(&self) -> bool;

    fn validate(&self) -> (r: Result<(), Error>)
        ensures
            r is Ok <==> self.valid(),
    ;
}

impl ValidateConfig for RequestProfile {
    open spec fn valid(&self) -> bool {
        profile_valid(self@)
    }

    fn validate(&self) -> (r: Result<(), Error>) {
        RequestProfile::validate(self)
    }
}

/// Named request profiles, names distinct.
#[derive(Debug)]
pub struct RequestConfig {
    pub profiles: Vec<(String, RequestProfile)>,
}

/// The position of the first entry named `name`, or the number of entries.
pub open spec fn name_index<V>(v: Seq<(String, V)>, name: Seq<char>) -> int
    decreases v.len(),
{
    if v.len() == 0 {
        0
    } else if v[0].0@ == name {
        0
    } else {
        1 + name_index(v.drop_first(), name)
    }
}

pub proof fn lemma_name_index<V>(v: Seq<(String, V)>, name: Seq<char>, i: int)
    requires
        0 <= i <= v.len(),
        forall|j: int| 0 <= j < i ==> v[j].0@ != name,
        i == v.len() || v[i].0@ == name,
    ensures
        name_index(v, name) == i,
    decreases v.len(),
{
    if v.len() > 0 && i > 0 {
        assert forall|j: int| 0 <= j < i - 1 implies v.drop_first()[j].0@ != name by {
            assert(v[j + 1].0@ != name);
        }
        lemma_name_index(v.drop_first(), name, i - 1);
    }
}

/// Position of the entry named `name`, or the number of entries.
fn find_name<V>(v: &Vec<(String, V)>, name: &str) -> (r: usize)
    ensures
        r as int == name_index(v@, name@),
        r <= v@.len(),
{
    let target = String::from_str(name);
    let mut i: usize = 0;
    while i < v.len()
        invariant
            i <= v@.len(),
            target@ == name@,
            forall|j: int| 0 <= j < i ==> v@[j].0@ != name@,
        decreases v@.len() - i,
    {
        if v[i].0 == target {
            proof {
                lemma_name_index(v@, name@, i as int);
            }
            return i;
        }
        i = i + 1;
    }
    proof {
        lemma_name_index(v@, name@, i as int);
    }
    i
}

impl RequestConfig {
    pub fn new(profiles: Vec<(String, RequestProfile)>) -> (r: RequestConfig)
        ensures
            r.profiles == profiles,
    {
        RequestConfig { profiles }
    }

    /// The profile named `name`, if there is one.
    pub fn get_profile(&self, name: &str) -> (r: Option<&RequestProfile>)
        ensures
            match r {
                Some(p) => name_index(self.profiles@, name@) < self.profiles@.len()
                    && *p == self.profiles@[name_index(self.profiles@, name@)].1,
                None => name_index(self.profiles@, name@) == self.profiles@.len(),
            },
    {
        let i = find_name(&self.profiles, name);
        if i < self.profiles.len() {
            Some(&self.profiles[i].1)
        } else {
            None
        }
    }
}

impl ValidateConfig for RequestConfig {
    open spec fn valid(&self) -> bool {
        forall|i: int| 0 <= i < self.profiles@.len() ==> profile_valid(#[trigger] self.profiles@[i].1@)
    }

    fn validate(&self) -> (r: Result<(), Error>) {
        let mut i: usize = 0;
        while i < self.profiles.len()
            invariant
                i <= self.profiles@.len(),
                forall|j: int| 0 <= j < i ==> profile_valid(#[trigger] self.profiles@[j].1@),
            decreases self.profiles@.len() - i,
        {
            let r = self.profiles[i].1.validate();
            if r.is_err() {
                return r;
            }
            i = i + 1;
        }
        Ok(())
    }
}

/// Two requests whose responses are compared, and what to leave out of them.
#[derive(Debug)]
pub struct DiffProfile {
    pub req1: RequestProfile,
    pub req2: RequestProfile,
    pub res: ResponseProfile,
}

impl DiffProfile {
    pub fn new(req1: RequestProfile, req2: RequestProfile, res: ResponseProfile) -> (r: DiffProfile)
        ensures
            r.req1 == req1,
            r.req2 == req2,
            r.res == res,
    {
        DiffProfile { req1, req2, res }
    }
}

/// Named diff profiles, names distinct.
#[derive(Debug)]
pub struct DiffConfig {
    pub profiles: Vec<(String, DiffProfile)>,
}

impl DiffConfig {
    pub fn new(profiles: Vec<(String, DiffProfile)>) -> (r: DiffConfig)
        ensures
            r.profiles == profiles,
    {
        DiffConfig { profiles }
    }

    /// The diff profile named `name`, if there is one.
    pub fn get_profile(&self, name: &str) -> (r: Option<&DiffProfile>)
        ensures
            match r {
                Some(p) => name_index(self.profiles@, name@) < self.profiles@.len()
                    && *p == self.profiles@[name_index(self.profiles@, name@)].1,
                None => name_index(self.profiles@, name@) == self.profiles@.len(),
            },
    {
        let i = find_name(&self.profiles, name);
        if i < self.profiles.len() {
            Some(&self.profiles[i].1)
        } else {
            None
        }
    }
}

impl ValidateConfig for DiffConfig {
    open spec fn valid(&self) -> bool {
        forall|i: int| 0 <= i < self.profiles@.len() ==> {
            &&& profile_valid(#[trigger] self.profiles@[i].1.req1@)
            &&& profile_valid(self.profiles@[i].1.req2@)
        }
    }

    fn validate(&self) -> (r: Result<(), Error>) {
        let mut i: usize = 0;
        while i < self.profiles.len()
            invariant
                i <= self.profiles@.len(),
                forall|j: int| 0 <= j < i ==> {
                    &&& profile_valid(#[trigger] self.profiles@[j].1.req1@)
                    &&& profile_valid(self.profiles@[j].1.req2@)
                },
            decreases self.profiles@.len() - i,
        {
            let r = self.profiles[i].1.req1.validate();
            if r.is_err() {
                return r;
            }
            let r = self.profiles[i].1.req2.validate();
            if r.is_err() {
                return r;
            }
            i = i + 1;
        }
        Ok(())
    }
}

} // verus!

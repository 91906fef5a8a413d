use vstd::prelude::*;
use vstd::string::StrSliceExecFns;

use crate::error::WeatherError;
use crate::model::{Coordinates, WeatherForecast};
use crate::settings::Settings;

verus! {

/// The core version a plugin must declare, compared as text.
pub const CORE_VERSION: &'static str = "0.0";

/// Checks the version a plugin declares against `CORE_VERSION`; any
/// difference is `IncompatiblePlugin`.
pub fn check_core_version(declared: &str) -> (r: Result<(), WeatherError>)
    ensures
        r is Ok <==> declared@ == CORE_VERSION@,
        r matches Err(e) ==> e is IncompatiblePlugin,
{
    let ours = String::from_str(CORE_VERSION);
    let theirs = String::from_str(declared);
    if ours == theirs {
        Ok(())
    } else {
        let mut m = String::from_str("plugin built for core version ");
        m.append(declared);
        Err(WeatherError::IncompatiblePlugin(m))
    }
}

/// `name` ends in `.` followed by `ext`.
pub open spec fn has_extension(name: Seq<char>, ext: Seq<char>) -> bool {
    let n = name.len();
    let k = ext.len() + 1;
    n >= k && name[n - k] == '.' && name.subrange(n - k + 1, n as int) == ext
}

/// Whether `file_name` carries the platform's shared-library extension
/// `library_ext` (`so`, `dll` or `dylib`).
pub fn is_valid_ext(file_name: &str, library_ext: &str) -> (r: bool)
    ensures
        r == has_extension(file_name@, library_ext@),
{
    let n: usize = file_name.unicode_len();
    let e: usize = library_ext.unicode_len();
    if e >= n {
        return false;
    }
    let dot = file_name.get_char(n - e - 1);
    let tail = String::from_str(file_name.substring_char(n - e, n));
    dot == '.' && tail == String::from_str(library_ext)
}

/// A provider that a plugin library registers; plugin authors implement it.
pub trait WeatherForecastPlugin {
    /// The forecast for a place.
    fn call(&self, coordinates: &Coordinates, settings: &Settings) -> Result<WeatherForecast, WeatherError>;

    /// The provider's name, if it gives one.
    fn name(&self) -> Option<String>;

    /// A help text, if it gives one.
    fn help(&self) -> Option<String>;
}

/// The providers registered so far, each name mapped to the handle of its
/// provider object. A later registration under a name replaces the earlier.
#[derive(Debug)]
pub struct Registrar {
    entries: Vec<(String, usize)>,
}

/// The map that a list of registrations builds, later ones winning.
pub open spec fn registered(s: Seq<(String, usize)>) -> Map<Seq<char>, usize>
    decreases s.len(),
{
    if s.len() == 0 {
        Map::empty()
    } else {
        registered(s.drop_last()).insert(s.last().0@, s.last().1)
    }
}

impl View for Registrar {
    type V = Map<Seq<char>, usize>;

    closed spec fn view(&self) -> Map<Seq<char>, usize> {
        registered(self.entries@)
    }
}

proof fn lemma_registered_from(s: Seq<(String, usize)>, k: Seq<char>, i: int)
    requires
        0 <= i <= s.len(),
        forall|j: int| i <= j < s.len() ==> (#[trigger] s[j]).0@ != k,
    ensures
        registered(s).contains_key(k) == registered(s.subrange(0, i)).contains_key(k),
        registered(s).contains_key(k) ==> registered(s)[k] == registered(s.subrange(0, i))[k],
    decreases s.len() - i,
{
    if i < s.len() {
        let t = s.drop_last();
        assert(s.subrange(0, i) == t.subrange(0, i));
        lemma_registered_from(t, k, i);
    } else {
        assert(s.subrange(0, i) =~= s);
    }
}

impl Registrar {
    /// A registrar with nothing registered.
    pub fn new() -> (r: Registrar)
        ensures
            r@ == Map::<Seq<char>, usize>::empty(),
    {
        Registrar { entries: Vec::new() }
    }

    /// Registers `handle` under `name`.
    pub fn register_function(&mut self, name: &str, handle: usize)
        ensures
            final(self)@ == old(self)@.insert(name@, handle),
    {
        let ghost before = self.entries@;
        self.entries.push((String::from_str(name), handle));
        proof {
            assert(self.entries@.drop_last() =~= before);
        }
    }

    /// The handle registered under `name`, if any.
    pub fn lookup(&self, name: &str) -> (r: Option<usize>)
        ensures
            match r {
                Some(h) => self@.contains_key(name@) && self@[name@] == h,
                None => !self@.contains_key(name@),
            },
    {
        let key = String::from_str(name);
        let mut i: usize = self.entries.len();
        while i > 0
            invariant
                key@ == name@,
                0 <= i <= self.entries@.len(),
                forall|j: int| i <= j < self.entries@.len() ==> (#[trigger] self.entries@[j]).0@ != key@,
            decreases i,
        {
            if self.entries[i - 1].0 == key {
                proof {
                    let s = self.entries@;
                    lemma_registered_from(s, key@, i as int);
                    let p = s.subrange(0, i as int);
                    assert(p.drop_last() =~= s.subrange(0, i - 1));
                    assert(p.last() == s[i - 1]);
                    assert(s[i - 1].0@ == key@);
                    assert(registered(p) == registered(p.drop_last()).insert(key@, s[i - 1].1));
                    assert(registered(p).contains_key(key@));
                }
                return Some(self.entries[i - 1].1);
            }
            i = i - 1;
        }
        proof {
            lemma_registered_from(self.entries@, key@, 0);
            assert(self.entries@.subrange(0, 0) =~= Seq::<(String, usize)>::empty());
        }
        None
    }

    /// Registers everything `other` holds, in its order, so that its names
    /// win over names already here.
    pub fn merge(&mut self, other: &Registrar)
        ensures
            final(self)@ == old(self)@.union_prefer_right(other@),
    {
        let ghost base = self@;
        let mut i: usize = 0;
        while i < other.entries.len()
            invariant
                0 <= i <= other.entries@.len(),
                self@ == base.union_prefer_right(registered(other.entries@.subrange(0, i as int))),
            decreases other.entries.len() - i,
        {
            let ghost prefix = other.entries@.subrange(0, i as int);
            self.register_function(other.entries[i].0.as_str(), other.entries[i].1);
            proof {
                let next = other.entries@.subrange(0, i + 1);
                assert(next.drop_last() =~= prefix);
                assert(self@ =~= base.union_prefer_right(registered(next)));
            }
            i = i + 1;
        }
        proof {
            assert(other.entries@.subrange(0, other.entries@.len() as int) =~= other.entries@);
        }
    }
}

} // verus!

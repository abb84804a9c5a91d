//! The name-to-install-path registry: an association list with unique
//! names, persisted by the surrounding layer as a simple on-disk
//! mapping with load-or-default semantics.

use vstd::prelude::*;

use crate::errors::CoreError;
use crate::strutil::str_eq;

verus! {

/// Registered server instances: each name maps to the install path of
/// one server instance.
#[derive(Debug, Clone, PartialEq, Eq)]
pub struct Config {
    pub servers: Vec<(String, String)>,
}

impl Config {
    /// The names registered so far, in insertion order.
    pub open spec fn names(&self) -> Seq<Seq<char>> {
        self.servers@.map_values(|e: (String, String)| e.0@)
    }

    /// Whether some entry carries `name`.
    pub open spec fn spec_contains(&self, name: Seq<char>) -> bool {
        exists|i: int| 0 <= i < self.servers@.len() && self.servers@[i].0@ == name
    }

    /// The path stored under `name`, assuming one is.
    pub open spec fn spec_path_of(&self, name: Seq<char>) -> Seq<char> {
        self.servers@[choose|i: int|
            0 <= i < self.servers@.len() && self.servers@[i].0@ == name].1@
    }

    /// Names are registered at most once.
    pub open spec fn wf(&self) -> bool {
        forall|i: int, j: int|
            0 <= i < j < self.servers@.len() ==> self.servers@[i].0@ != self.servers@[j].0@
    }

    /// An empty registry, the load-or-default fallback when nothing is
    /// stored yet.
    pub fn new() -> (r: Config)
        ensures
            r.servers@.len() == 0,
            r.wf(),
    {
        Config { servers: Vec::new() }
    }

    /// Register a new server under `name`; fails with `AlreadyExists`
    /// when the name is taken, leaving the registry unchanged.
    pub fn add_server(&mut self, name: String, path: String) -> (r: Result<(), CoreError>)
        requires
            old(self).wf(),
        ensures
            final(self).wf(),
            match r {
                Ok(_) => !old(self).spec_contains(name@) && final(self).servers@ == old(
                    self).servers@.push((name, path)),
                Err(e) => e == CoreError::AlreadyExists && old(self).spec_contains(name@) && final(
                    self).servers@ == old(self).servers@,
            },
    {
        let n = self.servers.len();
        let mut i: usize = 0;
        while i < n
            invariant
                self == old(self),
                self.wf(),
                n == self.servers@.len(),
                i <= n,
                forall|j: int| 0 <= j < i ==> self.servers@[j].0@ != name@,
            decreases n - i,
        {
            if str_eq(self.servers[i].0.as_str(), name.as_str()) {
                return Err(CoreError::AlreadyExists);
            }
            i = i + 1;
        }
        self.servers.push((name, path));
        proof {
            let s0 = old(self).servers@;
            let s1 = self.servers@;
            assert(s1 == s0.push((name, path)));
            assert forall|a: int, b: int| 0 <= a < b < s1.len() implies s1[a].0@ != s1[b].0@ by {
                if b < s0.len() {
                    assert(s1[a] == s0[a] && s1[b] == s0[b]);
                } else {
                    assert(s1[b] == (name, path));
                    assert(s1[a] == s0[a]);
                    assert(s0[a].0@ != name@);
                }
            }
        }
        Ok(())
    }

    /// Look up the install path registered under `name`; fails with
    /// `NotFound` when no entry carries it.
    pub fn get_server_path(&self, name: &str) -> (r: Result<String, CoreError>)
        requires
            self.wf(),
        ensures
            match r {
                Ok(p) => self.spec_contains(name@) && p@ == self.spec_path_of(name@),
                Err(e) => e == CoreError::NotFound && !self.spec_contains(name@),
            },
    {
        let n = self.servers.len();
        let mut i: usize = 0;
        while i < n
            invariant
                self.wf(),
                n == self.servers@.len(),
                i <= n,
                forall|j: int| 0 <= j < i ==> self.servers@[j].0@ != name@,
            decreases n - i,
        {
            if str_eq(self.servers[i].0.as_str(), name) {
                let p = self.servers[i].1.clone();
                proof {
                    let w = choose|k: int|
                        0 <= k < self.servers@.len() && self.servers@[k].0@ == name@;
                    assert(w == i as int);
                }
                return Ok(p);
            }
            i = i + 1;
        }
        Err(CoreError::NotFound)
    }

    /// The registered names, in insertion order.
    pub fn list_servers(&self) -> (r: Vec<String>)
        ensures
            r@.map_values(|s: String| s@) == self.names(),
    {
        let n = self.servers.len();
        let mut out: Vec<String> = Vec::new();
        let mut i: usize = 0;
        while i < n
            invariant
                n == self.servers@.len(),
                i <= n,
                out@.len() == i,
                forall|j: int| 0 <= j < i ==> out@[j]@ == self.servers@[j].0@,
            decreases n - i,
        {
            out.push(self.servers[i].0.clone());
            i = i + 1;
        }
        proof {
            assert(out@.map_values(|s: String| s@) =~= self.names());
        }
        out
    }
}

} // verus!

//! Every store is valid: its tables are ordered by key, down to the port
//! mappings of each service. The functions here hand that fact to a
//! caller's proof.

use vstd::prelude::*;
use crate::model::{
    Config, Domain, Environment, Service, entries_view, lemma_entries_view,
};
use crate::strmap::{StrMap, sorted};

verus! {

fn ports_ordered(ports: &Option<StrMap<String>>)
    ensures
        match *ports {
            Some(m) => sorted(entries_view(m@)),
            None => true,
        },
{
    match ports {
        Some(m) => {
            m.ordered();
            proof {
                lemma_entries_view(m@);
            }
        },
        None => {},
    }
}

impl Service {
    /// Makes the validity of the service known.
    pub fn ordered(&self)
        ensures
            self@.wf(),
    {
        ports_ordered(&self.host_portmappings);
    }
}

impl Environment {
    /// Makes the validity of the environment known.
    pub fn ordered(&self)
        ensures
            self@.wf(),
    {
        ports_ordered(&self.host_portmappings);
    }
}

impl Domain {
    /// Makes the validity of the domain known.
    pub fn ordered(&self)
        ensures
            self@.wf(),
    {
        match &self.services {
            None => {},
            Some(m) => {
                m.ordered();
                proof {
                    lemma_entries_view(m@);
                }
                let n: usize = m.len();
                let mut i: usize = 0;
                while i < n
                    invariant
                        n == m@.len(),
                        i <= n,
                        forall|j: int| 0 <= j < i ==> (#[trigger] entries_view(m@)[j]).1.wf(),
                    decreases n - i,
                {
                    m.value_at(i).ordered();
                    i = i + 1;
                }
            },
        }
    }
}

impl Config {
    /// Makes the validity of the store known: `self@.wf()` holds of every
    /// store, however it was built.
    pub fn ordered(&self)
        ensures
            self@.wf(),
    {
        match &self.domains {
            None => {},
            Some(m) => {
                m.ordered();
                proof {
                    lemma_entries_view(m@);
                }
                let n: usize = m.len();
                let mut i: usize = 0;
                while i < n
                    invariant
                        n == m@.len(),
                        i <= n,
                        forall|j: int| 0 <= j < i ==> (#[trigger] entries_view(m@)[j]).1.wf(),
                    decreases n - i,
                {
                    m.value_at(i).ordered();
                    i = i + 1;
                }
            },
        }
        match &self.environments {
            None => {},
            Some(m) => {
                m.ordered();
                proof {
                    lemma_entries_view(m@);
                }
                let n: usize = m.len();
                let mut i: usize = 0;
                while i < n
                    invariant
                        n == m@.len(),
                        i <= n,
                        forall|j: int| 0 <= j < i ==> (#[trigger] entries_view(m@)[j]).1.wf(),
                    decreases n - i,
                {
                    m.value_at(i).ordered();
                    i = i + 1;
                }
            },
        }
    }
}

} // verus!

//! Acceptance of plugin libraries and the table of accepted plugins, keyed by name.
use vstd::prelude::*;

verus! {

/// Version of the plugin protocol that this host speaks.
pub const MODULE_VERSION: &'static str = "0.1.0";

/// Why a library was not accepted as a plugin.
pub enum PluginLoadingError {
    /// The library does not export one of the two version symbols.
    MissingVersionInformation,
    /// The library was built against another version of the plugin protocol.
    WrongPluginVersion { expected: String, version: String },
    /// The library was built with another compiler version.
    WrongRustcVersion { expected: String, version: String },
    /// The library does not export the plugin constructor.
    NoConstructor,
}

/// What the host reads from a library before it calls into it.
pub struct LibraryProbe {
    /// The plugin-protocol version the library reports, if it exports the symbol.
    pub module_version: Option<String>,
    /// The compiler version the library reports, if it exports the symbol.
    pub rustc_version: Option<String>,
    /// Whether the library exports the constructor symbol.
    pub has_constructor: bool,
}

/// The version strings that a library must report exactly.
pub struct HostVersions {
    pub module_version: String,
    pub rustc_version: String,
}

/// Which check a library fails first, if any.
pub enum LoadingVerdict {
    Accepted,
    MissingVersionInformation,
    WrongPluginVersion,
    WrongRustcVersion,
    NoConstructor,
}

pub open spec fn library_verdict(probe: LibraryProbe, host: HostVersions) -> LoadingVerdict {
    match (probe.module_version, probe.rustc_version) {
        (Some(m), Some(r)) => if m@ != host.module_version@ {
            LoadingVerdict::WrongPluginVersion
        } else if r@ != host.rustc_version@ {
            LoadingVerdict::WrongRustcVersion
        } else if !probe.has_constructor {
            LoadingVerdict::NoConstructor
        } else {
            LoadingVerdict::Accepted
        },
        _ => LoadingVerdict::MissingVersionInformation,
    }
}

/// The error `get_plugin_from_library` returns matches the verdict, with the versions it names.
pub open spec fn error_matches(
    e: PluginLoadingError,
    v: LoadingVerdict,
    probe: LibraryProbe,
    host: HostVersions,
) -> bool {
    match e {
        PluginLoadingError::MissingVersionInformation => v is MissingVersionInformation,
        PluginLoadingError::WrongPluginVersion { expected, version } => {
            &&& v is WrongPluginVersion
            &&& expected@ == host.module_version@
            &&& version@ == probe.module_version->Some_0@
        },
        PluginLoadingError::WrongRustcVersion { expected, version } => {
            &&& v is WrongRustcVersion
            &&& expected@ == host.rustc_version@
            &&& version@ == probe.rustc_version->Some_0@
        },
        PluginLoadingError::NoConstructor => v is NoConstructor,
    }
}

/// Decides whether a library may be called into: both version symbols must be present and
/// equal the host's strings exactly, and the constructor must be exported.
pub fn get_plugin_from_library(probe: &LibraryProbe, host: &HostVersions) -> (r: Result<
    (),
    PluginLoadingError,
>)
    ensures
        r is Ok <==> library_verdict(*probe, *host) is Accepted,
        r matches Err(e) ==> error_matches(e, library_verdict(*probe, *host), *probe, *host),
{
    match (&probe.module_version, &probe.rustc_version) {
        (Some(m), Some(rv)) => {
            if !(*m == host.module_version) {
                Err(
                    PluginLoadingError::WrongPluginVersion {
                        expected: host.module_version.clone(),
                        version: m.clone(),
                    },
                )
            } else if !(*rv == host.rustc_version) {
                Err(
                    PluginLoadingError::WrongRustcVersion {
                        expected: host.rustc_version.clone(),
                        version: rv.clone(),
                    },
                )
            } else if !probe.has_constructor {
                Err(PluginLoadingError::NoConstructor)
            } else {
                Ok(())
            }
        },
        _ => Err(PluginLoadingError::MissingVersionInformation),
    }
}


/// Names are pairwise distinct.
pub open spec fn names_unique<P>(s: Seq<(Seq<char>, P)>) -> bool {
    forall|i: int, j: int| 0 <= i < j < s.len() ==> s[i].0 != s[j].0
}

/// The table that the entries describe, name to plugin.
pub open spec fn entries_map<P>(s: Seq<(Seq<char>, P)>) -> Map<Seq<char>, P>
    decreases s.len(),
{
    if s.len() == 0 {
        Map::empty()
    } else {
        entries_map(s.drop_last()).insert(s.last().0, s.last().1)
    }
}

/// Where names are unique, the table holds exactly the entries' names, each with the
/// plugin of its entry.
pub proof fn lemma_entries_map<P>(s: Seq<(Seq<char>, P)>)
    requires
        names_unique(s),
    ensures
        forall|k: Seq<char>|
            entries_map(s).contains_key(k) <==> exists|i: int| 0 <= i < s.len() && s[i].0 == k,
        forall|i: int| 0 <= i < s.len() ==> entries_map(s)[#[trigger] s[i].0] == s[i].1,
        entries_map(s).dom().finite(),
        entries_map(s).dom().len() == s.len(),
    decreases s.len(),
{
    if s.len() > 0 {
        let t = s.drop_last();
        lemma_entries_map(t);
        assert(entries_map(s) == entries_map(t).insert(s.last().0, s.last().1));
        assert(!entries_map(t).contains_key(s.last().0)) by {
            if entries_map(t).contains_key(s.last().0) {
                let i = choose|i: int| 0 <= i < t.len() && t[i].0 == s.last().0;
                assert(s[i].0 == s[s.len() - 1].0);
            }
        }
        assert(entries_map(s).dom() == entries_map(t).dom().insert(s.last().0));
        assert forall|k: Seq<char>|
            entries_map(s).contains_key(k) <==> exists|i: int| 0 <= i < s.len() && s[i].0 == k by {
            if entries_map(s).contains_key(k) && k != s.last().0 {
                assert(entries_map(t).contains_key(k));
                let i = choose|i: int| 0 <= i < t.len() && t[i].0 == k;
                assert(s[i].0 == k);
            }
            if exists|i: int| 0 <= i < s.len() && s[i].0 == k {
                let i = choose|i: int| 0 <= i < s.len() && s[i].0 == k;
                if i < t.len() {
                    assert(t[i].0 == k);
                    assert(entries_map(t).contains_key(k));
                }
            }
        }
        assert forall|i: int| 0 <= i < s.len() implies entries_map(s)[#[trigger] s[i].0] == s[i].1 by {
            if i < t.len() {
                assert(t[i].0 == s[i].0);
            }
        }
    }
}

/// The accepted plugins, each under its unique name.
pub struct PluginDatabase<P> {
    plugins: Vec<(String, P)>,
}

impl<P> View for PluginDatabase<P> {
    type V = Map<Seq<char>, P>;

    open spec fn view(&self) -> Map<Seq<char>, P> {
        entries_map(self.entries())
    }
}

impl<P> PluginDatabase<P> {
    /// The entries in the order in which they were admitted.
    pub closed spec fn entries(&self) -> Seq<(Seq<char>, P)> {
        self.plugins@.map_values(|e: (String, P)| (e.0@, e.1))
    }

    pub open spec fn wf(&self) -> bool {
        names_unique(self.entries())
    }

    /// A table that holds no plugin.
    pub fn empty() -> (r: Self)
        ensures
            r.wf(),
            r@ == Map::<Seq<char>, P>::empty(),
            r.entries().len() == 0,
    {
        let r = PluginDatabase { plugins: Vec::new() };
        assert(r.entries() =~= Seq::<(Seq<char>, P)>::empty());
        r
    }

    /// The table of the plugins of every library that passes the checks of
    /// `get_plugin_from_library`, taken in order and each put in by `load_plugin`. A
    /// library's constructor is called only if it passes. Every name in the table was made
    /// by an accepted library, with the plugin it made, and every accepted library's name
    /// is in the table. Each rejected library is reported once, by its position, with the
    /// check it failed.
    pub fn new<F: FnOnce() -> (String, P)>(candidates: Vec<(LibraryProbe, F)>, host: &HostVersions) -> (r: (
        Self,
        Vec<(usize, PluginLoadingError)>,
    ))
        requires
            forall|i: int| 0 <= i < candidates@.len() ==> (#[trigger] candidates@[i]).1.requires(()),
        ensures
            r.0.wf(),
            forall|k: int| 0 <= k < r.1@.len() ==> {
                let i = (#[trigger] r.1@[k]).0 as int;
                &&& i < candidates@.len()
                &&& error_matches(r.1@[k].1, library_verdict(candidates@[i].0, *host), candidates@[i].0, *host)
            },
            forall|k1: int, k2: int| 0 <= k1 < k2 < r.1@.len() ==> r.1@[k1].0 < r.1@[k2].0,
            forall|i: int| 0 <= i < candidates@.len() ==> (!(library_verdict((#[trigger] candidates@[i]).0, *host) is Accepted)
                <==> exists|k: int| 0 <= k < r.1@.len() && r.1@[k].0 == i),
            forall|name: Seq<char>| #[trigger] r.0@.contains_key(name) ==> exists|i: int, made: (String, P)| {
                &&& 0 <= i < candidates@.len()
                &&& library_verdict(candidates@[i].0, *host) is Accepted
                &&& candidates@[i].1.ensures((), made)
                &&& made.0@ == name
                &&& r.0@[name] == made.1
            },
            forall|i: int| 0 <= i < candidates@.len() && library_verdict((#[trigger] candidates@[i]).0, *host) is Accepted
                ==> exists|made: (String, P)| candidates@[i].1.ensures((), made) && r.0@.contains_key(made.0@),
    {
        let ghost all = candidates@;
        let n = candidates.len();
        // Taken from the back, so that popping again yields them in order.
        let mut rest = candidates;
        let mut queue: Vec<(LibraryProbe, F)> = Vec::new();
        while rest.len() > 0
            invariant
                rest@ == all.subrange(0, rest@.len() as int),
                queue@.len() == all.len() - rest@.len(),
                forall|j: int| 0 <= j < queue@.len() ==> #[trigger] queue@[j] == all[all.len() - 1 - j],
            decreases rest@.len(),
        {
            let c = rest.pop().unwrap();
            queue.push(c);
        }
        let mut db = PluginDatabase::empty();
        let mut errors: Vec<(usize, PluginLoadingError)> = Vec::new();
        let mut i: usize = 0;
        while i < n
            invariant
                n == all.len(),
                queue@.len() == n - i,
                forall|j: int| 0 <= j < queue@.len() ==> #[trigger] queue@[j] == all[all.len() - 1 - j],
                forall|j: int| 0 <= j < all.len() ==> (#[trigger] all[j]).1.requires(()),
                db.wf(),
                forall|k: int| 0 <= k < errors@.len() ==> {
                    let j = (#[trigger] errors@[k]).0 as int;
                    &&& j < i
                    &&& error_matches(errors@[k].1, library_verdict(all[j].0, *host), all[j].0, *host)
                },
                forall|k1: int, k2: int| 0 <= k1 < k2 < errors@.len() ==> errors@[k1].0 < errors@[k2].0,
                forall|j: int| 0 <= j < i ==> (!(library_verdict((#[trigger] all[j]).0, *host) is Accepted)
                    <==> exists|k: int| 0 <= k < errors@.len() && errors@[k].0 == j),
                forall|name: Seq<char>| #[trigger] db@.contains_key(name) ==> exists|j: int, made: (String, P)| {
                    &&& 0 <= j < i
                    &&& library_verdict(all[j].0, *host) is Accepted
                    &&& all[j].1.ensures((), made)
                    &&& made.0@ == name
                    &&& db@[name] == made.1
                },
                forall|j: int| 0 <= j < i && library_verdict((#[trigger] all[j]).0, *host) is Accepted
                    ==> exists|made: (String, P)| all[j].1.ensures((), made) && db@.contains_key(made.0@),
            decreases n - i,
        {
            let (probe, construct) = queue.pop().unwrap();
            assert(all[i as int] == (probe, construct));
            let ghost before = db@;
            let result = db.load_plugin(&probe, host, construct);
            match result {
                Err(e) => {
                    let ghost old_errors = errors@;
                    errors.push((i, e));
                    assert forall|j: int| 0 <= j <= i implies (!(library_verdict((#[trigger] all[j]).0, *host) is Accepted)
                        <==> exists|k: int| 0 <= k < errors@.len() && errors@[k].0 == j) by {
                        if j < i {
                            if exists|k: int| 0 <= k < errors@.len() && errors@[k].0 == j {
                                let k = choose|k: int| 0 <= k < errors@.len() && errors@[k].0 == j;
                                assert(k < old_errors.len());
                                assert(old_errors[k].0 == j);
                            }
                            if exists|k: int| 0 <= k < old_errors.len() && old_errors[k].0 == j {
                                let k = choose|k: int| 0 <= k < old_errors.len() && old_errors[k].0 == j;
                                assert(errors@[k].0 == j);
                            }
                        } else {
                            assert(errors@[old_errors.len() as int].0 == j);
                        }
                    }
                },
                Ok(()) => {
                    let ghost made = choose|made: (String, P)| construct.ensures((), made) && db@ == before.insert(made.0@, made.1);
                    assert forall|name: Seq<char>| #[trigger] db@.contains_key(name) implies exists|j: int, m: (String, P)| {
                        &&& 0 <= j < i + 1
                        &&& library_verdict(all[j].0, *host) is Accepted
                        &&& all[j].1.ensures((), m)
                        &&& m.0@ == name
                        &&& db@[name] == m.1
                    } by {
                        if name == made.0@ {
                            assert(all[i as int].1.ensures((), made));
                        } else {
                            assert(before.contains_key(name));
                        }
                    }
                    assert forall|j: int| 0 <= j < i + 1 && library_verdict((#[trigger] all[j]).0, *host) is Accepted
                        implies exists|m: (String, P)| all[j].1.ensures((), m) && db@.contains_key(m.0@) by {
                        if j == i {
                            assert(all[j].1.ensures((), made));
                            assert(db@.contains_key(made.0@));
                        } else {
                            let m = choose|m: (String, P)| all[j].1.ensures((), m) && before.contains_key(m.0@);
                            assert(db@.contains_key(m.0@));
                        }
                    }
                    assert forall|j: int| 0 <= j < i + 1 implies (!(library_verdict((#[trigger] all[j]).0, *host) is Accepted)
                        <==> exists|k: int| 0 <= k < errors@.len() && errors@[k].0 == j) by {
                        if j == i {
                            if exists|k: int| 0 <= k < errors@.len() && errors@[k].0 == j {
                                let k = choose|k: int| 0 <= k < errors@.len() && errors@[k].0 == j;
                                assert(errors@[k].0 < i);
                            }
                        }
                    }
                },
            }
            i = i + 1;
        }
        (db, errors)
    }

    /// The number of plugins held.
    pub fn len(&self) -> (r: usize)
        ensures
            r == self.entries().len(),
            self.wf() ==> r == self@.dom().len(),
    {
        proof {
            if self.wf() {
                lemma_entries_map(self.entries());
            }
        }
        self.plugins.len()
    }

    /// The name of the plugin at a position of admission order.
    pub fn name_at(&self, i: usize) -> (r: &str)
        requires
            i < self.entries().len(),
        ensures
            r@ == self.entries()[i as int].0,
            self.wf() ==> self@.contains_key(r@),
    {
        proof {
            if self.wf() {
                lemma_entries_map(self.entries());
            }
        }
        self.plugins[i].0.as_str()
    }

    /// The plugin at a position of admission order.
    pub fn plugin_at(&self, i: usize) -> (r: &P)
        requires
            i < self.entries().len(),
        ensures
            *r == self.entries()[i as int].1,
            self.wf() ==> self@[self.entries()[i as int].0] == *r,
    {
        proof {
            if self.wf() {
                lemma_entries_map(self.entries());
            }
        }
        &self.plugins[i].1
    }

    fn find(&self, name: &str) -> (r: Option<usize>)
        ensures
            r matches Some(i) ==> i < self.entries().len() && self.entries()[i as int].0 == name@,
            r is None ==> forall|i: int| 0 <= i < self.entries().len() ==> self.entries()[i].0 != name@,
    {
        let key = name.to_owned();
        let mut i: usize = 0;
        while i < self.plugins.len()
            invariant
                i <= self.plugins.len(),
                key@ == name@,
                forall|j: int| 0 <= j < i ==> self.entries()[j].0 != name@,
            decreases self.plugins.len() - i,
        {
            if self.plugins[i].0 == key {
                return Some(i);
            }
            i = i + 1;
        }
        None
    }

    /// Looks a plugin up by its name.
    pub fn get_plugin(&self, name: &str) -> (r: Option<&P>)
        requires
            self.wf(),
        ensures
            r is Some <==> self@.contains_key(name@),
            r matches Some(p) ==> *p == self@[name@],
    {
        proof {
            lemma_entries_map(self.entries());
        }
        match self.find(name) {
            Some(i) => Some(&self.plugins[i].1),
            None => None,
        }
    }

    /// Puts a plugin under its name, replacing one that held the name before.
    fn insert(&mut self, name: String, plugin: P)
        requires
            old(self).wf(),
        ensures
            final(self).wf(),
            final(self)@ == old(self)@.insert(name@, plugin),
    {
        let ghost old_entries = self.entries();
        proof {
            lemma_entries_map(old_entries);
        }
        match self.find(name.as_str()) {
            Some(i) => {
                self.plugins.set(i, (name, plugin));
                let ghost e = self.entries();
                assert(e =~= old_entries.update(i as int, (name@, plugin)));
                proof {
                    lemma_entries_map(e);
                }
                assert(self@ =~= old(self)@.insert(name@, plugin)) by {
                    assert forall|k: Seq<char>| #[trigger] self@.contains_key(k) <==> old(self)@.insert(name@, plugin).contains_key(k) by {
                        if self@.contains_key(k) {
                            let j = choose|j: int| 0 <= j < e.len() && e[j].0 == k;
                            if j != i {
                                assert(old_entries[j].0 == k);
                            }
                        }
                        if old(self)@.contains_key(k) {
                            let j = choose|j: int| 0 <= j < old_entries.len() && old_entries[j].0 == k;
                            assert(e[j].0 == k);
                        }
                        if k == name@ {
                            assert(e[i as int].0 == k);
                        }
                    }
                    assert forall|k: Seq<char>| #[trigger] self@.contains_key(k) implies self@[k] == old(self)@.insert(name@, plugin)[k] by {
                        let j = choose|j: int| 0 <= j < e.len() && e[j].0 == k;
                        assert(self@[e[j].0] == e[j].1);
                        if j != i {
                            assert(old(self)@[old_entries[j].0] == old_entries[j].1);
                        }
                    }
                }
            },
            None => {
                self.plugins.push((name, plugin));
                let ghost e = self.entries();
                assert(e =~= old_entries.push((name@, plugin)));
                assert(e.drop_last() =~= old_entries);
            },
        }
    }

    /// Takes in the plugin of a library if the library passes the checks of
    /// `get_plugin_from_library`. Only then is `construct` called, and the plugin it returns
    /// is put under the name it returns. A rejected library leaves the table as it was.
    pub fn load_plugin<F: FnOnce() -> (String, P)>(
        &mut self,
        probe: &LibraryProbe,
        host: &HostVersions,
        construct: F,
    ) -> (r: Result<(), PluginLoadingError>)
        requires
            old(self).wf(),
            construct.requires(()),
        ensures
            final(self).wf(),
            r is Ok <==> library_verdict(*probe, *host) is Accepted,
            r matches Err(e) ==> error_matches(e, library_verdict(*probe, *host), *probe, *host),
            r is Err ==> final(self)@ == old(self)@,
            r is Ok ==> exists|made: (String, P)|
                construct.ensures((), made) && final(self)@ == old(self)@.insert(made.0@, made.1),
    {
        match get_plugin_from_library(probe, host) {
            Ok(()) => {
                let made = construct();
                let ghost m = made;
                self.insert(made.0, made.1);
                assert(construct.ensures((), m));
                Ok(())
            },
            Err(e) => Err(e),
        }
    }
}

} // verus!

//! The target registry of the accepting side: one descriptor per invocable
//! target, loaded once at startup and read-only afterwards. A handshake's
//! target name resolves to a descriptor, and only descriptors of kind
//! `stdio` are runnable; anything else is reported in one diagnostic message
//! and the session closes cleanly, starting no process.

use vstd::prelude::*;
use vstd::string::StringExecFns;

verus! {

/// One target descriptor: the fields of one registry entry.
pub struct Extension {
    name: String,
    description: String,
    path: String,
    kind: String,
}

impl Extension {
    /// The name the handshake resolves against.
    pub closed spec fn name_spec(&self) -> Seq<char> {
        self.name@
    }

    pub closed spec fn description_spec(&self) -> Seq<char> {
        self.description@
    }

    /// The program to invoke for this target.
    pub closed spec fn path_spec(&self) -> Seq<char> {
        self.path@
    }

    /// The descriptor's kind; only `stdio` is runnable.
    pub closed spec fn kind_spec(&self) -> Seq<char> {
        self.kind@
    }

    pub fn new(name: String, description: String, path: String, kind: String) -> (e: Extension)
        ensures
            e.name_spec() == name@,
            e.description_spec() == description@,
            e.path_spec() == path@,
            e.kind_spec() == kind@,
    {
        Extension { name, description, path, kind }
    }

    pub fn name(&self) -> (r: &String)
        ensures
            r@ == self.name_spec(),
    {
        &self.name
    }

    pub fn path(&self) -> (r: &String)
        ensures
            r@ == self.path_spec(),
    {
        &self.path
    }

    pub fn kind(&self) -> (r: &String)
        ensures
            r@ == self.kind_spec(),
    {
        &self.kind
    }
}

/// The immutable name-to-descriptor mapping, built once at startup.
pub struct Registry {
    entries: Vec<Extension>,
}

/// How a target name resolves.
pub enum Resolution {
    /// A runnable descriptor: invoke this program.
    Spawn { path: String },
    /// No descriptor of that name.
    NotFound,
    /// A descriptor exists but its kind is not `stdio`: never invoked.
    UnsupportedKind,
}

impl Registry {
    /// The registered descriptors.
    pub closed spec fn entries_spec(&self) -> Seq<Extension> {
        self.entries@
    }

    /// Names are unique: each maps to one descriptor.
    pub open spec fn wf(&self) -> bool {
        forall|i: int, j: int|
            0 <= i < j < self.entries_spec().len() ==> (#[trigger] self.entries_spec()[i]).name_spec()
                != (#[trigger] self.entries_spec()[j]).name_spec()
    }

    /// Whether some descriptor carries the name `n`.
    pub open spec fn contains_name(&self, n: Seq<char>) -> bool {
        exists|i: int|
            0 <= i < self.entries_spec().len() && (#[trigger] self.entries_spec()[i]).name_spec()
                == n
    }

    pub fn new() -> (r: Registry)
        ensures
            r.entries_spec() == Seq::<Extension>::empty(),
            r.wf(),
    {
        let entries: Vec<Extension> = Vec::new();
        assert(entries@ =~= Seq::<Extension>::empty());
        Registry { entries }
    }

    /// The position of the descriptor named `name@`, if any.
    pub fn find_index(&self, name: &String) -> (r: Option<usize>)
        ensures
            r matches Some(i) ==> i < self.entries_spec().len() && self.entries_spec()[
                i as int
            ].name_spec() == name@,
            r is None ==> !self.contains_name(name@),
    {
        let mut i: usize = 0;
        let n = self.entries.len();
        while i < n
            invariant
                i <= n,
                n == self.entries_spec().len(),
                forall|k: int|
                    0 <= k < i ==> (#[trigger] self.entries_spec()[k]).name_spec() != name@,
            decreases n - i,
        {
            if self.entries[i].name.eq(name) {
                return Some(i);
            }
            i += 1;
        }
        None
    }

    /// Registers a descriptor. A descriptor already registered under the same
    /// name is replaced — the registry keeps one descriptor per name — and
    /// every descriptor under another name stays.
    pub fn insert(&mut self, e: Extension)
        requires
            old(self).wf(),
        ensures
            final(self).wf(),
            final(self).contains_name(e.name_spec()),
            forall|i: int|
                0 <= i < final(self).entries_spec().len()
                    && (#[trigger] final(self).entries_spec()[i]).name_spec() == e.name_spec()
                    ==> final(self).entries_spec()[i] == e,
            forall|i: int|
                0 <= i < final(self).entries_spec().len()
                    ==> (#[trigger] final(self).entries_spec()[i]) == e
                    || old(self).entries_spec().contains(final(self).entries_spec()[i]),
            forall|i: int|
                0 <= i < old(self).entries_spec().len()
                    && (#[trigger] old(self).entries_spec()[i]).name_spec() != e.name_spec()
                    ==> final(self).entries_spec().contains(old(self).entries_spec()[i]),
    {
        let found = self.find_index(e.name());
        let ghost oldes = self.entries@;
        match found {
            Some(idx) => {
                let _ = self.entries.remove(idx);
                self.entries.push(e);
                proof {
                    let newes = self.entries_spec();
                    assert(newes[newes.len() - 1] == e);
                    assert((self.entries_spec()[newes.len() - 1]).name_spec() == e.name_spec());
                    assert(self.contains_name(e.name_spec()));
                    assert forall|i: int|
                        0 <= i < oldes.len() && (#[trigger] oldes[i]).name_spec()
                            != e.name_spec() implies newes.contains(oldes[i]) by {
                        if i < idx {
                            assert(newes[i] == oldes[i]);
                        } else {
                            assert(i != idx);
                            assert(newes[i - 1] == oldes[i]);
                        }
                    }
                }
            },
            None => {
                self.entries.push(e);
                proof {
                    let newes = self.entries_spec();
                    assert(newes[newes.len() - 1] == e);
                    assert((self.entries_spec()[newes.len() - 1]).name_spec() == e.name_spec());
                    assert(self.contains_name(e.name_spec()));
                    assert forall|i: int|
                        0 <= i < oldes.len() && (#[trigger] oldes[i]).name_spec()
                            != e.name_spec() implies newes.contains(oldes[i]) by {
                        assert(newes[i] == oldes[i]);
                    }
                }
            },
        }
    }

    /// Resolves a target name: the unique descriptor of that name decides —
    /// kind `stdio` yields its program, any other kind is unsupported, and an
    /// unknown name is not found.
    pub fn resolve(&self, name: &String) -> (r: Resolution)
        requires
            self.wf(),
        ensures
            !self.contains_name(name@) ==> r is NotFound,
            forall|i: int|
                0 <= i < self.entries_spec().len() && (#[trigger] self.entries_spec()[
                    i
                ]).name_spec() == name@ ==> {
                    if self.entries_spec()[i].kind_spec() == "stdio"@ {
                        r matches Resolution::Spawn { path } && path@
                            == self.entries_spec()[i].path_spec()
                    } else {
                        r is UnsupportedKind
                    }
                },
    {
        match self.find_index(name) {
            None => Resolution::NotFound,
            Some(idx) => {
                let stdio_kind = String::from_str("stdio");
                if self.entries[idx].kind.eq(&stdio_kind) {
                    Resolution::Spawn { path: self.entries[idx].path.clone() }
                } else {
                    Resolution::UnsupportedKind
                }
            },
        }
    }
}

/// The diagnostic a failed resolution reports before the session closes: one
/// message for an unknown target, one for a target whose kind cannot be run.
/// A resolution that can run reports nothing.
pub fn failure_diagnostic(r: &Resolution) -> (d: Option<&'static str>)
    ensures
        r is NotFound ==> (d matches Some(s) && s@ == "No such extension on the host"@),
        r is UnsupportedKind ==> (d matches Some(s) && s@
            == "Only `stdio` extensions are supported"@),
        r matches Resolution::Spawn { .. } ==> d is None,
{
    match r {
        Resolution::NotFound => Some("No such extension on the host"),
        Resolution::UnsupportedKind => Some("Only `stdio` extensions are supported"),
        Resolution::Spawn { .. } => None,
    }
}

} // verus!

//! Startup of the tracer: which namespaces of the target process to join,
//! in which order, and whether to go on to fork the tracing child.
use vstd::prelude::*;

use crate::text::{namespace_path, spec_namespace_path, NamespaceKind};

verus! {

/// One namespace to enter: the file that refers to it and its kind.
#[derive(Debug)]
pub struct NamespaceJoin {
    pub path: String,
    pub kind: NamespaceKind,
}

/// Why a namespace could not be joined.
#[derive(Debug, Clone, Copy, PartialEq, Eq)]
pub enum SetnsError {
    /// The namespace file could not be opened (the OS error code).
    IO(i32),
    /// The switch into the namespace failed (the OS error code).
    Nix(i32),
}

/// The namespace joins for process `pid`: its PID namespace, then its mount
/// namespace.
pub fn join_namespace(pid: &str) -> (r: Vec<NamespaceJoin>)
    ensures
        r@.len() == 2,
        r@[0].kind == NamespaceKind::Pid,
        r@[0].path@ == spec_namespace_path(pid@, NamespaceKind::Pid),
        r@[1].kind == NamespaceKind::Mount,
        r@[1].path@ == spec_namespace_path(pid@, NamespaceKind::Mount),
{
    let mut r: Vec<NamespaceJoin> = Vec::new();
    r.push(
        NamespaceJoin { path: namespace_path(pid, NamespaceKind::Pid), kind: NamespaceKind::Pid },
    );
    r.push(
        NamespaceJoin {
            path: namespace_path(pid, NamespaceKind::Mount),
            kind: NamespaceKind::Mount,
        },
    );
    r
}

/// What the starting process is to do next.
#[derive(Debug)]
pub enum StartStep {
    /// Enter this namespace and report how it went.
    Join(NamespaceJoin),
    /// All joins succeeded (or none was asked for): fork the tracing child.
    Fork,
    /// A join failed: exit without forking.
    Abort(SetnsError),
}

/// The startup sequence: the joins still to make, and the failure that
/// ended it, if one did.
pub struct Startup {
    plan: Vec<NamespaceJoin>,
    next: usize,
    failure: Option<SetnsError>,
}

/// The joins asked for: none without a target process, else those of
/// `join_namespace`.
pub open spec fn planned(pid: Option<Seq<char>>) -> Seq<(Seq<char>, NamespaceKind)> {
    match pid {
        None => Seq::empty(),
        Some(p) => seq![
            (spec_namespace_path(p, NamespaceKind::Pid), NamespaceKind::Pid),
            (spec_namespace_path(p, NamespaceKind::Mount), NamespaceKind::Mount),
        ],
    }
}

impl Startup {
    pub closed spec fn plan(&self) -> Seq<(Seq<char>, NamespaceKind)> {
        self.plan@.map_values(|j: NamespaceJoin| (j.path@, j.kind))
    }

    /// How many joins were handed out.
    pub closed spec fn issued(&self) -> nat {
        self.next as nat
    }

    pub closed spec fn failure(&self) -> Option<SetnsError> {
        self.failure
    }

    pub closed spec fn wf(&self) -> bool {
        self.next <= self.plan@.len()
    }

    /// The startup for target process `pid`, if one is given.
    pub fn new(pid: Option<&str>) -> (r: Startup)
        ensures
            r.wf(),
            r.plan() == planned(
                match pid {
                    Some(p) => Some(p@),
                    None => None,
                },
            ),
            r.issued() == 0,
            r.failure() == None::<SetnsError>,
    {
        let plan = match pid {
            Some(p) => join_namespace(p),
            None => Vec::new(),
        };
        let r = Startup { plan, next: 0, failure: None };
        assert(r.plan() =~= planned(
            match pid {
                Some(p) => Some(p@),
                None => None,
            },
        ));
        r
    }

    /// The next step, given how the last join went (`None` before any).
    /// A failed join aborts the startup for good: the child is never
    /// forked, so nothing is ever emitted.
    pub fn advance(&mut self, last: Option<Result<(), SetnsError>>) -> (r: StartStep)
        ensures
            old(self).wf() ==> final(self).wf(),
            final(self).plan() == old(self).plan(),
            match old(self).failure() {
                Some(f) => {
                    &&& final(self).failure() == Some(f)
                    &&& final(self).issued() == old(self).issued()
                    &&& r matches StartStep::Abort(e) && e == f
                },
                None => match last {
                    Some(Err(e)) => {
                        &&& final(self).failure() == Some(e)
                        &&& final(self).issued() == old(self).issued()
                        &&& r matches StartStep::Abort(x) && x == e
                    },
                    _ => {
                        &&& final(self).failure() == None::<SetnsError>
                        &&& if old(self).issued() < old(self).plan().len() {
                            &&& final(self).issued() == old(self).issued() + 1
                            &&& r matches StartStep::Join(j) && (j.path@, j.kind) == old(
                                self,
                            ).plan()[old(self).issued() as int]
                        } else {
                            &&& final(self).issued() == old(self).issued()
                            &&& r matches StartStep::Fork
                        }
                    },
                },
            },
    {
        if let Some(f) = self.failure {
            return StartStep::Abort(f);
        }
        if let Some(Err(e)) = last {
            self.failure = Some(e);
            return StartStep::Abort(e);
        }
        if self.next < self.plan.len() {
            let j = &self.plan[self.next];
            let step = StartStep::Join(NamespaceJoin { path: j.path.clone(), kind: j.kind });
            self.next = self.next + 1;
            step
        } else {
            StartStep::Fork
        }
    }
}

} // verus!

use vstd::prelude::*;

use crate::error::Rejection;
use crate::limits::{mib_to_bytes, mib_to_bytes_spec};

verus! {

/// Ceiling on the size of the configuration artifact, whatever the tier.
pub const CONFIG_MAX: usize = 262144;

/// Which artifact an upload part carries.
#[derive(Clone, Copy, Debug, PartialEq, Eq, Structural)]
pub enum PartKind {
    /// The workload binary.
    Workload,
    /// The configuration descriptor.
    Configuration,
    /// Any other part; it is skipped.
    Ignored,
}

/// The view of an optional string.
pub open spec fn opt_text(s: Option<&str>) -> Option<Seq<char>> {
    match s {
        Some(t) => Some(t@),
        None => None,
    }
}

/// The rule for a new upload part, given its name, its content type and the
/// artifacts already seen.
pub open spec fn part_rule(
    name: Option<Seq<char>>,
    content_type: Option<Seq<char>>,
    workload_seen: bool,
    config_seen: bool,
) -> Result<PartKind, Rejection> {
    if name == Some("wasm"@) {
        if content_type != Some("application/wasm"@) {
            Err(Rejection::UnsupportedMediaType)
        } else if workload_seen {
            Err(Rejection::MalformedUpload)
        } else {
            Ok(PartKind::Workload)
        }
    } else if name == Some("toml"@) {
        if content_type is Some {
            Err(Rejection::MalformedUpload)
        } else if config_seen {
            Err(Rejection::MalformedUpload)
        } else {
            Ok(PartKind::Configuration)
        }
    } else {
        Ok(PartKind::Ignored)
    }
}

/// Whether two strings hold the same characters.
pub fn text_eq(a: &str, b: &str) -> (r: bool)
    ensures
        r == (a@ == b@),
{
    let n = a.unicode_len();
    if n != b.unicode_len() {
        return false;
    }
    let mut i: usize = 0;
    while i < n
        invariant
            n == a@.len(),
            n == b@.len(),
            i <= n,
            a@.subrange(0, i as int) == b@.subrange(0, i as int),
        decreases n - i,
    {
        if a.get_char(i) != b.get_char(i) {
            assert(a@[i as int] != b@[i as int]);
            return false;
        }
        assert(a@.subrange(0, i as int + 1) =~= a@.subrange(0, i as int).push(a@[i as int]));
        assert(b@.subrange(0, i as int + 1) =~= b@.subrange(0, i as int).push(b@[i as int]));
        i = i + 1;
    }
    assert(a@ =~= a@.subrange(0, n as int));
    assert(b@ =~= b@.subrange(0, n as int));
    true
}

fn opt_text_eq(a: Option<&str>, b: &str) -> (r: bool)
    ensures
        r == (opt_text(a) == Some(b@)),
{
    match a {
        Some(t) => text_eq(t, b),
        None => false,
    }
}

/// The state of one job-creation upload: which artifacts have come, the part
/// being streamed, and how many of its bytes were accepted.
pub struct Ingest {
    size_limit: usize,
    workload_seen: bool,
    config_seen: bool,
    current: PartKind,
    received: usize,
}

impl Ingest {
    /// Byte limit on the workload artifact.
    pub closed spec fn size_limit_spec(&self) -> usize {
        self.size_limit
    }

    pub closed spec fn workload_seen_spec(&self) -> bool {
        self.workload_seen
    }

    pub closed spec fn config_seen_spec(&self) -> bool {
        self.config_seen
    }

    /// The part being streamed.
    pub closed spec fn current_spec(&self) -> PartKind {
        self.current
    }

    /// Bytes of the current part accepted so far.
    pub closed spec fn received_spec(&self) -> usize {
        self.received
    }

    /// The byte limit on the part being streamed; an ignored part is not counted.
    pub open spec fn current_limit(&self) -> int {
        match self.current_spec() {
            PartKind::Workload => self.size_limit_spec() as int,
            PartKind::Configuration => CONFIG_MAX as int,
            PartKind::Ignored => 0,
        }
    }

    /// No part has more accepted bytes than its limit.
    pub open spec fn wf(&self) -> bool {
        self.received_spec() <= self.current_limit()
    }

    /// An upload that has seen no part yet, with a workload limit of
    /// `size_limit_mib` MiB.
    pub fn new(size_limit_mib: usize) -> (r: Ingest)
        ensures
            r.wf(),
            r.size_limit_spec() == mib_to_bytes_spec(size_limit_mib),
            !r.workload_seen_spec(),
            !r.config_seen_spec(),
            r.current_spec() == PartKind::Ignored,
            r.received_spec() == 0,
    {
        Ingest {
            size_limit: mib_to_bytes(size_limit_mib),
            workload_seen: false,
            config_seen: false,
            current: PartKind::Ignored,
            received: 0,
        }
    }

    /// Starts a new part. A workload part must carry the binary content type
    /// and come once; a configuration part must carry none and come once; any
    /// other part is ignored. On a rejection nothing changes.
    pub fn begin_part(&mut self, name: Option<&str>, content_type: Option<&str>) -> (r: Result<PartKind, Rejection>)
        requires
            old(self).wf(),
        ensures
            final(self).wf(),
            r == part_rule(
                opt_text(name),
                opt_text(content_type),
                old(self).workload_seen_spec(),
                old(self).config_seen_spec(),
            ),
            final(self).size_limit_spec() == old(self).size_limit_spec(),
            match r {
                Ok(kind) => {
                    &&& final(self).current_spec() == kind
                    &&& final(self).received_spec() == 0
                    &&& final(self).workload_seen_spec() == (old(self).workload_seen_spec() || kind == PartKind::Workload)
                    &&& final(self).config_seen_spec() == (old(self).config_seen_spec() || kind == PartKind::Configuration)
                },
                Err(_) => *final(self) == *old(self),
            },
    {
        let kind = if opt_text_eq(name, "wasm") {
            if !opt_text_eq(content_type, "application/wasm") {
                return Err(Rejection::UnsupportedMediaType);
            }
            if self.workload_seen {
                return Err(Rejection::MalformedUpload);
            }
            self.workload_seen = true;
            PartKind::Workload
        } else if opt_text_eq(name, "toml") {
            if content_type.is_some() {
                return Err(Rejection::MalformedUpload);
            }
            if self.config_seen {
                return Err(Rejection::MalformedUpload);
            }
            self.config_seen = true;
            PartKind::Configuration
        } else {
            PartKind::Ignored
        };
        self.current = kind;
        self.received = 0;
        Ok(kind)
    }

    /// Accepts the next chunk of the current part, as it arrives: a chunk that
    /// would take the part over its limit is rejected and not counted. Chunks
    /// of an ignored part are accepted and not counted.
    pub fn accept_chunk(&mut self, len: usize) -> (r: Result<(), Rejection>)
        requires
            old(self).wf(),
        ensures
            final(self).wf(),
            final(self).size_limit_spec() == old(self).size_limit_spec(),
            final(self).workload_seen_spec() == old(self).workload_seen_spec(),
            final(self).config_seen_spec() == old(self).config_seen_spec(),
            final(self).current_spec() == old(self).current_spec(),
            old(self).current_spec() == PartKind::Ignored ==> r is Ok && final(self).received_spec() == 0,
            old(self).current_spec() != PartKind::Ignored ==> {
                if old(self).received_spec() + len <= old(self).current_limit() {
                    &&& r is Ok
                    &&& final(self).received_spec() == old(self).received_spec() + len
                } else {
                    &&& r == Err::<(), Rejection>(Rejection::PayloadTooLarge)
                    &&& final(self).received_spec() == old(self).received_spec()
                }
            },
    {
        let limit = match self.current {
            PartKind::Workload => self.size_limit,
            PartKind::Configuration => CONFIG_MAX,
            PartKind::Ignored => {
                return Ok(());
            },
        };
        if len > limit - self.received {
            return Err(Rejection::PayloadTooLarge);
        }
        self.received = self.received + len;
        Ok(())
    }

    /// Ends the upload: both artifacts must have come.
    pub fn finish(&self) -> (r: Result<(), Rejection>)
        ensures
            r == (if self.workload_seen_spec() && self.config_seen_spec() {
                Ok::<(), Rejection>(())
            } else {
                Err(Rejection::MalformedUpload)
            }),
    {
        if self.workload_seen && self.config_seen {
            Ok(())
        } else {
            Err(Rejection::MalformedUpload)
        }
    }
}

/// Bytes of a part are counted as they arrive and never pass its limit, so an
/// oversized artifact is turned away before it is held whole.
pub proof fn lemma_staged_bytes_bounded(i: &Ingest)
    requires
        i.wf(),
    ensures
        i.received_spec() <= i.current_limit(),
{
}

} // verus!

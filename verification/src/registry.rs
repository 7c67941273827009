//! The session registry.
//!
//! A registry owns every live device connection: it is a mapping from device
//! path to exactly one port handle, together with the operations that manage
//! it. A path is either absent (closed) or present with one handle (open);
//! `open` installs or replaces the handle, every other operation except
//! enumeration requires the path to be open, and `close` removes the entry
//! and never fails. The registry is viewed as a `Map` from the path to the
//! handle's recorded settings (baud rate and current read timeout).

use vstd::prelude::*;

use crate::device;
use crate::device::ReadOutcome;
use crate::error::SerialError;

verus! {

/// The read timeout, in milliseconds, that a freshly opened handle starts
/// with.
pub const DEFAULT_TIMEOUT_MS: u64 = 100;

/// The baud rate used when a caller does not supply one.
pub fn default_baud() -> (r: u32)
    ensures
        r == 115200u32,
{
    115200
}

/// The settings recorded for one open handle: the baud rate it was opened
/// with and the read timeout currently in effect.
#[derive(Debug, Clone, Copy, PartialEq, Eq, Structural)]
pub struct HandleInfo {
    pub baud: u32,
    pub timeout_ms: u64,
}

/// The settings a handle has right after `open` with the given baud rate.
pub open spec fn opened_handle(baud: u32) -> HandleInfo {
    HandleInfo { baud, timeout_ms: DEFAULT_TIMEOUT_MS }
}

/// One registry entry: the owned device resource and its recorded settings.
struct Entry {
    path: String,
    baud: u32,
    timeout_ms: u64,
    port: serialport::TTYPort,
}

/// The recorded settings of one entry.
spec fn info_of(e: Entry) -> HandleInfo {
    HandleInfo { baud: e.baud, timeout_ms: e.timeout_ms }
}

/// No two entries share a path.
spec fn unique_keys(s: Seq<Entry>) -> bool {
    forall|i: int, j: int| 0 <= i < j < s.len() ==> s[i].path@ != s[j].path@
}

/// The mapping that a sequence of entries represents: each entry's path bound
/// to its recorded settings, later entries shadowing earlier ones (with unique
/// keys there is nothing to shadow).
spec fn map_of(s: Seq<Entry>) -> Map<Seq<char>, HandleInfo>
    decreases s.len(),
{
    if s.len() == 0 {
        Map::empty()
    } else {
        map_of(s.drop_last()).insert(s.last().path@, info_of(s.last()))
    }
}

/// A path is in the mapping exactly when some entry carries it.
proof fn lemma_map_of_contains(s: Seq<Entry>, k: Seq<char>)
    ensures
        map_of(s).contains_key(k) <==> exists|i: int| 0 <= i < s.len() && s[i].path@ == k,
    decreases s.len(),
{
    if s.len() > 0 {
        lemma_map_of_contains(s.drop_last(), k);
        if s.last().path@ == k {
            assert(s[s.len() - 1].path@ == k);
        } else {
            if exists|i: int| 0 <= i < s.len() && s[i].path@ == k {
                let i = choose|i: int| 0 <= i < s.len() && s[i].path@ == k;
                assert(s.drop_last()[i].path@ == k);
            }
        }
    }
}

/// With unique keys, the mapping binds each entry's path to that entry's
/// settings.
proof fn lemma_map_of_index(s: Seq<Entry>, i: int)
    requires
        unique_keys(s),
        0 <= i < s.len(),
    ensures
        map_of(s).contains_key(s[i].path@),
        map_of(s)[s[i].path@] == info_of(s[i]),
    decreases s.len(),
{
    if i < s.len() - 1 {
        assert(unique_keys(s.drop_last()));
        assert(s.drop_last()[i] == s[i]);
        lemma_map_of_index(s.drop_last(), i);
        assert(s[i].path@ != s.last().path@);
    }
}

/// Appending an entry with a fresh path inserts its binding and keeps the
/// keys unique.
proof fn lemma_map_of_push(s: Seq<Entry>, e: Entry)
    requires
        unique_keys(s),
        forall|i: int| 0 <= i < s.len() ==> s[i].path@ != e.path@,
    ensures
        map_of(s.push(e)) == map_of(s).insert(e.path@, info_of(e)),
        unique_keys(s.push(e)),
{
    assert(s.push(e).drop_last() =~= s);
    assert(s.push(e).last() == e);
    assert forall|i: int, j: int| 0 <= i < j < s.push(e).len() implies s.push(e)[i].path@
        != s.push(e)[j].path@ by {
        if j < s.len() {
            assert(s[i].path@ != s[j].path@);
        }
    }
}

/// Replacing the entry at `i` by one with the same path rebinds that path to
/// the new settings and keeps the keys unique.
proof fn lemma_map_of_update(s: Seq<Entry>, i: int, e: Entry)
    requires
        unique_keys(s),
        0 <= i < s.len(),
        e.path@ == s[i].path@,
    ensures
        map_of(s.update(i, e)) == map_of(s).insert(e.path@, info_of(e)),
        unique_keys(s.update(i, e)),
    decreases s.len(),
{
    let s2 = s.update(i, e);
    assert forall|x: int, y: int| 0 <= x < y < s2.len() implies s2[x].path@ != s2[y].path@ by {
        assert(s[x].path@ != s[y].path@);
    }
    if i == s.len() - 1 {
        assert(s2.drop_last() =~= s.drop_last());
        assert(s2.last() == e);
        assert(map_of(s.update(i, e)) =~= map_of(s).insert(e.path@, info_of(e)));
    } else {
        assert(unique_keys(s.drop_last()));
        assert(s.drop_last()[i] == s[i]);
        lemma_map_of_update(s.drop_last(), i, e);
        assert(s2.drop_last() =~= s.drop_last().update(i, e));
        assert(s2.last() == s.last());
        assert(s.last().path@ != e.path@);
        assert(map_of(s2) == map_of(s.drop_last()).insert(e.path@, info_of(e)).insert(
            s.last().path@,
            info_of(s.last()),
        ));
        assert(map_of(s.drop_last()).insert(e.path@, info_of(e)).insert(
            s.last().path@,
            info_of(s.last()),
        ) =~= map_of(s).insert(e.path@, info_of(e)));
    }
}

/// Removing the entry at `i` removes exactly its path's binding and keeps the
/// keys unique.
proof fn lemma_map_of_remove(s: Seq<Entry>, i: int)
    requires
        unique_keys(s),
        0 <= i < s.len(),
    ensures
        map_of(s.remove(i)) == map_of(s).remove(s[i].path@),
        unique_keys(s.remove(i)),
    decreases s.len(),
{
    let s2 = s.remove(i);
    assert forall|x: int, y: int| 0 <= x < y < s2.len() implies s2[x].path@ != s2[y].path@ by {
        let x0: int = if x < i {
            x
        } else {
            x + 1
        };
        let y0: int = if y < i {
            y
        } else {
            y + 1
        };
        assert(s2[x] == s[x0] && s2[y] == s[y0]);
        assert(s[x0].path@ != s[y0].path@);
    }
    if i == s.len() - 1 {
        assert(s2 =~= s.drop_last());
        lemma_map_of_contains(s.drop_last(), s[i].path@);
        assert(map_of(s.drop_last()) =~= map_of(s).remove(s[i].path@));
    } else {
        assert(unique_keys(s.drop_last()));
        assert(s.drop_last()[i] == s[i]);
        lemma_map_of_remove(s.drop_last(), i);
        assert(s2.drop_last() =~= s.drop_last().remove(i));
        assert(s2.last() == s.last());
        assert(s.last().path@ != s[i].path@);
        assert(map_of(s2) == map_of(s.drop_last()).remove(s[i].path@).insert(
            s.last().path@,
            info_of(s.last()),
        ));
        assert(map_of(s.drop_last()).remove(s[i].path@).insert(s.last().path@, info_of(s.last()))
            =~= map_of(s).remove(s[i].path@));
    }
}

/// The session registry: the owner of all live device connections. One
/// instance serves the whole host; exclusive access to it serializes every
/// operation.
pub struct Registry {
    entries: Vec<Entry>,
}

impl View for Registry {
    type V = Map<Seq<char>, HandleInfo>;

    /// The registry viewed as the mapping from open path to recorded settings.
    closed spec fn view(&self) -> Map<Seq<char>, HandleInfo> {
        map_of(self.entries@)
    }
}

impl Registry {
    /// Well-formedness: one handle per path.
    pub closed spec fn wf(&self) -> bool {
        unique_keys(self.entries@)
    }

    /// A registry with no open paths.
    pub fn new() -> (r: Registry)
        ensures
            r.wf(),
            r@ == Map::<Seq<char>, HandleInfo>::empty(),
    {
        Registry { entries: Vec::new() }
    }

    /// The position of the path's entry, if the path is open.
    fn find(&self, path: &str) -> (r: Option<usize>)
        requires
            self.wf(),
        ensures
            r matches Some(i) ==> i < self.entries@.len() && self.entries@[i as int].path@
                == path@ && self@.contains_key(path@) && self@[path@] == info_of(
                self.entries@[i as int],
            ),
            r is None ==> !self@.contains_key(path@),
    {
        let target = path.to_owned();
        let n = self.entries.len();
        let mut i: usize = 0;
        while i < n
            invariant
                self.wf(),
                n == self.entries@.len(),
                i <= n,
                target@ == path@,
                forall|j: int| 0 <= j < i ==> self.entries@[j].path@ != path@,
            decreases n - i,
        {
            if self.entries[i].path == target {
                proof {
                    lemma_map_of_contains(self.entries@, path@);
                    lemma_map_of_index(self.entries@, i as int);
                }
                return Some(i);
            }
            i = i + 1;
        }
        proof {
            lemma_map_of_contains(self.entries@, path@);
        }
        None
    }

    /// Whether the path currently has a live handle.
    pub fn is_open(&self, path: &str) -> (r: bool)
        requires
            self.wf(),
        ensures
            r == self@.contains_key(path@),
    {
        self.find(path).is_some()
    }

    /// Open the device at `path` with the given baud rate and the default
    /// read timeout, and install its handle, replacing (and releasing) any
    /// prior handle for the same path. Fails with the `Open` error, leaving
    /// the registry unchanged, exactly when the device cannot be opened.
    pub fn open(&mut self, path: &str, baud: u32) -> (r: Result<bool, SerialError>)
        requires
            old(self).wf(),
        ensures
            final(self).wf(),
            r matches Ok(b) ==> b == true && final(self)@ == old(self)@.insert(
                path@,
                opened_handle(baud),
            ),
            r matches Err(e) ==> e is Open && final(self)@ == old(self)@,
    {
        match device::sys_open(path, baud, DEFAULT_TIMEOUT_MS) {
            Some(port) => {
                let entry = Entry { path: path.to_owned(), baud, timeout_ms: DEFAULT_TIMEOUT_MS, port };
                match self.find(path) {
                    Some(i) => {
                        let ghost s0 = self.entries@;
                        let replaced = self.entries.remove(i);
                        self.entries.insert(i, entry);
                        proof {
                            assert(self.entries@ =~= s0.update(i as int, self.entries@[i as int]));
                            lemma_map_of_update(s0, i as int, self.entries@[i as int]);
                        }
                        // `replaced` goes out of scope here: the prior device
                        // resource is released as part of the replacement.
                        let _ = replaced;
                    }
                    None => {
                        let ghost s0 = self.entries@;
                        proof {
                            lemma_map_of_contains(s0, path@);
                        }
                        self.entries.push(entry);
                        proof {
                            lemma_map_of_push(s0, self.entries@.last());
                        }
                    }
                }
                Ok(true)
            }
            None => Err(SerialError::Open),
        }
    }

    /// Update the read timeout of the path's handle. Fails with `NotOpen`,
    /// leaving the registry unchanged, exactly when the path has no live
    /// handle.
    pub fn set_timeout(&mut self, path: &str, timeout_ms: u64) -> (r: Result<bool, SerialError>)
        requires
            old(self).wf(),
        ensures
            final(self).wf(),
            r matches Err(e) ==> e is NotOpen && final(self)@ == old(self)@,
            r is Err <==> !old(self)@.contains_key(path@),
            r matches Ok(b) ==> b == true && final(self)@ == old(self)@.insert(
                path@,
                HandleInfo { baud: old(self)@[path@].baud, timeout_ms },
            ),
    {
        match self.find(path) {
            None => Err(SerialError::NotOpen),
            Some(i) => {
                let ghost s0 = self.entries@;
                let mut e = self.entries.remove(i);
                let _applied = device::sys_set_timeout(&mut e.port, timeout_ms);
                e.timeout_ms = timeout_ms;
                self.entries.insert(i, e);
                proof {
                    assert(self.entries@ =~= s0.update(i as int, self.entries@[i as int]));
                    lemma_map_of_update(s0, i as int, self.entries@[i as int]);
                }
                Ok(true)
            }
        }
    }

    /// Read up to `size` bytes (at least one byte's worth of buffer) from the
    /// path's handle. A supplied timeout override is applied before the read
    /// and stays in effect afterwards. Fails with `NotOpen` exactly when the
    /// path has no live handle; a read that yields no bytes — whether the
    /// device-level timeout elapsed or the read returned empty — is the
    /// `NoData` outcome; any other transport failure is `Io` with the
    /// underlying diagnostic.
    pub fn read(&mut self, path: &str, size: usize, timeout_ms: Option<u64>) -> (r: Result<
        Vec<u8>,
        SerialError,
    >)
        requires
            old(self).wf(),
        ensures
            final(self).wf(),
            (r matches Err(e) && e is NotOpen) <==> !old(self)@.contains_key(path@),
            !old(self)@.contains_key(path@) ==> final(self)@ == old(self)@,
            old(self)@.contains_key(path@) ==> final(self)@ == match timeout_ms {
                Some(ms) => old(self)@.insert(
                    path@,
                    HandleInfo { baud: old(self)@[path@].baud, timeout_ms: ms },
                ),
                None => old(self)@,
            },
            r matches Ok(bytes) ==> 1 <= bytes@.len() <= (if size == 0 {
                1int
            } else {
                size as int
            }),
            r matches Err(e) ==> !(e is Open),
    {
        match self.find(path) {
            None => Err(SerialError::NotOpen),
            Some(i) => {
                let ghost s0 = self.entries@;
                let mut e = self.entries.remove(i);
                if let Some(ms) = timeout_ms {
                    let _applied = device::sys_set_timeout(&mut e.port, ms);
                    e.timeout_ms = ms;
                }
                let buf_size = if size == 0 {
                    1
                } else {
                    size
                };
                let outcome = device::sys_read(&mut e.port, buf_size);
                self.entries.insert(i, e);
                proof {
                    assert(self.entries@ =~= s0.update(i as int, self.entries@[i as int]));
                    lemma_map_of_update(s0, i as int, self.entries@[i as int]);
                    if timeout_ms is None {
                        assert(old(self)@.insert(path@, old(self)@[path@]) =~= old(self)@);
                    }
                }
                triage_read(outcome)
            }
        }
    }

    /// Write the whole buffer to the path's handle, blocking until the
    /// transport accepts every byte or reports an error. On success the
    /// count of accepted bytes equals the buffer's length; a short write is
    /// never a success. Fails with `NotOpen` exactly when the path has no
    /// live handle. The registry's mapping is unchanged either way.
    pub fn write(&mut self, path: &str, data: &Vec<u8>) -> (r: Result<usize, SerialError>)
        requires
            old(self).wf(),
        ensures
            final(self).wf(),
            final(self)@ == old(self)@,
            (r matches Err(e) && e is NotOpen) <==> !old(self)@.contains_key(path@),
            r matches Ok(n) ==> n == data@.len(),
            r matches Err(e) ==> e is NotOpen || e matches SerialError::Io(_),
    {
        match self.find(path) {
            None => Err(SerialError::NotOpen),
            Some(i) => {
                let ghost s0 = self.entries@;
                let mut e = self.entries.remove(i);
                let outcome = device::sys_write(&mut e.port, data);
                self.entries.insert(i, e);
                proof {
                    assert(self.entries@ =~= s0.update(i as int, self.entries@[i as int]));
                    lemma_map_of_update(s0, i as int, self.entries@[i as int]);
                    assert(old(self)@.insert(path@, old(self)@[path@]) =~= old(self)@);
                }
                match outcome {
                    Ok(n) => Ok(n),
                    Err(m) => Err(SerialError::Io(m)),
                }
            }
        }
    }

    /// Remove the path's entry, releasing its device resource, if it has one.
    /// Idempotent, and never fails: closing a path with no live handle still
    /// succeeds.
    pub fn close(&mut self, path: &str) -> (r: bool)
        requires
            old(self).wf(),
        ensures
            final(self).wf(),
            r == true,
            final(self)@ == old(self)@.remove(path@),
    {
        match self.find(path) {
            Some(i) => {
                let ghost s0 = self.entries@;
                let released = self.entries.remove(i);
                proof {
                    lemma_map_of_remove(s0, i as int);
                }
                // `released` goes out of scope here, freeing the device.
                let _ = released;
            }
            None => {
                proof {
                    assert(old(self)@.remove(path@) =~= old(self)@);
                }
            }
        }
        true
    }
}

/// Triage of one raw read outcome into the caller-facing result: one or more
/// bytes are returned as they are; a zero-byte read and an elapsed timeout
/// are folded into the single `NoData` outcome, deliberately
/// indistinguishable; any other failure is `Io` with the underlying
/// diagnostic text.
pub fn triage_read(outcome: ReadOutcome) -> (r: Result<Vec<u8>, SerialError>)
    ensures
        outcome matches ReadOutcome::Data(bytes) ==> (bytes@.len() > 0 ==> (r matches Ok(b) && b@
            == bytes@)) && (bytes@.len() == 0 ==> (r matches Err(e) && e is NoData)),
        outcome is TimedOut ==> (r matches Err(e) && e is NoData),
        outcome matches ReadOutcome::Failed(m) ==> r matches Err(e) && (e matches SerialError::Io(t)
            && t@ == m@),
        r matches Err(e) ==> !(e is Open) && !(e is NotOpen),
{
    match outcome {
        ReadOutcome::Data(bytes) => {
            if bytes.len() > 0 {
                Ok(bytes)
            } else {
                Err(SerialError::NoData)
            }
        }
        ReadOutcome::TimedOut => Err(SerialError::NoData),
        ReadOutcome::Failed(m) => Err(SerialError::Io(m)),
    }
}

/// Law: right after a successful `open(p, b)`, the registry holds a handle
/// for `p` with `b` and the default timeout, so `set_timeout`, `read` and
/// `write` on `p` pass the not-open check (they may still fail for other
/// reasons); on a path never opened they fail with `NotOpen`, by those
/// operations' own contracts.
pub proof fn lemma_open_enables_operations(
    m: Map<Seq<char>, HandleInfo>,
    p: Seq<char>,
    baud: u32,
)
    ensures
        m.insert(p, opened_handle(baud)).contains_key(p),
        m.insert(p, opened_handle(baud))[p] == opened_handle(baud),
{
}

/// Law: closing is idempotent. A second `close` of the same path leaves the
/// registry exactly as the first did (and, by `close`'s contract, both calls
/// return success, as does a `close` of a path never opened).
pub proof fn lemma_close_idempotent(m: Map<Seq<char>, HandleInfo>, p: Seq<char>)
    ensures
        m.remove(p).remove(p) == m.remove(p),
{
    assert(m.remove(p).remove(p) =~= m.remove(p));
}

/// Law: re-opening an already-open path replaces its handle. After a second
/// successful `open` of `p`, the registry is as if only the second open had
/// happened, and `p`'s handle carries the second call's baud rate and the
/// default timeout — operations issued afterwards consult those settings,
/// not the first call's.
pub proof fn lemma_reopen_replaces(
    m: Map<Seq<char>, HandleInfo>,
    p: Seq<char>,
    first_baud: u32,
    second_baud: u32,
)
    ensures
        m.insert(p, opened_handle(first_baud)).insert(p, opened_handle(second_baud)) == m.insert(
            p,
            opened_handle(second_baud),
        ),
        m.insert(p, opened_handle(first_baud)).insert(p, opened_handle(second_baud))[p]
            == opened_handle(second_baud),
{
    assert(m.insert(p, opened_handle(first_baud)).insert(p, opened_handle(second_baud)) =~= m
        .insert(p, opened_handle(second_baud)));
}

} // verus!

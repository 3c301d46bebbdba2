//! Which mounts may hold images, and the memory of the mounts announced so
//! far, so that a vanished unit is reported with the mount point it had.

use vstd::prelude::*;
use crate::images::Update;
use crate::text::{ends_with, is_prefix_of, is_suffix_of, starts_with};

verus! {

/// A change in the set of mount points that may hold images.
#[derive(Debug)]
pub enum MountUpdate {
    /// Media is mounted at this path.
    New(String),
    /// The media mounted at this path went away.
    Removed(String),
}

/// What the image monitor does with a mount change.
#[derive(Debug)]
pub enum ScanAction {
    /// Look for images in this directory.
    Scan(String),
    /// Pass this change on to the image list.
    Forward(Update),
}

/// Mounts of real devices have a source under `/dev/`.
pub open spec fn device_prefix() -> Seq<char> {
    seq!['/', 'd', 'e', 'v', '/']
}

/// Only mount points under `/run/` are considered.
pub open spec fn runtime_prefix() -> Seq<char> {
    seq!['/', 'r', 'u', 'n', '/']
}

/// systemd mount units are named `<escaped path>.mount`.
pub open spec fn mount_unit_suffix() -> Seq<char> {
    seq!['.', 'm', 'o', 'u', 'n', 't']
}

/// Whether the mount's source (its `What`) is a device node.
pub fn is_device_backed(what: &str) -> (r: bool)
    ensures
        r == is_prefix_of(device_prefix(), what@),
{
    proof {
        reveal_strlit("/dev/");
    }
    let prefix = "/dev/";
    assert(prefix@ =~= device_prefix());
    starts_with(what, prefix)
}

/// Whether the mount point (its `Where`) lies under `/run/`.
pub fn is_runtime_mount(where_: &str) -> (r: bool)
    ensures
        r == is_prefix_of(runtime_prefix(), where_@),
{
    proof {
        reveal_strlit("/run/");
    }
    let prefix = "/run/";
    assert(prefix@ =~= runtime_prefix());
    starts_with(where_, prefix)
}

/// Whether a unit name names a mount unit.
pub fn is_mount_unit(name: &str) -> (r: bool)
    ensures
        r == is_suffix_of(mount_unit_suffix(), name@),
{
    proof {
        reveal_strlit(".mount");
    }
    let suffix = ".mount";
    assert(suffix@ =~= mount_unit_suffix());
    ends_with(name, suffix)
}

/// The mount point to scan for a mount with source `what` at `where_`: the
/// mount point itself when the source is a device and the mount point lies
/// under `/run/`, nothing otherwise.
pub fn mount_point(what: &str, where_: &str) -> (r: Option<String>)
    ensures
        r is Some <==> (is_prefix_of(device_prefix(), what@) && is_prefix_of(
            runtime_prefix(),
            where_@,
        )),
        r matches Some(p) ==> p@ == where_@,
{
    if !is_device_backed(what) {
        return None;
    }
    if !is_runtime_mount(where_) {
        return None;
    }
    Some(String::from_str(where_))
}

/// What the image monitor does with a mount change: scan a new mount point,
/// pass a removal on.
pub fn scan_action(update: MountUpdate) -> (r: ScanAction)
    ensures
        match update {
            MountUpdate::New(p) => r matches ScanAction::Scan(q) && q@ == p@,
            MountUpdate::Removed(p) => r matches ScanAction::Forward(Update::Removed(q)) && q@ == p@,
        },
{
    match update {
        MountUpdate::New(path) => ScanAction::Scan(path),
        MountUpdate::Removed(path) => ScanAction::Forward(Update::Removed(path)),
    }
}

/// The mount point last recorded for `unit` in `entries`, if any.
pub open spec fn lookup(entries: Seq<(String, String)>, unit: Seq<char>) -> Option<Seq<char>>
    decreases entries.len(),
{
    if entries.len() == 0 {
        None
    } else if entries.last().0@ == unit {
        Some(entries.last().1@)
    } else {
        lookup(entries.drop_last(), unit)
    }
}

/// `entries` without the ones for `unit`.
pub open spec fn without(entries: Seq<(String, String)>, unit: Seq<char>) -> Seq<(String, String)>
    decreases entries.len(),
{
    if entries.len() == 0 {
        entries
    } else if entries.last().0@ == unit {
        without(entries.drop_last(), unit)
    } else {
        without(entries.drop_last(), unit).push(entries.last())
    }
}

proof fn lemma_lookup_without(entries: Seq<(String, String)>, unit: Seq<char>, key: Seq<char>)
    ensures
        lookup(without(entries, unit), key) == (if key == unit {
            None
        } else {
            lookup(entries, key)
        }),
    decreases entries.len(),
{
    if entries.len() > 0 {
        lemma_lookup_without(entries.drop_last(), unit, key);
        let rest = without(entries.drop_last(), unit);
        if entries.last().0@ != unit {
            assert(rest.push(entries.last()).drop_last() =~= rest);
        }
    }
}

/// The units announced as mounted, each with its mount point.
pub struct MountTracker {
    seen: Vec<(String, String)>,
}

impl View for MountTracker {
    type V = Map<Seq<char>, Seq<char>>;

    closed spec fn view(&self) -> Map<Seq<char>, Seq<char>> {
        Map::new(|k: Seq<char>| lookup(self.seen@, k) is Some, |k: Seq<char>| lookup(self.seen@, k)->0)
    }
}

impl MountTracker {
    /// No unit announced yet.
    pub fn new() -> (r: MountTracker)
        ensures
            r@ == Map::<Seq<char>, Seq<char>>::empty(),
    {
        let r = MountTracker { seen: Vec::new() };
        assert(r@ =~= Map::<Seq<char>, Seq<char>>::empty());
        r
    }

    /// Forgets `unit`, handing back the mount point it had, if it was known.
    fn forget(&mut self, unit: &String) -> (r: Option<String>)
        ensures
            r is Some <==> old(self)@.contains_key(unit@),
            r matches Some(p) ==> p@ == old(self)@[unit@],
            final(self)@ == old(self)@.remove(unit@),
    {
        let n = self.seen.len();
        let mut kept: Vec<(String, String)> = Vec::new();
        let mut found: Option<String> = None;
        for i in 0..n
            invariant
                n == self.seen@.len(),
                kept@ == without(self.seen@.take(i as int), unit@),
                match found {
                    Some(p) => lookup(self.seen@.take(i as int), unit@) == Some(p@),
                    None => lookup(self.seen@.take(i as int), unit@) is None,
                },
        {
            let ghost prefix = self.seen@.take(i as int);
            let entry = &self.seen[i];
            if entry.0 == *unit {
                found = Some(entry.1.clone());
            } else {
                kept.push((entry.0.clone(), entry.1.clone()));
            }
            proof {
                let next = self.seen@.take(i + 1);
                assert(next.drop_last() =~= prefix);
                assert(next.last() == self.seen@[i as int]);
            }
        }
        proof {
            assert(self.seen@.take(n as int) =~= self.seen@);
            assert forall|k: Seq<char>| true implies lookup(kept@, k) == (if k == unit@ {
                None
            } else {
                lookup(self.seen@, k)
            }) by {
                lemma_lookup_without(self.seen@, unit@, k);
            }
        }
        let ghost before = self@;
        self.seen = kept;
        proof {
            assert(self@ =~= before.remove(unit@));
        }
        found
    }

    /// Records that `unit` is mounted at `mount_point`, replacing what was
    /// recorded for it before.
    fn remember(&mut self, unit: String, mount_point: String)
        ensures
            final(self)@ == old(self)@.insert(unit@, mount_point@),
    {
        let _ = self.forget(&unit);
        let ghost before = self@;
        let ghost entries = self.seen@;
        self.seen.push((unit, mount_point));
        proof {
            assert(self.seen@.drop_last() =~= entries);
            assert(self@ =~= before.insert(unit@, mount_point@));
        }
    }

    /// A unit turned out to be a device mount under `/run/`: remember it and
    /// announce its mount point.
    pub fn mounted(&mut self, unit: String, mount_point: String) -> (r: MountUpdate)
        ensures
            final(self)@ == old(self)@.insert(unit@, mount_point@),
            r matches MountUpdate::New(p) && p@ == mount_point@,
    {
        let announced = mount_point.clone();
        self.remember(unit, mount_point);
        MountUpdate::New(announced)
    }

    /// A unit went away: if it had been announced, forget it and announce the
    /// removal of its mount point; otherwise there is nothing to report.
    pub fn unmounted(&mut self, unit: &String) -> (r: Option<MountUpdate>)
        ensures
            final(self)@ == old(self)@.remove(unit@),
            r is Some <==> old(self)@.contains_key(unit@),
            r matches Some(u) ==> (u matches MountUpdate::Removed(p) && p@ == old(self)@[unit@]),
    {
        match self.forget(unit) {
            Some(p) => Some(MountUpdate::Removed(p)),
            None => None,
        }
    }
}

} // verus!

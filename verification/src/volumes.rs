//! The volume map: which named directories a package may touch, where each
//! lives under the data directory, and whether it is read-only.

use crate::paths::{HostPath, PathView};
use crate::text::str_eq;
use vstd::prelude::*;

verus! {

/// Something that can resolve a volume id to a base path and report its
/// writability; the declared volume map is the one resolver here.
pub trait PathForVolumeId {
    /// The base path of the volume named `volume_id`, if declared.
    fn path_for(
        &self,
        data_dir: &HostPath,
        package_id: &str,
        version: &str,
        volume_id: &str,
    ) -> Option<HostPath>;

    /// Whether the volume named `volume_id` refuses mutating ops.
    fn readonly(&self, volume_id: &str) -> bool;
}

/// One declared volume of a package.
#[derive(Debug)]
pub enum Volume {
    /// The package's own writable data directory.
    Data,
    /// The package's bundled assets; never writable.
    Assets,
    /// A view into another package's data volume, at a relative path,
    /// with its own read-only flag.
    Pointer { package_id: String, volume_id: String, path: HostPath, readonly: bool },
}

/// Whether a volume forbids mutating ops.
pub open spec fn spec_vol_readonly(v: Volume) -> bool {
    match v {
        Volume::Data => false,
        Volume::Assets => true,
        Volume::Pointer { readonly, .. } => readonly,
    }
}

/// The segments of a volume's base path, relative to the data directory.
pub open spec fn spec_vol_rel(
    v: Volume,
    package_id: Seq<char>,
    version: Seq<char>,
    volume_id: Seq<char>,
) -> Seq<Seq<char>> {
    match v {
        Volume::Data => seq!["package-data"@, "volumes"@, package_id, "data"@, volume_id],
        Volume::Assets => seq!["package-data"@, "assets"@, package_id, version, volume_id],
        Volume::Pointer { package_id: other_pkg, volume_id: other_vol, path, .. } => seq![
            "package-data"@,
            "volumes"@,
            other_pkg@,
            "data"@,
            other_vol@,
        ] + path@.segs,
    }
}

/// The base path of a volume, under the host data directory.
pub open spec fn spec_vol_path(
    v: Volume,
    data_dir: PathView,
    package_id: Seq<char>,
    version: Seq<char>,
    volume_id: Seq<char>,
) -> PathView {
    PathView {
        absolute: data_dir.absolute,
        segs: data_dir.segs + spec_vol_rel(v, package_id, version, volume_id),
    }
}

/// The declared volumes of one package, keyed by volume id; an id occurring
/// twice resolves to its most recent declaration.
#[derive(Debug)]
pub struct Volumes {
    pub entries: Vec<(String, Volume)>,
}

/// First entry of `entries` whose key is `id`, if any.
pub open spec fn spec_get(entries: Seq<(String, Volume)>, id: Seq<char>) -> Option<Volume>
    decreases entries.len(),
{
    if entries.len() == 0 {
        None
    } else if entries[0].0@ == id {
        Some(entries[0].1)
    } else {
        spec_get(entries.drop_first(), id)
    }
}

/// Whether the volume named `id` is read-only; an unknown id reports
/// not-read-only (resolution fails first).
pub open spec fn spec_readonly(entries: Seq<(String, Volume)>, id: Seq<char>) -> bool {
    match spec_get(entries, id) {
        None => false,
        Some(v) => spec_vol_readonly(v),
    }
}

impl Volumes {
    /// An empty volume map.
    pub fn new() -> (r: Volumes)
        ensures
            r.entries@.len() == 0,
    {
        Volumes { entries: Vec::new() }
    }

    /// Declares a volume; a repeated id shadows the earlier declaration.
    pub fn declare(&mut self, id: String, v: Volume)
        ensures
            spec_get(final(self).entries@, id@) == Some(v),
            forall|other: Seq<char>|
                other != id@ ==> spec_get(final(self).entries@, other) == spec_get(
                    old(self).entries@,
                    other,
                ),
    {
        let ghost old_entries = self.entries@;
        self.entries.insert(0, (id, v));
        proof {
            assert(self.entries@.drop_first() =~= old_entries);
        }
    }

    /// Looks a volume up by id.
    pub fn get(&self, id: &str) -> (r: Option<&Volume>)
        ensures
            match r {
                None => spec_get(self.entries@, id@) is None,
                Some(v) => spec_get(self.entries@, id@) == Some(*v),
            },
    {
        let mut i: usize = 0;
        proof {
            assert(self.entries@.skip(0) =~= self.entries@);
        }
        while i < self.entries.len()
            invariant
                0 <= i <= self.entries.len(),
                spec_get(self.entries@, id@) == spec_get(self.entries@.skip(i as int), id@),
            decreases self.entries.len() - i,
        {
            proof {
                assert(self.entries@.skip(i as int)[0] == self.entries@[i as int]);
                assert(self.entries@.skip(i as int).drop_first() =~= self.entries@.skip(
                    i as int + 1,
                ));
            }
            if str_eq(self.entries[i].0.as_str(), id) {
                return Some(&self.entries[i].1);
            }
            i = i + 1;
        }
        proof {
            assert(self.entries@.skip(self.entries.len() as int) =~= Seq::<(
                String,
                Volume,
            )>::empty());
        }
        None
    }

    /// Whether the volume named `id` is read-only. An unknown id reports
    /// not-read-only: resolution of its base path fails first.
    pub fn readonly(&self, volume_id: &str) -> (r: bool)
        ensures
            r == spec_readonly(self.entries@, volume_id@),
    {
        match self.get(volume_id) {
            None => false,
            Some(v) => match v {
                Volume::Data => false,
                Volume::Assets => true,
                Volume::Pointer { readonly, .. } => *readonly,
            },
        }
    }

    /// The base path of the volume named `volume_id`, or nothing when no
    /// such volume is declared.
    pub fn path_for(
        &self,
        data_dir: &HostPath,
        package_id: &str,
        version: &str,
        volume_id: &str,
    ) -> (r: Option<HostPath>)
        ensures
            match r {
                None => spec_get(self.entries@, volume_id@) is None,
                Some(p) => spec_get(self.entries@, volume_id@) matches Some(v) && p@
                    == spec_vol_path(v, data_dir@, package_id@, version@, volume_id@),
            },
    {
        match self.get(volume_id) {
            None => None,
            Some(v) => {
                let segs = vol_rel_segs(v, package_id, version, volume_id);
                let rel = HostPath { absolute: false, segs };
                let joined = HostPath::join(data_dir, &rel);
                proof {
                    assert(joined@.segs == spec_vol_path(
                        *v,
                        data_dir@,
                        package_id@,
                        version@,
                        volume_id@,
                    ).segs);
                }
                Some(joined)
            },
        }
    }
}

/// Builds the relative base-path segments of a volume.
fn vol_rel_segs(v: &Volume, package_id: &str, version: &str, volume_id: &str) -> (r: Vec<String>)
    ensures
        r.deep_view() == spec_vol_rel(*v, package_id@, version@, volume_id@),
{
    let mut segs: Vec<String> = Vec::new();
    match v {
        Volume::Data => {
            segs.push("package-data".to_owned());
            segs.push("volumes".to_owned());
            segs.push(package_id.to_owned());
            segs.push("data".to_owned());
            segs.push(volume_id.to_owned());
            proof {
                assert(segs.deep_view() =~= spec_vol_rel(*v, package_id@, version@, volume_id@));
            }
        },
        Volume::Assets => {
            segs.push("package-data".to_owned());
            segs.push("assets".to_owned());
            segs.push(package_id.to_owned());
            segs.push(version.to_owned());
            segs.push(volume_id.to_owned());
            proof {
                assert(segs.deep_view() =~= spec_vol_rel(*v, package_id@, version@, volume_id@));
            }
        },
        Volume::Pointer { package_id: other_pkg, volume_id: other_vol, path, .. } => {
            segs.push("package-data".to_owned());
            segs.push("volumes".to_owned());
            segs.push(other_pkg.clone());
            segs.push("data".to_owned());
            segs.push(other_vol.clone());
            let ghost head = segs.deep_view();
            let mut i: usize = 0;
            while i < path.segs.len()
                invariant
                    0 <= i <= path.segs.len(),
                    segs.deep_view() == head + path.segs.deep_view().take(i as int),
                decreases path.segs.len() - i,
            {
                let ghost old_deep = segs.deep_view();
                segs.push(path.segs[i].clone());
                proof {
                    assert(segs.deep_view() =~= old_deep.push(path.segs.deep_view()[i as int]));
                    assert(old_deep.push(path.segs.deep_view()[i as int]) =~= head
                        + path.segs.deep_view().take(i as int + 1));
                }
                i = i + 1;
            }
            proof {
                assert(path.segs.deep_view().take(path.segs.len() as int)
                    =~= path.segs.deep_view());
                assert(path.segs.deep_view() =~= path@.segs);
                assert(segs.deep_view() =~= spec_vol_rel(*v, package_id@, version@, volume_id@));
            }
        },
    }
    segs
}

impl PathForVolumeId for Volumes {
    /// The declared volume map resolves by lookup; see the inherent
    /// methods for the exact contracts.
    fn path_for(
        &self,
        data_dir: &HostPath,
        package_id: &str,
        version: &str,
        volume_id: &str,
    ) -> Option<HostPath> {
        Volumes::path_for(self, data_dir, package_id, version, volume_id)
    }

    fn readonly(&self, volume_id: &str) -> bool {
        Volumes::readonly(self, volume_id)
    }
}

} // verus!

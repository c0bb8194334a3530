//! Named OCR region profiles stored next to the executable.

use crate::region_presets::{
    first_named, lemma_first_named_prefix, sanitize_regions, sanitized, stored, surviving,
    NamedRegions,
};
use crate::text::{owned, trim, trimmed};
use crate::types::NormRect;
use vstd::prelude::*;

verus! {

/// One named set of OCR boxes.
#[derive(Debug, PartialEq)]
pub struct RegionProfile {
    pub name: String,
    pub regions: Vec<NormRect>,
}

impl View for RegionProfile {
    type V = NamedRegions;

    open spec fn view(&self) -> NamedRegions {
        NamedRegions { name: self.name@, regions: self.regions@ }
    }
}

/// Root of `region-profiles.toml`.
#[derive(Debug, PartialEq)]
pub struct RegionProfileFile {
    pub profiles: Vec<RegionProfile>,
}

/// Why a profile is refused.
#[derive(Debug)]
pub enum RegionProfilesError {
    Invalid(String),
}

/// Names and regions of a list of profiles.
pub open spec fn profile_views(profiles: Seq<RegionProfile>) -> Seq<NamedRegions> {
    profiles.map_values(|p: RegionProfile| p@)
}

impl RegionProfileFile {
    /// File without profiles.
    pub fn empty() -> (r: RegionProfileFile)
        ensures
            r.profiles@.len() == 0,
    {
        RegionProfileFile { profiles: Vec::new() }
    }

    /// Drop invalid rects; drop profiles that end up with no regions or empty names.
    ///
    /// `cleaned` holds the cleaned regions of each profile.
    pub fn sanitize_in_place(&mut self, cleaned: &Vec<Vec<Option<NormRect>>>)
        requires
            cleaned@.len() == old(self).profiles@.len(),
        ensures
            profile_views(final(self).profiles@) == sanitized(
                profile_views(old(self).profiles@),
                cleaned@,
            ),
    {
        let ghost all = profile_views(self.profiles@);
        let mut kept: Vec<RegionProfile> = Vec::new();
        let mut i: usize = 0;
        assert(all.take(0) =~= Seq::<NamedRegions>::empty());
        assert(profile_views(kept@) =~= Seq::<NamedRegions>::empty());
        while i < self.profiles.len()
            invariant
                i <= self.profiles@.len(),
                cleaned@.len() == self.profiles@.len(),
                all == profile_views(self.profiles@),
                *self == *old(self),
                profile_views(kept@) == sanitized(all.take(i as int), cleaned@),
            decreases self.profiles@.len() - i,
        {
            assert(all.take(i + 1).drop_last() =~= all.take(i as int));
            assert(all.take(i + 1).last() == self.profiles@[i as int]@);
            let name: String = trimmed(self.profiles[i].name.as_str());
            let regions: Vec<NormRect> = sanitize_regions(&cleaned[i]);
            if !name.as_str().is_empty() && regions.len() > 0 {
                let ghost before = kept@;
                kept.push(RegionProfile { name, regions });
                assert(profile_views(kept@) =~= profile_views(before).push(kept@.last()@));
            }
            i = i + 1;
        }
        assert(all.take(i as int) =~= all);
        self.profiles = kept;
    }

    /// Insert or replace by exact name. `name` and `regions` must already be validated.
    pub fn upsert(&mut self, name: String, regions: Vec<NormRect>)
        ensures
            profile_views(final(self).profiles@) == stored(
                profile_views(old(self).profiles@),
                name@,
                regions@,
            ),
    {
        let ghost before = profile_views(self.profiles@);
        match self.position(name.as_str()) {
            Some(i) => {
                self.profiles.set(i, RegionProfile { name, regions });
                assert(profile_views(self.profiles@) =~= stored(before, name@, regions@));
            },
            None => {
                self.profiles.push(RegionProfile { name, regions });
                assert(profile_views(self.profiles@) =~= stored(before, name@, regions@));
            },
        }
    }

    /// Position of the first profile with exactly this name.
    pub fn position(&self, name: &str) -> (r: Option<usize>)
        ensures
            match r {
                Some(i) => i < self.profiles@.len() && first_named(
                    profile_views(self.profiles@),
                    name@,
                ) == Some(i as int),
                None => first_named(profile_views(self.profiles@), name@) is None,
            },
    {
        let ghost all = profile_views(self.profiles@);
        let wanted: String = owned(name);
        let mut i: usize = 0;
        assert(all.take(0) =~= Seq::<NamedRegions>::empty());
        while i < self.profiles.len()
            invariant
                i <= self.profiles@.len(),
                all == profile_views(self.profiles@),
                wanted@ == name@,
                first_named(all.take(i as int), name@) is None,
            decreases self.profiles@.len() - i,
        {
            assert(all.take(i + 1).drop_last() =~= all.take(i as int));
            assert(all.take(i + 1).last() == self.profiles@[i as int]@);
            if self.profiles[i].name == wanted {
                proof {
                    lemma_first_named_prefix(all, name@, i + 1);
                }
                return Some(i);
            }
            i = i + 1;
        }
        assert(all.take(i as int) =~= all);
        None
    }
}

/// Require a non-empty trimmed name plus at least one valid rect.
pub fn validate_profile(name: &str, cleaned: &Vec<Option<NormRect>>) -> (r: Result<
    (String, Vec<NormRect>),
    RegionProfilesError,
>)
    ensures
        match r {
            Ok((n, regions)) => n@ == trim(name@) && n@.len() > 0 && regions@ == surviving(cleaned@)
                && regions@.len() > 0,
            Err(RegionProfilesError::Invalid(text)) => if trim(name@).len() == 0 {
                text@ == "Profile name is required."@
            } else {
                surviving(cleaned@).len() == 0 && text@
                    == "A profile needs at least one OCR region."@
            },
        },
{
    let name: String = trimmed(name);
    if name.as_str().is_empty() {
        return Err(RegionProfilesError::Invalid(owned("Profile name is required.")));
    }
    let regions: Vec<NormRect> = sanitize_regions(cleaned);
    if regions.len() == 0 {
        return Err(
            RegionProfilesError::Invalid(owned("A profile needs at least one OCR region.")),
        );
    }
    Ok((name, regions))
}

} // verus!

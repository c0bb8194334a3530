//! Named OCR region presets stored next to the executable.

use crate::text::{owned, trim, trimmed};
use crate::types::NormRect;
use vstd::prelude::*;

verus! {

/// One named set of OCR boxes.
#[derive(Debug, PartialEq)]
pub struct RegionPreset {
    pub name: String,
    pub regions: Vec<NormRect>,
}

/// Name and regions of a preset.
#[verifier::ext_equal]
pub struct NamedRegions {
    pub name: Seq<char>,
    pub regions: Seq<NormRect>,
}

impl View for RegionPreset {
    type V = NamedRegions;

    open spec fn view(&self) -> NamedRegions {
        NamedRegions { name: self.name@, regions: self.regions@ }
    }
}

/// Root of `region-presets.toml`.
#[derive(Debug, PartialEq)]
pub struct RegionPresetFile {
    pub presets: Vec<RegionPreset>,
}

/// Why a preset is refused.
#[derive(Debug)]
pub enum RegionPresetsError {
    Invalid(String),
}

/// The regions that survived cleaning, in order.
pub open spec fn surviving(cleaned: Seq<Option<NormRect>>) -> Seq<NormRect>
    decreases cleaned.len(),
{
    if cleaned.len() == 0 {
        Seq::empty()
    } else {
        match cleaned.last() {
            Some(r) => surviving(cleaned.drop_last()).push(r),
            None => surviving(cleaned.drop_last()),
        }
    }
}

/// Keep the regions that survived cleaning. `cleaned` holds each region flipped and clamped, or
/// `None` where it is not finite or too small.
pub fn sanitize_regions(cleaned: &Vec<Option<NormRect>>) -> (r: Vec<NormRect>)
    ensures
        r@ == surviving(cleaned@),
{
    let mut out: Vec<NormRect> = Vec::new();
    let mut i: usize = 0;
    assert(cleaned@.take(0) =~= Seq::<Option<NormRect>>::empty());
    while i < cleaned.len()
        invariant
            i <= cleaned@.len(),
            out@ == surviving(cleaned@.take(i as int)),
        decreases cleaned@.len() - i,
    {
        assert(cleaned@.take(i + 1).drop_last() =~= cleaned@.take(i as int));
        assert(cleaned@.take(i + 1).last() == cleaned@[i as int]);
        match cleaned[i] {
            Some(r) => out.push(r),
            None => {},
        }
        i = i + 1;
    }
    assert(cleaned@.take(i as int) =~= cleaned@);
    out
}

/// Names and regions of a list of presets.
pub open spec fn preset_views(presets: Seq<RegionPreset>) -> Seq<NamedRegions> {
    presets.map_values(|p: RegionPreset| p@)
}

/// The sets that are left of `sets` after cleaning: names trimmed, regions as they survived,
/// nameless and empty sets dropped.
pub open spec fn sanitized(
    sets: Seq<NamedRegions>,
    cleaned: Seq<Vec<Option<NormRect>>>,
) -> Seq<NamedRegions>
    decreases sets.len(),
{
    if sets.len() == 0 {
        Seq::empty()
    } else {
        let before = sanitized(sets.drop_last(), cleaned);
        let one = NamedRegions {
            name: trim(sets.last().name),
            regions: surviving(cleaned[sets.len() - 1]@),
        };
        if one.name.len() > 0 && one.regions.len() > 0 {
            before.push(one)
        } else {
            before
        }
    }
}

/// `sets` with `regions` stored under exactly `name`: in place of the first set of that name, or
/// as a new last set.
pub open spec fn stored(
    sets: Seq<NamedRegions>,
    name: Seq<char>,
    regions: Seq<NormRect>,
) -> Seq<NamedRegions> {
    match first_named(sets, name) {
        Some(i) => sets.update(i, NamedRegions { name, regions }),
        None => sets.push(NamedRegions { name, regions }),
    }
}

/// Position of the first set with exactly this name.
pub open spec fn first_named(sets: Seq<NamedRegions>, name: Seq<char>) -> Option<int>
    decreases sets.len(),
{
    if sets.len() == 0 {
        None
    } else {
        match first_named(sets.drop_last(), name) {
            Some(i) => Some(i),
            None => if sets.last().name == name {
                Some(sets.len() - 1)
            } else {
                None
            },
        }
    }
}

impl RegionPresetFile {
    /// File without presets.
    pub fn empty() -> (r: RegionPresetFile)
        ensures
            r.presets@.len() == 0,
    {
        RegionPresetFile { presets: Vec::new() }
    }

    /// Drop invalid rects; drop presets that end up with no regions or empty names.
    ///
    /// `cleaned` holds the cleaned regions of each preset.
    pub fn sanitize_in_place(&mut self, cleaned: &Vec<Vec<Option<NormRect>>>)
        requires
            cleaned@.len() == old(self).presets@.len(),
        ensures
            preset_views(final(self).presets@) == sanitized(
                preset_views(old(self).presets@),
                cleaned@,
            ),
    {
        let ghost all = preset_views(self.presets@);
        let mut kept: Vec<RegionPreset> = Vec::new();
        let mut i: usize = 0;
        assert(all.take(0) =~= Seq::<NamedRegions>::empty());
        assert(preset_views(kept@) =~= Seq::<NamedRegions>::empty());
        while i < self.presets.len()
            invariant
                i <= self.presets@.len(),
                cleaned@.len() == self.presets@.len(),
                all == preset_views(self.presets@),
                *self == *old(self),
                preset_views(kept@) == sanitized(all.take(i as int), cleaned@),
            decreases self.presets@.len() - i,
        {
            assert(all.take(i + 1).drop_last() =~= all.take(i as int));
            assert(all.take(i + 1).last() == self.presets@[i as int]@);
            let name: String = trimmed(self.presets[i].name.as_str());
            let regions: Vec<NormRect> = sanitize_regions(&cleaned[i]);
            if !name.as_str().is_empty() && regions.len() > 0 {
                let ghost before = kept@;
                kept.push(RegionPreset { name, regions });
                assert(preset_views(kept@) =~= preset_views(before).push(kept@.last()@));
            }
            i = i + 1;
        }
        assert(all.take(i as int) =~= all);
        self.presets = kept;
    }

    /// Insert or replace by exact name. `name` and `regions` must already be validated.
    pub fn upsert(&mut self, name: String, regions: Vec<NormRect>)
        ensures
            preset_views(final(self).presets@) == stored(
                preset_views(old(self).presets@),
                name@,
                regions@,
            ),
    {
        let ghost before = preset_views(self.presets@);
        match self.position(name.as_str()) {
            Some(i) => {
                self.presets.set(i, RegionPreset { name, regions });
                assert(preset_views(self.presets@) =~= stored(before, name@, regions@));
            },
            None => {
                self.presets.push(RegionPreset { name, regions });
                assert(preset_views(self.presets@) =~= stored(before, name@, regions@));
            },
        }
    }

    /// Position of the first preset with exactly this name.
    pub fn position(&self, name: &str) -> (r: Option<usize>)
        ensures
            match r {
                Some(i) => i < self.presets@.len() && first_named(
                    preset_views(self.presets@),
                    name@,
                ) == Some(i as int),
                None => first_named(preset_views(self.presets@), name@) is None,
            },
    {
        let ghost all = preset_views(self.presets@);
        let wanted: String = owned(name);
        let mut i: usize = 0;
        assert(all.take(0) =~= Seq::<NamedRegions>::empty());
        while i < self.presets.len()
            invariant
                i <= self.presets@.len(),
                all == preset_views(self.presets@),
                wanted@ == name@,
                first_named(all.take(i as int), name@) is None,
            decreases self.presets@.len() - i,
        {
            assert(all.take(i + 1).drop_last() =~= all.take(i as int));
            assert(all.take(i + 1).last() == self.presets@[i as int]@);
            if self.presets[i].name == wanted {
                proof {
                    lemma_first_named_prefix(all, name@, i + 1);
                }
                return Some(i);
            }
            i = i + 1;
        }
        assert(all.take(i as int) =~= all);
        None
    }
}

/// A name found in a beginning of a list is found at the same position in the whole.
pub proof fn lemma_first_named_prefix(sets: Seq<NamedRegions>, name: Seq<char>, n: int)
    requires
        0 <= n <= sets.len(),
        first_named(sets.take(n), name) is Some,
    ensures
        first_named(sets, name) == first_named(sets.take(n), name),
    decreases sets.len() - n,
{
    if n < sets.len() {
        assert(sets.take(n + 1).drop_last() =~= sets.take(n));
        lemma_first_named_prefix(sets, name, n + 1);
    } else {
        assert(sets.take(n) =~= sets);
    }
}

/// A found position holds the name, and no earlier one does.
pub proof fn lemma_first_named(sets: Seq<NamedRegions>, name: Seq<char>)
    ensures
        first_named(sets, name) matches Some(i) ==> 0 <= i < sets.len() && sets[i].name == name
            && forall|j: int| 0 <= j < i ==> #[trigger] sets[j].name != name,
        first_named(sets, name) is None ==> forall|j: int|
            0 <= j < sets.len() ==> #[trigger] sets[j].name != name,
    decreases sets.len(),
{
    if sets.len() > 0 {
        let t = sets.drop_last();
        lemma_first_named(t, name);
        assert forall|j: int| 0 <= j < t.len() implies #[trigger] sets[j] == t[j] by {}
        if first_named(t, name) is None {
            assert forall|j: int| 0 <= j < t.len() implies #[trigger] sets[j].name != name by {
                assert(t[j].name != name);
            }
        } else {
            let i = first_named(t, name)->0;
            assert forall|j: int| 0 <= j < i implies #[trigger] sets[j].name != name by {
                assert(t[j].name != name);
            }
        }
    }
}

/// Storing regions under a name makes them what is found under that name, and changes nothing
/// found under any other name.
pub proof fn law_stored_regions_are_found(
    sets: Seq<NamedRegions>,
    name: Seq<char>,
    regions: Seq<NormRect>,
    other: Seq<char>,
)
    ensures
        first_named(stored(sets, name, regions), name) matches Some(i) && stored(
            sets,
            name,
            regions,
        )[i] == (NamedRegions { name, regions }),
        other != name ==> first_named(stored(sets, name, regions), other) == first_named(
            sets,
            other,
        ),
        other != name ==> (first_named(sets, other) matches Some(j) ==> stored(
            sets,
            name,
            regions,
        )[j] == sets[j]),
        stored(sets, name, regions).len() == sets.len() + if first_named(sets, name) is Some {
            0int
        } else {
            1int
        },
{
    let out = stored(sets, name, regions);
    lemma_first_named(sets, name);
    lemma_first_named(sets, other);
    lemma_first_named(out, name);
    lemma_first_named(out, other);
    let at = match first_named(sets, name) {
        Some(i) => i,
        None => sets.len() as int,
    };
    assert(out[at] == (NamedRegions { name, regions }));
    assert(out[at].name == name);
    assert forall|j: int| 0 <= j < sets.len() && j != at implies #[trigger] out[j] == sets[j] by {}
    if first_named(out, name) is Some {
        let k = first_named(out, name)->0;
        if k < at {
            assert(out[k] == sets[k]);
            assert(sets[k].name != name);
        }
    }
    if other != name {
        match first_named(sets, other) {
            Some(j) => {
                assert(out[j] == sets[j]);
                let k = first_named(out, other)->0;
                if k < j {
                    assert(out[k].name == other);
                    if k != at {
                        assert(out[k] == sets[k]);
                    }
                }
            },
            None => {
                if first_named(out, other) is Some {
                    let k = first_named(out, other)->0;
                    if k != at {
                        assert(out[k] == sets[k]);
                    }
                }
            },
        }
    }
}

/// Require a non-empty trimmed name plus at least one valid rect.
pub fn validate_preset(name: &str, cleaned: &Vec<Option<NormRect>>) -> (r: Result<
    (String, Vec<NormRect>),
    RegionPresetsError,
>)
    ensures
        match r {
            Ok((n, regions)) => n@ == trim(name@) && n@.len() > 0 && regions@ == surviving(cleaned@)
                && regions@.len() > 0,
            Err(RegionPresetsError::Invalid(text)) => if trim(name@).len() == 0 {
                text@ == "Preset name is required."@
            } else {
                surviving(cleaned@).len() == 0 && text@
                    == "A preset needs at least one OCR region."@
            },
        },
{
    let name: String = trimmed(name);
    if name.as_str().is_empty() {
        return Err(RegionPresetsError::Invalid(owned("Preset name is required.")));
    }
    let regions: Vec<NormRect> = sanitize_regions(cleaned);
    if regions.len() == 0 {
        return Err(RegionPresetsError::Invalid(owned("A preset needs at least one OCR region.")));
    }
    Ok((name, regions))
}

/// Cleaning drops what did not survive and nothing else, in order.
pub proof fn law_surviving_regions_stay_in_order(
    a: Seq<Option<NormRect>>,
    r: NormRect,
    b: Seq<Option<NormRect>>,
)
    ensures
        surviving(a + b) == surviving(a) + surviving(b),
        surviving(seq![Some(r)]) == seq![r],
        surviving(seq![None]) == Seq::<NormRect>::empty(),
    decreases b.len(),
{
    reveal_with_fuel(surviving, 2);
    assert(seq![Some(r)].drop_last() =~= Seq::<Option<NormRect>>::empty());
    assert(seq![None::<NormRect>].drop_last() =~= Seq::<Option<NormRect>>::empty());
    assert(surviving(seq![Some(r)]) =~= seq![r]);
    if b.len() == 0 {
        assert(a + b =~= a);
        assert(surviving(a) + surviving(b) =~= surviving(a));
    } else {
        assert((a + b).drop_last() =~= a + b.drop_last());
        law_surviving_regions_stay_in_order(a, r, b.drop_last());
        assert(surviving(a + b) =~= surviving(a) + surviving(b));
    }
}

/// A set with a name and a region that survived is kept, under its trimmed name; no other is.
pub proof fn law_named_sets_with_regions_are_kept(
    sets: Seq<NamedRegions>,
    cleaned: Seq<Vec<Option<NormRect>>>,
)
    ensures
        forall|i: int|
            0 <= i < sets.len() && trim((#[trigger] sets[i]).name).len() > 0 && surviving(
                cleaned[i]@,
            ).len() > 0 ==> kept_as(sanitized(sets, cleaned), trim(sets[i].name), surviving(cleaned[i]@)),
        forall|k: int|
            0 <= k < sanitized(sets, cleaned).len() ==> (#[trigger] sanitized(
                sets,
                cleaned,
            )[k]).name.len() > 0 && sanitized(sets, cleaned)[k].regions.len() > 0 && trim(
                sanitized(sets, cleaned)[k].name,
            ) == sanitized(sets, cleaned)[k].name,
        sanitized(sets, cleaned).len() <= sets.len(),
    decreases sets.len(),
{
    if sets.len() > 0 {
        let t = sets.drop_last();
        law_named_sets_with_regions_are_kept(t, cleaned);
        crate::text::lemma_trim_is_tight(sets.last().name);
        let before = sanitized(t, cleaned);
        let now = sanitized(sets, cleaned);
        assert forall|i: int|
            0 <= i < sets.len() && trim((#[trigger] sets[i]).name).len() > 0 && surviving(
                cleaned[i]@,
            ).len() > 0 implies kept_as(now, trim(sets[i].name), surviving(cleaned[i]@)) by {
            if i < t.len() {
                assert(t[i] == sets[i]);
                assert(kept_as(before, trim(t[i].name), surviving(cleaned[i]@)));
                let k = choose|k: int|
                    0 <= k < before.len() && (#[trigger] before[k]).name == trim(t[i].name)
                        && before[k].regions == surviving(cleaned[i]@);
                assert(now[k] == before[k]);
            } else {
                let k = now.len() - 1;
                assert(now[k].name == trim(sets[i].name));
            }
        }
    }
}

/// One of the sets has the name and the regions.
pub open spec fn kept_as(
    sets: Seq<NamedRegions>,
    name: Seq<char>,
    regions: Seq<NormRect>,
) -> bool {
    exists|k: int|
        0 <= k < sets.len() && (#[trigger] sets[k]).name == name && sets[k].regions == regions
}

} // verus!

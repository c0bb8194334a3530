//! Named API connection profiles stored next to the executable.

use crate::config::{ApiConfig, ModelProvider};
use crate::text::{lemma_trim_is_tight, trim, trimmed};
use vstd::prelude::*;

verus! {

/// One named copy of [`ApiConfig`].
#[derive(Debug)]
pub struct ApiProfile {
    pub name: String,
    pub api: ApiConfig,
}

impl Clone for ApiProfile {
    fn clone(&self) -> (r: Self)
        ensures
            r == *self,
    {
        ApiProfile { name: self.name.clone(), api: self.api.clone() }
    }
}

/// Root of `api-profiles.toml`.
#[derive(Debug)]
pub struct ApiProfileFile {
    pub profiles: Vec<ApiProfile>,
}

/// Positions, among the first `n` profiles, of those that have a name.
pub open spec fn named_positions(profiles: Seq<ApiProfile>, n: int) -> Seq<int>
    decreases n,
{
    if n <= 0 {
        Seq::empty()
    } else if trim(profiles[n - 1].name@).len() > 0 {
        named_positions(profiles, n - 1).push(n - 1)
    } else {
        named_positions(profiles, n - 1)
    }
}

/// `after` holds `before` with its name trimmed and without the fields its provider does not
/// use.
pub open spec fn cleaned_profile(after: ApiProfile, before: ApiProfile) -> bool {
    after.name@ == trim(before.name@) && after.api.blanked_from(before.api)
}

/// `after` holds the named profiles of `before`, in order, cleaned.
pub open spec fn cleaned_profiles(after: Seq<ApiProfile>, before: Seq<ApiProfile>, n: int) -> bool {
    let kept = named_positions(before, n);
    &&& after.len() == kept.len()
    &&& forall|k: int|
        0 <= k < after.len() ==> cleaned_profile(#[trigger] after[k], before[kept[k]])
}

impl ApiProfileFile {
    /// Trim names, drop profiles whose name is empty after trim, and clear fields the provider
    /// does not use.
    pub fn sanitize_in_place(&mut self)
        ensures
            cleaned_profiles(
                final(self).profiles@,
                old(self).profiles@,
                old(self).profiles@.len() as int,
            ),
    {
        let ghost before = self.profiles@;
        let mut kept: Vec<ApiProfile> = Vec::new();
        let mut i: usize = 0;
        while i < self.profiles.len()
            invariant
                i <= self.profiles@.len(),
                before == self.profiles@,
                cleaned_profiles(kept@, before, i as int),
            decreases self.profiles@.len() - i,
        {
            let name: String = trimmed(self.profiles[i].name.as_str());
            if !name.as_str().is_empty() {
                let mut api: ApiConfig = self.profiles[i].api.clone();
                api.blank_inapplicable();
                kept.push(ApiProfile { name, api });
            }
            i = i + 1;
        }
        self.profiles = kept;
    }
}

/// Cleaned profiles stay as they are: their names are trimmed and not empty, so cleaning them
/// again drops none.
pub proof fn law_sanitize_drops_only_nameless(before: Seq<ApiProfile>, once: Seq<ApiProfile>)
    requires
        cleaned_profiles(once, before, before.len() as int),
    ensures
        named_positions(once, once.len() as int).len() == once.len(),
        forall|k: int|
            0 <= k < once.len() ==> trim((#[trigger] once[k]).name@) == once[k].name@
                && once[k].name@.len() > 0,
{
    assert forall|k: int| 0 <= k < once.len() implies trim((#[trigger] once[k]).name@)
        == once[k].name@ && once[k].name@.len() > 0 by {
        let kept = named_positions(before, before.len() as int);
        lemma_named_positions(before, before.len() as int, k);
        assert(cleaned_profile(once[k], before[kept[k]]));
        lemma_trim_is_tight(before[kept[k]].name@);
    }
    lemma_all_named(once, once.len() as int);
}

proof fn lemma_named_positions(profiles: Seq<ApiProfile>, n: int, k: int)
    requires
        0 <= n <= profiles.len(),
        0 <= k < named_positions(profiles, n).len(),
    ensures
        0 <= named_positions(profiles, n)[k] < n,
        trim(profiles[named_positions(profiles, n)[k]].name@).len() > 0,
    decreases n,
{
    if n > 0 && k < named_positions(profiles, n - 1).len() {
        lemma_named_positions(profiles, n - 1, k);
    }
}

proof fn lemma_all_named(profiles: Seq<ApiProfile>, n: int)
    requires
        0 <= n <= profiles.len(),
        forall|k: int|
            0 <= k < profiles.len() ==> trim((#[trigger] profiles[k]).name@) == profiles[k].name@
                && profiles[k].name@.len() > 0,
    ensures
        named_positions(profiles, n).len() == n,
    decreases n,
{
    if n > 0 {
        lemma_all_named(profiles, n - 1);
        assert(trim(profiles[n - 1].name@) == profiles[n - 1].name@);
    }
}

/// Every profile with a name is kept, under its trimmed name and with its model; an HTTP profile
/// keeps its address and key. The others are dropped.
pub proof fn law_named_profiles_are_kept(
    before: Seq<ApiProfile>,
    after: Seq<ApiProfile>,
    i: int,
)
    requires
        cleaned_profiles(after, before, before.len() as int),
        0 <= i < before.len(),
        trim(before[i].name@).len() > 0,
    ensures
        exists|k: int|
            0 <= k < after.len() && (#[trigger] after[k]).name@ == trim(before[i].name@)
                && after[k].api.model == before[i].api.model && after[k].api.provider
                == before[i].api.provider && (before[i].api.provider
                == ModelProvider::OpenaiCompatible ==> after[k].api.base_url@
                == before[i].api.base_url@ && after[k].api.api_key@ == before[i].api.api_key@) && (
            before[i].api.provider != ModelProvider::OpenaiCompatible ==> after[k].api.cli_path@
                == before[i].api.cli_path@ && after[k].api.api_key@.len() == 0),
        after.len() <= before.len(),
{
    let n = before.len() as int;
    let kept = named_positions(before, n);
    lemma_named_found(before, n, i);
    let k = choose|k: int| 0 <= k < kept.len() && kept[k] == i;
    assert(cleaned_profile(after[k], before[kept[k]]));
}

proof fn lemma_named_found(profiles: Seq<ApiProfile>, n: int, i: int)
    requires
        0 <= i < n <= profiles.len(),
        trim(profiles[i].name@).len() > 0,
    ensures
        exists|k: int|
            0 <= k < named_positions(profiles, n).len() && #[trigger] named_positions(
                profiles,
                n,
            )[k] == i,
        named_positions(profiles, n).len() <= n,
    decreases n,
{
    lemma_named_bound(profiles, n);
    let now = named_positions(profiles, n);
    if i < n - 1 {
        lemma_named_found(profiles, n - 1, i);
        let before = named_positions(profiles, n - 1);
        let k = choose|k: int| 0 <= k < before.len() && #[trigger] before[k] == i;
        assert(now[k] == i);
    } else {
        assert(now[now.len() - 1] == i);
    }
}

proof fn lemma_named_bound(profiles: Seq<ApiProfile>, n: int)
    requires
        0 <= n,
    ensures
        named_positions(profiles, n).len() <= n,
    decreases n,
{
    if n > 0 {
        lemma_named_bound(profiles, n - 1);
    }
}

/// The profiles that are kept stay in their order.
pub proof fn law_profiles_stay_in_order(profiles: Seq<ApiProfile>, n: int)
    requires
        0 <= n <= profiles.len(),
    ensures
        forall|j: int, k: int|
            0 <= j < k < named_positions(profiles, n).len() ==> #[trigger] named_positions(
                profiles,
                n,
            )[j] < #[trigger] named_positions(profiles, n)[k],
        forall|k: int|
            0 <= k < named_positions(profiles, n).len() ==> 0 <= #[trigger] named_positions(
                profiles,
                n,
            )[k] < n,
    decreases n,
{
    if n > 0 {
        law_profiles_stay_in_order(profiles, n - 1);
        let before = named_positions(profiles, n - 1);
        let now = named_positions(profiles, n);
        assert forall|k: int| 0 <= k < now.len() implies 0 <= #[trigger] now[k] < n && (k
            < before.len() ==> now[k] == before[k] && now[k] < n - 1) && (k >= before.len() ==> now[k]
            == n - 1) by {
            if k < before.len() {
                assert(0 <= before[k] < n - 1);
            }
        }
    }
}

} // verus!

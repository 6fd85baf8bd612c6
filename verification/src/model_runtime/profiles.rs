//! The cloud profiles a runtime offers: which configured profiles are usable,
//! their order, which one is selected, and what the runtime's overview shows.
use vstd::prelude::*;

use crate::conversation::{
    display_label, has_usable_api_key, spec_display_label, spec_has_usable_api_key,
};
use crate::logging::{NanoRuntimeStatus, RuntimeOverview, RuntimeProfileSummary};
use crate::memory::recall::{first_index, lemma_first_index, lemma_first_index_none};
use crate::memory::working::kept;
use crate::model_runtime::{
    choose_selected_profile, first_available, profile_ids, spec_choose_selected_profile,
    NanoAvailability, NanoSnapshot,
};
use crate::text::{append_str, chars_lt, chars_of, str_lt, string_of};

verus! {

/// A configured cloud profile, as far as choosing among profiles needs it.
#[derive(Debug, Clone)]
pub struct CloudProfileCandidate {
    pub id: String,
    pub label: Option<String>,
    pub provider: String,
    pub model: String,
    pub enabled: bool,
    pub api_key: String,
}

/// A cloud profile the runtime offers, and why it cannot be used where it
/// cannot.
#[derive(Debug, Clone)]
pub struct CloudProfileEntry {
    pub summary: RuntimeProfileSummary,
    pub unavailable_reason: Option<String>,
}

pub open spec fn opt_chars(o: Option<String>) -> Option<Seq<char>> {
    match o {
        Some(s) => Some(s@),
        None => None,
    }
}

pub open spec fn candidate_label(c: CloudProfileCandidate) -> Seq<char> {
    spec_display_label(opt_chars(c.label), c.id@)
}

/// A gateway is built only for an enabled profile with a usable API key.
pub fn needs_gateway(candidate: &CloudProfileCandidate) -> (r: bool)
    ensures
        r == (candidate.enabled && spec_has_usable_api_key(candidate.api_key@)),
{
    candidate.enabled && has_usable_api_key(candidate.api_key.as_str())
}

/// The profile as offered: available when it has a usable API key and its
/// gateway was built (`gateway_built`, which matters only then); otherwise
/// unavailable, because the key is missing or the gateway failed to build.
pub fn cloud_profile_entry(candidate: &CloudProfileCandidate, gateway_built: bool) -> (r:
    CloudProfileEntry)
    ensures
        r.summary.id == candidate.id,
        r.summary.label@ == candidate_label(*candidate),
        r.summary.provider == candidate.provider,
        r.summary.model == candidate.model,
        r.summary.enabled == candidate.enabled,
        !r.summary.selected,
        r.summary.available == (spec_has_usable_api_key(candidate.api_key@) && gateway_built),
        opt_chars(r.unavailable_reason) == (if !spec_has_usable_api_key(candidate.api_key@) {
            Some(candidate_label(*candidate) + " is missing a valid API key."@)
        } else if gateway_built {
            None
        } else {
            Some("failed to initialize cloud profile "@ + candidate.id@)
        }),
{
    let label = match &candidate.label {
        Some(l) => display_label(Some(l.as_str()), candidate.id.as_str()),
        None => display_label(None, candidate.id.as_str()),
    };
    let usable = has_usable_api_key(candidate.api_key.as_str());
    let reason = if !usable {
        let mut v = chars_of(label.as_str());
        append_str(&mut v, " is missing a valid API key.");
        Some(string_of(&v))
    } else if gateway_built {
        None
    } else {
        let mut v = chars_of("failed to initialize cloud profile ");
        append_str(&mut v, candidate.id.as_str());
        Some(string_of(&v))
    };
    CloudProfileEntry {
        summary: RuntimeProfileSummary {
            id: candidate.id.clone(),
            label,
            provider: candidate.provider.clone(),
            model: candidate.model.clone(),
            enabled: candidate.enabled,
            available: usable && gateway_built,
            selected: false,
        },
        unavailable_reason: reason,
    }
}

fn clone_summary(s: &RuntimeProfileSummary) -> (r: RuntimeProfileSummary)
    ensures
        r == *s,
{
    RuntimeProfileSummary {
        id: s.id.clone(),
        label: s.label.clone(),
        provider: s.provider.clone(),
        model: s.model.clone(),
        enabled: s.enabled,
        available: s.available,
        selected: s.selected,
    }
}

fn clone_entry(e: &CloudProfileEntry) -> (r: CloudProfileEntry)
    ensures
        r == *e,
{
    CloudProfileEntry {
        summary: clone_summary(&e.summary),
        unavailable_reason: match &e.unavailable_reason {
            Some(s) => Some(s.clone()),
            None => None,
        },
    }
}

pub open spec fn profile_enabled(e: CloudProfileEntry) -> bool {
    e.summary.enabled
}

pub open spec fn id_before_flags(sorted: Seq<CloudProfileEntry>, x: CloudProfileEntry) -> Seq<bool> {
    sorted.map_values(|e: CloudProfileEntry| chars_lt(x.summary.id@, e.summary.id@))
}

/// The profiles in order of their ids.
pub open spec fn sorted_profiles(s: Seq<CloudProfileEntry>) -> Seq<CloudProfileEntry>
    decreases s.len(),
{
    if s.len() == 0 {
        s
    } else {
        let r = sorted_profiles(s.drop_last());
        let pos = match first_index(id_before_flags(r, s.last())) {
            Some(j) => j,
            None => r.len() as int,
        };
        r.insert(pos, s.last())
    }
}

pub open spec fn id_pairs(s: Seq<CloudProfileEntry>) -> Seq<(String, bool)> {
    s.map_values(|e: CloudProfileEntry| (e.summary.id, e.summary.available))
}

pub open spec fn id_flags(s: Seq<CloudProfileEntry>, id: Seq<char>) -> Seq<bool> {
    s.map_values(|e: CloudProfileEntry| e.summary.id@ == id)
}

/// The cloud profiles a runtime offers, ordered by id, and the selected one.
#[derive(Debug, Clone)]
pub struct CloudProfileRegistry {
    pub profiles: Vec<CloudProfileEntry>,
    pub selected: Option<String>,
}

/// The position of the profile the runtime uses: the selected one where it
/// is offered, else the first.
pub open spec fn current_index(profiles: Seq<CloudProfileEntry>, selected: Option<Seq<char>>) -> Option<int> {
    let named = match selected {
        Some(id) => first_index(id_flags(profiles, id)),
        None => None,
    };
    if named is Some {
        named
    } else if profiles.len() > 0 {
        Some(0)
    } else {
        None
    }
}

fn find_profile(profiles: &Vec<CloudProfileEntry>, id: &str) -> (r: Option<usize>)
    ensures
        match first_index(id_flags(profiles@, id@)) {
            Some(i) => r == Some(i as usize) && 0 <= i < profiles.len(),
            None => r is None,
        },
{
    let ghost flags = id_flags(profiles@, id@);
    let wanted = id.to_owned();
    let mut i: usize = 0;
    while i < profiles.len()
        invariant
            i <= profiles.len(),
            flags == id_flags(profiles@, id@),
            wanted@ == id@,
            forall|j: int| 0 <= j < i ==> !flags[j],
        decreases profiles.len() - i,
    {
        if profiles[i].summary.id == wanted {
            proof {
                lemma_first_index(flags, i as int);
            }
            return Some(i);
        }
        i = i + 1;
    }
    proof {
        lemma_first_index_none(flags);
    }
    None
}

impl CloudProfileRegistry {
    /// The enabled profiles, ordered by id (their ids are distinct: they are
    /// a map's keys), and the selection: the requested profile where it is
    /// offered, else the first available one, else the first one.
    pub fn new(entries: Vec<CloudProfileEntry>, requested: Option<&str>) -> (r: Self)
        requires
            forall|i: int, j: int|
                0 <= i < j < entries@.len() ==> entries@[i].summary.id@ != entries@[j].summary.id@,
        ensures
            r.profiles@ == sorted_profiles(kept(entries@, |e: CloudProfileEntry| profile_enabled(e))),
            opt_chars(r.selected) == spec_choose_selected_profile(
                match requested {
                    Some(s) => Some(s@),
                    None => None,
                },
                id_pairs(r.profiles@),
            ),
    {
        let ghost p = |e: CloudProfileEntry| profile_enabled(e);
        let mut live: Vec<CloudProfileEntry> = Vec::new();
        let mut i: usize = 0;
        while i < entries.len()
            invariant
                i <= entries.len(),
                p == (|e: CloudProfileEntry| profile_enabled(e)),
                live@ == kept(entries@.take(i as int), p),
            decreases entries.len() - i,
        {
            proof {
                assert(entries@.take(i + 1).drop_last() =~= entries@.take(i as int));
                assert(entries@.take(i + 1).last() == entries@[i as int]);
            }
            if entries[i].summary.enabled {
                live.push(clone_entry(&entries[i]));
            }
            i = i + 1;
        }
        assert(entries@.take(entries.len() as int) =~= entries@);
        let mut out: Vec<CloudProfileEntry> = Vec::new();
        let mut k: usize = 0;
        while k < live.len()
            invariant
                k <= live.len(),
                out@ == sorted_profiles(live@.take(k as int)),
            decreases live.len() - k,
        {
            let x = clone_entry(&live[k]);
            let ghost flags = id_before_flags(out@, x);
            let mut j: usize = 0;
            while j < out.len()
                invariant
                    j <= out.len(),
                    flags == id_before_flags(out@, x),
                    forall|m: int| 0 <= m < j ==> !flags[m],
                ensures
                    j < out.len() ==> flags[j as int],
                decreases out.len() - j,
            {
                if str_lt(x.summary.id.as_str(), out[j].summary.id.as_str()) {
                    break;
                }
                j = j + 1;
            }
            proof {
                if j < out.len() {
                    lemma_first_index(flags, j as int);
                } else {
                    lemma_first_index_none(flags);
                }
                assert(live@.take(k + 1).drop_last() =~= live@.take(k as int));
                assert(live@.take(k + 1).last() == x);
            }
            out.insert(j, x);
            k = k + 1;
        }
        assert(live@.take(live.len() as int) =~= live@);
        let mut pairs: Vec<(String, bool)> = Vec::new();
        let mut m: usize = 0;
        while m < out.len()
            invariant
                m <= out.len(),
                pairs@ == id_pairs(out@).take(m as int),
            decreases out.len() - m,
        {
            pairs.push((out[m].summary.id.clone(), out[m].summary.available));
            m = m + 1;
            assert(pairs@ =~= id_pairs(out@).take(m as int));
        }
        assert(id_pairs(out@).take(out.len() as int) =~= id_pairs(out@));
        let selected = choose_selected_profile(requested, pairs);
        CloudProfileRegistry { profiles: out, selected }
    }

    /// The profile the runtime uses: the selected one where it is offered,
    /// else the first.
    pub fn current(&self) -> (r: Option<&CloudProfileEntry>)
        ensures
            match current_index(self.profiles@, opt_chars(self.selected)) {
                Some(i) => r == Some(&self.profiles@[i]),
                None => r is None,
            },
    {
        let named = match &self.selected {
            Some(id) => find_profile(&self.profiles, id.as_str()),
            None => None,
        };
        match named {
            Some(i) => Some(&self.profiles[i]),
            None => if self.profiles.len() > 0 {
                Some(&self.profiles[0])
            } else {
                None
            },
        }
    }

    /// The profiles' summaries, each marked selected when it is the selected one.
    pub fn overview_profiles(&self) -> (r: Vec<RuntimeProfileSummary>)
        ensures
            r@.len() == self.profiles@.len(),
            forall|i: int|
                0 <= i < r@.len() ==> #[trigger] r@[i] == (RuntimeProfileSummary {
                    selected: opt_chars(self.selected) == Some(self.profiles@[i].summary.id@),
                    ..self.profiles@[i].summary
                }),
    {
        let mut r: Vec<RuntimeProfileSummary> = Vec::new();
        let mut i: usize = 0;
        while i < self.profiles.len()
            invariant
                i <= self.profiles.len(),
                r@.len() == i,
                forall|j: int|
                    0 <= j < i ==> #[trigger] r@[j] == (RuntimeProfileSummary {
                        selected: opt_chars(self.selected) == Some(self.profiles@[j].summary.id@),
                        ..self.profiles@[j].summary
                    }),
            decreases self.profiles.len() - i,
        {
            let mut s = clone_summary(&self.profiles[i].summary);
            s.selected = match &self.selected {
                Some(id) => *id == s.id,
                None => false,
            };
            r.push(s);
            i = i + 1;
        }
        r
    }

    /// The selected profile's label, where the selected profile is offered.
    pub fn selected_label(&self) -> (r: Option<String>)
        ensures
            r == (match self.selected {
                Some(id) => match first_index(id_flags(self.profiles@, id@)) {
                    Some(i) => Some(self.profiles@[i].summary.label),
                    None => None,
                },
                None => None,
            }),
    {
        match &self.selected {
            Some(id) => match find_profile(&self.profiles, id.as_str()) {
                Some(i) => Some(self.profiles[i].summary.label.clone()),
                None => None,
            },
            None => None,
        }
    }

    /// Whether some profile is available.
    pub fn has_available(&self) -> (r: bool)
        ensures
            r == (exists|i: int| 0 <= i < self.profiles@.len() && #[trigger] self.profiles@[i].summary.available),
    {
        let mut i: usize = 0;
        while i < self.profiles.len()
            invariant
                i <= self.profiles.len(),
                forall|j: int| 0 <= j < i ==> !(#[trigger] self.profiles@[j]).summary.available,
            decreases self.profiles.len() - i,
        {
            if self.profiles[i].summary.available {
                return true;
            }
            i = i + 1;
        }
        false
    }

    /// Selects the profile `id` where it is offered; otherwise refuses and
    /// keeps the selection.
    pub fn select(&mut self, id: &str) -> (r: Result<(), String>)
        ensures
            final(self).profiles == old(self).profiles,
            match first_index(id_flags(old(self).profiles@, id@)) {
                Some(_) => r is Ok && opt_chars(final(self).selected) == Some(id@),
                None => r matches Err(e) && e@ == "cloud profile "@ + id@ + " is unavailable"@
                    && final(self).selected == old(self).selected,
            },
    {
        match find_profile(&self.profiles, id) {
            Some(_) => {
                self.selected = Some(id.to_owned());
                Ok(())
            },
            None => {
                let mut v = chars_of("cloud profile ");
                append_str(&mut v, id);
                append_str(&mut v, " is unavailable");
                Err(string_of(&v))
            },
        }
    }

    /// The id of the first profile.
    pub fn default_selected_id(&self) -> (r: Option<String>)
        ensures
            r == (if self.profiles@.len() > 0 {
                Some(self.profiles@[0].summary.id)
            } else {
                None
            }),
    {
        if self.profiles.len() > 0 {
            Some(self.profiles[0].summary.id.clone())
        } else {
            None
        }
    }

    /// The profile a cloud request goes to (its id), or why none can take it:
    /// no profile at all, or the current one is unavailable (its reason, else
    /// a notice naming it).
    pub fn cloud_target(&self) -> (r: Result<String, String>)
        ensures
            match current_index(self.profiles@, opt_chars(self.selected)) {
                None => r matches Err(e) && e@ == "no cloud profile is available"@,
                Some(i) => if self.profiles@[i].summary.available {
                    r == Ok::<String, String>(self.profiles@[i].summary.id)
                } else {
                    match self.profiles@[i].unavailable_reason {
                        Some(reason) => r == Err::<String, String>(reason),
                        None => r matches Err(e) && e@ == "cloud profile "@
                            + self.profiles@[i].summary.label@ + " is unavailable"@,
                    }
                },
            },
    {
        match self.current() {
            None => Err("no cloud profile is available".to_owned()),
            Some(p) => if p.summary.available {
                Ok(p.summary.id.clone())
            } else {
                match &p.unavailable_reason {
                    Some(reason) => Err(reason.clone()),
                    None => {
                        let mut v = chars_of("cloud profile ");
                        append_str(&mut v, p.summary.label.as_str());
                        append_str(&mut v, " is unavailable");
                        Err(string_of(&v))
                    },
                }
            },
        }
    }
}

/// The runtime's overview: the local model's status from its snapshot (active
/// when available), the selected cloud profile's id and label, and the
/// profiles with the selected one marked.
pub fn runtime_overview(nano_enabled: bool, snapshot: &NanoSnapshot, registry: &CloudProfileRegistry) -> (r:
    RuntimeOverview)
    ensures
        r.nano.enabled == nano_enabled,
        r.nano.availability@ == snapshot.availability.spec_name(),
        r.nano.detail == snapshot.detail,
        r.nano.provider == snapshot.provider,
        r.nano.model == snapshot.model,
        r.nano.active == (snapshot.availability == NanoAvailability::Available),
        r.selected_cloud_profile_id == registry.selected,
        r.selected_cloud_profile_label == (match registry.selected {
            Some(id) => match first_index(id_flags(registry.profiles@, id@)) {
                Some(i) => Some(registry.profiles@[i].summary.label),
                None => None,
            },
            None => None,
        }),
        r.cloud_profiles@.len() == registry.profiles@.len(),
        forall|i: int|
            0 <= i < r.cloud_profiles@.len() ==> #[trigger] r.cloud_profiles@[i] == (RuntimeProfileSummary {
                selected: opt_chars(registry.selected) == Some(registry.profiles@[i].summary.id@),
                ..registry.profiles@[i].summary
            }),
{
    RuntimeOverview {
        nano: NanoRuntimeStatus {
            enabled: nano_enabled,
            availability: snapshot.availability.as_str().to_owned(),
            detail: snapshot.detail.clone(),
            provider: snapshot.provider.clone(),
            model: snapshot.model.clone(),
            active: snapshot.availability == NanoAvailability::Available,
        },
        selected_cloud_profile_id: match &registry.selected {
            Some(s) => Some(s.clone()),
            None => None,
        },
        selected_cloud_profile_label: registry.selected_label(),
        cloud_profiles: registry.overview_profiles(),
    }
}

/// A runtime accepts turns when its local model is available or some cloud
/// profile is.
pub fn can_accept_turns(nano: NanoAvailability, registry: &CloudProfileRegistry) -> (r: bool)
    ensures
        r == (nano == NanoAvailability::Available || (exists|i: int|
            0 <= i < registry.profiles@.len() && #[trigger] registry.profiles@[i].summary.available)),
{
    nano == NanoAvailability::Available || registry.has_available()
}

proof fn lemma_first_available_is_offered(pairs: Seq<(String, bool)>)
    ensures
        first_available(pairs) matches Some(id) ==> exists|i: int|
            0 <= i < pairs.len() && #[trigger] pairs[i].0@ == id && pairs[i].1,
    decreases pairs.len(),
{
    if pairs.len() > 0 && !pairs[0].1 {
        lemma_first_available_is_offered(pairs.drop_first());
        if first_available(pairs) is Some {
            let id = first_available(pairs).unwrap();
            let i = choose|i: int| 0 <= i < pairs.drop_first().len() && #[trigger] pairs.drop_first()[i].0@ == id && pairs.drop_first()[i].1;
            assert(pairs[i + 1].0@ == id);
        }
    }
}

/// The runtime selects a profile exactly when it offers one, and the
/// profile it selects is one it offers.
pub proof fn lemma_selection_is_offered(requested: Option<Seq<char>>, profiles: Seq<CloudProfileEntry>)
    ensures
        spec_choose_selected_profile(requested, id_pairs(profiles)) is Some <==> profiles.len() > 0,
        spec_choose_selected_profile(requested, id_pairs(profiles)) matches Some(id) ==> exists|i: int|
            0 <= i < profiles.len() && #[trigger] profiles[i].summary.id@ == id,
{
    let pairs = id_pairs(profiles);
    lemma_first_available_is_offered(pairs);
    match requested {
        Some(r) => {
            if profile_ids(pairs).contains(r) {
                let i = choose|i: int| 0 <= i < profile_ids(pairs).len() && profile_ids(pairs)[i] == r;
                assert(profiles[i].summary.id@ == r);
            }
        },
        None => {},
    }
    if let Some(id) = first_available(pairs) {
        let i = choose|i: int| 0 <= i < pairs.len() && #[trigger] pairs[i].0@ == id && pairs[i].1;
        assert(profiles[i].summary.id@ == id);
    }
    if profiles.len() > 0 {
        assert(pairs[0].0@ == profiles[0].summary.id@);
    }
}

} // verus!

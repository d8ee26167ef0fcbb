//! Configuration: stored credentials, account profiles and their files, and the
//! cache of what was read.
use crate::auth;
use crate::auth::{copy_token, StoredToken};
use crate::json;
use crate::json::JsonV;
use crate::text;
use vstd::prelude::*;

verus! {

/// The profile of a single-account installation: its file is `config.toml`.
/// Every other profile has a file of its own beside it.
pub const DEFAULT_PROFILE: &'static str = "default";

/// Application configuration.
#[derive(Debug, Clone)]
pub struct Config {
    /// Stored AAD access token (audience: api.spaces.skype.com).
    pub access_token: Option<StoredToken>,
    /// Stored AAD refresh token.
    pub refresh_token: Option<String>,
    /// The user's tenant ID (from the last login).
    pub tenant_id: Option<String>,
    /// Stored Skype token (from the authsvc exchange).
    pub skype_token: Option<StoredToken>,
    /// Stored Graph API access token (audience: graph.microsoft.com).
    pub graph_token: Option<StoredToken>,
    /// Stored IC3 token (audience: ic3.teams.office.com).
    pub ic3_token: Option<StoredToken>,
    /// Stored recorder service token.
    pub recorder_token: Option<StoredToken>,
    /// Regional endpoint URLs from the authsvc response, as JSON text.
    pub region_gtms: Option<String>,
}

/// The configuration of a profile without a file.
pub open spec fn no_config() -> Config {
    Config {
        access_token: None,
        refresh_token: None,
        tenant_id: None,
        skype_token: None,
        graph_token: None,
        ic3_token: None,
        recorder_token: None,
        region_gtms: None,
    }
}

/// True of a token slot that holds `token`, issued at `now`.
pub open spec fn holds(
    slot: Option<StoredToken>,
    token: Seq<char>,
    expires_in: Option<u64>,
    now: u64,
) -> bool {
    slot matches Some(t) && t.token@ == token && t.expires_at == auth::expiry(now, expires_in)
}

/// The configuration without its credentials. The tenant stays.
pub open spec fn cleared(c: Config) -> Config {
    Config { tenant_id: c.tenant_id, ..no_config() }
}

// -- Profiles and their files --

/// The profile that an id stands for: the id without the white space around it,
/// or the default profile for a blank one.
pub open spec fn normalized(profile: Seq<char>) -> Seq<char> {
    if text::trimmed(profile).len() == 0 {
        "default"@
    } else {
        text::trimmed(profile)
    }
}

/// True of the default profile in any case.
pub open spec fn is_default(name: Seq<char>) -> bool {
    text::lowered(name) == "default"@
}

/// True of a character that may stand in a file name.
pub open spec fn is_file_char(c: char) -> bool {
    ('a' <= c <= 'z') || ('A' <= c <= 'Z') || ('0' <= c <= '9') || c == '.' || c == '_' || c == '-'
}

/// The character that stands for `c` in a file name.
pub open spec fn file_char(c: char) -> char {
    if is_file_char(c) {
        c
    } else {
        '_'
    }
}

/// A profile id as a part of a file name: at most 64 characters, never empty.
pub open spec fn sanitized(name: Seq<char>) -> Seq<char> {
    if name.len() == 0 {
        "_"@
    } else {
        Seq::new(
            if name.len() < 64 {
                name.len()
            } else {
                64
            },
            |i: int| file_char(name[i]),
        )
    }
}

/// The file of a profile, in the configuration directory.
pub open spec fn profile_file(profile: Seq<char>) -> Seq<char> {
    if is_default(normalized(profile)) {
        "config.toml"@
    } else {
        "config-"@ + sanitized(normalized(profile)) + ".toml"@
    }
}

/// Normalizing a profile twice changes nothing more.
pub proof fn law_normalize_twice(profile: Seq<char>)
    ensures
        normalized(normalized(profile)) == normalized(profile),
{
    text::lemma_trimmed_ends(profile);
    reveal_strlit("default");
    assert(text::trimmed("default"@) == "default"@) by {
        reveal_with_fuel(text::trim_start_of, 2);
        reveal_with_fuel(text::trim_end_of, 2);
    }
}

/// The file of a profile is one flat name: no separator survives.
pub proof fn law_file_is_flat(profile: Seq<char>)
    ensures
        forall|i: int|
            0 <= i < profile_file(profile).len() ==> is_file_char(
                #[trigger] profile_file(profile)[i],
            ),
        profile_file(profile).len() <= 76,
{
    reveal_strlit("config.toml");
    reveal_strlit("config-");
    reveal_strlit(".toml");
    reveal_strlit("_");
}

/// Different accounts have different files, none of them the default file, as
/// long as their ids are file names themselves and no longer than the limit.
pub proof fn law_accounts_have_own_files(a: Seq<char>, b: Seq<char>)
    requires
        0 < normalized(a).len() <= 64,
        0 < normalized(b).len() <= 64,
        forall|i: int| 0 <= i < normalized(a).len() ==> is_file_char(#[trigger] normalized(a)[i]),
        forall|i: int| 0 <= i < normalized(b).len() ==> is_file_char(#[trigger] normalized(b)[i]),
        !is_default(normalized(a)),
        !is_default(normalized(b)),
    ensures
        profile_file(a) == profile_file(b) <==> normalized(a) == normalized(b),
        profile_file(a) != "config.toml"@,
{
    reveal_strlit("config.toml");
    reveal_strlit("config-");
    reveal_strlit(".toml");
    let x = sanitized(normalized(a));
    let y = sanitized(normalized(b));
    assert(x =~= normalized(a));
    assert(y =~= normalized(b));
    assert(profile_file(a)[6] == '-');
    if profile_file(a) == profile_file(b) {
        assert(x =~= profile_file(a).subrange(7, 7 + x.len() as int));
        assert(y =~= profile_file(b).subrange(7, 7 + y.len() as int));
        assert(profile_file(a).len() == 12 + x.len());
        assert(profile_file(b).len() == 12 + y.len());
    }
}

/// The trimmed id, or the default profile when it is blank.
pub fn normalize_profile(profile: &str) -> (r: String)
    ensures
        r@ == normalized(profile@),
{
    let t = text::trim(profile);
    if t.as_str().is_empty() {
        DEFAULT_PROFILE.to_string()
    } else {
        t
    }
}

/// The id as a part of a file name: letters, digits and `._-` are kept, the rest
/// becomes `_`, and 64 characters are the limit.
pub fn sanitize_profile(profile: &str) -> (r: String)
    ensures
        r@ == sanitized(profile@),
{
    let v = text::chars_of(profile);
    if v.len() == 0 {
        return "_".to_string();
    }
    let n: usize = if v.len() < 64 {
        v.len()
    } else {
        64
    };
    let mut s = String::new();
    let mut i: usize = 0;
    proof {
        assert(s@ =~= sanitized(profile@).take(0));
    }
    while i < n
        invariant
            i <= n,
            n <= v@.len(),
            v@ == profile@,
            v@.len() > 0,
            n == sanitized(profile@).len(),
            s@ == sanitized(profile@).take(i as int),
        decreases n - i,
    {
        let c = v[i];
        let kept = (c >= 'a' && c <= 'z') || (c >= 'A' && c <= 'Z') || (c >= '0' && c <= '9') || c
            == '.' || c == '_' || c == '-';
        if kept {
            s.push(c);
        } else {
            s.push('_');
        }
        proof {
            assert(s@ =~= sanitized(profile@).take(i + 1));
        }
        i = i + 1;
    }
    proof {
        assert(sanitized(profile@).take(n as int) =~= sanitized(profile@));
    }
    s
}

impl Config {
    /// The file of a profile, in the configuration directory. A blank id and
    /// `default` in any case are `config.toml`; every other id has the file
    /// `config-<id>.toml`.
    pub fn config_path_for(profile: &str) -> (r: String)
        ensures
            r@ == profile_file(profile@),
    {
        let name = normalize_profile(profile);
        let low = text::lower(name.as_str());
        if text::same(low.as_str(), "default") {
            "config.toml".to_string()
        } else {
            let safe = sanitize_profile(name.as_str());
            text::join3("config-", safe.as_str(), ".toml")
        }
    }

    /// A copy of the configuration.
    pub fn copy(&self) -> (r: Config)
        ensures
            r == *self,
    {
        Config {
            access_token: copy_token(&self.access_token),
            refresh_token: text::copy_opt(&self.refresh_token),
            tenant_id: text::copy_opt(&self.tenant_id),
            skype_token: copy_token(&self.skype_token),
            graph_token: copy_token(&self.graph_token),
            ic3_token: copy_token(&self.ic3_token),
            recorder_token: copy_token(&self.recorder_token),
            region_gtms: text::copy_opt(&self.region_gtms),
        }
    }

    /// The stored access token.
    pub fn get_access_token(&self) -> (r: Option<StoredToken>)
        ensures
            r == self.access_token,
    {
        copy_token(&self.access_token)
    }

    /// Stores an access token that was issued at `now`.
    pub fn set_access_token(&mut self, token: String, expires_in: Option<u64>, now: u64)
        ensures
            *final(self) == (Config { access_token: final(self).access_token, ..*old(self) }),
            holds(final(self).access_token, token@, expires_in, now),
    {
        self.access_token = Some(StoredToken::new(token, expires_in, now));
    }

    /// The stored Skype token.
    pub fn get_skype_token(&self) -> (r: Option<StoredToken>)
        ensures
            r == self.skype_token,
    {
        copy_token(&self.skype_token)
    }

    /// Stores a Skype token that was issued at `now`.
    pub fn set_skype_token(&mut self, token: String, expires_in: Option<u64>, now: u64)
        ensures
            *final(self) == (Config { skype_token: final(self).skype_token, ..*old(self) }),
            holds(final(self).skype_token, token@, expires_in, now),
    {
        self.skype_token = Some(StoredToken::new(token, expires_in, now));
    }

    /// The stored Graph token.
    pub fn get_graph_token(&self) -> (r: Option<StoredToken>)
        ensures
            r == self.graph_token,
    {
        copy_token(&self.graph_token)
    }

    /// Stores a Graph token that was issued at `now`.
    pub fn set_graph_token(&mut self, token: String, expires_in: Option<u64>, now: u64)
        ensures
            *final(self) == (Config { graph_token: final(self).graph_token, ..*old(self) }),
            holds(final(self).graph_token, token@, expires_in, now),
    {
        self.graph_token = Some(StoredToken::new(token, expires_in, now));
    }

    /// The stored IC3 token.
    pub fn get_ic3_token(&self) -> (r: Option<StoredToken>)
        ensures
            r == self.ic3_token,
    {
        copy_token(&self.ic3_token)
    }

    /// Stores an IC3 token that was issued at `now`.
    pub fn set_ic3_token(&mut self, token: String, expires_in: Option<u64>, now: u64)
        ensures
            *final(self) == (Config { ic3_token: final(self).ic3_token, ..*old(self) }),
            holds(final(self).ic3_token, token@, expires_in, now),
    {
        self.ic3_token = Some(StoredToken::new(token, expires_in, now));
    }

    /// The stored recorder token.
    pub fn get_recorder_token(&self) -> (r: Option<StoredToken>)
        ensures
            r == self.recorder_token,
    {
        copy_token(&self.recorder_token)
    }

    /// Stores a recorder token that was issued at `now`.
    pub fn set_recorder_token(&mut self, token: String, expires_in: Option<u64>, now: u64)
        ensures
            *final(self) == (Config { recorder_token: final(self).recorder_token, ..*old(self) }),
            holds(final(self).recorder_token, token@, expires_in, now),
    {
        self.recorder_token = Some(StoredToken::new(token, expires_in, now));
    }

    /// The stored refresh token.
    pub fn get_refresh_token(&self) -> (r: Option<String>)
        ensures
            r == self.refresh_token,
    {
        text::copy_opt(&self.refresh_token)
    }

    /// Stores a refresh token.
    pub fn set_refresh_token(&mut self, token: String)
        ensures
            *final(self) == (Config { refresh_token: Some(token), ..*old(self) }),
    {
        self.refresh_token = Some(token);
    }

    /// Forgets all credentials and endpoints, but not the tenant.
    pub fn clear_tokens(&mut self)
        ensures
            *final(self) == cleared(*old(self)),
    {
        self.access_token = None;
        self.refresh_token = None;
        self.skype_token = None;
        self.graph_token = None;
        self.ic3_token = None;
        self.recorder_token = None;
        self.region_gtms = None;
    }

    /// Stores the regional endpoints as text. Read back, the text gives the same
    /// value, unless it nests too deeply or holds fractions.
    pub fn set_region_gtms(&mut self, gtms: serde_json::Value)
        ensures
            *final(self) == (Config { region_gtms: final(self).region_gtms, ..*old(self) }),
            text::opt_text(final(self).region_gtms) == Some(
                json::written_json(json::held_json(gtms)),
            ),
            json::rereadable(json::held_json(gtms), 127) ==> region_value(*final(self)) == Some(
                json::held_json(gtms),
            ),
    {
        self.region_gtms = Some(json::value_to_text(&gtms));
    }

    /// The regional endpoints, where there are any that can be read.
    pub fn get_region_gtms(&self) -> (r: Option<serde_json::Value>)
        ensures
            json::opt_held(r) == region_value(*self),
    {
        match &self.region_gtms {
            Some(s) => json::value_from_text(s.as_str()),
            None => None,
        }
    }
}

/// The value of the stored regional endpoints.
pub open spec fn region_value(c: Config) -> Option<JsonV> {
    match c.region_gtms {
        Some(s) => json::json_text(s@),
        None => None,
    }
}

impl Default for Config {
    fn default() -> (r: Config)
        ensures
            r == no_config(),
    {
        Config {
            access_token: None,
            refresh_token: None,
            tenant_id: None,
            skype_token: None,
            graph_token: None,
            ic3_token: None,
            recorder_token: None,
            region_gtms: None,
        }
    }
}

// -- The cache --

/// What tells one version of a configuration file from another: its size and
/// the time of its last change.
#[derive(Debug, Clone, Copy, PartialEq, Eq, Structural)]
pub struct Fingerprint {
    pub size: u64,
    pub seconds: i64,
    pub nanos: u32,
}

/// One profile's cached configuration; without a fingerprint, the one for a
/// missing file.
pub struct CacheSlot {
    pub profile: String,
    pub fingerprint: Option<Fingerprint>,
    pub config: Config,
}

/// What is cached for a profile.
pub type CachedV = (Option<Fingerprint>, Config);

/// The active profile, and the configurations that were read last, one slot for
/// each profile.
pub struct ConfigState {
    active: String,
    slots: Vec<CacheSlot>,
}

/// True when the slot at `i` is the one of `profile`.
spec fn slot_of(slots: Seq<CacheSlot>, profile: Seq<char>, i: int) -> bool {
    0 <= i < slots.len() && slots[i].profile@ == profile
}

impl ConfigState {
    /// No profile has two slots, and the active profile is normalized.
    pub closed spec fn wf(&self) -> bool {
        &&& normalized(self.active@) == self.active@
        &&& forall|i: int, j: int|
            0 <= i < j < self.slots@.len() ==> (#[trigger] self.slots@[i]).profile@ != (
            #[trigger] self.slots@[j]).profile@
    }

    /// The active profile.
    pub closed spec fn active(&self) -> Seq<char> {
        self.active@
    }

    /// The cached configurations by profile.
    pub closed spec fn cache(&self) -> Map<Seq<char>, CachedV> {
        Map::new(
            |p: Seq<char>| exists|i: int| slot_of(self.slots@, p, i),
            |p: Seq<char>|
                {
                    let i = choose|i: int| slot_of(self.slots@, p, i);
                    (self.slots@[i].fingerprint, self.slots@[i].config)
                },
        )
    }

    /// The state at the start of a process.
    pub fn new() -> (r: ConfigState)
        ensures
            r.wf(),
            r.active() == "default"@,
            r.cache() == Map::<Seq<char>, CachedV>::empty(),
    {
        let r = ConfigState { active: DEFAULT_PROFILE.to_string(), slots: Vec::new() };
        proof {
            law_normalize_twice(Seq::empty());
            assert(text::trimmed(Seq::empty()).len() == 0);
            assert(r.cache() =~= Map::<Seq<char>, CachedV>::empty());
        }
        r
    }

    fn find_slot(&self, profile: &str) -> (r: Option<usize>)
        ensures
            match r {
                Some(i) => slot_of(self.slots@, profile@, i as int),
                None => forall|i: int| !slot_of(self.slots@, profile@, i),
            },
    {
        let mut i: usize = 0;
        while i < self.slots.len()
            invariant
                i <= self.slots@.len(),
                forall|j: int| 0 <= j < i ==> !slot_of(self.slots@, profile@, j),
            decreases self.slots@.len() - i,
        {
            if text::same(self.slots[i].profile.as_str(), profile) {
                return Some(i);
            }
            i = i + 1;
        }
        None
    }

    proof fn lemma_slot(&self, profile: Seq<char>, i: int)
        requires
            self.wf(),
            slot_of(self.slots@, profile, i),
        ensures
            self.cache().contains_key(profile),
            self.cache()[profile] == (self.slots@[i].fingerprint, self.slots@[i].config),
    {
        let k = choose|k: int| slot_of(self.slots@, profile, k);
        assert(slot_of(self.slots@, profile, k));
        if k < i {
            assert(self.slots@[k].profile@ != self.slots@[i].profile@);
        } else if i < k {
            assert(self.slots@[i].profile@ != self.slots@[k].profile@);
        }
    }
}

/// What the cache answers for a profile whose file has this fingerprint.
pub open spec fn cached(
    cache: Map<Seq<char>, CachedV>,
    profile: Seq<char>,
    fingerprint: Option<Fingerprint>,
) -> Option<Config> {
    let p = normalized(profile);
    if cache.contains_key(p) && cache[p].0 == fingerprint {
        Some(cache[p].1)
    } else {
        None
    }
}

/// The cache after a configuration was read or written.
pub open spec fn with_config(
    cache: Map<Seq<char>, CachedV>,
    profile: Seq<char>,
    fingerprint: Option<Fingerprint>,
    config: Config,
) -> Map<Seq<char>, CachedV> {
    cache.insert(normalized(profile), (fingerprint, config))
}

/// The cache is coherent: what was read or written last for a profile is what
/// is found while the file stays as it was, a changed file is read anew, and no
/// profile sees another's.
pub proof fn law_cache_coherent(
    cache: Map<Seq<char>, CachedV>,
    profile: Seq<char>,
    other: Seq<char>,
    fingerprint: Option<Fingerprint>,
    changed: Option<Fingerprint>,
    config: Config,
)
    requires
        changed != fingerprint,
    ensures
        cached(with_config(cache, profile, fingerprint, config), profile, fingerprint) == Some(
            config,
        ),
        cached(with_config(cache, profile, fingerprint, config), profile, changed) is None,
        normalized(other) != normalized(profile) ==> cached(
            with_config(cache, profile, fingerprint, config),
            other,
            fingerprint,
        ) == cached(cache, other, fingerprint),
        cached(cache.remove(normalized(profile)), profile, fingerprint) is None,
{
}

/// The active profile.
pub fn active_profile(state: &ConfigState) -> (r: String)
    ensures
        r@ == state.active(),
{
    state.active.clone()
}

/// Switches the active profile; a blank id is the default one.
pub fn set_active_profile(state: &mut ConfigState, profile: &str)
    requires
        old(state).wf(),
    ensures
        final(state).wf(),
        final(state).active() == normalized(profile@),
        final(state).cache() == old(state).cache(),
{
    let name = normalize_profile(profile);
    proof {
        law_normalize_twice(profile@);
    }
    state.active = name;
}

fn same_fingerprint(a: Option<Fingerprint>, b: Option<Fingerprint>) -> (r: bool)
    ensures
        r == (a == b),
{
    match (a, b) {
        (Some(x), Some(y)) => x == y,
        (None, None) => true,
        _ => false,
    }
}

impl Config {
    /// The cached configuration of the active profile, if its file is unchanged.
    pub fn load_cached(state: &ConfigState, fingerprint: Option<Fingerprint>) -> (r: Option<Config>)
        requires
            state.wf(),
        ensures
            r == cached(state.cache(), state.active(), fingerprint),
    {
        Config::load_cached_for(state, state.active.as_str(), fingerprint)
    }

    /// The cached configuration of a profile, if its file is unchanged. Where
    /// there is none, the file is to be read.
    pub fn load_cached_for(
        state: &ConfigState,
        profile: &str,
        fingerprint: Option<Fingerprint>,
    ) -> (r: Option<Config>)
        requires
            state.wf(),
        ensures
            r == cached(state.cache(), profile@, fingerprint),
    {
        let name = normalize_profile(profile);
        match state.find_slot(name.as_str()) {
            Some(i) => {
                proof {
                    state.lemma_slot(name@, i as int);
                }
                if same_fingerprint(state.slots[i].fingerprint, fingerprint) {
                    Some(state.slots[i].config.copy())
                } else {
                    None
                }
            },
            None => None,
        }
    }

    /// Records the configuration that was read for a profile or written to it.
    pub fn save_to(&self, state: &mut ConfigState, profile: &str, fingerprint: Option<Fingerprint>)
        requires
            old(state).wf(),
        ensures
            final(state).wf(),
            final(state).active() == old(state).active(),
            final(state).cache() == with_config(old(state).cache(), profile@, fingerprint, *self),
    {
        let name = normalize_profile(profile);
        let ghost p = name@;
        let ghost before = *state;
        let slot = CacheSlot { profile: name.clone(), fingerprint, config: self.copy() };
        match state.find_slot(name.as_str()) {
            Some(i) => {
                state.slots.set(i, slot);
                proof {
                    assert(slot_of(state.slots@, p, i as int));
                    assert(state.wf());
                    lemma_caches_agree(before, *state, p, i as int);
                }
            },
            None => {
                state.slots.push(slot);
                proof {
                    let n = before.slots@.len() as int;
                    assert forall|i: int| 0 <= i < n implies (#[trigger] state.slots@[i]).profile@
                        != p by {
                        assert(!slot_of(before.slots@, p, i));
                        assert(state.slots@[i] == before.slots@[i]);
                    }
                    assert(slot_of(state.slots@, p, n));
                    assert(state.wf());
                    lemma_caches_agree(before, *state, p, n);
                }
            },
        }
    }

    /// Records the configuration that was read for the active profile or written
    /// to it.
    pub fn save(&self, state: &mut ConfigState, fingerprint: Option<Fingerprint>)
        requires
            old(state).wf(),
        ensures
            final(state).wf(),
            final(state).active() == old(state).active(),
            final(state).cache() == with_config(
                old(state).cache(),
                old(state).active(),
                fingerprint,
                *self,
            ),
    {
        let name = active_profile(state);
        self.save_to(state, name.as_str(), fingerprint)
    }

    /// Empties the cache.
    pub fn invalidate_cache(state: &mut ConfigState)
        requires
            old(state).wf(),
        ensures
            final(state).wf(),
            final(state).active() == old(state).active(),
            final(state).cache() == Map::<Seq<char>, CachedV>::empty(),
    {
        state.slots = Vec::new();
        proof {
            assert(state.cache() =~= Map::<Seq<char>, CachedV>::empty());
        }
    }

    /// Drops one profile's slot.
    pub fn invalidate_cache_for(state: &mut ConfigState, profile: &str)
        requires
            old(state).wf(),
        ensures
            final(state).wf(),
            final(state).active() == old(state).active(),
            final(state).cache() == old(state).cache().remove(normalized(profile@)),
    {
        let name = normalize_profile(profile);
        let ghost p = name@;
        let ghost before = *state;
        match state.find_slot(name.as_str()) {
            Some(i) => {
                let _ = state.slots.remove(i);
                proof {
                    lemma_slot_removed(before, *state, p, i as int);
                }
            },
            None => {
                proof {
                    assert(state.cache() =~= before.cache().remove(p));
                }
            },
        }
    }
}

proof fn lemma_caches_agree(before: ConfigState, after: ConfigState, p: Seq<char>, i: int)
    requires
        before.wf(),
        after.wf(),
        slot_of(after.slots@, p, i),
        forall|q: Seq<char>, j: int|
            q != p && slot_of(before.slots@, q, j) ==> #[trigger] slot_of(after.slots@, q, j)
                && after.slots@[j] == before.slots@[j],
        forall|q: Seq<char>, j: int|
            q != p && #[trigger] slot_of(after.slots@, q, j) ==> slot_of(before.slots@, q, j),
    ensures
        after.cache() == before.cache().insert(
            p,
            (after.slots@[i].fingerprint, after.slots@[i].config),
        ),
{
    let want = before.cache().insert(p, (after.slots@[i].fingerprint, after.slots@[i].config));
    assert forall|q: Seq<char>| #[trigger] after.cache().contains_key(q) == want.contains_key(q)
        && (after.cache().contains_key(q) ==> after.cache()[q] == want[q]) by {
        if q == p {
            after.lemma_slot(p, i);
        } else {
            if after.cache().contains_key(q) {
                let j = choose|j: int| slot_of(after.slots@, q, j);
                assert(slot_of(after.slots@, q, j));
                after.lemma_slot(q, j);
                before.lemma_slot(q, j);
            }
            if before.cache().contains_key(q) {
                let j = choose|j: int| slot_of(before.slots@, q, j);
                assert(slot_of(before.slots@, q, j));
                assert(slot_of(after.slots@, q, j));
                after.lemma_slot(q, j);
            }
        }
    }
    assert(after.cache() =~= want);
}

proof fn lemma_slot_removed(before: ConfigState, after: ConfigState, p: Seq<char>, i: int)
    requires
        before.wf(),
        slot_of(before.slots@, p, i),
        after.active == before.active,
        after.slots@ == before.slots@.remove(i),
    ensures
        after.wf(),
        after.cache() == before.cache().remove(p),
{
    assert forall|a: int, b: int| 0 <= a < b < after.slots@.len() implies (
    #[trigger] after.slots@[a]).profile@ != (#[trigger] after.slots@[b]).profile@ by {
        let x = if a < i {
            a
        } else {
            a + 1
        };
        let y = if b < i {
            b
        } else {
            b + 1
        };
        assert(after.slots@[a] == before.slots@[x]);
        assert(after.slots@[b] == before.slots@[y]);
    }
    let want = before.cache().remove(p);
    assert forall|q: Seq<char>| #[trigger] after.cache().contains_key(q) == want.contains_key(q)
        && (after.cache().contains_key(q) ==> after.cache()[q] == want[q]) by {
        if after.cache().contains_key(q) {
            let j = choose|j: int| slot_of(after.slots@, q, j);
            assert(slot_of(after.slots@, q, j));
            let k = if j < i {
                j
            } else {
                j + 1
            };
            assert(after.slots@[j] == before.slots@[k]);
            assert(slot_of(before.slots@, q, k));
            before.lemma_slot(q, k);
            after.lemma_slot(q, j);
            if q == p {
                if k < i {
                    assert(before.slots@[k].profile@ != before.slots@[i].profile@);
                } else {
                    assert(before.slots@[i].profile@ != before.slots@[k].profile@);
                }
            }
        }
        if before.cache().contains_key(q) && q != p {
            let k = choose|k: int| slot_of(before.slots@, q, k);
            assert(slot_of(before.slots@, q, k));
            let j = if k < i {
                k
            } else {
                k - 1
            };
            assert(after.slots@[j] == before.slots@[k]);
            assert(slot_of(after.slots@, q, j));
            after.lemma_slot(q, j);
        }
    }
    assert(after.cache() =~= want);
}

/// What is forgotten of a profile is everything but its tenant.
pub proof fn law_only_the_tenant_stays(c: Config)
    ensures
        cleared(c).tenant_id == c.tenant_id,
        cleared(c).access_token is None,
        cleared(c).refresh_token is None,
        cleared(c).skype_token is None,
        cleared(c).graph_token is None,
        cleared(c).ic3_token is None,
        cleared(c).recorder_token is None,
        cleared(c).region_gtms is None,
{
}

/// A profile is known by its name without the blanks around it; the blank one is the
/// default, whose file has no name in it, in either case of its letters.
pub proof fn law_blank_profile_is_the_default(profile: Seq<char>)
    ensures
        text::trimmed(profile).len() > 0 ==> normalized(profile) == text::trimmed(profile),
        text::trimmed(profile).len() == 0 ==> normalized(profile) == "default"@,
        text::lowered(normalized(profile)) == "default"@ ==> profile_file(profile)
            == "config.toml"@,
        text::lowered(normalized(profile)) != "default"@ ==> profile_file(profile) == "config-"@
            + sanitized(normalized(profile)) + ".toml"@,
{
}

/// A file name holds the letters, digits, points, underscores and hyphens of the profile
/// at their places, an underscore for each other character, and at most sixty-four.
pub proof fn law_file_name_follows_the_profile(name: Seq<char>, i: int)
    requires
        0 <= i < name.len(),
        i < 64,
    ensures
        i < sanitized(name).len(),
        sanitized(name).len() == name.len() || (name.len() > 64 && sanitized(name).len() == 64),
        ('a' <= name[i] <= 'z') || ('A' <= name[i] <= 'Z') || ('0' <= name[i] <= '9') || name[i]
            == '.' || name[i] == '_' || name[i] == '-' ==> sanitized(name)[i] == name[i],
        name[i] == '/' || name[i] == ' ' || name[i] == ':' || name[i] == '\\' ==> sanitized(name)[i]
            == '_',
        sanitized(Seq::empty()) == "_"@,
{
}

/// A token that is stored is the one that was got, with the end that it was got with.
pub proof fn law_stored_token_is_the_one_got(
    slot: Option<StoredToken>,
    token: Seq<char>,
    seconds: u64,
    now: u64,
)
    requires
        holds(slot, token, Some(seconds), now),
        now + seconds <= u64::MAX,
    ensures
        slot matches Some(t) && t.token@ == token && t.expires_at == Some((now + seconds) as u64),
{
}

/// The regions of a profile are those that were stored, read as what they are.
pub proof fn law_stored_regions(c: Config)
    ensures
        c.region_gtms matches Some(s) ==> region_value(c) == json::json_text(s@),
        c.region_gtms is None ==> region_value(c) is None,
{
}

} // verus!

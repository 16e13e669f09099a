//! Application configuration: client credentials, display preferences and
//! the set of named profiles, together with the operations the profile
//! manager and the first-time-setup screen perform on it.

use vstd::prelude::*;

verus! {

/// A named local identity binding a display name to a remembered platform
/// user id.
#[derive(Clone, Debug, PartialEq)]
pub struct Profile {
    pub name: String,
    pub twitch_user_id: Option<String>,
}

#[verifier::ext_equal]
pub ghost struct SpecProfile {
    pub name: Seq<char>,
    pub twitch_user_id: Option<Seq<char>>,
}

impl DeepView for Profile {
    type V = SpecProfile;

    open spec fn deep_view(&self) -> SpecProfile {
        SpecProfile {
            name: self.name.deep_view(),
            twitch_user_id: self.twitch_user_id.deep_view(),
        }
    }
}

/// The application's configuration. Font and emote sizes are whole points.
#[derive(Clone, Debug, PartialEq)]
pub struct Config {
    pub client_id: Option<String>,
    pub client_secret: Option<String>,
    pub enable_cjk_font: bool,
    pub font_size: u32,
    pub emote_size: u32,
    pub show_timestamps: bool,
    pub collapse_emotes: bool,
    pub profiles: Vec<Profile>,
    pub active_profile_name: Option<String>,
}

#[verifier::ext_equal]
pub ghost struct SpecConfig {
    pub client_id: Option<Seq<char>>,
    pub client_secret: Option<Seq<char>>,
    pub enable_cjk_font: bool,
    pub font_size: u32,
    pub emote_size: u32,
    pub show_timestamps: bool,
    pub collapse_emotes: bool,
    pub profiles: Seq<SpecProfile>,
    pub active_profile_name: Option<Seq<char>>,
}

impl DeepView for Config {
    type V = SpecConfig;

    open spec fn deep_view(&self) -> SpecConfig {
        SpecConfig {
            client_id: self.client_id.deep_view(),
            client_secret: self.client_secret.deep_view(),
            enable_cjk_font: self.enable_cjk_font,
            font_size: self.font_size,
            emote_size: self.emote_size,
            show_timestamps: self.show_timestamps,
            collapse_emotes: self.collapse_emotes,
            profiles: self.profiles.deep_view(),
            active_profile_name: self.active_profile_name.deep_view(),
        }
    }
}

/// No two profiles share a name.
pub open spec fn names_unique(ps: Seq<SpecProfile>) -> bool {
    forall|i: int, j: int| 0 <= i < j < ps.len() ==> ps[i].name != ps[j].name
}

/// Some profile carries this name.
pub open spec fn has_profile(ps: Seq<SpecProfile>, name: Seq<char>) -> bool {
    exists|i: int| 0 <= i < ps.len() && ps[i].name == name
}

/// The first profile carrying this name, if any.
pub open spec fn profile_named(ps: Seq<SpecProfile>, name: Seq<char>) -> Option<SpecProfile>
    decreases ps.len(),
{
    if ps.len() == 0 {
        None
    } else if ps[0].name == name {
        Some(ps[0])
    } else {
        profile_named(ps.drop_first(), name)
    }
}

/// Well-formedness of a configuration: profile names are unique, and the
/// active profile name, if set, references an existing profile.
pub open spec fn config_wf(c: SpecConfig) -> bool {
    &&& names_unique(c.profiles)
    &&& match c.active_profile_name {
        Some(n) => has_profile(c.profiles, n),
        None => true,
    }
}

pub proof fn lemma_profile_named_present(ps: Seq<SpecProfile>, name: Seq<char>)
    ensures
        has_profile(ps, name) <==> profile_named(ps, name) is Some,
        profile_named(ps, name) matches Some(p) ==> exists|i: int|
            0 <= i < ps.len() && ps[i] == p && ps[i].name == name,
    decreases ps.len(),
{
    if ps.len() > 0 {
        if ps[0].name == name {
        } else {
            lemma_profile_named_present(ps.drop_first(), name);
            if has_profile(ps, name) {
                let i = choose|i: int| 0 <= i < ps.len() && ps[i].name == name;
                assert(ps.drop_first()[i - 1] == ps[i]);
            }
            if profile_named(ps.drop_first(), name) is Some {
                let p = profile_named(ps.drop_first(), name)->0;
                let i = choose|i: int|
                    0 <= i < ps.drop_first().len() && ps.drop_first()[i] == p
                        && ps.drop_first()[i].name == name;
                assert(ps[i + 1] == ps.drop_first()[i]);
            }
        }
    }
}

impl Config {
    /// The profile the active profile name references, if one is set and
    /// present.
    pub fn get_active_profile(&self) -> (r: Option<&Profile>)
        ensures
            r.deep_view() == spec_active_profile(self.deep_view()),
    {
        match &self.active_profile_name {
            Some(name) => find_profile(&self.profiles, name.as_str()),
            None => None,
        }
    }
}

/// The profile an active profile name would select.
pub open spec fn spec_active_profile(c: SpecConfig) -> Option<SpecProfile> {
    match c.active_profile_name {
        Some(name) => profile_named(c.profiles, name),
        None => None,
    }
}

/// If the first `i` profiles do not carry the name but profile `i` does,
/// it is the one `profile_named` selects.
proof fn lemma_profile_named_first_match(ps: Seq<SpecProfile>, name: Seq<char>, i: int)
    requires
        0 <= i < ps.len(),
        ps[i].name == name,
        forall|k: int| 0 <= k < i ==> ps[k].name != name,
    ensures
        profile_named(ps, name) == Some(ps[i]),
    decreases i,
{
    if i == 0 {
    } else {
        lemma_profile_named_first_match(ps.drop_first(), name, i - 1);
        assert(ps.drop_first()[i - 1] == ps[i]);
        assert(forall|k: int| 0 <= k < i - 1 ==> #[trigger] ps.drop_first()[k].name != name);
    }
}

/// If no profile carries the name, `profile_named` selects none.
proof fn lemma_profile_named_absent(ps: Seq<SpecProfile>, name: Seq<char>)
    requires
        forall|k: int| 0 <= k < ps.len() ==> ps[k].name != name,
    ensures
        profile_named(ps, name) is None,
    decreases ps.len(),
{
    if ps.len() > 0 {
        assert(forall|k: int|
            0 <= k < ps.drop_first().len() ==> #[trigger] ps.drop_first()[k].name != name);
        lemma_profile_named_absent(ps.drop_first(), name);
    }
}

/// The first profile in the list with the given name, if any.
pub fn find_profile<'a>(profiles: &'a Vec<Profile>, name: &str) -> (r: Option<&'a Profile>)
    ensures
        r.deep_view() == profile_named(profiles.deep_view(), name@),
{
    let ghost psv = profiles.deep_view();
    let mut i: usize = 0;
    while i < profiles.len()
        invariant
            0 <= i <= profiles.len(),
            psv == profiles.deep_view(),
            psv.len() == profiles.len(),
            forall|k: int| 0 <= k < psv.len() ==> psv[k] == #[trigger] profiles@[k].deep_view(),
            forall|k: int| 0 <= k < i ==> #[trigger] psv[k].name != name@,
        decreases profiles.len() - i,
    {
        if crate::strutil::str_eq(profiles[i].name.as_str(), name) {
            proof {
                lemma_profile_named_first_match(psv, name@, i as int);
            }
            return Some(&profiles[i]);
        }
        i = i + 1;
    }
    proof {
        lemma_profile_named_absent(psv, name@);
    }
    None
}

impl Default for Config {
    /// The configuration used when no file exists yet.
    fn default() -> (r: Config)
        ensures
            r.deep_view() == spec_default_config(),
    {
        Config {
            client_id: None,
            client_secret: None,
            enable_cjk_font: false,
            font_size: 14,
            emote_size: 14,
            show_timestamps: false,
            collapse_emotes: false,
            profiles: Vec::new(),
            active_profile_name: None,
        }
    }
}

pub open spec fn spec_default_config() -> SpecConfig {
    SpecConfig {
        client_id: None,
        client_secret: None,
        enable_cjk_font: false,
        font_size: 14,
        emote_size: 14,
        show_timestamps: false,
        collapse_emotes: false,
        profiles: Seq::empty(),
        active_profile_name: None,
    }
}

/// Whether some profile carries the given name.
pub fn profile_exists(profiles: &Vec<Profile>, name: &str) -> (r: bool)
    ensures
        r == has_profile(profiles.deep_view(), name@),
{
    let found = find_profile(profiles, name);
    proof {
        lemma_profile_named_present(profiles.deep_view(), name@);
    }
    found.is_some()
}

/// An action requested from the profile manager dialog.
#[derive(Clone, Debug, PartialEq)]
pub enum ProfileManagerAction {
    Login(String),
    Add(String),
    Remove(String),
}

/// The outcome of applying a profile manager action.
#[derive(Clone, Debug, PartialEq)]
pub enum ProfileActionOutcome {
    /// Start an interactive login for this profile.
    StartLogin(String),
    /// A profile was added; the configuration should be persisted.
    Added,
    /// A profile with the requested name already exists.
    AlreadyExists,
    /// The named profile is gone; the configuration should be persisted.
    Removed,
}

/// Keeps the profiles whose name differs from `name`.
pub open spec fn keeps_name(name: Seq<char>) -> spec_fn(SpecProfile) -> bool {
    |p: SpecProfile| p.name != name
}

/// The profile list with every profile of the given name removed.
pub open spec fn spec_remove_profile(ps: Seq<SpecProfile>, name: Seq<char>) -> Seq<SpecProfile> {
    ps.filter(keeps_name(name))
}

/// Removes every profile with this name; if it was the active profile, the
/// active profile name is cleared.
pub fn remove_profile(config: &mut Config, name: &str)
    ensures
        final(config).deep_view() == (SpecConfig {
            profiles: spec_remove_profile(old(config).deep_view().profiles, name@),
            active_profile_name: if old(config).deep_view().active_profile_name == Some(name@) {
                None
            } else {
                old(config).deep_view().active_profile_name
            },
            ..old(config).deep_view()
        }),
        config_wf(old(config).deep_view()) ==> config_wf(final(config).deep_view()),
{
    let ghost c0 = config.deep_view();
    let mut kept: Vec<Profile> = Vec::new();
    let mut i: usize = 0;
    while i < config.profiles.len()
        invariant
            0 <= i <= config.profiles.len(),
            config.deep_view() == c0,
            kept.deep_view() == c0.profiles.take(i as int).filter(keeps_name(name@)),
        decreases config.profiles.len() - i,
    {
        let ghost kd0 = kept.deep_view();
        let ghost taken = c0.profiles.take(i + 1);
        proof {
            reveal(Seq::filter);
            assert(taken.drop_last() =~= c0.profiles.take(i as int));
            assert(taken.last() == c0.profiles[i as int]);
        }
        if !crate::strutil::str_eq(config.profiles[i].name.as_str(), name) {
            kept.push(config.profiles[i].clone_profile());
            proof {
                reveal(Seq::filter);
                assert(kept.deep_view() =~= kd0.push(c0.profiles[i as int]));
            }
        } else {
            proof {
                reveal(Seq::filter);
                assert(!(keeps_name(name@)(taken.last())));
                assert(taken.filter(keeps_name(name@)) == kd0);
            }
        }
        i = i + 1;
    }
    proof {
        assert(c0.profiles.take(c0.profiles.len() as int) =~= c0.profiles);
    }
    let clear_active = match &config.active_profile_name {
        Some(active) => crate::strutil::str_eq(active.as_str(), name),
        None => false,
    };
    config.profiles = kept;
    if clear_active {
        config.active_profile_name = None;
    }
    proof {
        let c1 = config.deep_view();
        assert(c1 =~= (SpecConfig {
            profiles: spec_remove_profile(c0.profiles, name@),
            active_profile_name: if c0.active_profile_name == Some(name@) {
                None
            } else {
                c0.active_profile_name
            },
            ..c0
        }));
        if config_wf(c0) {
            lemma_remove_profile_wf(c0, name@);
        }
    }
}

proof fn lemma_filter_membership<A>(s: Seq<A>, pred: spec_fn(A) -> bool, i: int)
    requires
        0 <= i < s.filter(pred).len(),
    ensures
        exists|j: int| 0 <= j < s.len() && s[j] == s.filter(pred)[i],
    decreases s.len(),
{
    reveal(Seq::filter);
    if s.len() > 0 {
        let f = s.filter(pred);
        let fd = s.drop_last().filter(pred);
        if i < fd.len() {
            lemma_filter_membership(s.drop_last(), pred, i);
            let j = choose|j: int| 0 <= j < s.drop_last().len() && s.drop_last()[j] == fd[i];
            assert(s[j] == s.drop_last()[j]);
        } else {
            assert(f[i] == s.last());
        }
    }
}

proof fn lemma_remove_profile_wf(c: SpecConfig, name: Seq<char>)
    requires
        config_wf(c),
    ensures
        config_wf(
            SpecConfig {
                profiles: spec_remove_profile(c.profiles, name),
                active_profile_name: if c.active_profile_name == Some(name) {
                    None
                } else {
                    c.active_profile_name
                },
                ..c
            },
        ),
{
    let pred = keeps_name(name);
    let kept = c.profiles.filter(pred);
    assert forall|i: int, j: int| 0 <= i < j < kept.len() implies kept[i].name != kept[j].name by {
        lemma_filter_distinct(c.profiles, pred, i, j);
        let (a, b) = choose|a: int, b: int|
            0 <= a < b < c.profiles.len() && c.profiles[a] == kept[i] && c.profiles[b] == kept[j];
        assert(c.profiles[a].name != c.profiles[b].name);
    }
    match c.active_profile_name {
        Some(a) => {
            if a != name {
                let i = choose|i: int| 0 <= i < c.profiles.len() && c.profiles[i].name == a;
                lemma_filter_keeps(c.profiles, pred, i);
                assert(has_profile(kept, a));
            }
        },
        None => {},
    }
}

/// Distinct positions of a filtered sequence come from distinct positions of
/// the original, in order.
proof fn lemma_filter_distinct<A>(s: Seq<A>, pred: spec_fn(A) -> bool, i: int, j: int)
    requires
        0 <= i < j < s.filter(pred).len(),
    ensures
        exists|a: int, b: int|
            0 <= a < b < s.len() && s[a] == s.filter(pred)[i] && s[b] == s.filter(pred)[j],
    decreases s.len(),
{
    reveal(Seq::filter);
    let f = s.filter(pred);
    let fd = s.drop_last().filter(pred);
    if j < fd.len() {
        lemma_filter_distinct(s.drop_last(), pred, i, j);
        let (a, b) = choose|a: int, b: int|
            0 <= a < b < s.drop_last().len() && s.drop_last()[a] == fd[i] && s.drop_last()[b]
                == fd[j];
        assert(s[a] == s.drop_last()[a] && s[b] == s.drop_last()[b]);
    } else {
        assert(f[j] == s.last());
        lemma_filter_membership(s.drop_last(), pred, i);
        let a = choose|a: int| 0 <= a < s.drop_last().len() && s.drop_last()[a] == fd[i];
        assert(s[a] == s.drop_last()[a]);
        assert(s[s.len() - 1] == s.last());
    }
}

/// An element satisfying the predicate survives filtering.
proof fn lemma_filter_keeps<A>(s: Seq<A>, pred: spec_fn(A) -> bool, i: int)
    requires
        0 <= i < s.len(),
        pred(s[i]),
    ensures
        exists|k: int| 0 <= k < s.filter(pred).len() && s.filter(pred)[k] == s[i],
    decreases s.len(),
{
    reveal(Seq::filter);
    if i == s.len() - 1 {
        assert(s.filter(pred).last() == s[i]);
    } else {
        lemma_filter_keeps(s.drop_last(), pred, i);
        let k = choose|k: int|
            0 <= k < s.drop_last().filter(pred).len() && s.drop_last().filter(pred)[k] == s
                .drop_last()[i];
        assert(s.filter(pred).len() >= s.drop_last().filter(pred).len());
        assert(s.filter(pred)[k] == s.drop_last().filter(pred)[k]);
    }
}

/// Adds a profile with this name and no remembered user id, unless one with
/// the same name already exists.
pub fn add_profile(config: &mut Config, name: &str) -> (added: bool)
    ensures
        added == !has_profile(old(config).deep_view().profiles, name@),
        added ==> final(config).deep_view() == (SpecConfig {
            profiles: old(config).deep_view().profiles.push(
                SpecProfile { name: name@, twitch_user_id: None },
            ),
            ..old(config).deep_view()
        }),
        !added ==> *final(config) == *old(config),
        config_wf(old(config).deep_view()) ==> config_wf(final(config).deep_view()),
{
    let ghost c0 = config.deep_view();
    if profile_exists(&config.profiles, name) {
        return false;
    }
    config.profiles.push(Profile { name: String::from_str(name), twitch_user_id: None });
    proof {
        let c1 = config.deep_view();
        let added_p = SpecProfile { name: name@, twitch_user_id: None };
        assert(c1.profiles =~= c0.profiles.push(added_p));
        assert(c1 =~= (SpecConfig { profiles: c0.profiles.push(added_p), ..c0 }));
        if config_wf(c0) {
            assert forall|i: int, j: int|
                0 <= i < j < c1.profiles.len() implies c1.profiles[i].name
                != c1.profiles[j].name by {
                if j == c1.profiles.len() - 1 {
                    assert(c1.profiles[i] == c0.profiles[i]);
                }
            }
            match c0.active_profile_name {
                Some(n) => {
                    let w = choose|i: int| 0 <= i < c0.profiles.len() && c0.profiles[i].name == n;
                    assert(c1.profiles[w].name == n);
                },
                None => {},
            }
        }
    }
    true
}

/// The result of submitting the first-time-setup form: the updated
/// configuration and the error to display, if any.
pub open spec fn spec_setup_submit(
    c: SpecConfig,
    id_input: Seq<char>,
    name_input: Seq<char>,
) -> (SpecConfig, Option<Seq<char>>) {
    if c.client_id is None && id_input.len() == 0 {
        (c, Some("Client ID cannot be empty."@))
    } else {
        let c1 = SpecConfig {
            client_id: if c.client_id is None { Some(id_input) } else { c.client_id },
            ..c
        };
        if name_input.len() == 0 {
            (c1, Some("Profile Name cannot be empty."@))
        } else if has_profile(c1.profiles, name_input) {
            (c1, Some("A profile with this name already exists."@))
        } else {
            (
                SpecConfig {
                    profiles: c1.profiles.push(
                        SpecProfile { name: name_input, twitch_user_id: None },
                    ),
                    active_profile_name: Some(name_input),
                    ..c1
                },
                None,
            )
        }
    }
}

/// Applies the first-time-setup form: records the entered client id if none
/// is configured yet, then creates the entered profile and makes it active.
/// On `Err` the returned message is shown inline and no login starts.
pub fn first_time_setup_submit(
    config: &mut Config,
    client_id_input: &String,
    profile_name_input: &String,
) -> (r: Result<(), String>)
    ensures
        final(config).deep_view() == spec_setup_submit(
            old(config).deep_view(),
            client_id_input@,
            profile_name_input@,
        ).0,
        (match r {
            Ok(()) => spec_setup_submit(
                old(config).deep_view(),
                client_id_input@,
                profile_name_input@,
            ).1 is None,
            Err(e) => Some(e@) == spec_setup_submit(
                old(config).deep_view(),
                client_id_input@,
                profile_name_input@,
            ).1,
        }),
        config_wf(old(config).deep_view()) && r is Ok ==> config_wf(final(config).deep_view()),
{
    let ghost c0 = config.deep_view();
    let client_id_missing = config.client_id.is_none();
    if client_id_missing && client_id_input.as_str().unicode_len() == 0 {
        return Err(String::from_str("Client ID cannot be empty."));
    }
    if client_id_missing {
        config.client_id = Some(clone_string(client_id_input));
    }
    let ghost c1 = config.deep_view();
    proof {
        assert(c1 =~= (SpecConfig {
            client_id: if c0.client_id is None { Some(client_id_input@) } else { c0.client_id },
            ..c0
        }));
    }
    if profile_name_input.as_str().unicode_len() == 0 {
        return Err(String::from_str("Profile Name cannot be empty."));
    }
    if profile_exists(&config.profiles, profile_name_input.as_str()) {
        return Err(String::from_str("A profile with this name already exists."));
    }
    config.profiles.push(
        Profile { name: clone_string(profile_name_input), twitch_user_id: None },
    );
    config.active_profile_name = Some(clone_string(profile_name_input));
    proof {
        let c2 = config.deep_view();
        let expect = spec_setup_submit(c0, client_id_input@, profile_name_input@).0;
        assert(c2.profiles =~= expect.profiles);
        assert(c2 =~= expect);
        if config_wf(c0) {
            assert forall|i: int, j: int|
                0 <= i < j < c2.profiles.len() implies c2.profiles[i].name
                != c2.profiles[j].name by {
                if j == c2.profiles.len() - 1 {
                    assert(c2.profiles[i] == c1.profiles[i]);
                }
            }
            assert(c2.profiles[c2.profiles.len() - 1].name == profile_name_input@);
        }
    }
    Ok(())
}

/// The position of the first profile with this name, or the length of the
/// list when none carries it.
pub open spec fn first_index_named(ps: Seq<SpecProfile>, name: Seq<char>) -> int
    decreases ps.len(),
{
    if ps.len() == 0 {
        0
    } else if ps[0].name == name {
        0
    } else {
        1 + first_index_named(ps.drop_first(), name)
    }
}

/// A profile with its remembered user id filled in, if it had none.
pub open spec fn patch_profile(p: SpecProfile, id: Seq<char>) -> SpecProfile {
    if p.twitch_user_id is None {
        SpecProfile { name: p.name, twitch_user_id: Some(id) }
    } else {
        p
    }
}

/// The profile list with the first profile of this name given the user id,
/// if it had none remembered.
pub open spec fn spec_backfill(ps: Seq<SpecProfile>, name: Seq<char>, id: Seq<char>) -> Seq<
    SpecProfile,
> {
    let i = first_index_named(ps, name);
    if i < ps.len() {
        ps.update(i, patch_profile(ps[i], id))
    } else {
        ps
    }
}

/// Where the first profile with a name sits: within the list exactly when
/// the name occurs, at a position carrying it, with no earlier occurrence.
pub proof fn lemma_first_index_props(ps: Seq<SpecProfile>, name: Seq<char>)
    ensures
        0 <= first_index_named(ps, name) <= ps.len(),
        first_index_named(ps, name) < ps.len() <==> has_profile(ps, name),
        first_index_named(ps, name) < ps.len() ==> ps[first_index_named(ps, name)].name == name,
        forall|k: int| 0 <= k < first_index_named(ps, name) ==> ps[k].name != name,
    decreases ps.len(),
{
    if ps.len() > 0 && ps[0].name != name {
        lemma_first_index_props(ps.drop_first(), name);
        let i = first_index_named(ps, name);
        assert forall|k: int| 0 <= k < i implies ps[k].name != name by {
            if k > 0 {
                assert(ps.drop_first()[k - 1] == ps[k]);
            }
        }
        if i < ps.len() {
            assert(ps.drop_first()[i - 1] == ps[i]);
        }
        if has_profile(ps, name) {
            let w = choose|w: int| 0 <= w < ps.len() && ps[w].name == name;
            assert(ps.drop_first()[w - 1] == ps[w]);
            assert(has_profile(ps.drop_first(), name));
        }
        if has_profile(ps.drop_first(), name) {
            let w = choose|w: int|
                0 <= w < ps.drop_first().len() && ps.drop_first()[w].name == name;
            assert(ps[w + 1] == ps.drop_first()[w]);
        }
    }
}

proof fn lemma_first_index_found(ps: Seq<SpecProfile>, name: Seq<char>, i: int)
    requires
        0 <= i < ps.len(),
        ps[i].name == name,
        forall|k: int| 0 <= k < i ==> ps[k].name != name,
    ensures
        first_index_named(ps, name) == i,
    decreases i,
{
    if i > 0 {
        lemma_first_index_found(ps.drop_first(), name, i - 1);
        assert(ps.drop_first()[i - 1] == ps[i]);
        assert(forall|k: int| 0 <= k < i - 1 ==> #[trigger] ps.drop_first()[k].name != name);
    }
}

proof fn lemma_first_index_absent(ps: Seq<SpecProfile>, name: Seq<char>)
    requires
        forall|k: int| 0 <= k < ps.len() ==> ps[k].name != name,
    ensures
        first_index_named(ps, name) == ps.len(),
    decreases ps.len(),
{
    if ps.len() > 0 {
        assert(forall|k: int|
            0 <= k < ps.drop_first().len() ==> #[trigger] ps.drop_first()[k].name != name);
        lemma_first_index_absent(ps.drop_first(), name);
    }
}

/// Fills in the remembered user id of the first profile with this name, if
/// that profile has none yet.
pub fn backfill_user_id(profiles: &mut Vec<Profile>, name: &str, user_id: &str)
    ensures
        final(profiles).deep_view() == spec_backfill(old(profiles).deep_view(), name@, user_id@),
{
    let ghost ps0 = profiles.deep_view();
    let mut i: usize = 0;
    while i < profiles.len()
        invariant
            0 <= i <= profiles.len(),
            profiles.deep_view() == ps0,
            old(profiles).deep_view() == ps0,
            ps0.len() == profiles.len(),
            forall|k: int| 0 <= k < i ==> #[trigger] ps0[k].name != name@,
        decreases profiles.len() - i,
    {
        if crate::strutil::str_eq(profiles[i].name.as_str(), name) {
            proof {
                lemma_first_index_found(ps0, name@, i as int);
            }
            let slot = vstd::std_specs::vec::vec_index_mut(profiles, i);
            if slot.twitch_user_id.is_none() {
                slot.twitch_user_id = Some(String::from_str(user_id));
            }
            proof {
                assert(profiles@[i as int].deep_view() =~= patch_profile(ps0[i as int], user_id@));
                assert(profiles.deep_view() =~= ps0.update(
                    i as int,
                    patch_profile(ps0[i as int], user_id@),
                ));
            }
            return ;
        }
        i = i + 1;
    }
    proof {
        lemma_first_index_absent(ps0, name@);
    }
}

/// The configuration after a successful login for the given account: the
/// profile the active name references (or one named after the login) is
/// attached, created if missing, and its user id remembered.
pub open spec fn spec_attach_login(c: SpecConfig, login: Seq<char>, id: Seq<char>) -> SpecConfig {
    let name = match c.active_profile_name {
        Some(n) => n,
        None => login,
    };
    if has_profile(c.profiles, name) {
        SpecConfig {
            profiles: spec_backfill(c.profiles, name, id),
            active_profile_name: Some(name),
            ..c
        }
    } else {
        SpecConfig {
            profiles: c.profiles.push(SpecProfile { name: name, twitch_user_id: Some(id) }),
            active_profile_name: Some(name),
            ..c
        }
    }
}

/// Attaches the account that just logged in to the configuration: under the
/// active profile name if one is staged, else under a profile named after
/// the login, creating it when missing and remembering the user id.
pub fn attach_login(config: &mut Config, login: &str, user_id: &str)
    ensures
        final(config).deep_view() == spec_attach_login(old(config).deep_view(), login@, user_id@),
        names_unique(old(config).deep_view().profiles) ==> config_wf(final(config).deep_view()),
{
    let ghost c0 = config.deep_view();
    let name: String = match &config.active_profile_name {
        Some(n) => clone_string(n),
        None => String::from_str(login),
    };
    if profile_exists(&config.profiles, name.as_str()) {
        backfill_user_id(&mut config.profiles, name.as_str(), user_id);
        config.active_profile_name = Some(name);
        proof {
            assert(config.deep_view() =~= spec_attach_login(c0, login@, user_id@));
        }
    } else {
        config.profiles.push(
            Profile { name: name, twitch_user_id: Some(String::from_str(user_id)) },
        );
        let slot = config.profiles.len() - 1;
        let name2: String = clone_string(&config.profiles[slot].name);
        config.active_profile_name = Some(name2);
        proof {
            let c1 = config.deep_view();
            let expect = spec_attach_login(c0, login@, user_id@);
            assert(c1.profiles =~= expect.profiles);
            assert(c1 =~= expect);
        }
    }
    proof {
        if names_unique(c0.profiles) {
            lemma_attach_login_wf(c0, login@, user_id@);
        }
    }
}

/// Attaching a login keeps the configuration well formed; only name
/// uniqueness of the incoming profile list is needed.
pub proof fn lemma_attach_login_wf(c: SpecConfig, login: Seq<char>, id: Seq<char>)
    requires
        names_unique(c.profiles),
    ensures
        config_wf(spec_attach_login(c, login, id)),
{
    let name = match c.active_profile_name {
        Some(n) => n,
        None => login,
    };
    let c1 = spec_attach_login(c, login, id);
    if has_profile(c.profiles, name) {
        let ps1 = c1.profiles;
        lemma_first_index_props(c.profiles, name);
        assert(ps1.len() == c.profiles.len());
        assert(forall|k: int|
            0 <= k < ps1.len() ==> #[trigger] ps1[k].name == c.profiles[k].name);
        let w = choose|i: int| 0 <= i < c.profiles.len() && c.profiles[i].name == name;
        assert(ps1[w].name == name);
    } else {
        let ps1 = c1.profiles;
        assert forall|i: int, j: int| 0 <= i < j < ps1.len() implies ps1[i].name
            != ps1[j].name by {
            if j == ps1.len() - 1 {
                assert(ps1[i] == c.profiles[i]);
            }
        }
        assert(ps1[ps1.len() - 1].name == name);
    }
}

/// Applies a profile manager action: starting a login changes nothing here;
/// adding a profile is refused when the name is taken; removing a profile
/// clears the active name if it pointed at it.
pub fn apply_profile_action(config: &mut Config, action: ProfileManagerAction) -> (r:
    ProfileActionOutcome)
    ensures
        action matches ProfileManagerAction::Login(n) ==> *final(config) == *old(config) && (
        r matches ProfileActionOutcome::StartLogin(m) && m@ == n@),
        action matches ProfileManagerAction::Add(n) ==> {
            if !has_profile(old(config).deep_view().profiles, n@) {
                r is Added && final(config).deep_view() == (SpecConfig {
                    profiles: old(config).deep_view().profiles.push(
                        SpecProfile { name: n@, twitch_user_id: None },
                    ),
                    ..old(config).deep_view()
                })
            } else {
                r is AlreadyExists && *final(config) == *old(config)
            }
        },
        action matches ProfileManagerAction::Remove(n) ==> r is Removed
            && final(config).deep_view() == (SpecConfig {
            profiles: spec_remove_profile(old(config).deep_view().profiles, n@),
            active_profile_name: if old(config).deep_view().active_profile_name == Some(n@) {
                None
            } else {
                old(config).deep_view().active_profile_name
            },
            ..old(config).deep_view()
        }),
        config_wf(old(config).deep_view()) ==> config_wf(final(config).deep_view()),
{
    match action {
        ProfileManagerAction::Login(name) => ProfileActionOutcome::StartLogin(name),
        ProfileManagerAction::Add(name) => {
            if add_profile(config, name.as_str()) {
                ProfileActionOutcome::Added
            } else {
                ProfileActionOutcome::AlreadyExists
            }
        },
        ProfileManagerAction::Remove(name) => {
            remove_profile(config, name.as_str());
            ProfileActionOutcome::Removed
        },
    }
}

impl Config {
    /// A field-wise copy.
    pub fn clone_config(&self) -> (r: Config)
        ensures
            r.deep_view() == self.deep_view(),
    {
        let mut profiles: Vec<Profile> = Vec::new();
        let mut i: usize = 0;
        proof {
            assert(profiles.deep_view() =~= self.profiles.deep_view().take(0));
        }
        while i < self.profiles.len()
            invariant
                0 <= i <= self.profiles.len(),
                profiles.deep_view() == self.profiles.deep_view().take(i as int),
            decreases self.profiles.len() - i,
        {
            let p = self.profiles[i].clone_profile();
            let ghost before = profiles.deep_view();
            let ghost pv = p.deep_view();
            proof {
                assert(pv == self.profiles.deep_view()[i as int]);
            }
            profiles.push(p);
            proof {
                assert(profiles.deep_view() =~= before.push(pv));
                assert(before.push(pv) =~= self.profiles.deep_view().take(i + 1));
            }
            i = i + 1;
        }
        proof {
            assert(self.profiles.deep_view().take(i as int) =~= self.profiles.deep_view());
        }
        let r = Config {
            client_id: clone_opt_string(&self.client_id),
            client_secret: clone_opt_string(&self.client_secret),
            enable_cjk_font: self.enable_cjk_font,
            font_size: self.font_size,
            emote_size: self.emote_size,
            show_timestamps: self.show_timestamps,
            collapse_emotes: self.collapse_emotes,
            profiles,
            active_profile_name: clone_opt_string(&self.active_profile_name),
        };
        proof {
            assert(r.deep_view() =~= self.deep_view());
        }
        r
    }
}

impl Profile {
    /// A field-wise copy.
    pub fn clone_profile(&self) -> (r: Profile)
        ensures
            r.deep_view() == self.deep_view(),
    {
        Profile {
            name: clone_string(&self.name),
            twitch_user_id: clone_opt_string(&self.twitch_user_id),
        }
    }
}

/// A copy of a string with the same characters.
pub fn clone_string(s: &String) -> (r: String)
    ensures
        r@ == s@,
{
    s.clone()
}

/// A copy of an optional string with the same characters.
pub fn clone_opt_string(s: &Option<String>) -> (r: Option<String>)
    ensures
        r.deep_view() == s.deep_view(),
{
    match s {
        Some(x) => Some(clone_string(x)),
        None => None,
    }
}

} // verus!

//! Application settings and model profiles: keeping the active profile and
//! the legacy single-model fields consistent, and the setting commands.

use vstd::prelude::*;
use crate::text::{clone_opt, decimal, is_blank, lemma_trim_fixed, opt_view, owned, trim, u64_text};
use crate::cli::{prompt_for, prompt_for_model};
use crate::cli::{ensure_non_empty, error_text, CliError, SettingSpec, SettingUpdate};
use crate::types::{
    backend_name, default_local_profile, default_prompt_text, legacy_profile, BackendKind,
    ModelProfile, ProfileView,
};

verus! {

/// Settings as plain values.
pub struct SettingsView {
    pub active_profile: Seq<char>,
    pub model_profiles: Seq<ProfileView>,
    pub llm_base_url: Seq<char>,
    pub llm_model: Seq<char>,
    pub api_key: Option<Seq<char>>,
    pub default_workspace: Seq<char>,
    pub command_timeout_secs: u64,
}

/// The settings file: the active profile, all profiles, the fields that
/// mirror the active profile, the command workspace and the command timeout.
#[derive(Clone, Debug, PartialEq)]
pub struct AppSettings {
    pub active_profile: String,
    pub model_profiles: Vec<ModelProfile>,
    pub llm_base_url: String,
    pub llm_model: String,
    pub api_key: Option<String>,
    pub default_workspace: String,
    pub command_timeout_secs: u64,
}

/// The plain values of a sequence of profiles.
pub open spec fn profile_views(ps: Seq<ModelProfile>) -> Seq<ProfileView> {
    ps.map_values(|p: ModelProfile| p@)
}

impl View for AppSettings {
    type V = SettingsView;

    open spec fn view(&self) -> SettingsView {
        SettingsView {
            active_profile: self.active_profile@,
            model_profiles: profile_views(self.model_profiles@),
            llm_base_url: self.llm_base_url@,
            llm_model: self.llm_model@,
            api_key: opt_view(self.api_key),
            default_workspace: self.default_workspace@,
            command_timeout_secs: self.command_timeout_secs,
        }
    }
}

/// The first index at or after `i` of a profile with the given id.
pub open spec fn profile_index_from(ps: Seq<ProfileView>, id: Seq<char>, i: int) -> Option<int>
    decreases ps.len() - i,
{
    if i < 0 || i >= ps.len() {
        None
    } else if ps[i].id == id {
        Some(i)
    } else {
        profile_index_from(ps, id, i + 1)
    }
}

/// The index of the first profile with the given id.
pub open spec fn profile_index(ps: Seq<ProfileView>, id: Seq<char>) -> Option<int> {
    profile_index_from(ps, id, 0)
}

pub proof fn lemma_profile_index_from(ps: Seq<ProfileView>, id: Seq<char>, i: int)
    requires
        0 <= i,
    ensures
        profile_index_from(ps, id, i) matches Some(k) ==> i <= k < ps.len() && ps[k].id == id
            && forall|m: int| i <= m < k ==> ps[m].id != id,
        profile_index_from(ps, id, i) is None ==> forall|m: int| i <= m < ps.len() ==> ps[m].id
            != id,
    decreases ps.len() - i,
{
    if i < ps.len() && ps[i].id != id {
        lemma_profile_index_from(ps, id, i + 1);
    }
}

/// Whether a profile with the given id exists.
pub open spec fn has_profile(ps: Seq<ProfileView>, id: Seq<char>) -> bool {
    profile_index(ps, id) is Some
}

/// Step one of `ensure_model_profiles`: a blank active id becomes `default`.
pub open spec fn with_named_active(s: SettingsView) -> SettingsView {
    if trim(s.active_profile).len() == 0 {
        SettingsView { active_profile: "default"@, ..s }
    } else {
        s
    }
}

/// Step two: with no profiles, one is built from the legacy fields.
pub open spec fn with_some_profile(s: SettingsView) -> SettingsView {
    if s.model_profiles.len() == 0 {
        SettingsView {
            model_profiles: seq![
                legacy_profile(s.active_profile, s.llm_base_url, s.llm_model, s.api_key),
            ],
            ..s
        }
    } else {
        s
    }
}

/// Step three: an active id that names no profile becomes the first profile's.
pub open spec fn with_existing_active(s: SettingsView) -> SettingsView {
    if !has_profile(s.model_profiles, s.active_profile) && s.model_profiles.len() > 0 {
        SettingsView { active_profile: s.model_profiles[0].id, ..s }
    } else {
        s
    }
}

/// Step four: the legacy fields mirror the active profile.
pub open spec fn with_mirrored_fields(s: SettingsView) -> SettingsView {
    let p = match profile_index(s.model_profiles, s.active_profile) {
        Some(i) => s.model_profiles[i],
        None => default_local_profile(),
    };
    SettingsView { llm_base_url: p.base_url, llm_model: p.model, api_key: p.api_key, ..s }
}

/// What `AppSettings::ensure_model_profiles` makes of settings.
pub open spec fn ensured(s: SettingsView) -> SettingsView {
    with_mirrored_fields(with_existing_active(with_some_profile(with_named_active(s))))
}

/// Settings that `ensure_model_profiles` leaves as they are.
pub open spec fn consistent(s: SettingsView) -> bool {
    &&& has_profile(s.model_profiles, s.active_profile)
    &&& s.llm_base_url == s.model_profiles[profile_index(s.model_profiles, s.active_profile)->0].base_url
    &&& s.llm_model == s.model_profiles[profile_index(s.model_profiles, s.active_profile)->0].model
    &&& s.api_key == s.model_profiles[profile_index(s.model_profiles, s.active_profile)->0].api_key
}

pub proof fn lemma_profile_views_update()
    ensures
        forall|x: Seq<ModelProfile>, i: int, v: ModelProfile|
            0 <= i < x.len() ==> #[trigger] profile_views(x.update(i, v)) == profile_views(x).update(i, v@),
{
    assert forall|x: Seq<ModelProfile>, i: int, v: ModelProfile|
        0 <= i < x.len() implies #[trigger] profile_views(x.update(i, v)) == profile_views(x).update(i, v@) by {
        assert(profile_views(x.update(i, v)) =~= profile_views(x).update(i, v@));
    }
}

/// A copy of a profile.
pub fn clone_profile(p: &ModelProfile) -> (r: ModelProfile)
    ensures
        r@ == p@,
{
    ModelProfile {
        id: p.id.clone(),
        name: p.name.clone(),
        backend_kind: p.backend_kind,
        base_url: p.base_url.clone(),
        model: p.model.clone(),
        api_key: clone_opt(&p.api_key),
        system_prompt: p.system_prompt.clone(),
        temperature: clone_opt(&p.temperature),
        context_hint: clone_opt(&p.context_hint),
    }
}

impl AppSettings {
    /// Settings with the default local profile, the given workspace and a
    /// timeout of 120 seconds.
    pub fn with_workspace(workspace: String) -> (s: Self)
        ensures
            s@.active_profile == default_local_profile().id,
            s@.model_profiles == seq![default_local_profile()],
            s@.llm_base_url == default_local_profile().base_url,
            s@.llm_model == default_local_profile().model,
            s@.api_key is None,
            s@.default_workspace == workspace@,
            s@.command_timeout_secs == 120,
    {
        let profile = ModelProfile::default_local();
        let mut profiles: Vec<ModelProfile> = Vec::new();
        let id = profile.id.clone();
        let base_url = profile.base_url.clone();
        let model = profile.model.clone();
        profiles.push(profile);
        let s = AppSettings {
            active_profile: id,
            model_profiles: profiles,
            llm_base_url: base_url,
            llm_model: model,
            api_key: None,
            default_workspace: workspace,
            command_timeout_secs: 120,
        };
        assert(s@.model_profiles =~= seq![default_local_profile()]);
        s
    }

    /// The index of the active profile, if a profile has the active id.
    pub fn active_profile_index(&self) -> (r: Option<usize>)
        ensures
            r matches Some(i) ==> profile_index(self@.model_profiles, self@.active_profile) == Some(
                i as int,
            ),
            r is None ==> profile_index(self@.model_profiles, self@.active_profile) is None,
    {
        let mut i: usize = 0;
        while i < self.model_profiles.len()
            invariant
                i <= self.model_profiles.len(),
                profile_index(self@.model_profiles, self@.active_profile) == profile_index_from(
                    self@.model_profiles,
                    self@.active_profile,
                    i as int,
                ),
            decreases self.model_profiles.len() - i,
        {
            if self.model_profiles[i].id == self.active_profile {
                return Some(i);
            }
            i = i + 1;
        }
        None
    }

    /// The active profile.
    pub fn active_model_profile(&self) -> (r: Option<&ModelProfile>)
        ensures
            r matches Some(p) ==> exists|i: int|
                profile_index(self@.model_profiles, self@.active_profile) == Some(i)
                    && p@ == self@.model_profiles[i],
            r is None ==> profile_index(self@.model_profiles, self@.active_profile) is None,
    {
        match self.active_profile_index() {
            Some(i) => {
                proof {
                    lemma_profile_index_from(self@.model_profiles, self@.active_profile, 0);
                }
                let p = &self.model_profiles[i];
                assert(p@ == self@.model_profiles[i as int]);
                Some(p)
            },
            None => None,
        }
    }

    /// The active profile, to change in place.
    pub fn active_model_profile_mut(&mut self) -> (r: Option<&mut ModelProfile>)
        ensures
            r is Some <==> profile_index(old(self)@.model_profiles, old(self)@.active_profile) is Some,
            r matches Some(p) ==> {
                let i = profile_index(old(self)@.model_profiles, old(self)@.active_profile)->0;
                &&& p@ == old(self)@.model_profiles[i]
                &&& final(self)@ == SettingsView {
                    model_profiles: old(self)@.model_profiles.update(i, final(p)@),
                    ..old(self)@
                }
            },
            r is None ==> final(self)@ == old(self)@,
    {
        match self.active_profile_index() {
            Some(i) => {
                proof {
                    lemma_profile_index_from(self@.model_profiles, self@.active_profile, 0);
                    lemma_profile_views_update();
                }
                Some(&mut self.model_profiles[i])
            },
            None => None,
        }
    }

    /// Makes the settings consistent: a named active profile that exists,
    /// built from the legacy fields when there is none, and legacy fields
    /// that mirror it.
    pub fn ensure_model_profiles(&mut self)
        ensures
            final(self)@ == ensured(old(self)@),
            consistent(final(self)@),
    {
        let ghost s0 = self@;
        if is_blank(self.active_profile.as_str()) {
            self.active_profile = owned("default");
            proof {
                reveal_strlit("default");
            }
        }
        let ghost s1 = self@;
        assert(s1 == with_named_active(s0));
        if self.model_profiles.len() == 0 {
            let p = ModelProfile::from_legacy(
                self.active_profile.as_str(),
                self.llm_base_url.clone(),
                self.llm_model.clone(),
                clone_opt(&self.api_key),
            );
            let ghost pv = p@;
            self.model_profiles.push(p);
            assert(self@.model_profiles =~= seq![pv]);
        }
        let ghost s2 = self@;
        assert(s2 == with_some_profile(s1));
        let i = match self.active_profile_index() {
            Some(i) => i,
            None => {
                self.active_profile = self.model_profiles[0].id.clone();
                assert(profile_index_from(self@.model_profiles, self@.active_profile, 0) == Some(
                    0int,
                ));
                0
            },
        };
        let ghost s3 = self@;
        assert(s3 == with_existing_active(s2));
        proof {
            lemma_profile_index_from(s3.model_profiles, s3.active_profile, 0);
        }
        self.llm_base_url = self.model_profiles[i].base_url.clone();
        self.llm_model = self.model_profiles[i].model.clone();
        self.api_key = clone_opt(&self.model_profiles[i].api_key);
    }
}



/// Settings whose active profile is replaced by `f` of itself.
pub open spec fn with_active_changed(s: SettingsView, p: ProfileView) -> SettingsView {
    match profile_index(s.model_profiles, s.active_profile) {
        Some(i) => SettingsView { model_profiles: s.model_profiles.update(i, p), ..s },
        None => s,
    }
}

/// The active profile of settings, or the default local profile.
pub open spec fn active_of(s: SettingsView) -> ProfileView {
    match profile_index(s.model_profiles, s.active_profile) {
        Some(i) => s.model_profiles[i],
        None => default_local_profile(),
    }
}

/// An API key that is not blank.
pub open spec fn kept_key(k: Option<Seq<char>>) -> Option<Seq<char>> {
    match k {
        Some(x) => if trim(x).len() == 0 {
            None
        } else {
            Some(x)
        },
        None => None,
    }
}

/// The message of a rejected setting update, if it is rejected: a blank
/// base URL or model, or a zero timeout.
pub open spec fn update_error(u: SettingSpec) -> Option<Seq<char>> {
    match u {
        SettingSpec::BaseUrl(v) => if trim(v).len() == 0 {
            Some("base-url cannot be empty"@)
        } else {
            None
        },
        SettingSpec::Model(v) => if trim(v).len() == 0 {
            Some("model cannot be empty"@)
        } else {
            None
        },
        SettingSpec::TimeoutSecs(n) => if n == 0 {
            Some("timeout must be greater than 0"@)
        } else {
            None
        },
        _ => None,
    }
}

/// The message of an accepted setting update.
pub open spec fn update_message(u: SettingSpec) -> Seq<char> {
    match u {
        SettingSpec::BaseUrl(_) => "base-url updated"@,
        SettingSpec::Model(_) => "model updated"@,
        SettingSpec::ApiKey(_) => "api-key updated"@,
        SettingSpec::Workspace(_) => "workspace updated"@,
        SettingSpec::TimeoutSecs(_) => "timeout updated"@,
    }
}

/// The settings after an accepted update: made consistent, the value set on
/// the active profile (base URL, model, a non-blank API key) or on the
/// settings (workspace, timeout), and made consistent again.
pub open spec fn applied(s: SettingsView, u: SettingSpec) -> SettingsView {
    let s0 = ensured(s);
    let p = active_of(s0);
    match u {
        SettingSpec::BaseUrl(v) => ensured(with_active_changed(s0, ProfileView { base_url: v, ..p })),
        SettingSpec::Model(v) => ensured(with_active_changed(s0, ProfileView { model: v, ..p })),
        SettingSpec::ApiKey(k) => ensured(with_active_changed(s0, ProfileView { api_key: kept_key(k), ..p })),
        SettingSpec::Workspace(v) => SettingsView { default_workspace: v, ..s0 },
        SettingSpec::TimeoutSecs(n) => SettingsView { command_timeout_secs: n, ..s0 },
    }
}

/// Applies a REPL setting command.
pub fn apply_setting_update(settings: &mut AppSettings, update: SettingUpdate) -> (r: Result<
    String,
    CliError,
>)
    ensures
        r is Err <==> update_error(update@) is Some,
        r matches Ok(m) ==> m@ == update_message(update@) && final(settings)@ == applied(old(settings)@, update@),
        r matches Err(e) ==> Some(error_text(e)) == update_error(update@) && final(settings)@
            == ensured(old(settings)@),
{
    settings.ensure_model_profiles();
    let ghost s0 = settings@;
    proof {
        reveal_strlit("base-url");
        reveal_strlit("model");
        reveal_strlit(" cannot be empty");
        reveal_strlit("base-url cannot be empty");
        reveal_strlit("model cannot be empty");
        assert("base-url"@ + " cannot be empty"@ =~= "base-url cannot be empty"@);
        assert("model"@ + " cannot be empty"@ =~= "model cannot be empty"@);
    }
    match update {
        SettingUpdate::BaseUrl(value) => {
            if let Err(e) = ensure_non_empty("base-url", value.as_str()) {
                return Err(e);
            }
            if let Some(profile) = settings.active_model_profile_mut() {
                profile.base_url = value;
            }
            settings.ensure_model_profiles();
            Ok(owned("base-url updated"))
        },
        SettingUpdate::Model(value) => {
            if let Err(e) = ensure_non_empty("model", value.as_str()) {
                return Err(e);
            }
            if let Some(profile) = settings.active_model_profile_mut() {
                profile.model = value;
            }
            settings.ensure_model_profiles();
            Ok(owned("model updated"))
        },
        SettingUpdate::ApiKey(value) => {
            let value = match value {
                Some(k) => if is_blank(k.as_str()) {
                    None
                } else {
                    Some(k)
                },
                None => None,
            };
            if let Some(profile) = settings.active_model_profile_mut() {
                profile.api_key = value;
            }
            settings.ensure_model_profiles();
            Ok(owned("api-key updated"))
        },
        SettingUpdate::Workspace(value) => {
            settings.default_workspace = value;
            Ok(owned("workspace updated"))
        },
        SettingUpdate::TimeoutSecs(value) => {
            if value == 0 {
                return Err(CliError::TimeoutZero);
            }
            settings.command_timeout_secs = value;
            Ok(owned("timeout updated"))
        },
    }
}


/// An edit made to the active profile in a settings panel.
#[derive(Clone, Debug, PartialEq, Eq)]
pub enum ProfileEdit {
    BaseUrl(String),
    Model(String),
    ApiKey(String),
}

/// The settings after a panel edit: made consistent, the value set on the
/// active profile (an empty API key clears it), and made consistent again.
pub open spec fn edited(s: SettingsView, e: ProfileEdit) -> SettingsView {
    let s0 = ensured(s);
    let p = active_of(s0);
    match e {
        ProfileEdit::BaseUrl(v) => ensured(with_active_changed(s0, ProfileView { base_url: v@, ..p })),
        ProfileEdit::Model(v) => ensured(with_active_changed(s0, ProfileView { model: v@, ..p })),
        ProfileEdit::ApiKey(k) => ensured(
            with_active_changed(
                s0,
                ProfileView { api_key: if k@.len() == 0 { None } else { Some(k@) }, ..p },
            ),
        ),
    }
}

/// Applies a panel edit to the active profile. Unlike the REPL's `/set`, a
/// blank value is taken as it is, and an empty API key clears the key.
pub fn edit_active_profile(settings: &mut AppSettings, edit: ProfileEdit)
    ensures
        final(settings)@ == edited(old(settings)@, edit),
{
    settings.ensure_model_profiles();
    match edit {
        ProfileEdit::BaseUrl(value) => {
            if let Some(profile) = settings.active_model_profile_mut() {
                profile.base_url = value;
            }
        },
        ProfileEdit::Model(value) => {
            if let Some(profile) = settings.active_model_profile_mut() {
                profile.model = value;
            }
        },
        ProfileEdit::ApiKey(value) => {
            let key = if crate::text::to_chars(value.as_str()).len() == 0 {
                None
            } else {
                Some(value)
            };
            if let Some(profile) = settings.active_model_profile_mut() {
                profile.api_key = key;
            }
        },
    }
    settings.ensure_model_profiles();
}

/// A copy of a list of profiles.
pub fn clone_profiles(ps: &Vec<ModelProfile>) -> (r: Vec<ModelProfile>)
    ensures
        profile_views(r@) == profile_views(ps@),
{
    let mut r: Vec<ModelProfile> = Vec::new();
    let mut i: usize = 0;
    while i < ps.len()
        invariant
            i <= ps.len(),
            profile_views(r@) == profile_views(ps@).take(i as int),
        decreases ps.len() - i,
    {
        let ghost old_r = r@;
        r.push(clone_profile(&ps[i]));
        assert(profile_views(r@) =~= profile_views(old_r).push(ps@[i as int]@));
        assert(profile_views(ps@).take(i + 1) =~= profile_views(ps@).take(i as int).push(ps@[i as int]@));
        i = i + 1;
    }
    assert(profile_views(ps@).take(i as int) =~= profile_views(ps@));
    r
}

/// A copy of the settings.
pub fn clone_settings(s: &AppSettings) -> (r: AppSettings)
    ensures
        r@ == s@,
{
    AppSettings {
        active_profile: s.active_profile.clone(),
        model_profiles: clone_profiles(&s.model_profiles),
        llm_base_url: s.llm_base_url.clone(),
        llm_model: s.llm_model.clone(),
        api_key: clone_opt(&s.api_key),
        default_workspace: s.default_workspace.clone(),
        command_timeout_secs: s.command_timeout_secs,
    }
}

/// The profile that `add_local_model_profile` builds.
pub open spec fn local_profile(
    id: Seq<char>,
    backend: BackendKind,
    base_url: Seq<char>,
    model: Seq<char>,
    name: Option<Seq<char>>,
) -> ProfileView {
    ProfileView {
        id: id,
        name: match name {
            Some(n) => n,
            None => model,
        },
        backend_kind: backend,
        base_url: base_url,
        model: model,
        api_key: None,
        system_prompt: prompt_for(model),
        temperature: None,
        context_hint: Some(backend_name(backend) + " local profile"@),
    }
}

/// The message of a rejected new profile: a blank id, base URL or model.
pub open spec fn add_error(id: Seq<char>, base_url: Seq<char>, model: Seq<char>) -> Option<Seq<char>> {
    if trim(id).len() == 0 {
        Some("id cannot be empty"@)
    } else if trim(base_url).len() == 0 {
        Some("base-url cannot be empty"@)
    } else if trim(model).len() == 0 {
        Some("model cannot be empty"@)
    } else {
        None
    }
}

/// Consistent settings with `p` in place of the first profile with its id,
/// or appended when there is none.
pub open spec fn with_profile(s: SettingsView, p: ProfileView) -> SettingsView {
    let s0 = ensured(s);
    match profile_index(s0.model_profiles, p.id) {
        Some(i) => SettingsView { model_profiles: s0.model_profiles.update(i, p), ..s0 },
        None => SettingsView { model_profiles: s0.model_profiles.push(p), ..s0 },
    }
}

/// The index of the first profile with the given id.
fn index_of_profile(ps: &Vec<ModelProfile>, id: &str) -> (r: Option<usize>)
    ensures
        r matches Some(i) ==> profile_index(profile_views(ps@), id@) == Some(i as int),
        r is None ==> profile_index(profile_views(ps@), id@) is None,
{
    let mut i: usize = 0;
    while i < ps.len()
        invariant
            i <= ps.len(),
            profile_index(profile_views(ps@), id@) == profile_index_from(profile_views(ps@), id@, i as int),
        decreases ps.len() - i,
    {
        if crate::text::str_eq(ps[i].id.as_str(), id) {
            return Some(i);
        }
        i = i + 1;
    }
    None
}

/// Adds a local model profile, or replaces the profile with the same id.
pub fn add_local_model_profile(
    settings: &mut AppSettings,
    id: &str,
    backend: BackendKind,
    base_url: &str,
    model: &str,
    name: Option<&str>,
) -> (r: Result<String, CliError>)
    ensures
        r is Err <==> add_error(id@, base_url@, model@) is Some,
        r matches Err(e) ==> Some(error_text(e)) == add_error(id@, base_url@, model@)
            && final(settings)@ == old(settings)@,
        r matches Ok(m) ==> m@ == "model profile added: "@ + id@ + "\n"@ && final(settings)@
            == with_profile(
            old(settings)@,
            local_profile(id@, backend, base_url@, model@, match name {
                Some(n) => Some(n@),
                None => None,
            }),
        ),
{
    proof {
        reveal_strlit("id");
        reveal_strlit("base-url");
        reveal_strlit("model");
        reveal_strlit(" cannot be empty");
        reveal_strlit("id cannot be empty");
        reveal_strlit("base-url cannot be empty");
        reveal_strlit("model cannot be empty");
        assert("id"@ + " cannot be empty"@ =~= "id cannot be empty"@);
        assert("base-url"@ + " cannot be empty"@ =~= "base-url cannot be empty"@);
        assert("model"@ + " cannot be empty"@ =~= "model cannot be empty"@);
    }
    ensure_non_empty("id", id)?;
    ensure_non_empty("base-url", base_url)?;
    ensure_non_empty("model", model)?;
    settings.ensure_model_profiles();
    let mut hint = owned(backend.as_str());
    hint.append(" local profile");
    let profile = ModelProfile {
        id: owned(id),
        name: match name {
            Some(n) => owned(n),
            None => owned(model),
        },
        backend_kind: backend,
        base_url: owned(base_url),
        model: owned(model),
        api_key: None,
        system_prompt: prompt_for_model(model),
        temperature: None,
        context_hint: Some(hint),
    };
    let ghost pv = profile@;
    proof {
        lemma_profile_views_update();
    }
    match index_of_profile(&settings.model_profiles, id) {
        Some(i) => {
            proof {
                lemma_profile_index_from(settings@.model_profiles, id@, 0);
            }
            settings.model_profiles.set(i, profile);
        },
        None => {
            let ghost before = settings.model_profiles@;
            settings.model_profiles.push(profile);
            assert(profile_views(settings.model_profiles@) =~= profile_views(before).push(pv));
        },
    }
    let mut m = owned("model profile added: ");
    m.append(id);
    m.append("\n");
    Ok(m)
}


/// Makes the profile with the given id active.
pub fn use_model_profile(settings: &mut AppSettings, id: &str) -> (r: Result<String, CliError>)
    ensures
        r is Ok <==> has_profile(ensured(old(settings)@).model_profiles, id@),
        r matches Ok(m) ==> m@ == "active model profile: "@ + id@ + "\n"@ && final(settings)@
            == ensured(SettingsView { active_profile: id@, ..ensured(old(settings)@) }),
        r matches Err(e) ==> (e matches CliError::ProfileNotFound(x) && x@ == id@)
            && final(settings)@ == ensured(old(settings)@),
{
    settings.ensure_model_profiles();
    if index_of_profile(&settings.model_profiles, id).is_none() {
        return Err(CliError::ProfileNotFound(owned(id)));
    }
    settings.active_profile = owned(id);
    settings.ensure_model_profiles();
    let mut m = owned("active model profile: ");
    m.append(id);
    m.append("\n");
    Ok(m)
}

/// One line of the profile list: `*` for the active profile, `-` for others.
pub open spec fn profile_line(p: ProfileView, active: Seq<char>) -> Seq<char> {
    (if p.id == active {
        "*"@
    } else {
        "-"@
    }) + " "@ + p.id + " ["@ + backend_name(p.backend_kind) + "] "@ + p.model + " @ "@
        + p.base_url + "\n"@
}

/// The lines of the profile list.
pub open spec fn profile_lines(ps: Seq<ProfileView>, active: Seq<char>) -> Seq<char>
    decreases ps.len(),
{
    if ps.len() == 0 {
        seq![]
    } else {
        profile_lines(ps.drop_last(), active) + profile_line(ps.last(), active)
    }
}

/// The `/models` listing of consistent settings.
pub open spec fn profiles_listing(s: SettingsView) -> Seq<char> {
    let s0 = ensured(s);
    "Model profiles\n"@ + profile_lines(s0.model_profiles, s0.active_profile)
}

fn push_profile_line(out: &mut String, p: &ModelProfile, active: &String)
    ensures
        final(out)@ == old(out)@ + profile_line(p@, active@),
{
    if p.id == *active {
        out.append("*");
    } else {
        out.append("-");
    }
    out.append(" ");
    out.append(p.id.as_str());
    out.append(" [");
    out.append(p.backend_kind.as_str());
    out.append("] ");
    out.append(p.model.as_str());
    out.append(" @ ");
    out.append(p.base_url.as_str());
    out.append("\n");
}

fn push_profile_lines(out: &mut String, ps: &Vec<ModelProfile>, active: &String)
    ensures
        final(out)@ == old(out)@ + profile_lines(profile_views(ps@), active@),
{
    let mut i: usize = 0;
    while i < ps.len()
        invariant
            i <= ps.len(),
            out@ == old(out)@ + profile_lines(profile_views(ps@).take(i as int), active@),
        decreases ps.len() - i,
    {
        push_profile_line(out, &ps[i], active);
        assert(profile_views(ps@).take(i + 1).drop_last() =~= profile_views(ps@).take(i as int));
        i = i + 1;
    }
    assert(profile_views(ps@).take(i as int) =~= profile_views(ps@));
}

/// Lists the model profiles, marking the active one.
pub fn model_profiles_output(settings: &AppSettings) -> (out: String)
    ensures
        out@ == profiles_listing(settings@),
{
    let mut s = clone_settings(settings);
    s.ensure_model_profiles();
    let mut out = owned("Model profiles\n");
    push_profile_lines(&mut out, &s.model_profiles, &s.active_profile);
    out
}

/// How a key is shown: set when it is present and not empty.
pub open spec fn key_marker(k: Option<Seq<char>>) -> Seq<char> {
    match k {
        Some(x) => if x.len() == 0 {
            "<none>"@
        } else {
            "<set>"@
        },
        None => "<none>"@,
    }
}

fn key_marker_text(k: &Option<String>) -> (s: &'static str)
    ensures
        s@ == key_marker(opt_view(*k)),
{
    match k {
        Some(x) => if x.as_str().is_empty() {
            "<none>"
        } else {
            "<set>"
        },
        None => "<none>",
    }
}

/// Whether a system prompt is the default one.
pub open spec fn prompt_marker(p: Seq<char>) -> Seq<char> {
    if p == default_prompt_text() {
        "default"@
    } else {
        "custom"@
    }
}

/// The `/model show` text for settings.
pub open spec fn active_profile_listing(s: SettingsView) -> Seq<char> {
    let s0 = ensured(s);
    match profile_index(s0.model_profiles, s0.active_profile) {
        None => "Active model profile\nmissing\n"@,
        Some(i) => {
            let p = s0.model_profiles[i];
            "Active model profile\nid: "@ + p.id + "\nname: "@ + p.name + "\nbackend: "@
                + backend_name(p.backend_kind) + "\nbase-url: "@ + p.base_url + "\nmodel: "@
                + p.model + "\napi-key: "@ + key_marker(p.api_key) + "\ntemperature: "@ + (
            match p.temperature {
                Some(t) => t,
                None => "<default>"@,
            }) + "\nprompt: "@ + prompt_marker(p.system_prompt) + "\n"@
        },
    }
}

/// Shows the active model profile.
pub fn active_model_profile_output(settings: &AppSettings) -> (out: String)
    ensures
        out@ == active_profile_listing(settings@),
{
    let mut s = clone_settings(settings);
    s.ensure_model_profiles();
    let i = match s.active_profile_index() {
        Some(i) => i,
        None => {
            return owned("Active model profile\nmissing\n");
        },
    };
    proof {
        lemma_profile_index_from(s@.model_profiles, s@.active_profile, 0);
    }
    let p = &s.model_profiles[i];
    let mut out = owned("Active model profile\nid: ");
    out.append(p.id.as_str());
    out.append("\nname: ");
    out.append(p.name.as_str());
    out.append("\nbackend: ");
    out.append(p.backend_kind.as_str());
    out.append("\nbase-url: ");
    out.append(p.base_url.as_str());
    out.append("\nmodel: ");
    out.append(p.model.as_str());
    out.append("\napi-key: ");
    out.append(key_marker_text(&p.api_key));
    out.append("\ntemperature: ");
    match &p.temperature {
        Some(t) => out.append(t.as_str()),
        None => out.append("<default>"),
    }
    out.append("\nprompt: ");
    let default_prompt = crate::types::default_system_prompt();
    if p.system_prompt == default_prompt {
        out.append("default");
    } else {
        out.append("custom");
    }
    out.append("\n");
    out
}

/// The settings summary shown at REPL start and by `/settings`.
pub open spec fn summary_text(s: SettingsView, path: Seq<char>) -> Seq<char> {
    let s0 = ensured(s);
    let found = profile_index(s0.model_profiles, s0.active_profile);
    "Settings\npath: "@ + path + "\nactive-profile: "@ + s0.active_profile + "\nbackend: "@ + (
    match found {
        Some(i) => backend_name(s0.model_profiles[i].backend_kind),
        None => "missing"@,
    }) + "\nbase-url: "@ + s0.llm_base_url + "\nmodel: "@ + s0.llm_model + "\napi-key: "@
        + key_marker(s0.api_key) + "\nprompt: "@ + (match found {
        Some(i) => if s0.model_profiles[i].system_prompt != default_prompt_text() {
            "custom"@
        } else {
            "default"@
        },
        None => "default"@,
    }) + "\nworkspace: "@ + s0.default_workspace + "\ntimeout: "@ + decimal(
        s0.command_timeout_secs as nat,
    ) + "s\n"@
}

/// Summarises the settings and where they are stored.
pub fn settings_summary(settings: &AppSettings, settings_path: &str) -> (out: String)
    ensures
        out@ == summary_text(settings@, settings_path@),
{
    let mut s = clone_settings(settings);
    s.ensure_model_profiles();
    let found = s.active_profile_index();
    proof {
        lemma_profile_index_from(s@.model_profiles, s@.active_profile, 0);
    }
    let mut out = owned("Settings\npath: ");
    out.append(settings_path);
    out.append("\nactive-profile: ");
    out.append(s.active_profile.as_str());
    out.append("\nbackend: ");
    match found {
        Some(i) => out.append(s.model_profiles[i].backend_kind.as_str()),
        None => out.append("missing"),
    }
    out.append("\nbase-url: ");
    out.append(s.llm_base_url.as_str());
    out.append("\nmodel: ");
    out.append(s.llm_model.as_str());
    out.append("\napi-key: ");
    out.append(key_marker_text(&s.api_key));
    out.append("\nprompt: ");
    let default_prompt = crate::types::default_system_prompt();
    match found {
        Some(i) => if s.model_profiles[i].system_prompt != default_prompt {
            out.append("custom");
        } else {
            out.append("default");
        },
        None => out.append("default"),
    }
    out.append("\nworkspace: ");
    out.append(s.default_workspace.as_str());
    out.append("\ntimeout: ");
    let n = u64_text(s.command_timeout_secs);
    out.append(n.as_str());
    out.append("s\n");
    out
}

/// Law: after `ensure_model_profiles` a profile with the active id exists
/// and the legacy fields mirror it.
pub proof fn law_ensured_is_consistent(s: SettingsView)
    ensures
        has_profile(ensured(s).model_profiles, ensured(s).active_profile),
        ensured(s).llm_base_url == active_of(ensured(s)).base_url,
        ensured(s).llm_model == active_of(ensured(s)).model,
        ensured(s).api_key == active_of(ensured(s)).api_key,
{
    let s1 = with_named_active(s);
    let s2 = with_some_profile(s1);
    let s3 = with_existing_active(s2);
    lemma_profile_index_from(s3.model_profiles, s3.active_profile, 0);
    if !has_profile(s2.model_profiles, s2.active_profile) {
        assert(profile_index_from(s3.model_profiles, s3.active_profile, 0) == Some(0int));
    }
}

/// Law: `ensure_model_profiles` changes nothing more when run again, except
/// when the active id it settled on is blank and a profile named `default`
/// exists (then a second run moves to that profile).
pub proof fn law_ensure_is_idempotent(s: SettingsView)
    requires
        trim(ensured(s).active_profile).len() != 0 || !has_profile(
            ensured(s).model_profiles,
            "default"@,
        ),
    ensures
        ensured(ensured(s)) == ensured(s),
{
    law_ensured_is_consistent(s);
    let e = ensured(s);
    lemma_profile_index_from(e.model_profiles, e.active_profile, 0);
    if trim(e.active_profile).len() != 0 {
        assert(with_named_active(e) == e);
        assert(with_some_profile(e) == e);
        assert(with_existing_active(e) == e);
        assert(with_mirrored_fields(e) =~= e);
    } else {
        reveal_strlit("default");
        lemma_trim_fixed("default"@);
        let s1 = with_named_active(s);
        let s2 = with_some_profile(s1);
        let s3 = with_existing_active(s2);
        assert(trim(s1.active_profile).len() != 0);
        assert(e.active_profile == s3.active_profile);
        assert(e.model_profiles == s3.model_profiles);
        assert(e.active_profile == e.model_profiles[0].id);
        let w1 = with_named_active(e);
        assert(w1.active_profile == "default"@);
        assert(with_some_profile(w1) == w1);
        assert(with_existing_active(w1) =~= e);
        assert(with_mirrored_fields(e) =~= e);
    }
}

} // verus!

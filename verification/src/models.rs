//! The persisted data shapes: apps (`WebApp`), their subspaces, icon style and
//! the whole `AppConfig`, plus `WebAppView`, the shape handed to the UI (the
//! PIN hash replaced by a plain `has_pin`).
use vstd::prelude::*;

verus! {

pub struct IconStyle {
    /// "cover" (fill the square, cropping) or "contain" (letterboxed).
    pub fit: String,
    pub rounded: bool,
    /// Inset from each edge, as a percent of the icon's size (0-40).
    pub padding_percent: u8,
}

pub struct Subspace {
    pub id: String,
    pub name: String,
    /// Subspaces sharing the same session_group share cookies/storage.
    pub session_group: String,
    /// Path to a locally stored icon file.
    pub icon: Option<String>,
    /// Hex color behind the icon, or None for a transparent background.
    pub icon_background_color: Option<String>,
    /// Overrides the app's URL as this subspace's starting page, if set.
    pub start_url: Option<String>,
}

pub struct WebApp {
    pub id: String,
    pub name: String,
    pub url: String,
    pub icon: Option<String>,
    pub icon_style: IconStyle,
    pub icon_background_color: Option<String>,
    /// Folder name under data/webapps/ holding this app's session data;
    /// fixed at creation time and never changed by a rename.
    pub data_slug: String,
    pub run_in_background: bool,
    pub eager_load_subspaces: bool,
    pub hibernate_delay_secs: u64,
    /// Hash of the PIN required to open this app, or None if unprotected.
    pub pin_hash: Option<String>,
    pub pin_lock_on_background: bool,
    pub pin_lock_delay_secs: u64,
    /// Unix timestamp (seconds) of creation.
    pub created_at: i64,
    pub subspaces: Vec<Subspace>,
}

/// `WebApp` as sent to the UI: everything but `pin_hash`, which is replaced
/// by `has_pin`.
pub struct WebAppView {
    pub id: String,
    pub name: String,
    pub url: String,
    pub icon: Option<String>,
    pub icon_style: IconStyle,
    pub icon_background_color: Option<String>,
    pub data_slug: String,
    pub run_in_background: bool,
    pub eager_load_subspaces: bool,
    pub hibernate_delay_secs: u64,
    pub has_pin: bool,
    pub pin_lock_on_background: bool,
    pub pin_lock_delay_secs: u64,
    pub created_at: i64,
    pub subspaces: Vec<Subspace>,
}

pub struct AppConfig {
    pub apps: Vec<WebApp>,
    /// API key for the macosicons.com icon search.
    pub macos_icons_api_key: Option<String>,
}

pub open spec fn opt_view(o: Option<String>) -> Option<Seq<char>> {
    match o {
        Some(s) => Some(s@),
        None => None,
    }
}

pub ghost struct IconStyleV {
    pub fit: Seq<char>,
    pub rounded: bool,
    pub padding_percent: u8,
}

pub ghost struct SubspaceV {
    pub id: Seq<char>,
    pub name: Seq<char>,
    pub session_group: Seq<char>,
    pub icon: Option<Seq<char>>,
    pub icon_background_color: Option<Seq<char>>,
    pub start_url: Option<Seq<char>>,
}

pub ghost struct WebAppV {
    pub id: Seq<char>,
    pub name: Seq<char>,
    pub url: Seq<char>,
    pub icon: Option<Seq<char>>,
    pub icon_style: IconStyleV,
    pub icon_background_color: Option<Seq<char>>,
    pub data_slug: Seq<char>,
    pub run_in_background: bool,
    pub eager_load_subspaces: bool,
    pub hibernate_delay_secs: u64,
    pub pin_hash: Option<Seq<char>>,
    pub pin_lock_on_background: bool,
    pub pin_lock_delay_secs: u64,
    pub created_at: i64,
    pub subspaces: Seq<SubspaceV>,
}

pub ghost struct WebAppViewV {
    pub id: Seq<char>,
    pub name: Seq<char>,
    pub url: Seq<char>,
    pub icon: Option<Seq<char>>,
    pub icon_style: IconStyleV,
    pub icon_background_color: Option<Seq<char>>,
    pub data_slug: Seq<char>,
    pub run_in_background: bool,
    pub eager_load_subspaces: bool,
    pub hibernate_delay_secs: u64,
    pub has_pin: bool,
    pub pin_lock_on_background: bool,
    pub pin_lock_delay_secs: u64,
    pub created_at: i64,
    pub subspaces: Seq<SubspaceV>,
}

pub ghost struct AppConfigV {
    pub apps: Seq<WebAppV>,
    pub macos_icons_api_key: Option<Seq<char>>,
}

impl View for IconStyle {
    type V = IconStyleV;

    open spec fn view(&self) -> IconStyleV {
        IconStyleV { fit: self.fit@, rounded: self.rounded, padding_percent: self.padding_percent }
    }
}

impl View for Subspace {
    type V = SubspaceV;

    open spec fn view(&self) -> SubspaceV {
        SubspaceV {
            id: self.id@,
            name: self.name@,
            session_group: self.session_group@,
            icon: opt_view(self.icon),
            icon_background_color: opt_view(self.icon_background_color),
            start_url: opt_view(self.start_url),
        }
    }
}

pub open spec fn subs_view(v: Seq<Subspace>) -> Seq<SubspaceV> {
    v.map_values(|s: Subspace| s@)
}

impl View for WebApp {
    type V = WebAppV;

    open spec fn view(&self) -> WebAppV {
        WebAppV {
            id: self.id@,
            name: self.name@,
            url: self.url@,
            icon: opt_view(self.icon),
            icon_style: self.icon_style@,
            icon_background_color: opt_view(self.icon_background_color),
            data_slug: self.data_slug@,
            run_in_background: self.run_in_background,
            eager_load_subspaces: self.eager_load_subspaces,
            hibernate_delay_secs: self.hibernate_delay_secs,
            pin_hash: opt_view(self.pin_hash),
            pin_lock_on_background: self.pin_lock_on_background,
            pin_lock_delay_secs: self.pin_lock_delay_secs,
            created_at: self.created_at,
            subspaces: subs_view(self.subspaces@),
        }
    }
}

impl View for WebAppView {
    type V = WebAppViewV;

    open spec fn view(&self) -> WebAppViewV {
        WebAppViewV {
            id: self.id@,
            name: self.name@,
            url: self.url@,
            icon: opt_view(self.icon),
            icon_style: self.icon_style@,
            icon_background_color: opt_view(self.icon_background_color),
            data_slug: self.data_slug@,
            run_in_background: self.run_in_background,
            eager_load_subspaces: self.eager_load_subspaces,
            hibernate_delay_secs: self.hibernate_delay_secs,
            has_pin: self.has_pin,
            pin_lock_on_background: self.pin_lock_on_background,
            pin_lock_delay_secs: self.pin_lock_delay_secs,
            created_at: self.created_at,
            subspaces: subs_view(self.subspaces@),
        }
    }
}

pub open spec fn apps_view(v: Seq<WebApp>) -> Seq<WebAppV> {
    v.map_values(|a: WebApp| a@)
}

impl View for AppConfig {
    type V = AppConfigV;

    open spec fn view(&self) -> AppConfigV {
        AppConfigV { apps: apps_view(self.apps@), macos_icons_api_key: opt_view(self.macos_icons_api_key) }
    }
}

pub open spec fn default_icon_background_view() -> Seq<char> {
    "#2a2a30"@
}

/// The default icon swatch color, `Some("#2a2a30")`.
pub fn default_icon_background() -> (r: Option<String>)
    ensures
        r matches Some(s) && s@ == default_icon_background_view(),
{
    Some(String::from_str("#2a2a30"))
}

/// Serde default for `WebApp::eager_load_subspaces`.
pub fn default_true() -> (r: bool)
    ensures
        r,
{
    true
}

/// Serde default for `WebApp::hibernate_delay_secs`.
pub fn default_hibernate_delay_secs() -> (r: u64)
    ensures
        r == 300,
{
    300
}

impl IconStyle {
    pub open spec fn is_default(&self) -> bool {
        &&& self.fit@ == "cover"@
        &&& self.rounded
        &&& self.padding_percent == 0
    }

    /// The default style: "cover", rounded, no padding.
    pub fn default_style() -> (r: IconStyle)
        ensures
            r.is_default(),
    {
        IconStyle { fit: String::from_str("cover"), rounded: true, padding_percent: 0 }
    }

    pub fn copy(&self) -> (r: IconStyle)
        ensures
            r@ == self@,
    {
        IconStyle { fit: self.fit.clone(), rounded: self.rounded, padding_percent: self.padding_percent }
    }
}

impl Default for IconStyle {
    fn default() -> (r: IconStyle)
        ensures
            r.is_default(),
    {
        IconStyle::default_style()
    }
}

impl AppConfig {
    /// A configuration with no apps and no API key.
    pub fn empty() -> (r: AppConfig)
        ensures
            r.apps@.len() == 0,
            r.macos_icons_api_key is None,
    {
        AppConfig { apps: Vec::new(), macos_icons_api_key: None }
    }
}

impl Default for AppConfig {
    fn default() -> (r: AppConfig)
        ensures
            r.apps@.len() == 0,
            r.macos_icons_api_key is None,
    {
        AppConfig::empty()
    }
}

pub fn copy_opt_string(o: &Option<String>) -> (r: Option<String>)
    ensures
        opt_view(r) == opt_view(*o),
{
    match o {
        Some(s) => Some(s.clone()),
        None => None,
    }
}

impl Subspace {
    pub fn copy(&self) -> (r: Subspace)
        ensures
            r@ == self@,
    {
        Subspace {
            id: self.id.clone(),
            name: self.name.clone(),
            session_group: self.session_group.clone(),
            icon: copy_opt_string(&self.icon),
            icon_background_color: copy_opt_string(&self.icon_background_color),
            start_url: copy_opt_string(&self.start_url),
        }
    }
}

pub fn copy_subspaces(v: &Vec<Subspace>) -> (r: Vec<Subspace>)
    ensures
        subs_view(r@) == subs_view(v@),
{
    let mut r: Vec<Subspace> = Vec::new();
    let mut i: usize = 0;
    while i < v.len()
        invariant
            i <= v.len(),
            subs_view(r@) == subs_view(v@.take(i as int)),
        decreases v.len() - i,
    {
        r.push(v[i].copy());
        assert(subs_view(v@.take(i + 1)) =~= subs_view(v@.take(i as int)).push(v@[i as int]@));
        assert(subs_view(r@) =~= subs_view(v@.take(i + 1)));
        i = i + 1;
    }
    assert(v@.take(v.len() as int) =~= v@);
    r
}

impl WebApp {
    pub fn copy(&self) -> (r: WebApp)
        ensures
            r@ == self@,
    {
        WebApp {
            id: self.id.clone(),
            name: self.name.clone(),
            url: self.url.clone(),
            icon: copy_opt_string(&self.icon),
            icon_style: self.icon_style.copy(),
            icon_background_color: copy_opt_string(&self.icon_background_color),
            data_slug: self.data_slug.clone(),
            run_in_background: self.run_in_background,
            eager_load_subspaces: self.eager_load_subspaces,
            hibernate_delay_secs: self.hibernate_delay_secs,
            pin_hash: copy_opt_string(&self.pin_hash),
            pin_lock_on_background: self.pin_lock_on_background,
            pin_lock_delay_secs: self.pin_lock_delay_secs,
            created_at: self.created_at,
            subspaces: copy_subspaces(&self.subspaces),
        }
    }
}

/// The UI-facing view of an app.
pub open spec fn spec_view_of(app: WebAppV) -> WebAppViewV {
    WebAppViewV {
        id: app.id,
        name: app.name,
        url: app.url,
        icon: app.icon,
        icon_style: app.icon_style,
        icon_background_color: app.icon_background_color,
        data_slug: app.data_slug,
        run_in_background: app.run_in_background,
        eager_load_subspaces: app.eager_load_subspaces,
        hibernate_delay_secs: app.hibernate_delay_secs,
        has_pin: app.pin_hash is Some,
        pin_lock_on_background: app.pin_lock_on_background,
        pin_lock_delay_secs: app.pin_lock_delay_secs,
        created_at: app.created_at,
        subspaces: app.subspaces,
    }
}

impl WebAppView {
    /// `WebAppView::from(&WebApp)`: copies every field but the PIN hash.
    pub fn from_app(app: &WebApp) -> (r: WebAppView)
        ensures
            r@ == spec_view_of(app@),
    {
        WebAppView {
            id: app.id.clone(),
            name: app.name.clone(),
            url: app.url.clone(),
            icon: copy_opt_string(&app.icon),
            icon_style: app.icon_style.copy(),
            icon_background_color: copy_opt_string(&app.icon_background_color),
            data_slug: app.data_slug.clone(),
            run_in_background: app.run_in_background,
            eager_load_subspaces: app.eager_load_subspaces,
            hibernate_delay_secs: app.hibernate_delay_secs,
            has_pin: app.pin_hash.is_some(),
            pin_lock_on_background: app.pin_lock_on_background,
            pin_lock_delay_secs: app.pin_lock_delay_secs,
            created_at: app.created_at,
            subspaces: copy_subspaces(&app.subspaces),
        }
    }
}

/// `i` is the first position of an app with id `id`.
pub open spec fn is_first_app(apps: Seq<WebAppV>, id: Seq<char>, i: int) -> bool {
    &&& 0 <= i < apps.len()
    &&& apps[i].id == id
    &&& forall|k: int| 0 <= k < i ==> apps[k].id != id
}

/// Position of the first app with id `id`, or -1 when there is none
/// (what `apps.iter().find(|a| a.id == id)` lands on).
pub open spec fn app_pos(apps: Seq<WebAppV>, id: Seq<char>) -> int {
    if exists|i: int| is_first_app(apps, id, i) {
        choose|i: int| is_first_app(apps, id, i)
    } else {
        -1
    }
}

/// `i` is the first position of a subspace with id `id`.
pub open spec fn is_first_subspace(subs: Seq<SubspaceV>, id: Seq<char>, i: int) -> bool {
    &&& 0 <= i < subs.len()
    &&& subs[i].id == id
    &&& forall|k: int| 0 <= k < i ==> subs[k].id != id
}

/// Position of the first subspace with id `id`, or -1.
pub open spec fn sub_pos(subs: Seq<SubspaceV>, id: Seq<char>) -> int {
    if exists|i: int| is_first_subspace(subs, id, i) {
        choose|i: int| is_first_subspace(subs, id, i)
    } else {
        -1
    }
}

pub proof fn lemma_app_pos(apps: Seq<WebAppV>, id: Seq<char>, i: int)
    requires
        is_first_app(apps, id, i),
    ensures
        app_pos(apps, id) == i,
{
    let j = app_pos(apps, id);
    assert(is_first_app(apps, id, j));
    if j < i {
        assert(apps[j].id != id);
    }
    if i < j {
        assert(apps[i].id != id);
    }
}

pub proof fn lemma_sub_pos(subs: Seq<SubspaceV>, id: Seq<char>, i: int)
    requires
        is_first_subspace(subs, id, i),
    ensures
        sub_pos(subs, id) == i,
{
    let j = sub_pos(subs, id);
    assert(is_first_subspace(subs, id, j));
    if j < i {
        assert(subs[j].id != id);
    }
    if i < j {
        assert(subs[i].id != id);
    }
}

/// What `sub_pos` returns is either -1 or the first match.
pub proof fn lemma_sub_pos_found(subs: Seq<SubspaceV>, id: Seq<char>)
    ensures
        sub_pos(subs, id) >= -1,
        sub_pos(subs, id) >= 0 ==> is_first_subspace(subs, id, sub_pos(subs, id)),
{
}

/// What `app_pos` returns is either -1 or the first match.
pub proof fn lemma_app_pos_found(apps: Seq<WebAppV>, id: Seq<char>)
    ensures
        app_pos(apps, id) >= -1,
        app_pos(apps, id) >= 0 ==> is_first_app(apps, id, app_pos(apps, id)),
{
}

/// `app_pos` looks at the ids alone.
pub proof fn lemma_app_pos_same_ids(a1: Seq<WebAppV>, a2: Seq<WebAppV>, id: Seq<char>)
    requires
        a1.len() == a2.len(),
        forall|q: int| #![trigger a1[q]] #![trigger a2[q]] 0 <= q < a1.len() ==> a1[q].id == a2[q].id,
    ensures
        app_pos(a1, id) == app_pos(a2, id),
{
    if exists|i: int| is_first_app(a1, id, i) {
        let i = choose|i: int| is_first_app(a1, id, i);
        assert(is_first_app(a2, id, i));
        lemma_app_pos(a1, id, i);
        lemma_app_pos(a2, id, i);
    } else if exists|i: int| is_first_app(a2, id, i) {
        let i = choose|i: int| is_first_app(a2, id, i);
        assert(is_first_app(a1, id, i));
    }
}

/// `sub_pos` looks at the ids alone.
pub proof fn lemma_sub_pos_same_ids(s1: Seq<SubspaceV>, s2: Seq<SubspaceV>, id: Seq<char>)
    requires
        s1.len() == s2.len(),
        forall|q: int| #![trigger s1[q]] #![trigger s2[q]] 0 <= q < s1.len() ==> s1[q].id == s2[q].id,
    ensures
        sub_pos(s1, id) == sub_pos(s2, id),
{
    if exists|i: int| is_first_subspace(s1, id, i) {
        let i = choose|i: int| is_first_subspace(s1, id, i);
        assert(is_first_subspace(s2, id, i));
        lemma_sub_pos(s1, id, i);
        lemma_sub_pos(s2, id, i);
    } else if exists|i: int| is_first_subspace(s2, id, i) {
        let i = choose|i: int| is_first_subspace(s2, id, i);
        assert(is_first_subspace(s1, id, i));
    }
}

/// Index of the first app with the given id.
pub fn find_app(apps: &Vec<WebApp>, id: &str) -> (r: Option<usize>)
    ensures
        match r {
            Some(i) => i as int == app_pos(apps_view(apps@), id@) && 0 <= i < apps@.len(),
            None => app_pos(apps_view(apps@), id@) == -1,
        },
{
    let mut i: usize = 0;
    while i < apps.len()
        invariant
            i <= apps.len(),
            forall|k: int| 0 <= k < i ==> apps_view(apps@)[k].id != id@,
        decreases apps.len() - i,
    {
        if crate::text::str_eq(apps[i].id.as_str(), id) {
            proof {
                lemma_app_pos(apps_view(apps@), id@, i as int);
            }
            return Some(i);
        }
        i = i + 1;
    }
    None
}

/// Index of the first subspace with the given id.
pub fn find_subspace(subs: &Vec<Subspace>, id: &str) -> (r: Option<usize>)
    ensures
        match r {
            Some(i) => i as int == sub_pos(subs_view(subs@), id@) && 0 <= i < subs@.len(),
            None => sub_pos(subs_view(subs@), id@) == -1,
        },
{
    let mut i: usize = 0;
    while i < subs.len()
        invariant
            i <= subs.len(),
            forall|k: int| 0 <= k < i ==> subs_view(subs@)[k].id != id@,
        decreases subs.len() - i,
    {
        if crate::text::str_eq(subs[i].id.as_str(), id) {
            proof {
                lemma_sub_pos(subs_view(subs@), id@, i as int);
            }
            return Some(i);
        }
        i = i + 1;
    }
    None
}

} // verus!

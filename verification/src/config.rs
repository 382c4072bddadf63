//! Editing the persisted configuration: every change the UI can ask for
//! (creating and deleting apps and subspaces, renaming, reordering, icon and
//! session settings, PIN settings), each stated as a function from the old
//! configuration view to the new one.
use vstd::prelude::*;
use crate::models::{
    apps_view, app_pos, copy_opt_string, default_icon_background, default_icon_background_view,
    find_app, find_subspace, opt_view, spec_view_of, sub_pos, subs_view, AppConfig, AppConfigV,
    IconStyle, IconStyleV, Subspace, SubspaceV, WebApp, WebAppV, WebAppView, WebAppViewV,
};
use crate::naming::{is_slugify_result, slugify};
use crate::ids::{is_uuid_char, new_uuid_v4, unix_now};
use crate::naming::{is_safe_path_component, spec_is_safe_path_component};
use crate::text::{chars_of, trim, trim_str};

verus! {

/// `c` with the app at position `i` replaced by `a`.
pub open spec fn with_app(c: AppConfigV, i: int, a: WebAppV) -> AppConfigV {
    AppConfigV { apps: c.apps.update(i, a), ..c }
}

/// `c` with `f` applied to the first app whose id is `app_id` (unchanged when
/// there is none).
pub open spec fn update_app(c: AppConfigV, app_id: Seq<char>, f: spec_fn(WebAppV) -> WebAppV) -> AppConfigV {
    let i = app_pos(c.apps, app_id);
    if i >= 0 {
        with_app(c, i, f(c.apps[i]))
    } else {
        c
    }
}

/// `c` with `f` applied to the first subspace `subspace_id` of the first app
/// `app_id` (unchanged when either is missing).
pub open spec fn update_subspace(
    c: AppConfigV,
    app_id: Seq<char>,
    subspace_id: Seq<char>,
    f: spec_fn(SubspaceV) -> SubspaceV,
) -> AppConfigV {
    let i = app_pos(c.apps, app_id);
    if i >= 0 {
        let a = c.apps[i];
        let j = sub_pos(a.subspaces, subspace_id);
        if j >= 0 {
            with_app(c, i, WebAppV { subspaces: a.subspaces.update(j, f(a.subspaces[j])), ..a })
        } else {
            c
        }
    } else {
        c
    }
}

/// `Some(u)` only when `u` has a non-whitespace character
/// (`o.filter(|u| !u.trim().is_empty())`).
pub open spec fn nonblank(o: Option<Seq<char>>) -> Option<Seq<char>> {
    match o {
        Some(u) => if trim(u).len() > 0 {
            Some(u)
        } else {
            None
        },
        None => None,
    }
}

/// Drops a value that is empty or only whitespace.
pub fn filter_nonblank(o: Option<String>) -> (r: Option<String>)
    ensures
        opt_view(r) == nonblank(opt_view(o)),
{
    match o {
        Some(u) => {
            let t = trim_str(u.as_str());
            if t.len() > 0 {
                Some(u)
            } else {
                None
            }
        },
        None => None,
    }
}

impl AppConfig {
    pub fn set_app_url(&mut self, app_id: &str, url: String)
        ensures
            final(self)@ == update_app(old(self)@, app_id@, |a: WebAppV| WebAppV { url: url@, ..a }),
    {
        if let Some(i) = find_app(&self.apps, app_id) {
            self.apps[i].url = url;
            proof {
                assert(apps_view(self.apps@) =~= apps_view(old(self).apps@).update(i as int, self.apps@[i as int]@));
            }
        }
    }

    pub fn set_app_run_in_background(&mut self, app_id: &str, enabled: bool)
        ensures
            final(self)@ == update_app(old(self)@, app_id@, |a: WebAppV| WebAppV { run_in_background: enabled, ..a }),
    {
        if let Some(i) = find_app(&self.apps, app_id) {
            self.apps[i].run_in_background = enabled;
            proof {
                assert(apps_view(self.apps@) =~= apps_view(old(self).apps@).update(i as int, self.apps@[i as int]@));
            }
        }
    }

    pub fn set_app_eager_load_subspaces(&mut self, app_id: &str, enabled: bool)
        ensures
            final(self)@ == update_app(old(self)@, app_id@, |a: WebAppV| WebAppV { eager_load_subspaces: enabled, ..a }),
    {
        if let Some(i) = find_app(&self.apps, app_id) {
            self.apps[i].eager_load_subspaces = enabled;
            proof {
                assert(apps_view(self.apps@) =~= apps_view(old(self).apps@).update(i as int, self.apps@[i as int]@));
            }
        }
    }

    pub fn set_app_hibernate_delay_secs(&mut self, app_id: &str, delay_secs: u64)
        ensures
            final(self)@ == update_app(old(self)@, app_id@, |a: WebAppV| WebAppV { hibernate_delay_secs: delay_secs, ..a }),
    {
        if let Some(i) = find_app(&self.apps, app_id) {
            self.apps[i].hibernate_delay_secs = delay_secs;
            proof {
                assert(apps_view(self.apps@) =~= apps_view(old(self).apps@).update(i as int, self.apps@[i as int]@));
            }
        }
    }

    /// Lock-on-background is only kept on when the app has a PIN.
    pub fn set_app_pin_lock(&mut self, app_id: &str, lock_on_background: bool, delay_secs: u64)
        ensures
            final(self)@ == update_app(
                old(self)@,
                app_id@,
                |a: WebAppV|
                    WebAppV {
                        pin_lock_on_background: lock_on_background && a.pin_hash is Some,
                        pin_lock_delay_secs: delay_secs,
                        ..a
                    },
            ),
    {
        if let Some(i) = find_app(&self.apps, app_id) {
            let has_pin = self.apps[i].pin_hash.is_some();
            self.apps[i].pin_lock_on_background = lock_on_background && has_pin;
            self.apps[i].pin_lock_delay_secs = delay_secs;
            proof {
                assert(apps_view(self.apps@) =~= apps_view(old(self).apps@).update(i as int, self.apps@[i as int]@));
            }
        }
    }

    /// Stores an already computed PIN hash (or none); removing the PIN also
    /// turns lock-on-background off.
    pub fn set_app_pin_hash(&mut self, app_id: &str, pin_hash: Option<String>)
        ensures
            final(self)@ == update_app(
                old(self)@,
                app_id@,
                |a: WebAppV|
                    WebAppV {
                        pin_hash: opt_view(pin_hash),
                        pin_lock_on_background: a.pin_lock_on_background && pin_hash is Some,
                        ..a
                    },
            ),
    {
        if let Some(i) = find_app(&self.apps, app_id) {
            let none = pin_hash.is_none();
            self.apps[i].pin_hash = pin_hash;
            if none {
                self.apps[i].pin_lock_on_background = false;
            }
            proof {
                assert(apps_view(self.apps@) =~= apps_view(old(self).apps@).update(i as int, self.apps@[i as int]@));
            }
        }
    }

    /// Renames an app; its data folder slug is left as it was. Returns the old
    /// name, icon, slug, icon background, padding and rounding, which the
    /// launcher shortcut is rebuilt from.
    pub fn rename_app(&mut self, app_id: &str, name: String) -> (r: Option<
        (String, Option<String>, String, Option<String>, u8, bool),
    >)
        ensures
            final(self)@ == update_app(old(self)@, app_id@, |a: WebAppV| WebAppV { name: name@, ..a }),
            ({
                let i = app_pos(old(self)@.apps, app_id@);
                let a = old(self)@.apps[i];
                match r {
                    Some(t) => i >= 0 && t.0@ == a.name && opt_view(t.1) == a.icon && t.2@ == a.data_slug
                        && opt_view(t.3) == a.icon_background_color && t.4 == a.icon_style.padding_percent
                        && t.5 == a.icon_style.rounded,
                    None => i < 0,
                }
            }),
    {
        if let Some(i) = find_app(&self.apps, app_id) {
            let old_name = self.apps[i].name.clone();
            let icon = copy_opt_string(&self.apps[i].icon);
            let slug = self.apps[i].data_slug.clone();
            let bg = copy_opt_string(&self.apps[i].icon_background_color);
            let padding = self.apps[i].icon_style.padding_percent;
            let rounded = self.apps[i].icon_style.rounded;
            self.apps[i].name = name;
            proof {
                assert(apps_view(self.apps@) =~= apps_view(old(self).apps@).update(i as int, self.apps@[i as int]@));
            }
            Some((old_name, icon, slug, bg, padding, rounded))
        } else {
            None
        }
    }

    /// Sets an app's icon style. Returns the icon, icon background, name and
    /// slug the window, tray and shortcut icons are refreshed from.
    pub fn set_app_icon_style(&mut self, app_id: &str, fit: String, rounded: bool, padding_percent: u8) -> (r: Option<
        (Option<String>, Option<String>, String, String),
    >)
        ensures
            final(self)@ == update_app(
                old(self)@,
                app_id@,
                |a: WebAppV|
                    WebAppV {
                        icon_style: IconStyleV { fit: fit@, rounded: rounded, padding_percent: padding_percent },
                        ..a
                    },
            ),
            ({
                let i = app_pos(old(self)@.apps, app_id@);
                let a = old(self)@.apps[i];
                match r {
                    Some(t) => i >= 0 && opt_view(t.0) == a.icon && opt_view(t.1) == a.icon_background_color
                        && t.2@ == a.name && t.3@ == a.data_slug,
                    None => i < 0,
                }
            }),
    {
        if let Some(i) = find_app(&self.apps, app_id) {
            self.apps[i].icon_style.fit = fit;
            self.apps[i].icon_style.rounded = rounded;
            self.apps[i].icon_style.padding_percent = padding_percent;
            proof {
                assert(apps_view(self.apps@) =~= apps_view(old(self).apps@).update(i as int, self.apps@[i as int]@));
            }
            let icon = copy_opt_string(&self.apps[i].icon);
            let bg = copy_opt_string(&self.apps[i].icon_background_color);
            Some((icon, bg, self.apps[i].name.clone(), self.apps[i].data_slug.clone()))
        } else {
            None
        }
    }

    /// Sets an app's icon background. Returns the icon, rounding, padding,
    /// new background, name and slug the icons are refreshed from.
    pub fn set_app_icon_background(&mut self, app_id: &str, background_color: Option<String>) -> (r: Option<
        (Option<String>, bool, u8, Option<String>, String, String),
    >)
        ensures
            final(self)@ == update_app(
                old(self)@,
                app_id@,
                |a: WebAppV| WebAppV { icon_background_color: opt_view(background_color), ..a },
            ),
            ({
                let i = app_pos(old(self)@.apps, app_id@);
                let a = old(self)@.apps[i];
                match r {
                    Some(t) => i >= 0 && opt_view(t.0) == a.icon && t.1 == a.icon_style.rounded
                        && t.2 == a.icon_style.padding_percent && opt_view(t.3) == opt_view(background_color)
                        && t.4@ == a.name && t.5@ == a.data_slug,
                    None => i < 0,
                }
            }),
    {
        if let Some(i) = find_app(&self.apps, app_id) {
            self.apps[i].icon_background_color = background_color;
            proof {
                assert(apps_view(self.apps@) =~= apps_view(old(self).apps@).update(i as int, self.apps@[i as int]@));
            }
            let icon = copy_opt_string(&self.apps[i].icon);
            let bg = copy_opt_string(&self.apps[i].icon_background_color);
            Some((
                icon,
                self.apps[i].icon_style.rounded,
                self.apps[i].icon_style.padding_percent,
                bg,
                self.apps[i].name.clone(),
                self.apps[i].data_slug.clone(),
            ))
        } else {
            None
        }
    }

    /// Sets an app's own icon. Returns its name, rounding, padding, icon
    /// background and slug, or "app not found".
    pub fn set_app_icon(&mut self, app_id: &str, icon_path: String) -> (r: Result<
        (String, bool, u8, Option<String>, String),
        String,
    >)
        ensures
            final(self)@ == update_app(old(self)@, app_id@, |a: WebAppV| WebAppV { icon: Some(icon_path@), ..a }),
            ({
                let i = app_pos(old(self)@.apps, app_id@);
                let a = old(self)@.apps[i];
                match r {
                    Ok(t) => i >= 0 && t.0@ == a.name && t.1 == a.icon_style.rounded
                        && t.2 == a.icon_style.padding_percent && opt_view(t.3) == a.icon_background_color
                        && t.4@ == a.data_slug,
                    Err(e) => i < 0 && e@ == "app not found"@,
                }
            }),
    {
        if let Some(i) = find_app(&self.apps, app_id) {
            self.apps[i].icon = Some(icon_path);
            proof {
                assert(apps_view(self.apps@) =~= apps_view(old(self).apps@).update(i as int, self.apps@[i as int]@));
            }
            let bg = copy_opt_string(&self.apps[i].icon_background_color);
            Ok((
                self.apps[i].name.clone(),
                self.apps[i].icon_style.rounded,
                self.apps[i].icon_style.padding_percent,
                bg,
                self.apps[i].data_slug.clone(),
            ))
        } else {
            Err(String::from_str("app not found"))
        }
    }

    /// The macosicons.com API key, if one is set.
    pub fn get_macos_icons_api_key(&self) -> (r: Option<String>)
        ensures
            opt_view(r) == self@.macos_icons_api_key,
    {
        copy_opt_string(&self.macos_icons_api_key)
    }

    /// Sets the API key; an empty or blank key clears it.
    pub fn set_macos_icons_api_key(&mut self, api_key: Option<String>)
        ensures
            final(self)@ == (AppConfigV { macos_icons_api_key: nonblank(opt_view(api_key)), ..old(self)@ }),
    {
        self.macos_icons_api_key = filter_nonblank(api_key);
    }

    pub fn set_subspace_icon_background(&mut self, app_id: &str, subspace_id: &str, background_color: Option<String>)
        ensures
            final(self)@ == update_subspace(
                old(self)@,
                app_id@,
                subspace_id@,
                |s: SubspaceV| SubspaceV { icon_background_color: opt_view(background_color), ..s },
            ),
    {
        if let Some(i) = find_app(&self.apps, app_id) {
            if let Some(j) = find_subspace(&self.apps[i].subspaces, subspace_id) {
                self.apps[i].subspaces[j].icon_background_color = background_color;
                proof {
                    let ghost a = self.apps@[i as int];
                    assert(subs_view(a.subspaces@) =~= subs_view(old(self).apps@[i as int].subspaces@).update(
                        j as int, a.subspaces@[j as int]@));
                    assert(apps_view(self.apps@) =~= apps_view(old(self).apps@).update(i as int, a@));
                }
            }
        }
    }

    pub fn rename_subspace(&mut self, app_id: &str, subspace_id: &str, name: String)
        ensures
            final(self)@ == update_subspace(old(self)@, app_id@, subspace_id@, |s: SubspaceV| SubspaceV { name: name@, ..s }),
    {
        if let Some(i) = find_app(&self.apps, app_id) {
            if let Some(j) = find_subspace(&self.apps[i].subspaces, subspace_id) {
                self.apps[i].subspaces[j].name = name;
                proof {
                    let ghost a = self.apps@[i as int];
                    assert(subs_view(a.subspaces@) =~= subs_view(old(self).apps@[i as int].subspaces@).update(
                        j as int, a.subspaces@[j as int]@));
                    assert(apps_view(self.apps@) =~= apps_view(old(self).apps@).update(i as int, a@));
                }
            }
        }
    }

    /// Sets a subspace's own start page; an empty or blank URL clears it (the
    /// app's URL is used instead).
    pub fn set_subspace_start_url(&mut self, app_id: &str, subspace_id: &str, start_url: Option<String>)
        ensures
            final(self)@ == update_subspace(
                old(self)@,
                app_id@,
                subspace_id@,
                |s: SubspaceV| SubspaceV { start_url: nonblank(opt_view(start_url)), ..s },
            ),
    {
        if let Some(i) = find_app(&self.apps, app_id) {
            if let Some(j) = find_subspace(&self.apps[i].subspaces, subspace_id) {
                self.apps[i].subspaces[j].start_url = filter_nonblank(start_url);
                proof {
                    let ghost a = self.apps@[i as int];
                    assert(subs_view(a.subspaces@) =~= subs_view(old(self).apps@[i as int].subspaces@).update(
                        j as int, a.subspaces@[j as int]@));
                    assert(apps_view(self.apps@) =~= apps_view(old(self).apps@).update(i as int, a@));
                }
            }
        }
    }

    /// Moves a subspace to another session group. The group name must be a
    /// safe path component ("invalid session group" otherwise, and nothing
    /// changes).
    pub fn set_subspace_session_group(&mut self, app_id: &str, subspace_id: &str, session_group: String) -> (r: Result<
        (),
        String,
    >)
        ensures
            spec_is_safe_path_component(session_group@) ==> r is Ok && final(self)@ == update_subspace(
                old(self)@,
                app_id@,
                subspace_id@,
                |s: SubspaceV| SubspaceV { session_group: session_group@, ..s },
            ),
            !spec_is_safe_path_component(session_group@) ==> (r matches Err(e) && e@ == "invalid session group"@
                && final(self)@ == old(self)@),
    {
        if !is_safe_path_component(session_group.as_str()) {
            return Err(String::from_str("invalid session group"));
        }
        if let Some(i) = find_app(&self.apps, app_id) {
            if let Some(j) = find_subspace(&self.apps[i].subspaces, subspace_id) {
                self.apps[i].subspaces[j].session_group = session_group;
                proof {
                    let ghost a = self.apps@[i as int];
                    assert(subs_view(a.subspaces@) =~= subs_view(old(self).apps@[i as int].subspaces@).update(
                        j as int, a.subspaces@[j as int]@));
                    assert(apps_view(self.apps@) =~= apps_view(old(self).apps@).update(i as int, a@));
                }
            }
        }
        Ok(())
    }

    /// Sets a subspace's start page to the given URL as is (used to remember
    /// the last page a closed subspace was showing).
    pub fn remember_start_url(&mut self, app_id: &str, subspace_id: &str, url: String)
        ensures
            final(self)@ == update_subspace(old(self)@, app_id@, subspace_id@, |s: SubspaceV| SubspaceV { start_url: Some(url@), ..s }),
    {
        if let Some(i) = find_app(&self.apps, app_id) {
            if let Some(j) = find_subspace(&self.apps[i].subspaces, subspace_id) {
                self.apps[i].subspaces[j].start_url = Some(url);
                proof {
                    let ghost a = self.apps@[i as int];
                    assert(subs_view(a.subspaces@) =~= subs_view(old(self).apps@[i as int].subspaces@).update(
                        j as int, a.subspaces@[j as int]@));
                    assert(apps_view(self.apps@) =~= apps_view(old(self).apps@).update(i as int, a@));
                }
            }
        }
    }

    /// Sets a subspace's icon; "app not found" or "subspace not found" when
    /// either is missing (and nothing changes).
    pub fn set_subspace_icon(&mut self, app_id: &str, subspace_id: &str, icon_path: String) -> (r: Result<(), String>)
        ensures
            final(self)@ == update_subspace(
                old(self)@,
                app_id@,
                subspace_id@,
                |s: SubspaceV| SubspaceV { icon: Some(icon_path@), ..s },
            ),
            ({
                let i = app_pos(old(self)@.apps, app_id@);
                match r {
                    Ok(_) => i >= 0 && sub_pos(old(self)@.apps[i].subspaces, subspace_id@) >= 0,
                    Err(e) => if i < 0 {
                        e@ == "app not found"@
                    } else {
                        sub_pos(old(self)@.apps[i].subspaces, subspace_id@) < 0 && e@ == "subspace not found"@
                    },
                }
            }),
    {
        if let Some(i) = find_app(&self.apps, app_id) {
            if let Some(j) = find_subspace(&self.apps[i].subspaces, subspace_id) {
                self.apps[i].subspaces[j].icon = Some(icon_path);
                proof {
                    let ghost a = self.apps@[i as int];
                    assert(subs_view(a.subspaces@) =~= subs_view(old(self).apps@[i as int].subspaces@).update(
                        j as int, a.subspaces@[j as int]@));
                    assert(apps_view(self.apps@) =~= apps_view(old(self).apps@).update(i as int, a@));
                }
                Ok(())
            } else {
                Err(String::from_str("subspace not found"))
            }
        } else {
            Err(String::from_str("app not found"))
        }
    }

    /// The UI view of every app, in order.
    pub fn list_apps(&self) -> (r: Vec<WebAppView>)
        ensures
            r@.len() == self@.apps.len(),
            forall|i: int| 0 <= i < r@.len() ==> (#[trigger] r@[i])@ == spec_view_of(self@.apps[i]),
    {
        let mut r: Vec<WebAppView> = Vec::new();
        let mut i: usize = 0;
        while i < self.apps.len()
            invariant
                i <= self.apps.len(),
                r@.len() == i,
                forall|k: int| 0 <= k < i ==> (#[trigger] r@[k])@ == spec_view_of(self@.apps[k]),
            decreases self.apps.len() - i,
        {
            r.push(WebAppView::from_app(&self.apps[i]));
            i = i + 1;
        }
        r
    }

    /// Removes every app with this id; returns the first one removed.
    pub fn delete_app(&mut self, app_id: &str) -> (r: Option<WebApp>)
        ensures
            final(self)@ == (AppConfigV { apps: without_app(old(self)@.apps, app_id@), ..old(self)@ }),
            ({
                let i = app_pos(old(self)@.apps, app_id@);
                match r {
                    Some(a) => i >= 0 && a@ == old(self)@.apps[i],
                    None => i < 0,
                }
            }),
    {
        let found = find_app(&self.apps, app_id);
        let removed = match found {
            Some(i) => Some(self.apps[i].copy()),
            None => None,
        };
        let mut kept: Vec<WebApp> = Vec::new();
        let mut i: usize = 0;
        let ghost old_view = apps_view(self.apps@);
        while i < self.apps.len()
            invariant
                i <= self.apps.len(),
                old_view == apps_view(self.apps@),
                apps_view(kept@) == without_app(old_view.take(i as int), app_id@),
            decreases self.apps.len() - i,
        {
            assert(old_view.take(i + 1).drop_last() =~= old_view.take(i as int));
            if !crate::text::str_eq(self.apps[i].id.as_str(), app_id) {
                let a = self.apps[i].copy();
                kept.push(a);
                assert(apps_view(kept@) =~= without_app(old_view.take(i as int), app_id@).push(old_view[i as int]));
            }
            i = i + 1;
        }
        assert(old_view.take(self.apps.len() as int) =~= old_view);
        self.apps = kept;
        removed
    }

    /// Removes every subspace with this id from the first app with `app_id`.
    pub fn delete_subspace(&mut self, app_id: &str, subspace_id: &str)
        ensures
            final(self)@ == update_app(
                old(self)@,
                app_id@,
                |a: WebAppV| WebAppV { subspaces: without_subspace(a.subspaces, subspace_id@), ..a },
            ),
    {
        if let Some(i) = find_app(&self.apps, app_id) {
            let ghost old_subs = subs_view(self.apps@[i as int].subspaces@);
            let mut kept: Vec<Subspace> = Vec::new();
            let mut j: usize = 0;
            let n = self.apps[i].subspaces.len();
            while j < n
                invariant
                    i < self.apps.len(),
                    j <= n,
                    n == self.apps@[i as int].subspaces@.len(),
                    old_subs == subs_view(self.apps@[i as int].subspaces@),
                    subs_view(kept@) == without_subspace(old_subs.take(j as int), subspace_id@),
                decreases n - j,
            {
                assert(old_subs.take(j + 1).drop_last() =~= old_subs.take(j as int));
                if !crate::text::str_eq(self.apps[i].subspaces[j].id.as_str(), subspace_id) {
                    let sub = self.apps[i].subspaces[j].copy();
                    kept.push(sub);
                    assert(subs_view(kept@) =~= without_subspace(old_subs.take(j as int), subspace_id@).push(old_subs[j as int]));
                }
                j = j + 1;
            }
            assert(old_subs.take(n as int) =~= old_subs);
            self.apps[i].subspaces = kept;
            proof {
                assert(apps_view(self.apps@) =~= apps_view(old(self).apps@).update(i as int, self.apps@[i as int]@));
            }
        }
    }

    /// Adds a subspace with the given new id to the first app `app_id`.
    /// An empty or blank session group means "its own group" (the new id);
    /// a missing icon background gets the default swatch; an empty or blank
    /// start URL is dropped. Returns the subspace, or None when the app is
    /// missing (and nothing changes).
    pub fn create_subspace_with_id(
        &mut self,
        app_id: &str,
        name: String,
        start_url: Option<String>,
        icon: Option<String>,
        session_group: Option<String>,
        icon_background_color: Option<String>,
        id: String,
    ) -> (r: Option<Subspace>)
        ensures
            ({
                let i = app_pos(old(self)@.apps, app_id@);
                let sub = spec_new_subspace(
                    id@,
                    name@,
                    opt_view(start_url),
                    opt_view(icon),
                    opt_view(session_group),
                    opt_view(icon_background_color),
                );
                match r {
                    Some(s) => i >= 0 && s@ == sub && final(self)@ == update_app(
                        old(self)@,
                        app_id@,
                        |a: WebAppV| WebAppV { subspaces: a.subspaces.push(sub), ..a },
                    ),
                    None => i < 0 && final(self)@ == old(self)@,
                }
            }),
    {
        let group = match filter_nonblank(session_group) {
            Some(g) => g,
            None => id.clone(),
        };
        let bg = match icon_background_color {
            Some(c) => Some(c),
            None => default_icon_background(),
        };
        let sub = Subspace {
            id: id,
            name: name,
            session_group: group,
            icon: icon,
            icon_background_color: bg,
            start_url: filter_nonblank(start_url),
        };
        if let Some(i) = find_app(&self.apps, app_id) {
            let copy = sub.copy();
            self.apps[i].subspaces.push(copy);
            proof {
                let ghost a = self.apps@[i as int];
                assert(subs_view(a.subspaces@) =~= subs_view(old(self).apps@[i as int].subspaces@).push(sub@));
                assert(apps_view(self.apps@) =~= apps_view(old(self).apps@).update(i as int, a@));
            }
            Some(sub)
        } else {
            None
        }
    }

    /// Adds a new app with the given new ids and creation time: its data
    /// slug is the name slugified against every existing app's slug, and it
    /// starts with one subspace named like the app, in its own session group,
    /// opening the app's URL. Returns the new app's UI view.
    pub fn create_app_with_ids(
        &mut self,
        name: String,
        url: String,
        icon: Option<String>,
        icon_fit: Option<String>,
        icon_rounded: Option<bool>,
        icon_background_color: Option<String>,
        icon_padding_percent: Option<u8>,
        app_id: String,
        subspace_id: String,
        created_at: i64,
    ) -> (r: WebAppView)
        requires
            old(self).apps@.len() + 2 <= usize::MAX,
        ensures
            final(self).apps@.len() == old(self).apps@.len() + 1,
            final(self)@.macos_icons_api_key == old(self)@.macos_icons_api_key,
            final(self)@.apps.drop_last() == old(self)@.apps,
            is_slugify_result(name@, slugs_of(old(self).apps@), final(self)@.apps.last().data_slug),
            final(self)@.apps.last() == spec_new_app(
                name@,
                url@,
                opt_view(icon),
                opt_view(icon_fit),
                icon_rounded,
                opt_view(icon_background_color),
                icon_padding_percent,
                app_id@,
                subspace_id@,
                created_at,
                final(self)@.apps.last().data_slug,
            ),
            r@ == spec_view_of(final(self)@.apps.last()),
    {
        let mut taken: Vec<String> = Vec::new();
        let mut k: usize = 0;
        while k < self.apps.len()
            invariant
                k <= self.apps.len(),
                taken@ == slugs_of(self.apps@.take(k as int)),
            decreases self.apps.len() - k,
        {
            taken.push(self.apps[k].data_slug.clone());
            assert(slugs_of(self.apps@.take(k + 1)) =~= slugs_of(self.apps@.take(k as int)).push(self.apps@[k as int].data_slug));
            k = k + 1;
        }
        assert(self.apps@.take(self.apps.len() as int) =~= self.apps@);
        let data_slug = slugify(name.as_str(), &taken);
        let sub_bg = match &icon_background_color {
            Some(c) => Some(c.clone()),
            None => default_icon_background(),
        };
        let default_subspace = Subspace {
            id: subspace_id.clone(),
            name: name.clone(),
            session_group: subspace_id,
            icon: copy_opt_string(&icon),
            icon_background_color: sub_bg,
            start_url: Some(url.clone()),
        };
        let fit = match icon_fit {
            Some(f) => f,
            None => String::from_str("cover"),
        };
        let rounded = match icon_rounded {
            Some(b) => b,
            None => true,
        };
        let padding = match icon_padding_percent {
            Some(p) => p,
            None => 0,
        };
        let mut subspaces: Vec<Subspace> = Vec::new();
        subspaces.push(default_subspace);
        let app = WebApp {
            id: app_id,
            name: name,
            url: url,
            icon: icon,
            icon_style: IconStyle { fit: fit, rounded: rounded, padding_percent: padding },
            icon_background_color: icon_background_color,
            data_slug: data_slug,
            run_in_background: false,
            eager_load_subspaces: true,
            hibernate_delay_secs: 300,
            pin_hash: None,
            pin_lock_on_background: false,
            pin_lock_delay_secs: 0,
            created_at: created_at,
            subspaces: subspaces,
        };
        let view = WebAppView::from_app(&app);
        let ghost old_apps = self.apps@;
        self.apps.push(app);
        proof {
            assert(subs_view(self.apps@.last().subspaces@) =~= seq![self.apps@.last().subspaces@[0]@]);
            assert(apps_view(self.apps@).drop_last() =~= apps_view(old_apps));
        }
        view
    }
}

impl AppConfig {
    /// `create_app`: adds a new app under a fresh random id, with a fresh
    /// random id for its first subspace, created now. Everything else is as
    /// `create_app_with_ids` states.
    pub fn create_app(
        &mut self,
        name: String,
        url: String,
        icon: Option<String>,
        icon_fit: Option<String>,
        icon_rounded: Option<bool>,
        icon_background_color: Option<String>,
        icon_padding_percent: Option<u8>,
    ) -> (r: WebAppView)
        requires
            old(self).apps@.len() + 2 <= usize::MAX,
        ensures
            final(self).apps@.len() == old(self).apps@.len() + 1,
            final(self)@.macos_icons_api_key == old(self)@.macos_icons_api_key,
            final(self)@.apps.drop_last() == old(self)@.apps,
            is_slugify_result(name@, slugs_of(old(self).apps@), final(self)@.apps.last().data_slug),
            final(self)@.apps.last() == spec_new_app(
                name@,
                url@,
                opt_view(icon),
                opt_view(icon_fit),
                icon_rounded,
                opt_view(icon_background_color),
                icon_padding_percent,
                final(self)@.apps.last().id,
                final(self)@.apps.last().subspaces[0].id,
                final(self)@.apps.last().created_at,
                final(self)@.apps.last().data_slug,
            ),
            final(self)@.apps.last().id.len() == 36,
            final(self)@.apps.last().subspaces[0].id.len() == 36,
            forall|k: int| 0 <= k < 36 ==> is_uuid_char(#[trigger] final(self)@.apps.last().subspaces[0].id[k]),
            r@ == spec_view_of(final(self)@.apps.last()),
    {
        let app_id = new_uuid_v4();
        let subspace_id = new_uuid_v4();
        let now = unix_now();
        self.create_app_with_ids(
            name,
            url,
            icon,
            icon_fit,
            icon_rounded,
            icon_background_color,
            icon_padding_percent,
            app_id,
            subspace_id,
            now,
        )
    }

    /// `create_subspace`: adds a subspace under a fresh random id, as
    /// `create_subspace_with_id` states.
    pub fn create_subspace(
        &mut self,
        app_id: &str,
        name: String,
        start_url: Option<String>,
        icon: Option<String>,
        session_group: Option<String>,
        icon_background_color: Option<String>,
    ) -> (r: Option<Subspace>)
        ensures
            ({
                let i = app_pos(old(self)@.apps, app_id@);
                match r {
                    Some(s) => i >= 0 && s@.id.len() == 36 && (forall|k: int|
                        0 <= k < 36 ==> is_uuid_char(#[trigger] s@.id[k])) && s@ == spec_new_subspace(
                        s@.id,
                        name@,
                        opt_view(start_url),
                        opt_view(icon),
                        opt_view(session_group),
                        opt_view(icon_background_color),
                    ) && final(self)@ == update_app(
                        old(self)@,
                        app_id@,
                        |a: WebAppV| WebAppV { subspaces: a.subspaces.push(s@), ..a },
                    ),
                    None => i < 0 && final(self)@ == old(self)@,
                }
            }),
    {
        let id = new_uuid_v4();
        self.create_subspace_with_id(app_id, name, start_url, icon, session_group, icon_background_color, id)
    }
}

/// The data slugs of the given apps, in order.
pub open spec fn slugs_of(apps: Seq<WebApp>) -> Seq<String> {
    apps.map_values(|a: WebApp| a.data_slug)
}

/// `apps` without the apps whose id is `id`, in order.
pub open spec fn without_app(apps: Seq<WebAppV>, id: Seq<char>) -> Seq<WebAppV>
    decreases apps.len(),
{
    if apps.len() == 0 {
        Seq::empty()
    } else {
        let rest = without_app(apps.drop_last(), id);
        if apps.last().id != id {
            rest.push(apps.last())
        } else {
            rest
        }
    }
}

/// `subs` without the subspaces whose id is `id`, in order.
pub open spec fn without_subspace(subs: Seq<SubspaceV>, id: Seq<char>) -> Seq<SubspaceV>
    decreases subs.len(),
{
    if subs.len() == 0 {
        Seq::empty()
    } else {
        let rest = without_subspace(subs.drop_last(), id);
        if subs.last().id != id {
            rest.push(subs.last())
        } else {
            rest
        }
    }
}

/// A new subspace as `create_subspace` builds it.
pub open spec fn spec_new_subspace(
    id: Seq<char>,
    name: Seq<char>,
    start_url: Option<Seq<char>>,
    icon: Option<Seq<char>>,
    session_group: Option<Seq<char>>,
    icon_background_color: Option<Seq<char>>,
) -> SubspaceV {
    SubspaceV {
        id: id,
        name: name,
        session_group: match nonblank(session_group) {
            Some(g) => g,
            None => id,
        },
        icon: icon,
        icon_background_color: match icon_background_color {
            Some(c) => Some(c),
            None => Some(default_icon_background_view()),
        },
        start_url: nonblank(start_url),
    }
}

/// A new subspace keeps what it was created with: its id, name and icon;
/// the start URL it was given unless that is blank (then it opens the app's
/// URL); the session group it was given unless that is blank (then its own
/// id, an isolated session).
pub proof fn law_new_subspace_keeps_its_inputs(
    id: Seq<char>,
    name: Seq<char>,
    start_url: Option<Seq<char>>,
    icon: Option<Seq<char>>,
    session_group: Option<Seq<char>>,
    icon_background_color: Option<Seq<char>>,
)
    ensures
        ({
            let s = spec_new_subspace(id, name, start_url, icon, session_group, icon_background_color);
            &&& s.id == id
            &&& s.name == name
            &&& s.icon == icon
            &&& forall|u: Seq<char>| start_url == Some(u) && trim(u).len() > 0 ==> s.start_url == Some(u)
            &&& (start_url is None || trim(start_url->0).len() == 0) ==> s.start_url is None
            &&& forall|g: Seq<char>| session_group == Some(g) && trim(g).len() > 0 ==> s.session_group == g
            &&& (session_group is None || trim(session_group->0).len() == 0) ==> s.session_group == id
            &&& forall|c: Seq<char>| icon_background_color == Some(c) ==> s.icon_background_color == Some(c)
        }),
{
}

/// A new app keeps what it was created with: its ids, name, URL, icon,
/// background color, creation time and slug are the ones given; it starts
/// without a PIN and with one subspace, which has the given subspace id, the
/// app's name and icon, its own session and the app's URL as start page.
pub proof fn law_new_app_keeps_its_inputs(
    name: Seq<char>,
    url: Seq<char>,
    icon: Option<Seq<char>>,
    icon_fit: Option<Seq<char>>,
    icon_rounded: Option<bool>,
    icon_background_color: Option<Seq<char>>,
    icon_padding_percent: Option<u8>,
    app_id: Seq<char>,
    subspace_id: Seq<char>,
    created_at: i64,
    data_slug: Seq<char>,
)
    ensures
        ({
            let a = spec_new_app(
                name,
                url,
                icon,
                icon_fit,
                icon_rounded,
                icon_background_color,
                icon_padding_percent,
                app_id,
                subspace_id,
                created_at,
                data_slug,
            );
            &&& a.id == app_id
            &&& a.name == name
            &&& a.url == url
            &&& a.icon == icon
            &&& a.icon_background_color == icon_background_color
            &&& a.created_at == created_at
            &&& a.data_slug == data_slug
            &&& a.pin_hash is None
            &&& forall|f: Seq<char>| icon_fit == Some(f) ==> a.icon_style.fit == f
            &&& forall|b: bool| icon_rounded == Some(b) ==> a.icon_style.rounded == b
            &&& forall|p: u8| icon_padding_percent == Some(p) ==> a.icon_style.padding_percent == p
            &&& a.subspaces.len() == 1
            &&& a.subspaces[0].id == subspace_id
            &&& a.subspaces[0].name == name
            &&& a.subspaces[0].icon == icon
            &&& a.subspaces[0].session_group == subspace_id
            &&& a.subspaces[0].start_url == Some(url)
        }),
{
}

/// A new app as `create_app` builds it, given its slug.
pub open spec fn spec_new_app(
    name: Seq<char>,
    url: Seq<char>,
    icon: Option<Seq<char>>,
    icon_fit: Option<Seq<char>>,
    icon_rounded: Option<bool>,
    icon_background_color: Option<Seq<char>>,
    icon_padding_percent: Option<u8>,
    app_id: Seq<char>,
    subspace_id: Seq<char>,
    created_at: i64,
    data_slug: Seq<char>,
) -> WebAppV {
    WebAppV {
        id: app_id,
        name: name,
        url: url,
        icon: icon,
        icon_style: IconStyleV {
            fit: match icon_fit {
                Some(f) => f,
                None => "cover"@,
            },
            rounded: match icon_rounded {
                Some(b) => b,
                None => true,
            },
            padding_percent: match icon_padding_percent {
                Some(p) => p,
                None => 0,
            },
        },
        icon_background_color: icon_background_color,
        data_slug: data_slug,
        run_in_background: false,
        eager_load_subspaces: true,
        hibernate_delay_secs: 300,
        pin_hash: None,
        pin_lock_on_background: false,
        pin_lock_delay_secs: 0,
        created_at: created_at,
        subspaces: seq![
            SubspaceV {
                id: subspace_id,
                name: name,
                session_group: subspace_id,
                icon: icon,
                icon_background_color: match icon_background_color {
                    Some(c) => Some(c),
                    None => Some(default_icon_background_view()),
                },
                start_url: Some(url),
            },
        ],
    }
}


/// Creating an app keeps data slugs distinct: when the existing apps have
/// pairwise distinct slugs, so do they with the new app's slug (what
/// `slugify` picks against them) added.
pub proof fn law_create_app_keeps_slugs_distinct(apps: Seq<WebApp>, name: Seq<char>, slug: Seq<char>)
    requires
        forall|i: int, j: int| 0 <= i < j < apps.len() ==> apps[i].data_slug@ != apps[j].data_slug@,
        is_slugify_result(name, slugs_of(apps), slug),
    ensures
        forall|i: int| 0 <= i < apps.len() ==> apps[i].data_slug@ != slug,
{
    crate::naming::law_slug_is_fresh_and_safe(name, slugs_of(apps), slug);
    assert forall|i: int| 0 <= i < apps.len() implies apps[i].data_slug@ != slug by {
        if apps[i].data_slug@ == slug {
            assert(slugs_of(apps)[i]@ == slug);
        }
    }
}

/// A rename touches the name alone: every app keeps its id and data slug
/// (the folder holding its sessions), and only the renamed app's name
/// changes.
pub proof fn law_rename_keeps_data_slugs(c: AppConfigV, app_id: Seq<char>, name: Seq<char>)
    ensures
        ({
            let c2 = update_app(c, app_id, |a: WebAppV| WebAppV { name: name, ..a });
            &&& c2.apps.len() == c.apps.len()
            &&& forall|i: int|
                0 <= i < c.apps.len() ==> #[trigger] c2.apps[i].data_slug == c.apps[i].data_slug && c2.apps[i].id
                    == c.apps[i].id && c2.apps[i].subspaces == c.apps[i].subspaces
        }),
{
}

} // verus!

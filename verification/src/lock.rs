//! PIN protection and the decisions around opening, locking and unlocking an
//! app window: hashing and checking PINs with Argon2, what opening an app
//! does when its window already exists or has to be built, re-locking an
//! app sitting in the tray, and hibernating subspaces left in the
//! background.
use vstd::prelude::*;
use argon2::password_hash::rand_core::OsRng;
use argon2::password_hash::{PasswordHash, PasswordHasher, PasswordVerifier, SaltString};
use crate::config::{nonblank, update_app};
use crate::models::{app_pos, find_app, opt_view, AppConfig, AppConfigV, SubspaceV, WebAppV};
use crate::state::{ActiveSubspaces, BackgroundApps, LockedApps};
use crate::text::{str_eq, trim_str};

verus! {

/// Whether `pin` verifies against the PHC hash string `hash` (Argon2 with
/// the parameters and salt the hash carries); `false` for a string that is
/// not a PHC hash.
pub uninterp spec fn pin_matches(hash: Seq<char>, pin: Seq<char>) -> bool;

/// `argon2::password_hash::PasswordHash::new` on `hash`, then
/// `Argon2::default().verify_password` on the PIN's bytes. The contract
/// names the result and states one fact of its source: `PasswordHash::parse`
/// refuses a string that does not begin with `$` (the empty field before
/// the first separator must be empty), so such a hash verifies no PIN.
#[verifier::external_body]
fn verify_pin(hash: &str, pin: &str) -> (r: bool)
    ensures
        r == pin_matches(hash@, pin@),
        hash@.len() == 0 || hash@[0] != '$' ==> !r,
{
    match PasswordHash::new(hash) {
        Ok(parsed) => argon2::Argon2::default().verify_password(pin.as_bytes(), &parsed).is_ok(),
        Err(_) => false,
    }
}

/// Whether `s` is a PHC string of the Argon2id algorithm: it begins with
/// `$argon2id$`.
pub open spec fn is_argon2id_phc(s: Seq<char>) -> bool {
    "$argon2id$"@.is_prefix_of(s)
}

/// `Argon2::default().hash_password` of the PIN with a fresh random salt
/// (`SaltString::generate(&mut OsRng)`), as a PHC string. The hash depends
/// on the salt, so nothing names it; the contract states what holds of every
/// salt: verifying the same PIN against it succeeds, and the string is
/// written by `PasswordHash`'s `Display` as `$`, the algorithm's identifier
/// (`argon2id` for `Argon2::default()`), `$` and the rest.
#[verifier::external_body]
fn hash_pin(pin: &str) -> (r: Result<String, String>)
    ensures
        match r {
            Ok(h) => pin_matches(h@, pin@) && is_argon2id_phc(h@),
            Err(_) => true,
        },
{
    let salt = SaltString::generate(&mut OsRng);
    match argon2::Argon2::default().hash_password(pin.as_bytes(), &salt) {
        Ok(h) => Ok(h.to_string()),
        Err(e) => Err(e.to_string()),
    }
}


/// Whether `pin` opens an app: always when it has no PIN hash, otherwise
/// when the PIN verifies against it.
pub open spec fn pin_accepted(a: WebAppV, pin: Seq<char>) -> bool {
    match a.pin_hash {
        Some(h) => pin_matches(h, pin),
        None => true,
    }
}

fn pin_accepted_exec(config: &AppConfig, i: usize, pin: &str) -> (r: bool)
    requires
        i < config.apps@.len(),
    ensures
        r == pin_accepted(config@.apps[i as int], pin@),
        config@.apps[i as int].pin_hash matches Some(h) && (h.len() == 0 || h[0] != '$') ==> !r,
{
    assert(config@.apps[i as int] == config.apps@[i as int]@);
    match &config.apps[i].pin_hash {
        Some(h) => verify_pin(h.as_str(), pin),
        None => true,
    }
}

/// `c` with the PIN hash of app `app_id` replaced; without a PIN,
/// lock-on-background is turned off too.
pub open spec fn with_pin_hash(c: AppConfigV, app_id: Seq<char>, h: Option<Seq<char>>) -> AppConfigV {
    update_app(
        c,
        app_id,
        |a: WebAppV| WebAppV { pin_hash: h, pin_lock_on_background: a.pin_lock_on_background && h is Some, ..a },
    )
}

impl AppConfig {
    /// Sets or clears an app's PIN. A PIN with a non-whitespace character is
    /// hashed and only its Argon2id hash is kept (a hashing failure is
    /// returned and nothing changes); a blank or missing one removes the PIN
    /// and lock-on-background.
    pub fn set_app_pin(&mut self, app_id: &str, pin: Option<String>) -> (r: Result<(), String>)
        ensures
            match r {
                Err(_) => nonblank(opt_view(pin)) is Some && final(self)@ == old(self)@,
                Ok(()) => match nonblank(opt_view(pin)) {
                    None => final(self)@ == with_pin_hash(old(self)@, app_id@, None),
                    Some(p) => exists|h: Seq<char>|
                        pin_matches(h, p) && is_argon2id_phc(h) && final(self)@ == #[trigger] with_pin_hash(
                            old(self)@,
                            app_id@,
                            Some(h),
                        ),
                },
            },
    {
        let hash = match pin {
            Some(p) => {
                let t = trim_str(p.as_str());
                if t.len() == 0 {
                    None
                } else {
                    match hash_pin(p.as_str()) {
                        Ok(h) => Some(h),
                        Err(e) => return Err(e),
                    }
                }
            },
            None => None,
        };
        let ghost hv = opt_view(hash);
        self.set_app_pin_hash(app_id, hash);
        proof {
            match hv {
                Some(h) => {
                    assert(final(self)@ == with_pin_hash(old(self)@, app_id@, Some(h)));
                },
                None => {},
            }
        }
        Ok(())
    }
}

/// The subspace an unlocked window shows: the app's active one, or its
/// first subspace when none was recorded.
pub open spec fn subspace_to_show(c: AppConfigV, active: Map<Seq<char>, Seq<char>>, app_id: Seq<char>) -> Option<Seq<char>> {
    if active.contains_key(app_id) {
        Some(active[app_id])
    } else {
        let i = app_pos(c.apps, app_id);
        if i >= 0 && c.apps[i].subspaces.len() > 0 {
            Some(c.apps[i].subspaces[0].id)
        } else {
            None
        }
    }
}

fn subspace_to_show_exec(config: &AppConfig, active: &ActiveSubspaces, i: usize, app_id: &str) -> (r: Option<String>)
    requires
        active.wf(),
        i < config.apps@.len(),
        i as int == app_pos(config@.apps, app_id@),
    ensures
        opt_view(r) == subspace_to_show(config@, active.view(), app_id@),
{
    assert(config@.apps[i as int] == config.apps@[i as int]@);
    match active.get(app_id) {
        Some(s) => Some(s),
        None => {
            if config.apps[i].subspaces.len() > 0 {
                assert(config@.apps[i as int].subspaces[0] == config.apps@[i as int].subspaces@[0]@);
                Some(config.apps[i].subspaces[0].id.clone())
            } else {
                None
            }
        },
    }
}

/// Unlocks an app whose window shows the lock overlay: "app not found" or
/// "invalid pin" (and the app stays locked) when refused; otherwise the app
/// is no longer locked and the subspace whose tabs to show again is
/// returned. A stored hash that is not a PHC string (one not beginning with
/// `$`) accepts no PIN.
pub fn unlock_app(
    config: &AppConfig,
    active: &ActiveSubspaces,
    locked: &mut LockedApps,
    app_id: &str,
    pin: &str,
) -> (r: Result<Option<String>, String>)
    requires
        active.wf(),
        old(locked).wf(),
    ensures
        final(locked).wf(),
        match r {
            Ok(s) => {
                &&& app_pos(config@.apps, app_id@) >= 0
                &&& pin_accepted(config@.apps[app_pos(config@.apps, app_id@)], pin@)
                &&& opt_view(s) == subspace_to_show(config@, active.view(), app_id@)
                &&& final(locked).view() == old(locked).view().remove(app_id@)
            },
            Err(e) => {
                &&& final(locked).view() == old(locked).view()
                &&& if app_pos(config@.apps, app_id@) < 0 {
                    e@ == "app not found"@
                } else {
                    !pin_accepted(config@.apps[app_pos(config@.apps, app_id@)], pin@) && e@ == "invalid pin"@
                }
            },
        },
        app_pos(config@.apps, app_id@) >= 0 ==> (config@.apps[app_pos(config@.apps, app_id@)].pin_hash matches Some(h)
            && (h.len() == 0 || h[0] != '$') ==> r is Err),
{
    let i = match find_app(&config.apps, app_id) {
        Some(i) => i,
        None => return Err(String::from_str("app not found")),
    };
    if !pin_accepted_exec(config, i, pin) {
        return Err(String::from_str("invalid pin"));
    }
    let s = subspace_to_show_exec(config, active, i, app_id);
    locked.remove(app_id);
    Ok(s)
}

/// What opening an app does.
pub enum OpenPlan {
    /// The window exists (typically hidden in the tray): show it again,
    /// first showing the tabs of `show_subspace` when the app was just
    /// unlocked.
    Restore { show_subspace: Option<String> },
    /// Build the window, show the tabs of `first_subspace`, load the
    /// `preload` subspaces too (each in turn, the first one shown again
    /// last), and cover it with the lock overlay when `lock` is set.
    Create { first_subspace: Option<String>, preload: Vec<String>, lock: bool },
}

/// The ids of the subspaces other than the first one (every subspace whose
/// id differs from the first's), in order.
pub open spec fn other_subspace_ids(subs: Seq<SubspaceV>) -> Seq<Seq<char>> {
    if subs.len() == 0 {
        seq![]
    } else {
        subs.map_values(|s: SubspaceV| s.id).filter(|id: Seq<char>| id != subs[0].id)
    }
}

fn other_subspace_ids_exec(config: &AppConfig, i: usize) -> (r: Vec<String>)
    requires
        i < config.apps@.len(),
    ensures
        r@.map_values(|s: String| s@) == other_subspace_ids(config@.apps[i as int].subspaces),
{
    let ghost a = config@.apps[i as int];
    assert(a == config.apps@[i as int]@);
    let subs = &config.apps[i].subspaces;
    let mut r: Vec<String> = Vec::new();
    if subs.len() == 0 {
        assert(r@.map_values(|s: String| s@) =~= seq![]);
        return r;
    }
    let ghost ids = a.subspaces.map_values(|s: SubspaceV| s.id);
    let ghost first = a.subspaces[0].id;
    let first_id = subs[0].id.as_str();
    assert(first_id@ == first);
    let mut k: usize = 0;
    while k < subs.len()
        invariant
            k <= subs@.len(),
            subs@.len() == a.subspaces.len(),
            forall|m: int| 0 <= m < subs@.len() ==> #[trigger] a.subspaces[m] == subs@[m]@,
            ids == a.subspaces.map_values(|s: SubspaceV| s.id),
            first_id@ == first,
            r@.map_values(|s: String| s@) == ids.take(k as int).filter(|id: Seq<char>| id != first),
        decreases subs@.len() - k,
    {
        proof {
            assert(ids.take(k + 1) =~= ids.take(k as int).push(ids[k as int]));
            ids.take(k as int).lemma_filter_push(ids[k as int], |id: Seq<char>| id != first);
        }
        if !str_eq(subs[k].id.as_str(), first_id) {
            let ghost before = r@;
            r.push(subs[k].id.clone());
            assert(r@.map_values(|s: String| s@) =~= before.map_values(|s: String| s@).push(subs@[k as int].id@));
        }
        k = k + 1;
    }
    assert(ids.take(subs@.len() as int) =~= ids);
    r
}

/// Decides what opening app `app_id` does and, when the window exists and
/// the app was locked, unlocks it. With the window open: a locked app needs
/// its PIN (a missing PIN counts as empty) — "app not found" or "invalid
/// pin" and it stays locked — and then shows its active (or first) subspace;
/// an unlocked one is just shown. Without a window: "app not found", or a
/// new window on the first subspace, preloading the others when the app
/// loads subspaces eagerly, locked at once when the PIN does not verify
/// (shortcut launches carry none): the app joins the locked set before any
/// of its window is built.
pub fn plan_open_app(
    config: &AppConfig,
    active: &ActiveSubspaces,
    locked: &mut LockedApps,
    app_id: &str,
    pin: &Option<String>,
    window_open: bool,
) -> (r: Result<OpenPlan, String>)
    requires
        active.wf(),
        old(locked).wf(),
    ensures
        final(locked).wf(),
        ({
            let i = app_pos(config@.apps, app_id@);
            let given = match *pin {
                Some(p) => p@,
                None => Seq::<char>::empty(),
            };
            if window_open && old(locked).view().contains(app_id@) {
                match r {
                    Ok(OpenPlan::Restore { show_subspace }) => {
                        &&& i >= 0
                        &&& pin_accepted(config@.apps[i], given)
                        &&& opt_view(show_subspace) == subspace_to_show(config@, active.view(), app_id@)
                        &&& final(locked).view() == old(locked).view().remove(app_id@)
                    },
                    Ok(OpenPlan::Create { .. }) => false,
                    Err(e) => {
                        &&& final(locked).view() == old(locked).view()
                        &&& if i < 0 {
                            e@ == "app not found"@
                        } else {
                            !pin_accepted(config@.apps[i], given) && e@ == "invalid pin"@
                        }
                    },
                }
            } else if window_open {
                &&& r matches Ok(OpenPlan::Restore { show_subspace }) && show_subspace is None
                &&& final(locked).view() == old(locked).view()
            } else {
                match r {
                    Ok(OpenPlan::Create { first_subspace, preload, lock }) => {
                        &&& final(locked).view() == if lock {
                            old(locked).view().insert(app_id@)
                        } else {
                            old(locked).view()
                        }
                        &&& i >= 0
                        &&& opt_view(first_subspace) == (if config@.apps[i].subspaces.len() > 0 {
                            Some(config@.apps[i].subspaces[0].id)
                        } else {
                            None
                        })
                        &&& preload@.map_values(|s: String| s@) == (if config@.apps[i].eager_load_subspaces {
                            other_subspace_ids(config@.apps[i].subspaces)
                        } else {
                            Seq::<Seq<char>>::empty()
                        })
                        &&& lock == !pin_accepted(config@.apps[i], given)
                    },
                    Ok(OpenPlan::Restore { .. }) => false,
                    Err(e) => i < 0 && e@ == "app not found"@ && final(locked).view() == old(locked).view(),
                }
            }
        }),
{
    let empty = String::new();
    let given: &str = match pin {
        Some(p) => p.as_str(),
        None => empty.as_str(),
    };
    if window_open {
        if locked.contains(app_id) {
            match unlock_app(config, active, locked, app_id, given) {
                Ok(s) => return Ok(OpenPlan::Restore { show_subspace: s }),
                Err(e) => return Err(e),
            }
        }
        return Ok(OpenPlan::Restore { show_subspace: None });
    }
    let i = match find_app(&config.apps, app_id) {
        Some(i) => i,
        None => return Err(String::from_str("app not found")),
    };
    assert(config@.apps[i as int] == config.apps@[i as int]@);
    let lock = !pin_accepted_exec(config, i, given);
    let first_subspace = if config.apps[i].subspaces.len() > 0 {
        assert(config@.apps[i as int].subspaces[0] == config.apps@[i as int].subspaces@[0]@);
        Some(config.apps[i].subspaces[0].id.clone())
    } else {
        None
    };
    let preload = if config.apps[i].eager_load_subspaces {
        other_subspace_ids_exec(config, i)
    } else {
        let v: Vec<String> = Vec::new();
        assert(v@.map_values(|s: String| s@) =~= Seq::<Seq<char>>::empty());
        v
    };
    if lock {
        locked.insert(String::from_str(app_id));
    }
    Ok(OpenPlan::Create { first_subspace, preload, lock })
}


/// Whether app `app_id` hides into the tray instead of closing: some app
/// with that id has run-in-background on.
pub open spec fn runs_in_background(c: AppConfigV, app_id: Seq<char>) -> bool {
    exists|i: int| 0 <= i < c.apps.len() && c.apps[i].id == app_id && #[trigger] c.apps[i].run_in_background
}

pub fn app_runs_in_background(config: &AppConfig, app_id: &str) -> (r: bool)
    ensures
        r == runs_in_background(config@, app_id@),
{
    let mut i: usize = 0;
    while i < config.apps.len()
        invariant
            i <= config.apps@.len(),
            forall|k: int| 0 <= k < i ==> !(config@.apps[k].id == app_id@ && #[trigger] config@.apps[k].run_in_background),
        decreases config.apps@.len() - i,
    {
        assert(config@.apps[i as int] == config.apps@[i as int]@);
        if config.apps[i].run_in_background && str_eq(config.apps[i].id.as_str(), app_id) {
            assert(config@.apps[i as int].id == app_id@ && config@.apps[i as int].run_in_background);
            return true;
        }
        i = i + 1;
    }
    false
}

/// When a backgrounded app locks itself again.
pub enum LockPlan {
    /// It does not (no PIN, or lock-on-background off, or no such app).
    Never,
    /// Right away.
    Now,
    /// After this many seconds, if it is still in the tray then.
    After(u64),
}

/// Decides how an app sent to the tray re-locks: only an app (the first
/// with the id) with a PIN and lock-on-background on does, at once for a
/// zero delay and after its delay otherwise.
pub fn pin_lock_plan(config: &AppConfig, app_id: &str) -> (r: LockPlan)
    ensures
        ({
            let i = app_pos(config@.apps, app_id@);
            if i >= 0 && config@.apps[i].pin_hash is Some && config@.apps[i].pin_lock_on_background {
                if config@.apps[i].pin_lock_delay_secs == 0 {
                    r is Now
                } else {
                    r == LockPlan::After(config@.apps[i].pin_lock_delay_secs)
                }
            } else {
                r is Never
            }
        }),
{
    match find_app(&config.apps, app_id) {
        Some(i) => {
            assert(config@.apps[i as int] == config.apps@[i as int]@);
            let a = &config.apps[i];
            if a.pin_hash.is_some() && a.pin_lock_on_background {
                if a.pin_lock_delay_secs == 0 {
                    LockPlan::Now
                } else {
                    LockPlan::After(a.pin_lock_delay_secs)
                }
            } else {
                LockPlan::Never
            }
        },
        None => LockPlan::Never,
    }
}

/// When a delayed re-lock comes due: the app is locked only if it is still
/// in the tray (it may have been reopened meanwhile).
pub fn lock_if_backgrounded(background: &BackgroundApps, locked: &mut LockedApps, app_id: &str)
    requires
        background.wf(),
        old(locked).wf(),
    ensures
        final(locked).wf(),
        final(locked).view() == if background.view().contains(app_id@) {
            old(locked).view().insert(app_id@)
        } else {
            old(locked).view()
        },
{
    if background.contains(app_id) {
        locked.insert(String::from_str(app_id));
    }
}

/// When switching subspace away from `previous`, it is hibernated (its
/// views closed after a delay) only when the app does not load subspaces
/// eagerly; the delay is the app's, 300 seconds when there is no such app
/// (which then counts as eager).
pub open spec fn hibernate_plan_of(
    c: AppConfigV,
    active: Map<Seq<char>, Seq<char>>,
    app_id: Seq<char>,
    subspace_id: Seq<char>,
) -> Option<(Seq<char>, u64)> {
    let i = app_pos(c.apps, app_id);
    let eager = if i >= 0 {
        c.apps[i].eager_load_subspaces
    } else {
        true
    };
    if !eager && active.contains_key(app_id) && active[app_id] != subspace_id {
        Some((active[app_id], if i >= 0 { c.apps[i].hibernate_delay_secs } else { 300 }))
    } else {
        None
    }
}

/// The subspace to hibernate, and after how many seconds, when app
/// `app_id` switches to `subspace_id`.
pub fn hibernate_plan(config: &AppConfig, active: &ActiveSubspaces, app_id: &str, subspace_id: &str) -> (r: Option<
    (String, u64),
>)
    requires
        active.wf(),
    ensures
        match r {
            Some((s, d)) => hibernate_plan_of(config@, active.view(), app_id@, subspace_id@) == Some((s@, d)),
            None => hibernate_plan_of(config@, active.view(), app_id@, subspace_id@) is None,
        },
{
    let found = find_app(&config.apps, app_id);
    let eager = match found {
        Some(i) => {
            assert(config@.apps[i as int] == config.apps@[i as int]@);
            config.apps[i].eager_load_subspaces
        },
        None => true,
    };
    if eager {
        return None;
    }
    let previous = match active.get(app_id) {
        Some(p) => p,
        None => return None,
    };
    if str_eq(previous.as_str(), subspace_id) {
        return None;
    }
    let delay = match found {
        Some(i) => config.apps[i].hibernate_delay_secs,
        None => 300,
    };
    Some((previous, delay))
}

/// When a scheduled hibernation comes due: it goes ahead only if the
/// subspace is still not the app's active one.
pub fn still_inactive(active: &ActiveSubspaces, app_id: &str, subspace_id: &str) -> (r: bool)
    requires
        active.wf(),
    ensures
        r == !(active.view().contains_key(app_id@) && active.view()[app_id@] == subspace_id@),
{
    match active.get(app_id) {
        Some(a) => !str_eq(a.as_str(), subspace_id),
        None => true,
    }
}

/// Setting a PIN and then unlocking with the same PIN succeeds: after a PIN
/// hash `h` that `pin` verifies against is stored for an existing app, that
/// app accepts `pin`.
pub proof fn law_set_pin_then_unlock(c: AppConfigV, app_id: Seq<char>, h: Seq<char>, pin: Seq<char>)
    requires
        app_pos(c.apps, app_id) >= 0,
        pin_matches(h, pin),
    ensures
        ({
            let c2 = with_pin_hash(c, app_id, Some(h));
            app_pos(c2.apps, app_id) == app_pos(c.apps, app_id) && pin_accepted(c2.apps[app_pos(c2.apps, app_id)], pin)
        }),
{
    let c2 = with_pin_hash(c, app_id, Some(h));
    let i = app_pos(c.apps, app_id);
    crate::models::lemma_app_pos_found(c.apps, app_id);
    assert forall|q: int| 0 <= q < c.apps.len() implies #[trigger] c2.apps[q].id == c.apps[q].id by {}
    crate::models::lemma_app_pos_same_ids(c2.apps, c.apps, app_id);
}

/// Removing an app's PIN opens it to any PIN and turns lock-on-background
/// off.
pub proof fn law_removed_pin_accepts_any(c: AppConfigV, app_id: Seq<char>, pin: Seq<char>)
    requires
        app_pos(c.apps, app_id) >= 0,
    ensures
        ({
            let c2 = with_pin_hash(c, app_id, None);
            let i = app_pos(c2.apps, app_id);
            i == app_pos(c.apps, app_id) && pin_accepted(c2.apps[i], pin) && !c2.apps[i].pin_lock_on_background
        }),
{
    let c2 = with_pin_hash(c, app_id, None);
    crate::models::lemma_app_pos_found(c.apps, app_id);
    assert forall|q: int| 0 <= q < c.apps.len() implies #[trigger] c2.apps[q].id == c.apps[q].id by {}
    crate::models::lemma_app_pos_same_ids(c2.apps, c.apps, app_id);
}

/// A stored PIN hash is never the PIN itself in plain text: the hash is an
/// Argon2id PHC string (what `set_app_pin` stores), so it differs from any
/// PIN that does not itself begin with `$argon2id$`.
pub proof fn law_pin_hash_is_not_the_pin(h: Seq<char>, pin: Seq<char>)
    requires
        is_argon2id_phc(h),
        !is_argon2id_phc(pin),
    ensures
        h != pin,
{
}

} // verus!

//! The frontend page each window or webview loads: one bundle renders a
//! different small UI depending on the query parameter it is opened with.
use vstd::prelude::*;

verus! {

fn page_with(query: &str, value: &str) -> (r: String)
    ensures
        r@ == "index.html?"@ + query@ + "="@ + value@,
{
    let mut r = String::from_str("index.html?");
    r.append(query);
    r.append("=");
    r.append(value);
    r
}

/// The subspace rail of an app window.
pub fn sidebar_page(app_id: &str) -> (r: String)
    ensures
        r@ == "index.html?"@ + "appId"@ + "="@ + app_id@,
{
    page_with("appId", app_id)
}

/// A subspace's tab strip and address bar.
pub fn toolbar_page(app_id: &str, subspace_id: &str) -> (r: String)
    ensures
        r@ == "index.html?"@ + "toolbarApp"@ + "="@ + app_id@ + "&toolbarSubspace="@ + subspace_id@,
{
    let mut r = page_with("toolbarApp", app_id);
    r.append("&toolbarSubspace=");
    r.append(subspace_id);
    r
}

/// The PIN overlay covering a locked app window.
pub fn unlock_overlay_page(app_id: &str) -> (r: String)
    ensures
        r@ == "index.html?"@ + "unlockApp"@ + "="@ + app_id@,
{
    page_with("unlockApp", app_id)
}

/// An app's settings window.
pub fn app_settings_page(app_id: &str) -> (r: String)
    ensures
        r@ == "index.html?"@ + "settingsForApp"@ + "="@ + app_id@,
{
    page_with("settingsForApp", app_id)
}

/// A subspace's settings window.
pub fn subspace_settings_page(app_id: &str, subspace_id: &str) -> (r: String)
    ensures
        r@ == "index.html?"@ + "settingsApp"@ + "="@ + app_id@ + "&settingsSubspace="@ + subspace_id@,
{
    let mut r = page_with("settingsApp", app_id);
    r.append("&settingsSubspace=");
    r.append(subspace_id);
    r
}

/// The "new subspace" popup of an app window.
pub fn add_subspace_page(app_id: &str) -> (r: String)
    ensures
        r@ == "index.html?"@ + "addPopupFor"@ + "="@ + app_id@,
{
    page_with("addPopupFor", app_id)
}

/// The "quit this app" confirmation popup.
pub fn quit_confirm_page(app_id: &str) -> (r: String)
    ensures
        r@ == "index.html?"@ + "quitConfirmFor"@ + "="@ + app_id@,
{
    page_with("quitConfirmFor", app_id)
}

/// The global settings window.
pub fn global_settings_page() -> (r: &'static str)
    ensures
        r@ == "index.html?globalSettings=1"@,
{
    "index.html?globalSettings=1"
}

/// Title of an app's or a subspace's settings window.
pub fn settings_title(name: &str) -> (r: String)
    ensures
        r@ == "Impostazioni - "@ + name@,
{
    let mut r = String::from_str("Impostazioni - ");
    r.append(name);
    r
}

} // verus!

//! The "information" panel of an app's settings: where its data folder is,
//! when it was created, and how much each subspace's session takes on disk
//! (subspaces that share a session group share a folder, whose size is
//! measured once).
use vstd::prelude::*;
use crate::models::{app_pos, find_app, AppConfig, AppConfigV, SubspaceV};
use crate::paths::{join_path, path_joined};
use crate::text::str_eq;

verus! {

/// A subspace and the size of its session folder.
pub struct SubspaceSize {
    pub id: String,
    pub name: String,
    pub size_bytes: u64,
}

/// An app's data folder, creation time and sizes.
pub struct AppInfo {
    pub created_at: i64,
    pub folder_path: String,
    pub total_size_bytes: u64,
    pub subspaces: Vec<SubspaceSize>,
}

/// An app's own data folder inside the webapps folder, or "app not found".
pub fn app_folder(config: &AppConfig, app_id: &str, webapps: &str) -> (r: Result<String, String>)
    ensures
        match r {
            Ok(p) => app_pos(config@.apps, app_id@) >= 0 && p@ == path_joined(
                webapps@,
                config@.apps[app_pos(config@.apps, app_id@)].data_slug,
            ),
            Err(e) => app_pos(config@.apps, app_id@) < 0 && e@ == "app not found"@,
        },
{
    match find_app(&config.apps, app_id) {
        Some(i) => {
            assert(config@.apps[i as int] == config.apps@[i as int]@);
            Ok(join_path(webapps, config.apps[i].data_slug.as_str()))
        },
        None => Err(String::from_str("app not found")),
    }
}

/// The measured size of a session group: the first measurement listed for
/// it, 0 when it was not measured.
pub open spec fn group_size(sizes: Seq<(Seq<char>, u64)>, group: Seq<char>) -> u64
    decreases sizes.len(),
{
    if sizes.len() == 0 {
        0
    } else if sizes[0].0 == group {
        sizes[0].1
    } else {
        group_size(sizes.drop_first(), group)
    }
}

/// The sizes as plain values.
pub open spec fn sizes_view(sizes: Seq<(String, u64)>) -> Seq<(Seq<char>, u64)> {
    sizes.map_values(|p: (String, u64)| (p.0@, p.1))
}

fn group_size_exec(sizes: &Vec<(String, u64)>, group: &str) -> (r: u64)
    ensures
        r == group_size(sizes_view(sizes@), group@),
{
    let ghost all = sizes_view(sizes@);
    let mut i: usize = 0;
    assert(all.skip(0) =~= all);
    while i < sizes.len()
        invariant
            i <= sizes@.len(),
            all == sizes_view(sizes@),
            group_size(all.skip(i as int), group@) == group_size(all, group@),
        decreases sizes@.len() - i,
    {
        let ghost rest = all.skip(i as int);
        assert(rest[0] == (sizes@[i as int].0@, sizes@[i as int].1));
        if str_eq(sizes[i].0.as_str(), group) {
            return sizes[i].1;
        }
        assert(rest.drop_first() =~= all.skip(i + 1));
        i = i + 1;
    }
    0
}

/// The information panel of app `app_id`, given its folder, the folder's
/// total size and the measured size of each of its session groups: one
/// entry per subspace, in order, with the size of its session group.
pub fn app_info(config: &AppConfig, app_id: &str, folder_path: String, total_size_bytes: u64, group_sizes: &Vec<
    (String, u64),
>) -> (r: Result<AppInfo, String>)
    ensures
        match r {
            Ok(info) => {
                let i = app_pos(config@.apps, app_id@);
                let subs = config@.apps[i].subspaces;
                &&& i >= 0
                &&& info.created_at == config@.apps[i].created_at
                &&& info.folder_path@ == folder_path@
                &&& info.total_size_bytes == total_size_bytes
                &&& info.subspaces@.len() == subs.len()
                &&& forall|k: int|
                    0 <= k < subs.len() ==> {
                        &&& #[trigger] info.subspaces@[k].id@ == subs[k].id
                        &&& info.subspaces@[k].name@ == subs[k].name
                        &&& info.subspaces@[k].size_bytes == group_size(sizes_view(group_sizes@), subs[k].session_group)
                    }
            },
            Err(e) => app_pos(config@.apps, app_id@) < 0 && e@ == "app not found"@,
        },
{
    let i = match find_app(&config.apps, app_id) {
        Some(i) => i,
        None => return Err(String::from_str("app not found")),
    };
    assert(config@.apps[i as int] == config.apps@[i as int]@);
    let app = &config.apps[i];
    let ghost subs = config@.apps[i as int].subspaces;
    let mut out: Vec<SubspaceSize> = Vec::new();
    let mut k: usize = 0;
    while k < app.subspaces.len()
        invariant
            k <= app.subspaces@.len(),
            subs.len() == app.subspaces@.len(),
            forall|m: int| 0 <= m < subs.len() ==> #[trigger] subs[m] == app.subspaces@[m]@,
            out@.len() == k,
            forall|m: int|
                0 <= m < k ==> {
                    &&& #[trigger] out@[m].id@ == subs[m].id
                    &&& out@[m].name@ == subs[m].name
                    &&& out@[m].size_bytes == group_size(sizes_view(group_sizes@), subs[m].session_group)
                },
        decreases app.subspaces@.len() - k,
    {
        let s = &app.subspaces[k];
        assert(subs[k as int] == s@);
        let size = group_size_exec(group_sizes, s.session_group.as_str());
        out.push(SubspaceSize { id: s.id.clone(), name: s.name.clone(), size_bytes: size });
        k = k + 1;
    }
    Ok(AppInfo { created_at: app.created_at, folder_path, total_size_bytes, subspaces: out })
}

} // verus!

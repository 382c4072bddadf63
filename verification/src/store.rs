//! The configuration store: the loaded `AppConfig` plus the path of the
//! JSON file it is saved to, and the backfill applied to configurations
//! written by older versions (missing data slugs, missing creation times).
use vstd::prelude::*;
use crate::models::{apps_view, AppConfig, AppConfigV, WebApp, WebAppV};
use crate::naming::{is_slugify_result, is_taken, law_slug_is_fresh_and_safe, is_slug_shaped, slugify};

verus! {

pub struct Store {
    pub config: AppConfig,
    /// Where the configuration is saved (data/config.json).
    pub config_path: String,
}

/// The non-empty data slugs of `apps`, in order.
pub open spec fn nonempty_slugs(apps: Seq<WebApp>) -> Seq<String>
    decreases apps.len(),
{
    if apps.len() == 0 {
        Seq::empty()
    } else {
        let r = nonempty_slugs(apps.drop_last());
        if apps.last().data_slug@.len() > 0 {
            r.push(apps.last().data_slug)
        } else {
            r
        }
    }
}

/// The slugs given to apps before position `i` that had none.
pub open spec fn assigned_slugs(old_apps: Seq<WebApp>, new_apps: Seq<WebApp>, i: int) -> Seq<String>
    decreases i,
{
    if i <= 0 {
        Seq::empty()
    } else {
        let r = assigned_slugs(old_apps, new_apps, i - 1);
        if old_apps[i - 1].data_slug@.len() == 0 {
            r.push(new_apps[i - 1].data_slug)
        } else {
            r
        }
    }
}

/// The slugs already in use when the app at position `i` gets one: every
/// non-empty slug of the loaded configuration plus those handed out so far.
pub open spec fn taken_at(old_apps: Seq<WebApp>, new_apps: Seq<WebApp>, i: int) -> Seq<String> {
    nonempty_slugs(old_apps) + assigned_slugs(old_apps, new_apps, i)
}

/// The migration result for one app: a slug when it had none, `now` as its
/// creation time when it had none, everything else unchanged.
pub open spec fn migrated(old: WebAppV, new: WebAppV, now: i64) -> bool {
    &&& new == (WebAppV {
        data_slug: new.data_slug,
        created_at: if old.created_at == 0 {
            now
        } else {
            old.created_at
        },
        ..old
    })
    &&& old.data_slug.len() > 0 ==> new.data_slug == old.data_slug
}

proof fn lemma_nonempty_slugs_len(apps: Seq<WebApp>)
    ensures
        nonempty_slugs(apps).len() <= apps.len(),
    decreases apps.len(),
{
    if apps.len() > 0 {
        lemma_nonempty_slugs_len(apps.drop_last());
    }
}

proof fn lemma_assigned_len(o: Seq<WebApp>, n: Seq<WebApp>, i: int)
    requires
        0 <= i <= o.len(),
    ensures
        assigned_slugs(o, n, i).len() + nonempty_slugs(o.take(i)).len() <= i,
    decreases i,
{
    if i > 0 {
        lemma_assigned_len(o, n, i - 1);
        assert(o.take(i).drop_last() =~= o.take(i - 1));
    }
}

proof fn lemma_nonempty_split(o: Seq<WebApp>, i: int)
    requires
        0 <= i <= o.len(),
    ensures
        nonempty_slugs(o).len() <= nonempty_slugs(o.take(i)).len() + (o.len() - i),
    decreases o.len() - i,
{
    if i < o.len() {
        lemma_nonempty_split(o, i + 1);
        assert(o.take(i + 1).drop_last() =~= o.take(i));
    } else {
        assert(o.take(i) =~= o);
    }
}

proof fn lemma_assigned_prefix(o: Seq<WebApp>, n1: Seq<WebApp>, n2: Seq<WebApp>, i: int)
    requires
        0 <= i <= n1.len(),
        i <= n2.len(),
        forall|k: int| 0 <= k < i ==> n1[k].data_slug == n2[k].data_slug,
    ensures
        assigned_slugs(o, n1, i) == assigned_slugs(o, n2, i),
    decreases i,
{
    if i > 0 {
        lemma_assigned_prefix(o, n1, n2, i - 1);
    }
}

impl Store {
    pub fn new(config: AppConfig, config_path: String) -> (r: Store)
        ensures
            r.config@ == config@,
            r.config_path@ == config_path@,
    {
        Store { config, config_path }
    }

    /// Backfills what configurations from older versions lack: every app
    /// without a data slug gets one (its name slugified against all slugs
    /// already in use, including the ones handed out earlier in this pass),
    /// and every app without a creation time gets `now`. Returns whether
    /// anything changed.
    pub fn assign_missing_slugs(config: &mut AppConfig, now: i64) -> (changed: bool)
        requires
            old(config).apps@.len() + 2 <= usize::MAX,
        ensures
            final(config).apps@.len() == old(config).apps@.len(),
            final(config)@.macos_icons_api_key == old(config)@.macos_icons_api_key,
            forall|i: int|
                0 <= i < final(config)@.apps.len() ==> migrated(
                    old(config)@.apps[i],
                    #[trigger] final(config)@.apps[i],
                    now,
                ),
            forall|i: int|
                0 <= i < final(config)@.apps.len() && old(config)@.apps[i].data_slug.len() == 0 ==> is_slugify_result(
                    old(config)@.apps[i].name,
                    taken_at(old(config).apps@, final(config).apps@, i),
                    #[trigger] final(config)@.apps[i].data_slug,
                ),
            changed == exists|i: int|
                0 <= i < old(config)@.apps.len() && ((#[trigger] old(config)@.apps[i]).data_slug.len() == 0
                    || old(config)@.apps[i].created_at == 0),
    {
        let ghost old_apps = config.apps@;
        let mut taken: Vec<String> = Vec::new();
        let mut k: usize = 0;
        while k < config.apps.len()
            invariant
                k <= config.apps.len(),
                config.apps@ == old_apps,
                taken@ == nonempty_slugs(old_apps.take(k as int)),
            decreases config.apps.len() - k,
        {
            assert(old_apps.take(k + 1).drop_last() =~= old_apps.take(k as int));
            if !config.apps[k].data_slug.as_str().is_empty() {
                taken.push(config.apps[k].data_slug.clone());
            }
            k = k + 1;
        }
        assert(old_apps.take(config.apps.len() as int) =~= old_apps);
        let mut changed = false;
        let mut i: usize = 0;
        let n = config.apps.len();
        while i < n
            invariant
                n == config.apps@.len(),
                n == old_apps.len(),
                n + 2 <= usize::MAX,
                i <= n,
                config.macos_icons_api_key == old(config).macos_icons_api_key,
                old_apps == old(config).apps@,
                taken@ == taken_at(old_apps, config.apps@, i as int),
                forall|m: int| i <= m < n ==> config.apps@[m] == old_apps[m],
                forall|m: int| 0 <= m < i ==> migrated(old_apps[m]@, #[trigger] config.apps@[m]@, now),
                forall|m: int|
                    0 <= m < i && old_apps[m]@.data_slug.len() == 0 ==> is_slugify_result(
                        old_apps[m]@.name,
                        taken_at(old_apps, config.apps@, m),
                        #[trigger] config.apps@[m]@.data_slug,
                    ),
                changed == exists|m: int|
                    0 <= m < i && ((#[trigger] old_apps[m]@).data_slug.len() == 0 || old_apps[m]@.created_at == 0),
            decreases n - i,
        {
            let ghost before = config.apps@;
            proof {
                lemma_nonempty_slugs_len(old_apps);
                lemma_assigned_len(old_apps, before, i as int);
                lemma_nonempty_split(old_apps, i as int);
            }
            if config.apps[i].data_slug.as_str().is_empty() {
                let slug = slugify(config.apps[i].name.as_str(), &taken);
                taken.push(slug.clone());
                config.apps[i].data_slug = slug;
                changed = true;
            }
            if config.apps[i].created_at == 0 {
                config.apps[i].created_at = now;
                changed = true;
            }
            proof {
                let after = config.apps@;
                assert forall|m: int| 0 <= m < i + 1 implies before[m].data_slug == after[m].data_slug || m == i by {}
                lemma_assigned_prefix(old_apps, before, after, i as int);
                assert forall|m: int| 0 <= m < i implies assigned_slugs(old_apps, after, m) == assigned_slugs(
                    old_apps,
                    before,
                    m,
                ) by {
                    lemma_assigned_prefix(old_apps, before, after, m);
                }
                assert(taken@ =~= taken_at(old_apps, after, i + 1));
                assert forall|m: int| i + 1 <= m < n implies after[m] == old_apps[m] by {}
                assert(changed == exists|m: int|
                    0 <= m < i + 1 && ((#[trigger] old_apps[m]@).data_slug.len() == 0 || old_apps[m]@.created_at
                        == 0)) by {
                    if changed {
                        if !(exists|m: int| 0 <= m < i && ((#[trigger] old_apps[m]@).data_slug.len() == 0 || old_apps[m]@.created_at == 0)) {
                            assert(old_apps[i as int]@.data_slug.len() == 0 || old_apps[i as int]@.created_at == 0);
                        }
                    }
                }
            }
            i = i + 1;
        }
        proof {
            let ov = old(config)@.apps;
            assert(ov == apps_view(old_apps));
            if changed {
                let m = choose|m: int|
                    0 <= m < n && ((#[trigger] old_apps[m]@).data_slug.len() == 0 || old_apps[m]@.created_at == 0);
                assert(ov[m] == old_apps[m]@);
            } else {
                assert forall|m: int| 0 <= m < n implies !((#[trigger] ov[m]).data_slug.len() == 0 || ov[m].created_at == 0) by {
                    assert(ov[m] == old_apps[m]@);
                }
            }
        }
        changed
    }
}

proof fn lemma_taken_concat(a: Seq<String>, b: Seq<String>, x: Seq<char>)
    requires
        is_taken(a, x) || is_taken(b, x),
    ensures
        is_taken(a + b, x),
{
    if is_taken(a, x) {
        let i = choose|i: int| 0 <= i < a.len() && (#[trigger] a[i])@ == x;
        assert((a + b)[i] == a[i]);
    } else {
        let i = choose|i: int| 0 <= i < b.len() && (#[trigger] b[i])@ == x;
        assert((a + b)[a.len() + i] == b[i]);
    }
}

proof fn lemma_in_nonempty(o: Seq<WebApp>, k: int)
    requires
        0 <= k < o.len(),
        o[k].data_slug@.len() > 0,
    ensures
        is_taken(nonempty_slugs(o), o[k].data_slug@),
    decreases o.len(),
{
    let r = nonempty_slugs(o.drop_last());
    if k == o.len() - 1 {
        assert(nonempty_slugs(o) == r.push(o.last().data_slug));
        assert(nonempty_slugs(o)[r.len() as int] == o[k].data_slug);
    } else {
        assert(o.drop_last()[k] == o[k]);
        lemma_in_nonempty(o.drop_last(), k);
        let j = choose|j: int| 0 <= j < r.len() && (#[trigger] r[j])@ == o[k].data_slug@;
        assert(nonempty_slugs(o)[j] == r[j]);
    }
}

proof fn lemma_in_assigned(o: Seq<WebApp>, n: Seq<WebApp>, k: int, i: int)
    requires
        0 <= k < i <= o.len(),
        i <= n.len(),
        o[k].data_slug@.len() == 0,
    ensures
        is_taken(assigned_slugs(o, n, i), n[k].data_slug@),
    decreases i,
{
    let r = assigned_slugs(o, n, i - 1);
    if k == i - 1 {
        assert(assigned_slugs(o, n, i)[r.len() as int] == n[k].data_slug);
    } else {
        lemma_in_assigned(o, n, k, i - 1);
        let j = choose|j: int| 0 <= j < r.len() && (#[trigger] r[j])@ == n[k].data_slug@;
        assert(assigned_slugs(o, n, i)[j] == r[j]);
    }
}

/// After the backfill every app has a data slug, and every slug it handed
/// out differs from every other app's slug, so no two apps end up sharing a
/// session data folder through it.
pub proof fn law_backfilled_slugs_are_unique(old_apps: Seq<WebApp>, new_apps: Seq<WebApp>, now: i64)
    requires
        new_apps.len() == old_apps.len(),
        forall|i: int| 0 <= i < new_apps.len() ==> migrated(old_apps[i]@, #[trigger] new_apps[i]@, now),
        forall|i: int|
            0 <= i < new_apps.len() && old_apps[i]@.data_slug.len() == 0 ==> is_slugify_result(
                old_apps[i]@.name,
                taken_at(old_apps, new_apps, i),
                #[trigger] new_apps[i]@.data_slug,
            ),
    ensures
        forall|i: int| 0 <= i < new_apps.len() ==> (#[trigger] new_apps[i])@.data_slug.len() > 0,
        forall|i: int, j: int|
            0 <= i < new_apps.len() && 0 <= j < new_apps.len() && i != j && old_apps[i]@.data_slug.len() == 0
                ==> (#[trigger] new_apps[i])@.data_slug != (#[trigger] new_apps[j])@.data_slug,
{
    assert forall|i: int| 0 <= i < new_apps.len() implies (#[trigger] new_apps[i])@.data_slug.len() > 0 by {
        assert(migrated(old_apps[i]@, new_apps[i]@, now));
        if old_apps[i]@.data_slug.len() == 0 {
            law_slug_is_fresh_and_safe(old_apps[i]@.name, taken_at(old_apps, new_apps, i), new_apps[i]@.data_slug);
        }
    }
    assert forall|i: int, j: int|
        0 <= i < new_apps.len() && 0 <= j < new_apps.len() && i != j && old_apps[i]@.data_slug.len() == 0
            implies (#[trigger] new_apps[i])@.data_slug != (#[trigger] new_apps[j])@.data_slug by {
        let ti = taken_at(old_apps, new_apps, i);
        assert(is_slugify_result(old_apps[i]@.name, ti, new_apps[i]@.data_slug));
        law_slug_is_fresh_and_safe(old_apps[i]@.name, ti, new_apps[i]@.data_slug);
        assert(migrated(old_apps[j]@, new_apps[j]@, now));
        if old_apps[j]@.data_slug.len() > 0 {
            lemma_in_nonempty(old_apps, j);
            lemma_taken_concat(nonempty_slugs(old_apps), assigned_slugs(old_apps, new_apps, i), new_apps[j]@.data_slug);
        } else if j < i {
            lemma_in_assigned(old_apps, new_apps, j, i);
            lemma_taken_concat(nonempty_slugs(old_apps), assigned_slugs(old_apps, new_apps, i), new_apps[j]@.data_slug);
        } else {
            let tj = taken_at(old_apps, new_apps, j);
            assert(is_slugify_result(old_apps[j]@.name, tj, new_apps[j]@.data_slug));
            law_slug_is_fresh_and_safe(old_apps[j]@.name, tj, new_apps[j]@.data_slug);
            lemma_in_assigned(old_apps, new_apps, i, j);
            lemma_taken_concat(nonempty_slugs(old_apps), assigned_slugs(old_apps, new_apps, j), new_apps[i]@.data_slug);
        }
    }
}

} // verus!

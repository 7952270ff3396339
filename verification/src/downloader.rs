//! Collects what a case asks for: each list of its data in turn.

use crate::assets::{
    count_max_locks, default_places_requests, default_places_wanted, default_sprites_requests,
    default_sprites_wanted, evidence_list_wanted, evidence_requests, flagged_list_requests,
    flagged_list_wanted, get_used_default_sprites, lock_request, lock_wanted, max_locks,
    places_requests, places_wanted, profiles_requests, profiles_wanted, sprite_pairs,
    used_default_sprites, voices_requests, voices_wanted, wanted_views, AssetRequest, VOICES,
};
use crate::case::{used_places, used_sprites, Case};
use crate::collector::{
    asset_file, asset_text, asset_url, collect_all, lemma_collect_all_split, local_path,
    request_views, ASSETS_DIR, AssetCollector, AssetCollectorV, CollectError, Wanted,
};
use crate::download::{AssetDownload, AssetDownloadV};
use crate::json::{Json, JsonV};
use crate::marks::{default_places_marked, list_marked, mark_default_places, mark_list, Mark, MarkV};
use crate::paths::{join_path, joined_path, name_start};
use crate::site::{place_views, DefaultDataV, SiteData, SitePaths};
use crate::text::{chars_of, decimal, push_chars, push_decimal, string_views};
use vstd::prelude::*;

verus! {

/// The names of the four psyche-lock animations: first, that of the chains as they
/// appear.
pub const LOCK_CHAINS_APPEAR: &'static str = "fg_chains_appear";

/// The animation of a lock that appears.
pub const LOCK_APPEARS: &'static str = "jfa_lock_appears";

/// The animation of a lock that breaks.
pub const LOCK_EXPLODES: &'static str = "jfa_lock_explodes";

/// The animation of the chains as they leave.
pub const LOCK_CHAINS_DISAPPEAR: &'static str = "fg_chains_disappear";

/// The copies of one psyche-lock animation that stand beside it, one for each lock that
/// the case may show at once.
#[derive(Debug)]
pub struct LinkPlan {
    /// The name of the animation.
    pub name: String,
    /// The path of the file that the animation is downloaded to.
    pub original_path: String,
    /// The name of that file, which a symbolic link beside it points to.
    pub original_name: String,
    /// The paths of the copies: `{name}_1.gif`, `{name}_2.gif`, and so on, beside the
    /// original.
    pub targets: Vec<String>,
}

/// What a [`LinkPlan`] holds.
pub struct LinkPlanV {
    pub name: Seq<char>,
    pub original_path: Seq<char>,
    pub original_name: Seq<char>,
    pub targets: Seq<Seq<char>>,
}

impl View for LinkPlan {
    type V = LinkPlanV;

    open spec fn view(&self) -> LinkPlanV {
        LinkPlanV {
            name: self.name@,
            original_path: self.original_path@,
            original_name: self.original_name@,
            targets: string_views(self.targets@),
        }
    }
}

/// What the plans of `plans` hold.
pub open spec fn link_views(plans: Seq<LinkPlan>) -> Seq<LinkPlanV> {
    Seq::new(plans.len(), |i: int| plans[i]@)
}

/// The path of the copy of the animation `name` for the lock `lock`, beside the file at
/// `original`.
pub open spec fn link_target(original: Seq<char>, name: Seq<char>, lock: nat) -> Seq<char> {
    original.subrange(0, name_start(original)) + name + "_"@ + decimal(lock) + ".gif"@
}

/// The paths of the copies of the animation `name` for the locks 1 up to `locks`.
pub open spec fn link_targets(original: Seq<char>, name: Seq<char>, locks: nat) -> Seq<Seq<char>> {
    Seq::new(locks, |i: int| link_target(original, name, (i + 1) as nat))
}

/// The copies of the animation `name` beside its file `original`, for `locks` locks.
pub open spec fn planned(original: Seq<char>, name: Seq<char>, locks: nat) -> LinkPlanV {
    LinkPlanV {
        name,
        original_path: original,
        original_name: original.subrange(name_start(original), original.len() as int),
        targets: link_targets(original, name, locks),
    }
}

/// The local file that a collector with the setting of `c` settles at once for the
/// asset `w`.
pub open spec fn early_file(c: AssetCollectorV, w: Wanted) -> Option<Seq<char>> {
    let text = asset_text(w.file, c.default_icon_url);
    local_path(
        c.output,
        asset_url(text, w.components, w.external, w.default_ext),
        asset_file(text, w.external, w.default_ext),
        c.windows_names,
    )
}

/// The copies that are made of the animation `name`, which lies below `dirs` on the
/// site: those beside the file that is settled for it. In a single file there are none.
pub open spec fn lock_plan(
    c: AssetCollectorV,
    name: Seq<char>,
    dirs: Seq<Seq<char>>,
    locks: u8,
    one_html_file: bool,
) -> Seq<LinkPlanV> {
    let w = lock_wanted(name, dirs, true);
    if one_html_file || asset_text(w.file, c.default_icon_url).len() == 0 {
        Seq::empty()
    } else {
        match early_file(c, w) {
            Some(path) => seq![planned(path, name, locks as nat)],
            None => Seq::empty(),
        }
    }
}

/// The copies that are made of the four animations, for a case that shows up to `locks`
/// locks.
pub open spec fn lock_links(c: AssetCollectorV, dirs: Seq<Seq<char>>, locks: u8, one_html_file: bool) -> Seq<
    LinkPlanV,
> {
    if locks == 0 {
        Seq::empty()
    } else {
        lock_plan(c, LOCK_CHAINS_APPEAR@, dirs, locks, one_html_file) + lock_plan(
            c,
            LOCK_APPEARS@,
            dirs,
            locks,
            one_html_file,
        ) + lock_plan(c, LOCK_EXPLODES@, dirs, locks, one_html_file) + lock_plan(
            c,
            LOCK_CHAINS_DISAPPEAR@,
            dirs,
            locks,
            one_html_file,
        )
    }
}

/// The plan that was made, if one was.
pub open spec fn plan_made(plan: Option<LinkPlan>) -> Seq<LinkPlanV> {
    match plan {
        Some(p) => seq![p@],
        None => Seq::empty(),
    }
}

/// Plans the copies of the psyche-lock animation `name`, whose file is downloaded to
/// `original`, for a case that shows up to `max_locks` locks.
pub fn plan_links(original: &str, name: &str, max_locks: u8) -> (r: LinkPlan)
    ensures
        r@ == planned(original@, name@, max_locks as nat),
{
    let chars = chars_of(original);
    let slash = vec!['/'];
    assert(slash@ =~= seq!['/']);
    let start: usize = match crate::text::find_last(&chars, &slash) {
        Some(at) => {
            proof {
                crate::text::lemma_last_occurrence_bounds(chars@, slash@, chars@.len() as int);
            }
            let total = chars.len();
            at + 1
        },
        None => 0,
    };
    let mut original_name = String::new();
    push_chars(&mut original_name, &chars, start, chars.len());
    let mut targets: Vec<String> = Vec::new();
    let mut lock: u8 = 0;
    while lock < max_locks
        invariant
            lock <= max_locks,
            start == name_start(original@),
            start <= chars@.len(),
            chars@ == original@,
            targets@.len() == lock,
            forall|k: int|
                0 <= k < lock ==> (#[trigger] targets@[k])@ == link_target(
                    original@,
                    name@,
                    (k + 1) as nat,
                ),
        decreases max_locks - lock,
    {
        lock += 1;
        let mut target = String::new();
        push_chars(&mut target, &chars, 0, start);
        target.append(name);
        target.append("_");
        push_decimal(&mut target, lock as u64);
        target.append(".gif");
        targets.push(target);
    }
    assert(string_views(targets@) =~= link_targets(original@, name@, max_locks as nat));
    LinkPlan { name: name.to_owned(), original_path: original.to_owned(), original_name, targets }
}

/// What a case uses of the default data: the default sprites it shows, and the default
/// places it uses.
pub struct Uses {
    pub sprites: Seq<(Seq<char>, i64)>,
    pub places: Seq<i64>,
}

/// What the psyche-lock animations ask for, for a case that shows locks.
pub open spec fn locks_wanted(dirs: Seq<Seq<char>>, locks: u8, early: bool) -> Seq<Wanted> {
    if locks > 0 {
        seq![
            lock_wanted(LOCK_CHAINS_APPEAR@, dirs, early),
            lock_wanted(LOCK_APPEARS@, dirs, early),
            lock_wanted(LOCK_EXPLODES@, dirs, early),
            lock_wanted(LOCK_CHAINS_DISAPPEAR@, dirs, early),
        ]
    } else {
        Seq::empty()
    }
}

/// The collector after the next list of assets was collected, where the lists before it
/// went well.
pub open spec fn then_collect(
    so_far: Result<AssetCollectorV, CollectError>,
    wanted: Result<Seq<Wanted>, CollectError>,
) -> Result<AssetCollectorV, CollectError> {
    match so_far {
        Ok(c) => match wanted {
            Ok(w) => collect_all(c, w),
            Err(e) => Err(e),
        },
        Err(e) => Err(e),
    }
}

/// What the case uses of the default data.
pub open spec fn case_uses(data: JsonV) -> Result<Uses, CollectError> {
    match used_sprites(data) {
        Ok(shown) => match used_places(data) {
            Ok(places) => match used_default_sprites(data.member("profiles"@), shown) {
                Ok(sprites) => Ok(Uses { sprites, places }),
                Err(e) => Err(e),
            },
            Err(e) => Err(e),
        },
        Err(e) => Err(e),
    }
}

/// How far the collection for a case has come: what is collected, the data of the case
/// as it is marked so far, and the default places likewise.
pub struct Progress {
    pub collector: AssetCollectorV,
    pub data: JsonV,
    pub places: Seq<(i64, JsonV)>,
    pub links: Seq<LinkPlanV>,
}

/// The progress after one list of the data was collected and marked.
pub open spec fn list_done(
    p: Progress,
    wanted: Result<Seq<Wanted>, CollectError>,
    list: Seq<char>,
    mark: MarkV,
) -> Result<Progress, CollectError> {
    match then_collect(Ok(p.collector), wanted) {
        Ok(after) => Ok(Progress { collector: after, data: list_marked(p.data, list, mark), ..p }),
        Err(e) => Err(e),
    }
}

/// The progress after the profiles were collected: first the default sprites that the
/// case shows, then of each profile its icon and its custom sprites.
pub open spec fn profiles_done(
    p: Progress,
    sprites: Seq<(Seq<char>, i64)>,
    startup: Seq<Seq<char>>,
    paths: SitePaths,
    case_id: u32,
) -> Result<Progress, CollectError> {
    let dirs = seq![paths.picture_dir@, paths.icon_subdir@];
    match then_collect(
        then_collect(
            Ok(p.collector),
            Ok(default_sprites_wanted(sprites, startup, paths, sprites.len() as int)),
        ),
        profiles_wanted(p.data, dirs, case_id),
    ) {
        Ok(after) => Ok(
            Progress {
                collector: after,
                data: list_marked(p.data, "profiles"@, MarkV::Icon(dirs)),
                ..p
            },
        ),
        Err(e) => Err(e),
    }
}

/// The progress after the places were collected: those of the case, and then the
/// default places that it uses.
pub open spec fn places_done(p: Progress, used: Seq<i64>, paths: SitePaths, case_id: u32) -> Result<
    Progress,
    CollectError,
> {
    let dirs = seq![paths.picture_dir@, paths.bg_subdir@];
    match then_collect(
        then_collect(Ok(p.collector), places_wanted(p.data, dirs, case_id)),
        default_places_wanted(p.places, used, dirs, p.places.len() as int),
    ) {
        Ok(after) => Ok(
            Progress {
                collector: after,
                data: list_marked(p.data, "places"@, MarkV::Background),
                places: default_places_marked(p.places, used),
                links: p.links,
            },
        ),
        Err(e) => Err(e),
    }
}

/// The progress after the voices and the psyche locks were collected.
pub open spec fn voices_and_locks_done(p: Progress, paths: SitePaths, one_html_file: bool) -> Result<
    Progress,
    CollectError,
> {
    match collect_all(p.collector, voices_wanted(seq![paths.voices_dir@], VOICES as nat)) {
        Ok(c) => match max_locks(p.data) {
            Ok(locks) => match collect_all(
                c,
                locks_wanted(seq![paths.picture_dir@, paths.locks_subdir@], locks, !one_html_file),
            ) {
                Ok(after) => Ok(
                    Progress {
                        collector: after,
                        links: lock_links(
                            c,
                            seq![paths.picture_dir@, paths.locks_subdir@],
                            locks,
                            one_html_file,
                        ),
                        ..p
                    },
                ),
                Err(e) => Err(e),
            },
            Err(e) => Err(e),
        },
        Err(e) => Err(e),
    }
}

/// What collecting the assets of a case comes to: the default sprites that the case
/// shows and its profiles, its evidence, its places and the default places it uses, its
/// popups, its music, its sounds, the voices, and the psyche locks, each list collected
/// and then marked, one after the other.
#[verifier::opaque]
pub open spec fn case_collected(
    c: AssetCollectorV,
    data: JsonV,
    case_id: u32,
    defaults: DefaultDataV,
    paths: SitePaths,
    one_html_file: bool,
) -> Result<Progress, CollectError> {
    let picture = paths.picture_dir@;
    match case_uses(data) {
        Ok(uses) => match profiles_done(
            Progress { collector: c, data, places: defaults.places, links: Seq::empty() },
            uses.sprites,
            defaults.startup,
            paths,
            case_id,
        ) {
            Ok(with_profiles) => match list_done(
                with_profiles,
                evidence_list_wanted(with_profiles.data, seq![picture, paths.evidence_subdir@], case_id),
                "evidence"@,
                MarkV::IconExternal,
            ) {
                Ok(with_evidence) => match places_done(with_evidence, uses.places, paths, case_id) {
                    Ok(with_places) => match list_done(
                        with_places,
                        flagged_list_wanted(
                            with_places.data,
                            "popups"@,
                            "path"@,
                            seq![picture, paths.popups_subdir@],
                            "gif"@,
                            case_id,
                        ),
                        "popups"@,
                        MarkV::External,
                    ) {
                        Ok(with_popups) => match list_done(
                            with_popups,
                            flagged_list_wanted(
                                with_popups.data,
                                "music"@,
                                "path"@,
                                seq![paths.music_dir@],
                                "mp3"@,
                                case_id,
                            ),
                            "music"@,
                            MarkV::External,
                        ) {
                            Ok(with_music) => match list_done(
                                with_music,
                                flagged_list_wanted(
                                    with_music.data,
                                    "sounds"@,
                                    "path"@,
                                    seq![paths.sounds_dir@],
                                    "mp3"@,
                                    case_id,
                                ),
                                "sounds"@,
                                MarkV::External,
                            ) {
                                Ok(with_sounds) => voices_and_locks_done(with_sounds, paths, one_html_file),
                                Err(e) => Err(e),
                            },
                            Err(e) => Err(e),
                        },
                        Err(e) => Err(e),
                    },
                    Err(e) => Err(e),
                },
                Err(e) => Err(e),
            },
            Err(e) => Err(e),
        },
        Err(e) => Err(e),
    }
}

/// A downloader for case assets: it collects what the cases ask for.
#[derive(Debug)]
pub struct AssetDownloader {
    /// The collector that will remember our asset download requests.
    pub collector: AssetCollector,
    /// Whether a single HTML file is written, with the assets inside it.
    pub one_html_file: bool,
}

impl AssetDownloader {
    /// Creates a new asset downloader.
    ///
    /// The `site_data` is used to determine the default icon path.
    pub fn new(
        output: String,
        site_data: &SiteData,
        one_html_file: bool,
        windows_names: bool,
    ) -> (r: AssetDownloader)
        ensures
            r.collector.wf(),
            r.collector@ == (AssetCollectorV {
                collected: Seq::empty(),
                default_icon_url: site_data.site_paths.default_icon_url(),
                output: output@,
                target_case_title: None,
                windows_names,
            }),
            r.one_html_file == one_html_file,
    {
        let default_icon_path = site_data.site_paths.default_icon();
        AssetDownloader {
            collector: AssetCollector::new(default_icon_path, output, windows_names),
            one_html_file,
        }
    }

    /// Sets the output directory for the collected assets, and names the directory that
    /// must be there before assets are written: the directory of the assets below it,
    /// unless everything goes into a single file.
    pub fn set_output(&mut self, output: String) -> (r: Option<String>)
        requires
            old(self).collector.wf(),
        ensures
            final(self).collector.wf(),
            final(self).collector@ == (AssetCollectorV { output: output@, ..old(self).collector@ }),
            final(self).one_html_file == old(self).one_html_file,
            match r {
                Some(dir) => !old(self).one_html_file && dir@ == joined_path(output@, ASSETS_DIR@),
                None => old(self).one_html_file,
            },
    {
        let dir = if self.one_html_file {
            None
        } else {
            Some(join_path(output.as_str(), ASSETS_DIR))
        };
        self.collector.set_output(output);
        dir
    }

    /// Collects the psyche lock file with the given `name`, assuming a maximum number of
    /// `max_locks` for the case, and plans the copies that stand beside it.
    pub fn collect_psyche_locks_file(&mut self, name: &str, max_locks: u8, site_data: &SiteData) -> (r:
        Result<Option<LinkPlan>, CollectError>)
        requires
            old(self).collector.wf(),
        ensures
            final(self).collector.wf(),
            final(self).one_html_file == old(self).one_html_file,
            final(self).collector@.same_setting(old(self).collector@),
            match (
                r,
                old(self).collector@.collect(
                    lock_wanted(
                        name@,
                        seq![site_data.site_paths.picture_dir@, site_data.site_paths.locks_subdir@],
                        !old(self).one_html_file,
                    ),
                ),
            ) {
                (Ok(plan), Ok((after, place))) => final(self).collector@ == after && plan_made(plan)
                    == lock_plan(
                    old(self).collector@,
                    name@,
                    seq![site_data.site_paths.picture_dir@, site_data.site_paths.locks_subdir@],
                    max_locks,
                    old(self).one_html_file,
                ),
                (Err(e), Err(owed)) => e == owed && final(self).collector@ == old(self).collector@,
                _ => false,
            },
    {
        let dirs = site_data.site_paths.lock_path();
        let request = lock_request(name, &dirs, !self.one_html_file);
        proof {
            reveal(AssetCollectorV::collect);
            let c = self.collector@;
            let w = request@;
            crate::seqs::lemma_first_place(
                c.collected,
                |a: AssetDownloadV| a.is_for(w.url(c.default_icon_url), c.output),
            );
        }
        let place = match self.collector.collect(request) {
            Ok(p) => p,
            Err(e) => {
                return Err(e);
            },
        };
        if self.one_html_file {
            // No need to plan any copies here, as no files are written.
            return Ok(None);
        }
        match place {
            Some(i) => {
                let collected = self.collector.collected();
                assert(request_views(collected@).len() == collected@.len());
                assert(request_views(collected@)[i as int] == collected@[i as int]@);
                match collected[i].path() {
                    Some(path) => Ok(Some(plan_links(path, name, max_locks))),
                    None => Ok(None),
                }
            },
            None => Ok(None),
        }
    }
}

/// The collector after it was asked for the one asset `w`.
pub open spec fn then_one(so_far: Result<AssetCollectorV, CollectError>, w: Wanted) -> Result<
    AssetCollectorV,
    CollectError,
> {
    match so_far {
        Ok(c) => match c.collect(w) {
            Ok((next, _)) => Ok(next),
            Err(e) => Err(e),
        },
        Err(e) => Err(e),
    }
}

/// Collecting four assets is collecting each in turn.
pub proof fn lemma_collect_four(c: AssetCollectorV, w1: Wanted, w2: Wanted, w3: Wanted, w4: Wanted)
    ensures
        collect_all(c, seq![w1, w2, w3, w4]) == then_one(
            then_one(then_one(then_one(Ok(c), w1), w2), w3),
            w4,
        ),
{
    let all = seq![w1, w2, w3, w4];
    lemma_collect_all_split(c, seq![w1], seq![w2, w3, w4]);
    assert(seq![w1] + seq![w2, w3, w4] =~= all);
    lemma_collect_one(c, w1);
    match c.collect(w1) {
        Ok((c1, _)) => {
            lemma_collect_all_split(c1, seq![w2], seq![w3, w4]);
            assert(seq![w2] + seq![w3, w4] =~= seq![w2, w3, w4]);
            lemma_collect_one(c1, w2);
            match c1.collect(w2) {
                Ok((c2, _)) => {
                    lemma_collect_all_split(c2, seq![w3], seq![w4]);
                    assert(seq![w3] + seq![w4] =~= seq![w3, w4]);
                    lemma_collect_one(c2, w3);
                    match c2.collect(w3) {
                        Ok((c3, _)) => {
                            lemma_collect_one(c3, w4);
                        },
                        Err(_) => {},
                    }
                },
                Err(_) => {},
            }
        },
        Err(_) => {},
    }
}

/// Collecting a list of one asset is collecting that asset.
pub proof fn lemma_collect_one(c: AssetCollectorV, w: Wanted)
    ensures
        collect_all(c, seq![w]) == then_one(Ok(c), w),
{
    reveal_with_fuel(collect_all, 2);
    assert(seq![w].drop_first() =~= Seq::<Wanted>::empty());
}

impl AssetDownloader {
    /// Collects a list of assets, and then marks the list `list` of `data`.
    fn collect_and_mark(
        &mut self,
        requests: Result<Vec<AssetRequest>, CollectError>,
        data: Json,
        list: &str,
        mark: &Mark,
    ) -> (r: Result<Json, CollectError>)
        requires
            old(self).collector.wf(),
        ensures
            final(self).collector.wf(),
            final(self).one_html_file == old(self).one_html_file,
            final(self).collector@.same_setting(old(self).collector@),
            match (
                r,
                then_collect(
                    Ok(old(self).collector@),
                    match requests {
                        Ok(list) => Ok(wanted_views(list@)),
                        Err(e) => Err(e),
                    },
                ),
            ) {
                (Ok(d), Ok(after)) => final(self).collector@ == after && d@ == list_marked(
                    data@,
                    list@,
                    mark@,
                ),
                (Err(e), Err(owed)) => e == owed,
                _ => false,
            },
    {
        let requests = match requests {
            Ok(list) => list,
            Err(e) => {
                return Err(e);
            },
        };
        match self.collector.collect_list(requests) {
            Ok(()) => Ok(mark_list(data, list, mark)),
            Err(e) => Err(e),
        }
    }

    /// Collects the profile assets used in the case: the default sprites that ended up
    /// actually being used, and of each profile its icon and its custom sprites.
    pub fn collect_profiles(
        &mut self,
        data: Json,
        used_default_sprites: &Vec<(String, i64)>,
        site_data: &SiteData,
        case_id: u32,
    ) -> (r: Result<Json, CollectError>)
        requires
            old(self).collector.wf(),
        ensures
            final(self).collector.wf(),
            final(self).one_html_file == old(self).one_html_file,
            final(self).collector@.same_setting(old(self).collector@),
            match (
                r,
                then_collect(
                    then_collect(
                        Ok(old(self).collector@),
                        Ok(
                            default_sprites_wanted(
                                sprite_pairs(used_default_sprites@),
                                site_data.default_data@.startup,
                                site_data.site_paths,
                                used_default_sprites@.len() as int,
                            ),
                        ),
                    ),
                    profiles_wanted(
                        data@,
                        seq![site_data.site_paths.picture_dir@, site_data.site_paths.icon_subdir@],
                        case_id,
                    ),
                ),
            ) {
                (Ok(d), Ok(after)) => final(self).collector@ == after && d@ == list_marked(
                    data@,
                    "profiles"@,
                    MarkV::Icon(
                        seq![site_data.site_paths.picture_dir@, site_data.site_paths.icon_subdir@],
                    ),
                ),
                (Err(e), Err(owed)) => e == owed,
                _ => false,
            },
    {
        let sprites = default_sprites_requests(
            used_default_sprites,
            &site_data.default_data,
            &site_data.site_paths,
        );
        match self.collector.collect_list(sprites) {
            Ok(()) => {},
            Err(e) => {
                return Err(e);
            },
        }
        let dirs = site_data.site_paths.icon_path();
        let requests = profiles_requests(&data, &dirs, case_id);
        self.collect_and_mark(requests, data, "profiles", &Mark::Icon(dirs))
    }

    /// Collects the evidence assets used in the case.
    pub fn collect_evidence(&mut self, data: Json, paths: &SitePaths, case_id: u32) -> (r: Result<
        Json,
        CollectError,
    >)
        requires
            old(self).collector.wf(),
        ensures
            final(self).collector.wf(),
            final(self).one_html_file == old(self).one_html_file,
            final(self).collector@.same_setting(old(self).collector@),
            match (
                r,
                then_collect(
                    Ok(old(self).collector@),
                    evidence_list_wanted(
                        data@,
                        seq![paths.picture_dir@, paths.evidence_subdir@],
                        case_id,
                    ),
                ),
            ) {
                (Ok(d), Ok(after)) => final(self).collector@ == after && d@ == list_marked(
                    data@,
                    "evidence"@,
                    MarkV::IconExternal,
                ),
                (Err(e), Err(owed)) => e == owed,
                _ => false,
            },
    {
        let dirs = paths.evidence_path();
        let requests = evidence_requests(&data, &dirs, case_id);
        self.collect_and_mark(requests, data, "evidence", &Mark::IconExternal)
    }

    /// Collects the place assets used in the case: those of its own places, and those of
    /// the default places that it uses.
    pub fn collect_places(
        &mut self,
        default_places: Vec<(i64, Json)>,
        used_places: &Vec<i64>,
        data: Json,
        paths: &SitePaths,
        case_id: u32,
    ) -> (r: Result<(Json, Vec<(i64, Json)>), CollectError>)
        requires
            old(self).collector.wf(),
        ensures
            final(self).collector.wf(),
            final(self).one_html_file == old(self).one_html_file,
            final(self).collector@.same_setting(old(self).collector@),
            match (
                r,
                then_collect(
                    then_collect(
                        Ok(old(self).collector@),
                        places_wanted(data@, seq![paths.picture_dir@, paths.bg_subdir@], case_id),
                    ),
                    default_places_wanted(
                        place_views(default_places@),
                        used_places@,
                        seq![paths.picture_dir@, paths.bg_subdir@],
                        default_places@.len() as int,
                    ),
                ),
            ) {
                (Ok(done), Ok(after)) => final(self).collector@ == after && done.0@ == list_marked(
                    data@,
                    "places"@,
                    MarkV::Background,
                ) && place_views(done.1@) == default_places_marked(
                    place_views(default_places@),
                    used_places@,
                ),
                (Err(e), Err(owed)) => e == owed,
                _ => false,
            },
    {
        let dirs = paths.bg_path();
        let requests = places_requests(&data, &dirs, case_id);
        let data = match self.collect_and_mark(requests, data, "places", &Mark::Background) {
            Ok(d) => d,
            Err(e) => {
                return Err(e);
            },
        };
        let requests = match default_places_requests(&default_places, used_places, &dirs) {
            Ok(list) => list,
            Err(e) => {
                return Err(e);
            },
        };
        match self.collector.collect_list(requests) {
            Ok(()) => Ok((data, mark_default_places(default_places, used_places))),
            Err(e) => Err(e),
        }
    }

    /// Collects the popups used in the case.
    pub fn collect_popups(&mut self, data: Json, paths: &SitePaths, case_id: u32) -> (r: Result<
        Json,
        CollectError,
    >)
        requires
            old(self).collector.wf(),
        ensures
            final(self).collector.wf(),
            final(self).one_html_file == old(self).one_html_file,
            final(self).collector@.same_setting(old(self).collector@),
            match (
                r,
                then_collect(
                    Ok(old(self).collector@),
                    flagged_list_wanted(
                        data@,
                        "popups"@,
                        "path"@,
                        seq![paths.picture_dir@, paths.popups_subdir@],
                        "gif"@,
                        case_id,
                    ),
                ),
            ) {
                (Ok(d), Ok(after)) => final(self).collector@ == after && d@ == list_marked(
                    data@,
                    "popups"@,
                    MarkV::External,
                ),
                (Err(e), Err(owed)) => e == owed,
                _ => false,
            },
    {
        let dirs = paths.popup_path();
        let requests = flagged_list_requests(&data, "popups", "path", &dirs, "gif", case_id);
        self.collect_and_mark(requests, data, "popups", &Mark::External)
    }

    /// Collects the music assets used in the case.
    pub fn collect_music(&mut self, data: Json, paths: &SitePaths, case_id: u32) -> (r: Result<
        Json,
        CollectError,
    >)
        requires
            old(self).collector.wf(),
        ensures
            final(self).collector.wf(),
            final(self).one_html_file == old(self).one_html_file,
            final(self).collector@.same_setting(old(self).collector@),
            match (
                r,
                then_collect(
                    Ok(old(self).collector@),
                    flagged_list_wanted(
                        data@,
                        "music"@,
                        "path"@,
                        seq![paths.music_dir@],
                        "mp3"@,
                        case_id,
                    ),
                ),
            ) {
                (Ok(d), Ok(after)) => final(self).collector@ == after && d@ == list_marked(
                    data@,
                    "music"@,
                    MarkV::External,
                ),
                (Err(e), Err(owed)) => e == owed,
                _ => false,
            },
    {
        let dirs = paths.music_path();
        let requests = flagged_list_requests(&data, "music", "path", &dirs, "mp3", case_id);
        self.collect_and_mark(requests, data, "music", &Mark::External)
    }

    /// Collects the sound assets used in the case.
    pub fn collect_sounds(&mut self, data: Json, paths: &SitePaths, case_id: u32) -> (r: Result<
        Json,
        CollectError,
    >)
        requires
            old(self).collector.wf(),
        ensures
            final(self).collector.wf(),
            final(self).one_html_file == old(self).one_html_file,
            final(self).collector@.same_setting(old(self).collector@),
            match (
                r,
                then_collect(
                    Ok(old(self).collector@),
                    flagged_list_wanted(
                        data@,
                        "sounds"@,
                        "path"@,
                        seq![paths.sounds_dir@],
                        "mp3"@,
                        case_id,
                    ),
                ),
            ) {
                (Ok(d), Ok(after)) => final(self).collector@ == after && d@ == list_marked(
                    data@,
                    "sounds"@,
                    MarkV::External,
                ),
                (Err(e), Err(owed)) => e == owed,
                _ => false,
            },
    {
        let dirs = paths.sound_path();
        let requests = flagged_list_requests(&data, "sounds", "path", &dirs, "mp3", case_id);
        self.collect_and_mark(requests, data, "sounds", &Mark::External)
    }

    /// Collects the voice assets used in the case (which are just all voice assets, since
    /// there are no custom voices).
    pub fn collect_voices(&mut self, paths: &SitePaths) -> (r: Result<(), CollectError>)
        requires
            old(self).collector.wf(),
        ensures
            final(self).collector.wf(),
            final(self).one_html_file == old(self).one_html_file,
            final(self).collector@.same_setting(old(self).collector@),
            match (
                r,
                collect_all(
                    old(self).collector@,
                    voices_wanted(seq![paths.voices_dir@], VOICES as nat),
                ),
            ) {
                (Ok(()), Ok(after)) => final(self).collector@ == after,
                (Err(e), Err(owed)) => e == owed,
                _ => false,
            },
    {
        let dirs = paths.voice_path();
        self.collector.collect_list(voices_requests(&dirs))
    }

    /// Collects the psyche lock assets used in the case, and plans the copies that stand
    /// beside each of them.
    pub fn collect_psyche_locks(&mut self, data: &Json, site_data: &SiteData) -> (r: Result<
        Vec<LinkPlan>,
        CollectError,
    >)
        requires
            old(self).collector.wf(),
        ensures
            final(self).collector.wf(),
            final(self).one_html_file == old(self).one_html_file,
            final(self).collector@.same_setting(old(self).collector@),
            match (
                r,
                match max_locks(data@) {
                    Ok(locks) => collect_all(
                        old(self).collector@,
                        locks_wanted(
                            seq![
                                site_data.site_paths.picture_dir@,
                                site_data.site_paths.locks_subdir@,
                            ],
                            locks,
                            !old(self).one_html_file,
                        ),
                    ),
                    Err(e) => Err(e),
                },
            ) {
                (Ok(links), Ok(after)) => final(self).collector@ == after && link_views(links@)
                    == lock_links(
                    old(self).collector@,
                    seq![site_data.site_paths.picture_dir@, site_data.site_paths.locks_subdir@],
                    max_locks(data@)->Ok_0,
                    old(self).one_html_file,
                ),
                (Err(e), Err(owed)) => e == owed,
                _ => false,
            },
    {
        // To download psyche locks, we first need to determine the maximum number of them.
        let locks = match count_max_locks(data) {
            Ok(n) => n,
            Err(e) => {
                return Err(e);
            },
        };
        let mut links: Vec<LinkPlan> = Vec::new();
        assert(link_views(links@) =~= Seq::<LinkPlanV>::empty());
        if locks == 0 {
            return Ok(links);
        }
        let ghost dirs = seq![site_data.site_paths.picture_dir@, site_data.site_paths.locks_subdir@];
        let ghost early = !self.one_html_file;
        let ghost start = self.collector@;
        let ghost one = self.one_html_file;
        proof {
            lemma_collect_four(
                self.collector@,
                lock_wanted(LOCK_CHAINS_APPEAR@, dirs, early),
                lock_wanted(LOCK_APPEARS@, dirs, early),
                lock_wanted(LOCK_EXPLODES@, dirs, early),
                lock_wanted(LOCK_CHAINS_DISAPPEAR@, dirs, early),
            );
        }
        match self.collect_psyche_locks_file(LOCK_CHAINS_APPEAR, locks, site_data) {
            Ok(plan) => {
                keep_plan(&mut links, plan);
            },
            Err(e) => {
                return Err(e);
            },
        }
        assert(lock_plan(self.collector@, LOCK_APPEARS@, dirs, locks, one) == lock_plan(
            start,
            LOCK_APPEARS@,
            dirs,
            locks,
            one,
        ));
        match self.collect_psyche_locks_file(LOCK_APPEARS, locks, site_data) {
            Ok(plan) => {
                keep_plan(&mut links, plan);
            },
            Err(e) => {
                return Err(e);
            },
        }
        assert(lock_plan(self.collector@, LOCK_EXPLODES@, dirs, locks, one) == lock_plan(
            start,
            LOCK_EXPLODES@,
            dirs,
            locks,
            one,
        ));
        match self.collect_psyche_locks_file(LOCK_EXPLODES, locks, site_data) {
            Ok(plan) => {
                keep_plan(&mut links, plan);
            },
            Err(e) => {
                return Err(e);
            },
        }
        assert(lock_plan(self.collector@, LOCK_CHAINS_DISAPPEAR@, dirs, locks, one) == lock_plan(
            start,
            LOCK_CHAINS_DISAPPEAR@,
            dirs,
            locks,
            one,
        ));
        match self.collect_psyche_locks_file(LOCK_CHAINS_DISAPPEAR, locks, site_data) {
            Ok(plan) => {
                keep_plan(&mut links, plan);
            },
            Err(e) => {
                return Err(e);
            },
        }
        Ok(links)
    }
}

/// Keeps the plan that was made, if one was, behind those of `links`.
fn keep_plan(links: &mut Vec<LinkPlan>, plan: Option<LinkPlan>)
    ensures
        link_views(final(links)@) == link_views(old(links)@) + plan_made(plan),
{
    let ghost before = link_views(links@);
    match plan {
        Some(p) => {
            links.push(p);
            assert(link_views(links@) =~= before + seq![p@]);
        },
        None => {
            assert(link_views(links@) =~= before + Seq::<LinkPlanV>::empty());
        },
    }
}

impl AssetDownloader {
    /// Collects the case asset download requests for the given `case` and `site_data`,
    /// and returns the requests with the copies of psyche-lock files that stand beside
    /// them. The data of the case is marked, and so are the default places that it uses.
    ///
    /// *Note: This does not start the downloads yet!*
    pub fn collect_case_data(&mut self, case: &mut Case, site_data: &mut SiteData) -> (r: Result<
        (Vec<AssetDownload>, Vec<LinkPlan>),
        CollectError,
    >)
        requires
            old(self).collector.wf(),
        ensures
            final(self).collector.wf(),
            final(self).one_html_file == old(self).one_html_file,
            final(site_data).site_paths == old(site_data).site_paths,
            final(self).collector@.default_icon_url == old(self).collector@.default_icon_url,
            final(self).collector@.windows_names == old(self).collector@.windows_names,
            final(self).collector@.output == old(self).collector@.output,
            match (
                r,
                case_collected(
                    AssetCollectorV {
                        target_case_title: Some(old(case).case_information.title@),
                        ..old(self).collector@
                    },
                    old(case).case_data@,
                    old(case).case_information.id,
                    old(site_data).default_data@,
                    old(site_data).site_paths,
                    old(self).one_html_file,
                ),
            ) {
                (Ok(out), Ok(p)) => {
                    &&& request_views(out.0@) == p.collector.collected
                    &&& final(self).collector@ == (AssetCollectorV {
                        collected: Seq::empty(),
                        ..p.collector
                    })
                    &&& final(case).case_data@ == p.data
                    &&& final(case).case_information == old(case).case_information
                    &&& final(site_data).default_data@ == (DefaultDataV {
                        places: p.places,
                        ..old(site_data).default_data@
                    })
                    &&& link_views(out.1@) == p.links
                },
                (Err(e), Err(owed)) => e == owed,
                _ => false,
            },
    {
        reveal(case_collected);
        self.collector.set_target_case_title(case.case_information.title.clone());
        let used_sprites = match case.get_used_sprites() {
            Ok(s) => s,
            Err(e) => {
                return Err(e);
            },
        };
        let used_places = match case.get_used_places() {
            Ok(p) => p,
            Err(e) => {
                return Err(e);
            },
        };
        let case_id = case.id();
        let used_default_sprites = match case.case_data.get("profiles") {
            Some(profiles) => get_used_default_sprites(profiles, &used_sprites),
            None => get_used_default_sprites(&Json::Null, &used_sprites),
        };
        let used_default_sprites = match used_default_sprites {
            Ok(s) => s,
            Err(e) => {
                return Err(e);
            },
        };
        let mut data = Json::Null;
        core::mem::swap(&mut data, &mut case.case_data);
        let data = match self.collect_profiles(data, &used_default_sprites, site_data, case_id) {
            Ok(d) => d,
            Err(e) => {
                return Err(e);
            },
        };
        let data = match self.collect_evidence(data, &site_data.site_paths, case_id) {
            Ok(d) => d,
            Err(e) => {
                return Err(e);
            },
        };
        let mut default_places: Vec<(i64, Json)> = Vec::new();
        core::mem::swap(&mut default_places, &mut site_data.default_data.default_places);
        let (data, default_places) = match self.collect_places(
            default_places,
            &used_places,
            data,
            &site_data.site_paths,
            case_id,
        ) {
            Ok(done) => done,
            Err(e) => {
                return Err(e);
            },
        };
        site_data.default_data.default_places = default_places;
        let data = match self.collect_popups(data, &site_data.site_paths, case_id) {
            Ok(d) => d,
            Err(e) => {
                return Err(e);
            },
        };
        let data = match self.collect_music(data, &site_data.site_paths, case_id) {
            Ok(d) => d,
            Err(e) => {
                return Err(e);
            },
        };
        let data = match self.collect_sounds(data, &site_data.site_paths, case_id) {
            Ok(d) => d,
            Err(e) => {
                return Err(e);
            },
        };
        match self.collect_voices(&site_data.site_paths) {
            Ok(()) => {},
            Err(e) => {
                return Err(e);
            },
        }
        let links = match self.collect_psyche_locks(&data, site_data) {
            Ok(l) => l,
            Err(e) => {
                return Err(e);
            },
        };
        case.case_data = data;
        Ok((self.collector.drain(), links))
    }
}

/// What collecting the assets of some cases gives.
#[derive(Debug)]
pub struct CasesCollected {
    /// The cases, with their data marked.
    pub cases: Vec<Case>,
    /// Of each case, the requests to download its assets.
    pub downloads: Vec<Vec<AssetDownload>>,
    /// Of each case, the copies of psyche-lock files that are made beside them.
    pub links: Vec<Vec<LinkPlan>>,
    /// Of each case, the directory that must be there before its assets are written,
    /// where files are written at all.
    pub asset_dirs: Vec<Option<String>>,
}

/// The directory below which the assets of a case go: the output directory itself for a
/// single case, and the directory of the case below it where there are more.
pub open spec fn case_output(output: Seq<char>, case: Case, multiple: bool, windows_names: bool) -> Seq<
    char,
> {
    if multiple {
        joined_path(output, case.spec_filename(windows_names))
    } else {
        output
    }
}

/// What collecting the assets of the case `case` alone comes to, with the default data
/// `pristine` as it was fetched. The case is one of `cases` cases, which tells below
/// which directory its assets go.
pub open spec fn alone(
    setting: AssetCollectorV,
    output: Seq<char>,
    case: Case,
    cases: nat,
    pristine: DefaultDataV,
    paths: SitePaths,
    one_html_file: bool,
) -> Result<Progress, CollectError> {
    case_collected(
        AssetCollectorV {
            collected: Seq::empty(),
            output: case_output(output, case, cases > 1, setting.windows_names),
            target_case_title: Some(case.case_information.title@),
            ..setting
        },
        case.case_data@,
        case.case_information.id,
        pristine,
        paths,
        one_html_file,
    )
}

/// A collector that has collected nothing, for assets that go below `output`.
pub open spec fn fresh(paths: SitePaths, output: Seq<char>, windows_names: bool) -> AssetCollectorV {
    AssetCollectorV {
        collected: Seq::empty(),
        default_icon_url: paths.default_icon_url(),
        output,
        target_case_title: None,
        windows_names,
    }
}

/// Whether `downloads`, `links` and the case `after` are what collecting the case
/// `before` alone comes to.
pub open spec fn as_alone(
    owed: Result<Progress, CollectError>,
    downloads: Seq<AssetDownload>,
    links: Seq<LinkPlan>,
    after: Case,
    before: Case,
) -> bool {
    match owed {
        Ok(p) => request_views(downloads) == p.collector.collected && link_views(links) == p.links
            && after.case_data@ == p.data && after.case_information == before.case_information,
        Err(_) => false,
    }
}

/// The default places as collecting the cases `cases` leaves them: marked for the last
/// case alone, and as they were fetched where there is no case.
pub open spec fn places_left(
    setting: AssetCollectorV,
    output: Seq<char>,
    cases: Seq<Case>,
    upto: int,
    pristine: DefaultDataV,
    paths: SitePaths,
    one_html_file: bool,
) -> Seq<(i64, JsonV)> {
    if 0 < upto <= cases.len() {
        match alone(setting, output, cases[upto - 1], cases.len(), pristine, paths, one_html_file) {
            Ok(p) => p.places,
            Err(_) => pristine.places,
        }
    } else {
        pristine.places
    }
}

/// The directory that must be there before the assets of a case are written: the
/// directory of the assets below that of the case. In a single file there is none.
pub open spec fn case_asset_dir(
    output: Seq<char>,
    case: Case,
    multiple: bool,
    one_html_file: bool,
    windows_names: bool,
) -> Option<Seq<char>> {
    if one_html_file {
        None
    } else {
        Some(joined_path(case_output(output, case, multiple, windows_names), ASSETS_DIR@))
    }
}

impl AssetDownloader {
    /// Collects the assets of each case of `cases` in turn, below `output`.
    ///
    /// The default data is shared by the cases, and collecting marks it. So the default
    /// places are put back as they were fetched before each case: what is collected for
    /// a case, and what becomes of its data, is what it would be had the case been
    /// collected alone.
    pub fn collect_cases(
        cases: Vec<Case>,
        site_data: &mut SiteData,
        output: &str,
        one_html_file: bool,
        windows_names: bool,
    ) -> (r: Result<CasesCollected, CollectError>)
        ensures
            final(site_data).site_paths == old(site_data).site_paths,
            match r {
                Ok(out) => {
                    &&& out.cases@.len() == cases@.len()
                    &&& out.downloads@.len() == cases@.len()
                    &&& out.links@.len() == cases@.len()
                    &&& out.asset_dirs@.len() == cases@.len()
                    &&& forall|k: int|
                        0 <= k < cases@.len() ==> as_alone(
                            #[trigger] alone(
                                fresh(old(site_data).site_paths, output@, windows_names),
                                output@,
                                cases@[k],
                                cases@.len(),
                                old(site_data).default_data@,
                                old(site_data).site_paths,
                                one_html_file,
                            ),
                            out.downloads@[k]@,
                            out.links@[k]@,
                            out.cases@[k],
                            cases@[k],
                        )
                    &&& final(site_data).default_data@ == (DefaultDataV {
                        places: places_left(
                            fresh(old(site_data).site_paths, output@, windows_names),
                            output@,
                            cases@,
                            cases@.len() as int,
                            old(site_data).default_data@,
                            old(site_data).site_paths,
                            one_html_file,
                        ),
                        ..old(site_data).default_data@
                    })
                    &&& forall|k: int|
                        0 <= k < cases@.len() ==> crate::download::text_view(
                            #[trigger] out.asset_dirs@[k],
                        ) == case_asset_dir(
                            output@,
                            cases@[k],
                            cases@.len() > 1,
                            one_html_file,
                            windows_names,
                        )
                },
                Err(e) => exists|k: int|
                    {
                        &&& 0 <= k < cases@.len()
                        &&& (#[trigger] alone(
                            fresh(old(site_data).site_paths, output@, windows_names),
                            output@,
                            cases@[k],
                            cases@.len(),
                            old(site_data).default_data@,
                            old(site_data).site_paths,
                            one_html_file,
                        )) == Err::<Progress, _>(e)
                        &&& forall|j: int|
                            0 <= j < k ==> (#[trigger] alone(
                                fresh(old(site_data).site_paths, output@, windows_names),
                                output@,
                                cases@[j],
                                cases@.len(),
                                old(site_data).default_data@,
                                old(site_data).site_paths,
                                one_html_file,
                            )) is Ok
                    },
            },
    {
        let mut this = AssetDownloader::new(output.to_owned(), site_data, one_html_file, windows_names);
        let multiple = cases.len() > 1;
        // We need to remember these because we overwrite them while collecting downloads,
        // and we may collect downloads more than once (for multiple cases).
        let original_default_places = site_data.default_data.save_places();
        let ghost pristine = site_data.default_data@;
        let ghost setting = this.collector@;
        let ghost paths = site_data.site_paths;
        let ghost all = cases@;
        let mut queue = cases;
        let mut done: Vec<Case> = Vec::new();
        let mut downloads: Vec<Vec<AssetDownload>> = Vec::new();
        let mut links: Vec<Vec<LinkPlan>> = Vec::new();
        let mut asset_dirs: Vec<Option<String>> = Vec::new();
        while queue.len() > 0
            invariant
                this.collector.wf(),
                this.one_html_file == one_html_file,
                this.collector@.collected.len() == 0,
                this.collector@.default_icon_url == setting.default_icon_url,
                this.collector@.windows_names == setting.windows_names,
                setting == fresh(old(site_data).site_paths, output@, windows_names),
                setting.windows_names == windows_names,
                site_data.site_paths == paths,
                paths == old(site_data).site_paths,
                pristine == old(site_data).default_data@,
                all == cases@,
                multiple == (all.len() > 1),
                place_views(original_default_places@) == pristine.places,
                site_data.default_data@ == (DefaultDataV {
                    places: places_left(
                        setting,
                        output@,
                        all,
                        done@.len() as int,
                        pristine,
                        paths,
                        this.one_html_file,
                    ),
                    ..pristine
                }),
                done@.len() + queue@.len() == all.len(),
                downloads@.len() == done@.len(),
                links@.len() == done@.len(),
                asset_dirs@.len() == done@.len(),
                forall|k: int| 0 <= k < queue@.len() ==> queue@[k] == all[done@.len() + k],
                forall|k: int|
                    0 <= k < done@.len() ==> as_alone(
                        #[trigger] alone(
                            setting,
                            output@,
                            all[k],
                            all.len(),
                            pristine,
                            paths,
                            this.one_html_file,
                        ),
                        downloads@[k]@,
                        links@[k]@,
                        done@[k],
                        all[k],
                    ),
                forall|k: int|
                    0 <= k < done@.len() ==> crate::download::text_view(#[trigger] asset_dirs@[k])
                        == case_asset_dir(output@, all[k], multiple, this.one_html_file, windows_names),
            decreases queue@.len(),
        {
            let ghost at = done@.len() as int;
            let mut case = queue.remove(0);
            assert(case == all[at]);
            site_data.default_data.restore_places(&original_default_places);
            let dir = if multiple {
                // Case data needs to be put into the directory of that case.
                join_path(output, case.filename(windows_names).as_str())
            } else {
                output.to_owned()
            };
            let asset_dir = this.set_output(dir);
            assert(this.collector@.collected =~= Seq::empty());
            assert(this.collector@ == (AssetCollectorV {
                collected: Seq::empty(),
                output: case_output(output@, all[at], multiple, windows_names),
                target_case_title: this.collector@.target_case_title,
                ..setting
            }));
            let (case_downloads, case_links) = match this.collect_case_data(&mut case, site_data) {
                Ok(out) => out,
                Err(e) => {
                    assert(alone(
                        setting,
                        output@,
                        all[at],
                        all.len(),
                        pristine,
                        paths,
                        this.one_html_file,
                    ) == Err::<Progress, _>(e));
                    return Err(e);
                },
            };
            done.push(case);
            downloads.push(case_downloads);
            links.push(case_links);
            asset_dirs.push(asset_dir);
        }
        Ok(CasesCollected { cases: done, downloads, links, asset_dirs })
    }
}

} // verus!

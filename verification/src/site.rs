//! What is known of the Ace Attorney Online server: its directories, and the data that
//! every case falls back on.

use crate::json::{Json, JsonV};
use crate::seqs::first_place;
use crate::text::{concat, str_eq, string_views};
use vstd::prelude::*;

verus! {

/// The address of the Ace Attorney Online server.
pub const AAONLINE_BASE: &'static str = "https://aaonline.fr";

/// The address of the bridge script, which holds the configuration of the site.
pub const BRIDGE_URL: &'static str = "https://aaonline.fr/bridge.js.php";

/// Paths to various directories on the Ace Attorney Online server.
#[derive(Debug)]
pub struct SitePaths {
    pub bg_subdir: String,
    pub cache_dir: String,
    pub css_dir: String,
    pub defaultplaces_subdir: String,
    pub evidence_subdir: String,
    pub forum_path: String,
    pub icon_subdir: String,
    pub js_dir: String,
    pub lang_dir: String,
    pub locks_subdir: String,
    pub music_dir: String,
    pub picture_dir: String,
    pub popups_subdir: String,
    pub site_name: String,
    pub sounds_dir: String,
    pub startup_subdir: String,
    pub still_subdir: String,
    pub talking_subdir: String,
    pub trialdata_backups_dir: String,
    pub trialdata_deleted_dir: String,
    pub trialdata_dir: String,
    pub voices_dir: String,
}

/// Whether `name` names one of the subdirectories of the picture directory.
pub open spec fn is_subdir(name: Seq<char>) -> bool {
    name == "bg"@ || name == "defaultplaces"@ || name == "evidence"@ || name == "icon"@ || name
        == "locks"@ || name == "popups"@ || name == "startup"@ || name == "still"@ || name
        == "talking"@
}

/// Whether `kind` is one of the three kinds of sprite.
pub open spec fn is_sprite_kind(kind: Seq<char>) -> bool {
    kind == "talking"@ || kind == "still"@ || kind == "startup"@
}

impl SitePaths {
    /// The subdirectory of the picture directory that `name` names.
    pub open spec fn subdir(self, name: Seq<char>) -> Seq<char> {
        if name == "bg"@ {
            self.bg_subdir@
        } else if name == "defaultplaces"@ {
            self.defaultplaces_subdir@
        } else if name == "evidence"@ {
            self.evidence_subdir@
        } else if name == "icon"@ {
            self.icon_subdir@
        } else if name == "locks"@ {
            self.locks_subdir@
        } else if name == "popups"@ {
            self.popups_subdir@
        } else if name == "startup"@ {
            self.startup_subdir@
        } else if name == "still"@ {
            self.still_subdir@
        } else {
            self.talking_subdir@
        }
    }

    /// Returns the subdirectory for the given `name`.
    pub fn get_subdir(&self, name: &str) -> (r: &str)
        requires
            is_subdir(name@),
        ensures
            r@ == self.subdir(name@),
    {
        if str_eq(name, "bg") {
            self.bg_subdir.as_str()
        } else if str_eq(name, "defaultplaces") {
            self.defaultplaces_subdir.as_str()
        } else if str_eq(name, "evidence") {
            self.evidence_subdir.as_str()
        } else if str_eq(name, "icon") {
            self.icon_subdir.as_str()
        } else if str_eq(name, "locks") {
            self.locks_subdir.as_str()
        } else if str_eq(name, "popups") {
            self.popups_subdir.as_str()
        } else if str_eq(name, "startup") {
            self.startup_subdir.as_str()
        } else if str_eq(name, "still") {
            self.still_subdir.as_str()
        } else {
            self.talking_subdir.as_str()
        }
    }

    /// The URL of the icon that stands for a profile without one.
    pub open spec fn default_icon_url(self) -> Seq<char> {
        AAONLINE_BASE@ + "/"@ + self.picture_dir@ + "/"@ + self.icon_subdir@ + "/Inconnu.png"@
    }

    /// Returns the default icon for the site.
    pub fn default_icon(&self) -> (r: String)
        ensures
            r@ == self.default_icon_url(),
    {
        let mut r = concat(AAONLINE_BASE, "/");
        r.append(self.picture_dir.as_str());
        r.append("/");
        r.append(self.icon_subdir.as_str());
        r.append("/Inconnu.png");
        r
    }

    /// Returns the path for the default sprites of the given `kind` and character `base`.
    pub fn sprite_path(&self, kind: &str, base: &str) -> (r: Vec<String>)
        requires
            is_sprite_kind(kind@),
        ensures
            string_views(r@) == seq![self.picture_dir@, self.subdir(kind@), base@],
    {
        let mut r: Vec<String> = Vec::new();
        r.push(self.picture_dir.clone());
        r.push(self.get_subdir(kind).to_owned());
        r.push(base.to_owned());
        assert(string_views(r@) =~= seq![self.picture_dir@, self.subdir(kind@), base@]);
        r
    }

    /// Returns the path for the default icons.
    pub fn icon_path(&self) -> (r: Vec<String>)
        ensures
            string_views(r@) == seq![self.picture_dir@, self.icon_subdir@],
    {
        two(&self.picture_dir, &self.icon_subdir)
    }

    /// Returns the path for the default evidence.
    pub fn evidence_path(&self) -> (r: Vec<String>)
        ensures
            string_views(r@) == seq![self.picture_dir@, self.evidence_subdir@],
    {
        two(&self.picture_dir, &self.evidence_subdir)
    }

    /// Returns the path for the default backgrounds.
    pub fn bg_path(&self) -> (r: Vec<String>)
        ensures
            string_views(r@) == seq![self.picture_dir@, self.bg_subdir@],
    {
        two(&self.picture_dir, &self.bg_subdir)
    }

    /// Returns the path for the default popups.
    pub fn popup_path(&self) -> (r: Vec<String>)
        ensures
            string_views(r@) == seq![self.picture_dir@, self.popups_subdir@],
    {
        two(&self.picture_dir, &self.popups_subdir)
    }

    /// Returns the path for the default music.
    pub fn music_path(&self) -> (r: Vec<String>)
        ensures
            string_views(r@) == seq![self.music_dir@],
    {
        one(&self.music_dir)
    }

    /// Returns the path for the default sounds.
    pub fn sound_path(&self) -> (r: Vec<String>)
        ensures
            string_views(r@) == seq![self.sounds_dir@],
    {
        one(&self.sounds_dir)
    }

    /// Returns the path for the voices.
    pub fn voice_path(&self) -> (r: Vec<String>)
        ensures
            string_views(r@) == seq![self.voices_dir@],
    {
        one(&self.voices_dir)
    }

    /// Returns the path for the psyche locks.
    pub fn lock_path(&self) -> (r: Vec<String>)
        ensures
            string_views(r@) == seq![self.picture_dir@, self.locks_subdir@],
    {
        two(&self.picture_dir, &self.locks_subdir)
    }
}

/// What the default places of `places` hold, each under its ID.
pub open spec fn place_views(places: Seq<(i64, Json)>) -> Seq<(i64, JsonV)> {
    Seq::new(places.len(), |i: int| (places[i].0, places[i].1@))
}

/// The URLs of `urls`, each under the voice and the extension it is for.
pub open spec fn voice_views(urls: Seq<((u64, String), String)>) -> Seq<((u64, Seq<char>), Seq<char>)> {
    Seq::new(urls.len(), |i: int| ((urls[i].0.0, urls[i].0.1@), urls[i].1@))
}

/// The URLs of `urls`, each under the base, the sprite and the kind it is for.
pub open spec fn sprite_views(urls: Seq<((String, i64, String), String)>) -> Seq<
    ((Seq<char>, i64, Seq<char>), Seq<char>),
> {
    Seq::new(urls.len(), |i: int| ((urls[i].0.0@, urls[i].0.1, urls[i].0.2@), urls[i].1@))
}

/// The URLs of `urls`, each under the name of the lock it is for.
pub open spec fn lock_views(urls: Seq<(String, String)>) -> Seq<(Seq<char>, Seq<char>)> {
    Seq::new(urls.len(), |i: int| (urls[i].0@, urls[i].1@))
}

/// Whether an entry stands under `key`.
pub open spec fn under<K, V>(key: K) -> spec_fn((K, V)) -> bool {
    |e: (K, V)| e.0 == key
}

/// The place in `entries` of the first entry under `key`.
pub open spec fn key_place<K, V>(entries: Seq<(K, V)>, key: K) -> Option<int> {
    first_place(entries, under(key))
}

/// The entry of `entries` under `key`.
pub open spec fn looked_up<K, V>(entries: Seq<(K, V)>, key: K) -> Option<V> {
    match key_place(entries, key) {
        Some(i) => Some(entries[i].1),
        None => None,
    }
}

/// `entries` with `value` under `key`: in place of what stood under it, or behind the
/// other entries.
pub open spec fn inserted<K, V>(entries: Seq<(K, V)>, key: K, value: V) -> Seq<(K, V)> {
    match key_place(entries, key) {
        Some(i) => entries.update(i, (key, value)),
        None => entries.push((key, value)),
    }
}

/// Default data for the Ace Attorney Online player: what every case falls back on.
///
/// Note that this does not contain all default data, only the data that is relevant to
/// the retrieval and offline transformation process.
#[derive(Debug)]
pub struct DefaultData {
    /// Names of default profiles that have a startup animation.
    pub default_profiles_startup: Vec<String>,
    /// The default places, each under its ID.
    pub default_places: Vec<(i64, Json)>,
    /// Where the default voices were put, each under its ID and extension.
    pub default_voice_urls: Vec<((u64, String), String)>,
    /// Where the default sprites were put, each under its base, ID and kind.
    pub default_sprite_urls: Vec<((String, i64, String), String)>,
    /// Where the psyche-lock files were put, each under its name.
    pub psyche_lock_urls: Vec<(String, String)>,
}

/// What a [`DefaultData`] holds.
pub struct DefaultDataV {
    pub startup: Seq<Seq<char>>,
    pub places: Seq<(i64, JsonV)>,
    pub voices: Seq<((u64, Seq<char>), Seq<char>)>,
    pub sprites: Seq<((Seq<char>, i64, Seq<char>), Seq<char>)>,
    pub locks: Seq<(Seq<char>, Seq<char>)>,
}

impl View for DefaultData {
    type V = DefaultDataV;

    open spec fn view(&self) -> DefaultDataV {
        DefaultDataV {
            startup: string_views(self.default_profiles_startup@),
            places: place_views(self.default_places@),
            voices: voice_views(self.default_voice_urls@),
            sprites: sprite_views(self.default_sprite_urls@),
            locks: lock_views(self.psyche_lock_urls@),
        }
    }
}

/// A copy of the default places `places`.
fn copy_places(places: &Vec<(i64, Json)>) -> (r: Vec<(i64, Json)>)
    ensures
        place_views(r@) == place_views(places@),
{
    let mut r: Vec<(i64, Json)> = Vec::new();
    let mut i: usize = 0;
    while i < places.len()
        invariant
            i <= places@.len(),
            r@.len() == i,
            forall|k: int|
                0 <= k < i ==> (#[trigger] r@[k]).0 == places@[k].0 && r@[k].1@ == places@[k].1@,
        decreases places.len() - i,
    {
        r.push((places[i].0, places[i].1.duplicate()));
        i += 1;
    }
    assert(place_views(r@) =~= place_views(places@));
    r
}

impl DefaultData {
    /// Default data with the given startup profiles and default places, and with no
    /// asset put anywhere yet.
    pub fn new(default_profiles_startup: Vec<String>, default_places: Vec<(i64, Json)>) -> (r:
        DefaultData)
        ensures
            r@ == (DefaultDataV {
                startup: string_views(default_profiles_startup@),
                places: place_views(default_places@),
                voices: Seq::empty(),
                sprites: Seq::empty(),
                locks: Seq::empty(),
            }),
    {
        let r = DefaultData {
            default_profiles_startup,
            default_places,
            default_voice_urls: Vec::new(),
            default_sprite_urls: Vec::new(),
            psyche_lock_urls: Vec::new(),
        };
        assert(voice_views(r.default_voice_urls@) =~= Seq::empty());
        assert(sprite_views(r.default_sprite_urls@) =~= Seq::empty());
        assert(lock_views(r.psyche_lock_urls@) =~= Seq::empty());
        r
    }

    /// A copy of the default places as they stand.
    pub fn save_places(&self) -> (r: Vec<(i64, Json)>)
        ensures
            place_views(r@) == self@.places,
    {
        copy_places(&self.default_places)
    }

    /// Puts the default places back as `saved` holds them. Nothing else changes.
    pub fn restore_places(&mut self, saved: &Vec<(i64, Json)>)
        ensures
            final(self)@ == (DefaultDataV { places: place_views(saved@), ..old(self)@ }),
    {
        self.default_places = copy_places(saved);
    }

    /// Whether the default profile `name` has a startup animation.
    pub fn has_startup(&self, name: &str) -> (r: bool)
        ensures
            r == self@.startup.contains(name@),
    {
        let mut i: usize = 0;
        while i < self.default_profiles_startup.len()
            invariant
                i <= self.default_profiles_startup@.len(),
                forall|k: int| 0 <= k < i ==> (#[trigger] self@.startup[k]) != name@,
            decreases self.default_profiles_startup.len() - i,
        {
            if str_eq(self.default_profiles_startup[i].as_str(), name) {
                assert(self@.startup[i as int] == name@);
                return true;
            }
            i += 1;
        }
        false
    }
}

/// Data model for the Ace Attorney Online site data.
#[derive(Debug)]
pub struct SiteData {
    /// Default data for the Ace Attorney Online player.
    pub default_data: DefaultData,
    /// Site paths for the Ace Attorney Online server.
    pub site_paths: SitePaths,
}

fn one(a: &String) -> (r: Vec<String>)
    ensures
        string_views(r@) == seq![a@],
{
    let mut r: Vec<String> = Vec::new();
    r.push(a.clone());
    assert(string_views(r@) =~= seq![a@]);
    r
}

fn two(a: &String, b: &String) -> (r: Vec<String>)
    ensures
        string_views(r@) == seq![a@, b@],
{
    let mut r: Vec<String> = Vec::new();
    r.push(a.clone());
    r.push(b.clone());
    assert(string_views(r@) =~= seq![a@, b@]);
    r
}

} // verus!

//! User-tunable behaviour.

use vstd::prelude::*;
use crate::error::{Error, Result};
use crate::text::{
    chars_of, contains_chars, has_part, lower_chars, lowered, owned, string_of, strs_view, trim,
    trim_chars,
};
use crate::trusted::unicode_lower;
use crate::view::opt_str;

verus! {

/// User-tunable behaviour, kept in a file next to the database.
#[derive(Debug)]
pub struct Config {
    /// How often the polling backends check for a new clipboard generation.
    pub poll_interval_ms: u64,
    /// Hard cap on stored unpinned clips. Oldest go first.
    pub max_items: usize,
    /// Unpinned clips older than this are pruned. Zero disables age pruning.
    pub retention_days: u64,
    /// Clips larger than this are dropped rather than stored.
    pub max_clip_bytes: usize,
    /// Skip clips whose source app matches any of these. Compared
    /// case-insensitively against both the app name and its bundle id, and
    /// matches on substring so `1password` covers every 1Password process.
    pub ignored_apps: Vec<String>,
    /// Store image clips at all. Off keeps the database small.
    pub capture_images: bool,
}

/// The content of a [`Config`].
#[verifier::ext_equal]
pub struct ConfigView {
    pub poll_interval_ms: u64,
    pub max_items: usize,
    pub retention_days: u64,
    pub max_clip_bytes: usize,
    pub ignored_apps: Seq<Seq<char>>,
    pub capture_images: bool,
}

impl View for Config {
    type V = ConfigView;

    open spec fn view(&self) -> ConfigView {
        ConfigView {
            poll_interval_ms: self.poll_interval_ms,
            max_items: self.max_items,
            retention_days: self.retention_days,
            max_clip_bytes: self.max_clip_bytes,
            ignored_apps: strs_view(self.ignored_apps@),
            capture_images: self.capture_images,
        }
    }
}

/// The applications ignored out of the box.
pub open spec fn default_ignored() -> Seq<Seq<char>> {
    seq![
        "1password"@,
        "bitwarden"@,
        "keepassxc"@,
        "lastpass"@,
        "dashlane"@,
        "enpass"@,
        "nordpass"@,
        "proton pass"@,
        "keychain access"@,
        "secretive"@,
        "gnome-keyring"@,
        "seahorse"@,
    ]
}

/// `n` brought into the range from `lo` to `hi`.
pub open spec fn clamped(n: int, lo: int, hi: int) -> int {
    if n < lo {
        lo
    } else if n > hi {
        hi
    } else {
        n
    }
}

impl ConfigView {
    /// The settings of a fresh install.
    pub open spec fn standard() -> ConfigView {
        ConfigView {
            poll_interval_ms: 400,
            max_items: 10_000,
            retention_days: 90,
            max_clip_bytes: 8_388_608,
            ignored_apps: default_ignored(),
            capture_images: true,
        }
    }

    /// The settings with values that would make the daemon misbehave brought
    /// into range.
    pub open spec fn normalized(self) -> ConfigView {
        ConfigView {
            poll_interval_ms: clamped(self.poll_interval_ms as int, 50, 60_000) as u64,
            max_items: if self.max_items == 0 {
                1
            } else {
                self.max_items
            },
            max_clip_bytes: clamped(self.max_clip_bytes as int, 1024, 268_435_456) as usize,
            ..self
        }
    }

    /// Whether a clip from this source should never be stored.
    pub open spec fn ignores(self, app: Option<Seq<char>>, bundle_id: Option<Seq<char>>) -> bool {
        exists|i: int|
            0 <= i < self.ignored_apps.len() && {
                ||| names(#[trigger] self.ignored_apps[i], app)
                ||| names(self.ignored_apps[i], bundle_id)
            }
    }
}

/// Whether an ignore-list entry occurs in a source's name, whatever the case.
/// Blank entries name nothing. The lower case of a text can depend on where it
/// ends (a final sigma), so the two are held against each other in ASCII lower
/// case as well.
pub open spec fn names(entry: Seq<char>, source: Option<Seq<char>>) -> bool {
    source matches Some(s) && {
        ||| is_named_part(unicode_lower(trim(entry)), unicode_lower(s))
        ||| is_named_part(lowered(trim(entry)), lowered(s))
    }
}

/// Whether a non-empty text occurs in another.
pub open spec fn is_named_part(needle: Seq<char>, name: Seq<char>) -> bool {
    needle.len() > 0 && has_part(name, needle)
}

/// What became of reading a config file.
#[derive(Debug)]
pub enum ConfigFile {
    /// There is no such file.
    Missing,
    /// The file exists but could not be read.
    Unreadable(String),
    /// The file was read but is not a valid config.
    Malformed(String),
    /// The file holds these settings.
    Parsed(Config),
}

impl Default for Config {
    fn default() -> (res: Self)
        ensures
            res@ == ConfigView::standard(),
    {
        Config {
            poll_interval_ms: 400,
            max_items: 10_000,
            retention_days: 90,
            max_clip_bytes: 8_388_608,
            ignored_apps: default_ignored_apps(),
            capture_images: true,
        }
    }
}

/// Password managers and secret stores, ignored out of the box. A clipboard
/// manager that quietly archives vault entries is a liability, so this list is
/// opt-out rather than opt-in.
fn default_ignored_apps() -> (res: Vec<String>)
    ensures
        strs_view(res@) == default_ignored(),
{
    let mut v: Vec<String> = Vec::new();
    v.push(owned("1password"));
    v.push(owned("bitwarden"));
    v.push(owned("keepassxc"));
    v.push(owned("lastpass"));
    v.push(owned("dashlane"));
    v.push(owned("enpass"));
    v.push(owned("nordpass"));
    v.push(owned("proton pass"));
    v.push(owned("keychain access"));
    v.push(owned("secretive"));
    v.push(owned("gnome-keyring"));
    v.push(owned("seahorse"));
    assert(strs_view(v@) == default_ignored());
    v
}

impl Config {
    /// Settle on a config from what reading its file gave, falling back to
    /// defaults when the file does not exist. A malformed file is an error
    /// rather than a silent reset, so a typo never wipes someone's ignore list.
    pub fn load_from(path: &str, file: ConfigFile) -> (res: Result<Self>)
        ensures
            match file {
                ConfigFile::Missing => res matches Ok(cfg) && cfg@ == ConfigView::standard(),
                ConfigFile::Unreadable(why) => res matches Err(Error::Io { path: p, reason })
                    && p@ == path@ && reason@ == why@,
                ConfigFile::Malformed(why) => res matches Err(Error::Config { path: p, reason })
                    && p@ == path@ && reason@ == why@,
                ConfigFile::Parsed(cfg) => res matches Ok(c) && c@ == cfg@.normalized(),
            },
    {
        match file {
            ConfigFile::Missing => Ok(Config::default()),
            ConfigFile::Unreadable(reason) => Err(Error::Io { path: owned(path), reason }),
            ConfigFile::Malformed(reason) => Err(Error::Config { path: owned(path), reason }),
            ConfigFile::Parsed(cfg) => {
                let mut cfg = cfg;
                cfg.normalize();
                Ok(cfg)
            },
        }
    }

    /// Clamp values that would make the daemon misbehave.
    pub fn normalize(&mut self)
        ensures
            final(self)@ == old(self)@.normalized(),
    {
        self.poll_interval_ms = clamp_poll_interval(self.poll_interval_ms);
        if self.max_items == 0 {
            self.max_items = 1;
        }
        if self.max_clip_bytes < 1024 {
            self.max_clip_bytes = 1024;
        } else if self.max_clip_bytes > 268_435_456 {
            self.max_clip_bytes = 268_435_456;
        }
    }

    /// True when a clip from this source should never be stored.
    pub fn is_ignored_source(&self, app: Option<&str>, bundle_id: Option<&str>) -> (res: bool)
        ensures
            res == self@.ignores(opt_str(app), opt_str(bundle_id)),
    {
        for i in 0..self.ignored_apps.len()
            invariant
                forall|j: int|
                    0 <= j < i ==> !names(#[trigger] self@.ignored_apps[j], opt_str(app)) && !names(
                        self@.ignored_apps[j],
                        opt_str(bundle_id),
                    ),
        {
            assert(self@.ignored_apps[i as int] == self.ignored_apps@[i as int]@);
            let entry = trim_chars(&chars_of(self.ignored_apps[i].as_str()));
            if occurs_in(&entry, app) || occurs_in(&entry, bundle_id) {
                return true;
            }
        }
        false
    }
}

/// The poll interval brought into the supported range.
pub fn clamp_poll_interval(ms: u64) -> (res: u64)
    ensures
        res == clamped(ms as int, 50, 60_000),
{
    if ms < 50 {
        50
    } else if ms > 60_000 {
        60_000
    } else {
        ms
    }
}

/// Whether a trimmed ignore-list entry occurs in a source's name, in lower case.
fn occurs_in(entry: &Vec<char>, source: Option<&str>) -> (res: bool)
    ensures
        res == (opt_str(source) matches Some(s) && {
            ||| is_named_part(unicode_lower(entry@), unicode_lower(s))
            ||| is_named_part(lowered(entry@), lowered(s))
        }),
{
    match source {
        Some(s) => {
            let needle = string_of(entry);
            let needle = needle.as_str().to_lowercase();
            let name = s.to_lowercase();
            if names_part(needle.as_str(), name.as_str()) {
                return true;
            }
            let needle = lower_chars(entry);
            needle.len() > 0 && contains_chars(&lower_chars(&chars_of(s)), &needle)
        },
        None => false,
    }
}

/// Whether a non-empty text occurs in another, both in lower case already.
pub fn names_part(needle: &str, name: &str) -> (res: bool)
    ensures
        res == is_named_part(needle@, name@),
{
    let n = chars_of(needle);
    n.len() > 0 && contains_chars(&chars_of(name), &n)
}

/// Defaults are already in range.
pub proof fn law_defaults_are_normal()
    ensures
        ConfigView::standard().normalized() == ConfigView::standard(),
{
}

/// Normalizing twice is normalizing once, and the result is in range.
pub proof fn law_normalize_settles(cfg: ConfigView)
    ensures
        cfg.normalized().normalized() == cfg.normalized(),
        50 <= cfg.normalized().poll_interval_ms <= 60_000,
        cfg.normalized().max_items >= 1,
        1024 <= cfg.normalized().max_clip_bytes <= 268_435_456,
        cfg.normalized().ignored_apps == cfg.ignored_apps,
{
}

/// A source is ignored where an entry occurs in its name in lower case, and so is
/// every source whose name differs from that in letter case alone.
pub proof fn law_case_makes_no_difference(
    cfg: ConfigView,
    i: int,
    app: Seq<char>,
    same_app: Seq<char>,
    other: Option<Seq<char>>,
)
    requires
        0 <= i < cfg.ignored_apps.len(),
        is_named_part(unicode_lower(trim(cfg.ignored_apps[i])), unicode_lower(app)),
        unicode_lower(app) == unicode_lower(same_app),
    ensures
        cfg.ignores(Some(same_app), other),
        cfg.ignores(other, Some(same_app)),
{
    assert(names(cfg.ignored_apps[i], Some(same_app)));
}

/// The same holds of ASCII letter case by itself.
pub proof fn law_ascii_case_makes_no_difference(
    cfg: ConfigView,
    i: int,
    app: Seq<char>,
    same_app: Seq<char>,
    other: Option<Seq<char>>,
)
    requires
        0 <= i < cfg.ignored_apps.len(),
        is_named_part(lowered(trim(cfg.ignored_apps[i])), lowered(app)),
        lowered(app) == lowered(same_app),
    ensures
        cfg.ignores(Some(same_app), other),
        cfg.ignores(other, Some(same_app)),
{
    assert(names(cfg.ignored_apps[i], Some(same_app)));
}

/// A source without a name is never ignored.
pub proof fn law_unnamed_sources_pass(cfg: ConfigView)
    ensures
        !cfg.ignores(None, None),
{
}

/// Settings in range stay as they are.
pub proof fn law_sound_settings_are_kept(cfg: ConfigView)
    requires
        50 <= cfg.poll_interval_ms <= 60_000,
        1 <= cfg.max_items,
        1024 <= cfg.max_clip_bytes <= 268_435_456,
    ensures
        cfg.normalized() == cfg,
{
}

/// A setting out of range becomes the nearest that is in range, and no other
/// setting changes with it.
pub proof fn law_settings_move_to_the_nearest_bound(cfg: ConfigView)
    ensures
        cfg.poll_interval_ms < 50 ==> cfg.normalized().poll_interval_ms == 50,
        cfg.poll_interval_ms > 60_000 ==> cfg.normalized().poll_interval_ms == 60_000,
        cfg.max_items == 0 ==> cfg.normalized().max_items == 1,
        cfg.max_clip_bytes < 1024 ==> cfg.normalized().max_clip_bytes == 1024,
        cfg.max_clip_bytes > 268_435_456 ==> cfg.normalized().max_clip_bytes == 268_435_456,
        50 <= cfg.poll_interval_ms <= 60_000 ==> cfg.normalized().poll_interval_ms
            == cfg.poll_interval_ms,
        cfg.max_items >= 1 ==> cfg.normalized().max_items == cfg.max_items,
        1024 <= cfg.max_clip_bytes <= 268_435_456 ==> cfg.normalized().max_clip_bytes
            == cfg.max_clip_bytes,
        cfg.normalized().retention_days == cfg.retention_days,
        cfg.normalized().ignored_apps == cfg.ignored_apps,
        cfg.normalized().capture_images == cfg.capture_images,
{
}

/// An entry anywhere in an application's name or bundle id has it ignored,
/// whichever of the two it is in and whatever the other says; blanks around the
/// entry do not count.
pub proof fn law_entries_match_anywhere(
    cfg: ConfigView,
    i: int,
    lead: Seq<char>,
    entry: Seq<char>,
    trail: Seq<char>,
    before: Seq<char>,
    behind: Seq<char>,
    other: Option<Seq<char>>,
)
    requires
        0 <= i < cfg.ignored_apps.len(),
        cfg.ignored_apps[i] == lead + entry + trail,
        crate::text::is_blank(lead),
        crate::text::is_blank(trail),
        entry.len() > 0 && !crate::text::is_white(entry[0]) && !crate::text::is_white(
            entry.last(),
        ),
    ensures
        cfg.ignores(Some(before + entry + behind), other),
        cfg.ignores(other, Some(before + entry + behind)),
{
    let source = before + entry + behind;
    crate::text_laws::law_trim_strips_the_ends(lead, entry, trail);
    assert(lowered(before) + lowered(entry) + lowered(behind) =~= lowered(source));
    crate::text_laws::law_part_occurs(lowered(source), lowered(entry));
    assert(names(cfg.ignored_apps[i], Some(source)));
}

/// A source is ignored for an entry only: with none but blank ones nothing is, and
/// an entry more ignores no less.
pub proof fn law_only_entries_ignore(
    cfg: ConfigView,
    app: Option<Seq<char>>,
    bundle_id: Option<Seq<char>>,
    entry: Seq<char>,
)
    ensures
        cfg.ignored_apps.len() == 0 ==> !cfg.ignores(app, bundle_id),
        cfg.ignores(app, bundle_id) ==> (ConfigView {
            ignored_apps: cfg.ignored_apps.push(entry),
            ..cfg
        }).ignores(app, bundle_id),
        cfg.ignores(app, bundle_id) ==> cfg.ignores(app, None) || cfg.ignores(None, bundle_id),
{
    if cfg.ignores(app, bundle_id) {
        let i = choose|i: int|
            0 <= i < cfg.ignored_apps.len() && {
                ||| names(#[trigger] cfg.ignored_apps[i], app)
                ||| names(cfg.ignored_apps[i], bundle_id)
            };
        let more = ConfigView { ignored_apps: cfg.ignored_apps.push(entry), ..cfg };
        assert(more.ignored_apps[i] == cfg.ignored_apps[i]);
    }
}

/// Out of the box the common password managers are ignored, wherever their name
/// stands in the application's.
pub proof fn law_password_managers_are_ignored(
    manager: Seq<char>,
    before: Seq<char>,
    behind: Seq<char>,
    bundle_id: Option<Seq<char>>,
)
    requires
        manager == "1password"@ || manager == "bitwarden"@ || manager == "keepassxc"@ || manager
            == "lastpass"@ || manager == "dashlane"@ || manager == "enpass"@ || manager
            == "nordpass"@ || manager == "proton pass"@ || manager == "keychain access"@ || manager
            == "secretive"@ || manager == "gnome-keyring"@ || manager == "seahorse"@,
    ensures
        ConfigView::standard().ignores(Some(before + manager + behind), bundle_id),
        ConfigView::standard().ignores(bundle_id, Some(before + manager + behind)),
{
    reveal_strlit("1password");
    reveal_strlit("bitwarden");
    reveal_strlit("keepassxc");
    reveal_strlit("lastpass");
    reveal_strlit("dashlane");
    reveal_strlit("enpass");
    reveal_strlit("nordpass");
    reveal_strlit("proton pass");
    reveal_strlit("keychain access");
    reveal_strlit("secretive");
    reveal_strlit("gnome-keyring");
    reveal_strlit("seahorse");
    let all = ConfigView::standard().ignored_apps;
    assert(all.contains(manager)) by {
        assert(all[0] == "1password"@ && all[1] == "bitwarden"@ && all[2] == "keepassxc"@ && all[3]
            == "lastpass"@);
        assert(all[4] == "dashlane"@ && all[5] == "enpass"@ && all[6] == "nordpass"@ && all[7]
            == "proton pass"@);
        assert(all[8] == "keychain access"@ && all[9] == "secretive"@ && all[10]
            == "gnome-keyring"@ && all[11] == "seahorse"@);
    }
    let i = all.index_of(manager);
    let none = Seq::<char>::empty();
    assert(none + manager + none =~= manager);
    law_entries_match_anywhere(
        ConfigView::standard(),
        i,
        none,
        manager,
        none,
        before,
        behind,
        bundle_id,
    );
}

/// Nothing is ignored without cause: where a source is, some entry that is not
/// blank occurs in its name or bundle id, both in lower case.
pub proof fn law_ignored_sources_are_named(
    cfg: ConfigView,
    app: Option<Seq<char>>,
    bundle_id: Option<Seq<char>>,
)
    requires
        cfg.ignores(app, bundle_id),
    ensures
        exists|i: int|
            0 <= i < cfg.ignored_apps.len() && (occurs_lowered(
                #[trigger] cfg.ignored_apps[i],
                app,
            ) || occurs_lowered(cfg.ignored_apps[i], bundle_id)),
{
    let i = choose|i: int|
        0 <= i < cfg.ignored_apps.len() && {
            ||| names(#[trigger] cfg.ignored_apps[i], app)
            ||| names(cfg.ignored_apps[i], bundle_id)
        };
    let entry = trim(cfg.ignored_apps[i]);
    assert(lowered(entry).len() == entry.len());
    assert(occurs_lowered(cfg.ignored_apps[i], app) || occurs_lowered(
        cfg.ignored_apps[i],
        bundle_id,
    ));
}

/// Whether an entry, trimmed and in lower case, is not empty and makes up part of
/// a name in lower case.
pub open spec fn occurs_lowered(entry: Seq<char>, source: Option<Seq<char>>) -> bool {
    source matches Some(name) && ({
        ||| unicode_lower(trim(entry)).len() > 0 && has_part(
            unicode_lower(name),
            unicode_lower(trim(entry)),
        )
        ||| trim(entry).len() > 0 && has_part(lowered(name), lowered(trim(entry)))
    })
}

} // verus!

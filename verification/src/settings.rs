//! User-editable settings.

use crate::text::same_text;
use vstd::prelude::*;

verus! {

/// The languages the interface and the store catalog come in.
#[derive(Debug, Clone, Copy, PartialEq, Eq, Hash, Structural)]
pub enum Locale {
    EnUs,
    EnGb,
    PtBr,
    PtPt,
    EsEs,
    EsMx,
    FrFr,
    DeDe,
    ItIt,
    JaJp,
    KoKr,
    ZhCn,
    ZhTw,
    RuRu,
    PlPl,
    NlNl,
    SvSe,
    TrTr,
    ArSa,
}

impl Default for Locale {
    fn default() -> (locale: Self)
        ensures
            locale == Locale::EnUs,
    {
        Locale::EnUs
    }
}

/// Locale code, store market and native-language label of a locale.
pub open spec fn locale_info(locale: Locale) -> (Seq<char>, Seq<char>, Seq<char>) {
    match locale {
        Locale::EnUs => ("en-US"@, "US"@, "English (US)"@),
        Locale::EnGb => ("en-GB"@, "GB"@, "English (UK)"@),
        Locale::PtBr => ("pt-BR"@, "BR"@, "Português (Brasil)"@),
        Locale::PtPt => ("pt-PT"@, "PT"@, "Português (Portugal)"@),
        Locale::EsEs => ("es-ES"@, "ES"@, "Español (España)"@),
        Locale::EsMx => ("es-MX"@, "MX"@, "Español (México)"@),
        Locale::FrFr => ("fr-FR"@, "FR"@, "Français"@),
        Locale::DeDe => ("de-DE"@, "DE"@, "Deutsch"@),
        Locale::ItIt => ("it-IT"@, "IT"@, "Italiano"@),
        Locale::JaJp => ("ja-JP"@, "JP"@, "日本語"@),
        Locale::KoKr => ("ko-KR"@, "KR"@, "한국어"@),
        Locale::ZhCn => ("zh-CN"@, "CN"@, "中文（简体）"@),
        Locale::ZhTw => ("zh-TW"@, "TW"@, "中文（繁體）"@),
        Locale::RuRu => ("ru-RU"@, "RU"@, "Русский"@),
        Locale::PlPl => ("pl-PL"@, "PL"@, "Polski"@),
        Locale::NlNl => ("nl-NL"@, "NL"@, "Nederlands"@),
        Locale::SvSe => ("sv-SE"@, "SE"@, "Svenska"@),
        Locale::TrTr => ("tr-TR"@, "TR"@, "Türkçe"@),
        Locale::ArSa => ("ar-SA"@, "SA"@, "العربية"@),
    }
}

impl Locale {
    /// Every locale, in the order the settings screen lists them.
    pub const ALL: [Locale; 19] = [
        Locale::EnUs,
        Locale::EnGb,
        Locale::PtBr,
        Locale::PtPt,
        Locale::EsEs,
        Locale::EsMx,
        Locale::FrFr,
        Locale::DeDe,
        Locale::ItIt,
        Locale::JaJp,
        Locale::KoKr,
        Locale::ZhCn,
        Locale::ZhTw,
        Locale::RuRu,
        Locale::PlPl,
        Locale::NlNl,
        Locale::SvSe,
        Locale::TrTr,
        Locale::ArSa,
    ];

    fn info(self) -> (info: (&'static str, &'static str, &'static str))
        ensures
            (info.0@, info.1@, info.2@) == locale_info(self),
    {
        match self {
            Locale::EnUs => ("en-US", "US", "English (US)"),
            Locale::EnGb => ("en-GB", "GB", "English (UK)"),
            Locale::PtBr => ("pt-BR", "BR", "Português (Brasil)"),
            Locale::PtPt => ("pt-PT", "PT", "Português (Portugal)"),
            Locale::EsEs => ("es-ES", "ES", "Español (España)"),
            Locale::EsMx => ("es-MX", "MX", "Español (México)"),
            Locale::FrFr => ("fr-FR", "FR", "Français"),
            Locale::DeDe => ("de-DE", "DE", "Deutsch"),
            Locale::ItIt => ("it-IT", "IT", "Italiano"),
            Locale::JaJp => ("ja-JP", "JP", "日本語"),
            Locale::KoKr => ("ko-KR", "KR", "한국어"),
            Locale::ZhCn => ("zh-CN", "CN", "中文（简体）"),
            Locale::ZhTw => ("zh-TW", "TW", "中文（繁體）"),
            Locale::RuRu => ("ru-RU", "RU", "Русский"),
            Locale::PlPl => ("pl-PL", "PL", "Polski"),
            Locale::NlNl => ("nl-NL", "NL", "Nederlands"),
            Locale::SvSe => ("sv-SE", "SE", "Svenska"),
            Locale::TrTr => ("tr-TR", "TR", "Türkçe"),
            Locale::ArSa => ("ar-SA", "SA", "العربية"),
        }
    }

    /// The locale code sent to the streaming service, e.g. `"pt-BR"`.
    pub fn as_str(self) -> (code: &'static str)
        ensures
            code@ == locale_info(self).0,
    {
        self.info().0
    }

    /// The store catalog's `market` query parameter, e.g. `"BR"`.
    pub fn market(self) -> (market: &'static str)
        ensures
            market@ == locale_info(self).1,
    {
        self.info().1
    }

    /// The language's own name for itself, e.g. `"Русский"`.
    pub fn label(self) -> (label: &'static str)
        ensures
            label@ == locale_info(self).2,
    {
        self.info().2
    }
}

/// The H.264 profile offered to the console.
#[derive(Debug, Clone, Copy, PartialEq, Eq, Hash, Structural)]
pub enum H264Profile {
    Baseline,
    Main,
    /// Some consoles do not encode High profile; a session that cannot start with it needs
    /// `Main`.
    High,
}

impl Default for H264Profile {
    fn default() -> (profile: Self)
        ensures
            profile == H264Profile::Baseline,
    {
        H264Profile::Baseline
    }
}

/// Controls of one game.
#[derive(Debug, Clone, Copy, PartialEq, Eq, Structural)]
pub struct GameProfile {
    pub swap_shoulders_and_triggers: bool,
    /// Front touch mirrors the rear trigger zones in place of acting as a pointer.
    pub front_touch_auxiliary_buttons: bool,
    /// Takes input from the rear touch panel. Front touch does not depend on it.
    pub rear_touch_enabled: bool,
}

/// The controls of a game that was never configured.
pub open spec fn default_profile() -> GameProfile {
    GameProfile {
        swap_shoulders_and_triggers: false,
        front_touch_auxiliary_buttons: false,
        rear_touch_enabled: true,
    }
}

impl Default for GameProfile {
    fn default() -> (profile: Self)
        ensures
            profile == default_profile(),
    {
        GameProfile {
            swap_shoulders_and_triggers: false,
            front_touch_auxiliary_buttons: false,
            rear_touch_enabled: true,
        }
    }
}

/// Profiles by title id.
#[derive(Debug, Clone)]
pub struct GameProfiles {
    entries: Vec<(String, GameProfile)>,
}

impl GameProfiles {
    /// Whether no title occurs twice.
    pub closed spec fn wf(self) -> bool {
        forall|i: int, j: int|
            0 <= i < j < self.entries@.len() ==> (#[trigger] self.entries@[i]).0@ != (
            #[trigger] self.entries@[j]).0@
    }

    closed spec fn has(self, title: Seq<char>) -> bool {
        exists|i: int| 0 <= i < self.entries@.len() && (#[trigger] self.entries@[i]).0@ == title
    }

    closed spec fn at(self, title: Seq<char>) -> int {
        choose|i: int| 0 <= i < self.entries@.len() && (#[trigger] self.entries@[i]).0@ == title
    }
}

impl View for GameProfiles {
    type V = Map<Seq<char>, GameProfile>;

    closed spec fn view(&self) -> Map<Seq<char>, GameProfile> {
        Map::new(|title: Seq<char>| self.has(title), |title: Seq<char>| self.entries@[self.at(title)].1)
    }
}

impl GameProfiles {
    proof fn lemma_at(self, i: int)
        requires
            self.wf(),
            0 <= i < self.entries@.len(),
        ensures
            self.at(self.entries@[i].0@) == i,
            self@.dom().contains(self.entries@[i].0@),
            self@[self.entries@[i].0@] == self.entries@[i].1,
    {
        let title = self.entries@[i].0@;
        let j = self.at(title);
        assert(self.entries@[i].0@ == title);
        assert(0 <= j < self.entries@.len() && self.entries@[j].0@ == title);
        if i < j {
            assert(self.entries@[i].0@ != self.entries@[j].0@);
        } else if j < i {
            assert(self.entries@[j].0@ != self.entries@[i].0@);
        }
    }

    /// No profiles.
    pub fn new() -> (profiles: Self)
        ensures
            profiles.wf(),
            profiles@ == Map::<Seq<char>, GameProfile>::empty(),
            profiles.titles() == Seq::<Seq<char>>::empty(),
    {
        let profiles = GameProfiles { entries: Vec::new() };
        assert(profiles@ =~= Map::<Seq<char>, GameProfile>::empty());
        profiles
    }

    /// How many titles have a profile.
    pub fn len(&self) -> (count: usize)
        ensures
            count == self.titles().len(),
    {
        self.entries.len()
    }

    /// The titles in the order they were first set.
    pub closed spec fn titles(self) -> Seq<Seq<char>> {
        Seq::new(self.entries@.len(), |i: int| self.entries@[i].0@)
    }

    /// One title and its profile, in the order the titles were first set.
    pub fn entry(&self, index: usize) -> (entry: (&str, GameProfile))
        requires
            self.wf(),
            index < self.titles().len(),
        ensures
            entry.0@ == self.titles()[index as int],
            self@.dom().contains(entry.0@),
            self@[entry.0@] == entry.1,
    {
        proof {
            self.lemma_at(index as int);
        }
        (self.entries[index].0.as_str(), self.entries[index].1)
    }

    fn position(&self, title_id: &str) -> (at: Option<usize>)
        requires
            self.wf(),
        ensures
            at is Some <==> self@.dom().contains(title_id@),
            at matches Some(at) ==> at < self.entries@.len() && self.entries@[at as int].0@
                == title_id@,
    {
        let mut i: usize = 0;
        while i < self.entries.len()
            invariant
                i <= self.entries@.len(),
                forall|k: int|
                    0 <= k < i ==> (#[trigger] self.entries@[k]).0@ != title_id@,
            decreases self.entries@.len() - i,
        {
            if same_text(self.entries[i].0.as_str(), title_id) {
                return Some(i);
            }
            i = i + 1;
        }
        None
    }

    /// The profile of a title.
    pub fn get(&self, title_id: &str) -> (profile: Option<&GameProfile>)
        requires
            self.wf(),
        ensures
            profile is Some <==> self@.dom().contains(title_id@),
            profile matches Some(profile) ==> *profile == self@[title_id@],
    {
        match self.position(title_id) {
            Some(at) => {
                proof {
                    self.lemma_at(at as int);
                }
                Some(&self.entries[at].1)
            },
            None => None,
        }
    }

    /// Sets the profile of a title, in place of the one it had. A title that had none comes last.
    pub fn set(&mut self, title_id: String, profile: GameProfile)
        requires
            old(self).wf(),
        ensures
            final(self).wf(),
            final(self)@ == old(self)@.insert(title_id@, profile),
            final(self).titles() == if old(self)@.dom().contains(title_id@) {
                old(self).titles()
            } else {
                old(self).titles().push(title_id@)
            },
    {
        match self.position(title_id.as_str()) {
            Some(at) => {
                let ghost before = *self;
                self.entries[at].1 = profile;
                proof {
                    assert forall|i: int| 0 <= i < self.entries@.len() implies (
                    #[trigger] self.entries@[i]).0@ == before.entries@[i].0@ by {}
                    self.lemma_set(before, title_id@, profile, at as int);
                    assert(self.titles() =~= before.titles());
                }
            },
            None => {
                let ghost before = *self;
                self.entries.push((title_id, profile));
                proof {
                    let last = before.entries@.len() as int;
                    assert forall|i: int, j: int|
                        0 <= i < j < self.entries@.len() implies (#[trigger] self.entries@[i]).0@
                        != (#[trigger] self.entries@[j]).0@ by {
                        assert(self.entries@[i] == before.entries@[i]);
                        if j < last {
                            assert(self.entries@[j] == before.entries@[j]);
                        }
                    }
                    self.lemma_set(before, title_id@, profile, last);
                    assert(self.titles() =~= before.titles().push(title_id@));
                }
            },
        }
    }

    proof fn lemma_set(self, before: Self, title: Seq<char>, profile: GameProfile, at: int)
        requires
            before.wf(),
            self.wf(),
            0 <= at < self.entries@.len(),
            self.entries@[at].0@ == title,
            self.entries@[at].1 == profile,
            before.entries@.len() == self.entries@.len() || before.entries@.len() == at
                && self.entries@.len() == at + 1,
            forall|i: int|
                0 <= i < before.entries@.len() ==> (#[trigger] self.entries@[i]).0@
                    == before.entries@[i].0@,
            forall|i: int|
                0 <= i < before.entries@.len() && i != at ==> (#[trigger] self.entries@[i]).1
                    == before.entries@[i].1,
        ensures
            self@ == before@.insert(title, profile),
    {
        assert forall|key: Seq<char>| self@.dom().contains(key) <==> #[trigger] before@.insert(
            title,
            profile,
        ).dom().contains(key) by {
            if self.has(key) {
                let i = self.at(key);
                if i < before.entries@.len() {
                    assert(before.entries@[i].0@ == key);
                }
            }
            if before.has(key) {
                let i = before.at(key);
                assert(self.entries@[i].0@ == key);
            }
            self.lemma_at(at);
        }
        assert forall|key: Seq<char>| #[trigger] self@.dom().contains(key) implies self@[key]
            == before@.insert(title, profile)[key] by {
            let i = self.at(key);
            self.lemma_at(at);
            if key != title {
                assert(i != at);
                before.lemma_at(i);
            }
        }
        assert(self@ =~= before@.insert(title, profile));
    }
}

/// Everything the user can set.
#[derive(Debug, Clone)]
pub struct Settings {
    pub locale: Locale,
    /// Requests and presents up to 60 frames per second. Off by default.
    pub unlock_video_fps: bool,
    /// Shows internal stream state on the streaming screen. Off by default.
    pub show_stream_debug_info: bool,
    /// Shows frame rate and bandwidth in the top right corner.
    pub show_fps_overlay: bool,
    /// LAN address of the home console. When set, home streams go to it directly.
    pub home_console_ip: Option<String>,
    /// Video bitrate cap in kbps (default 15 000).
    pub video_bitrate_kbps: u32,
    /// H.264 profile offered to the console.
    pub video_h264_profile: H264Profile,
    /// Requests a keyframe from the console at a regular interval.
    pub periodic_keyframe: bool,
    /// Decode loop sleep in ms (default 13).
    pub video_decode_sleep_ms: u32,
    /// Decode queue depth (default 6).
    pub video_decode_queue_depth: u32,
    /// Drops the bitrate for a moment when frames are lost.
    pub remb_auto_shock_enabled: bool,
    /// New drops since the last shock that trigger another (default 10).
    pub remb_shock_drop_gap: u32,
    /// Least seconds between shocks (default 15).
    pub remb_shock_cooldown_secs: u32,
    /// Length of a shock in ms (default 100).
    pub remb_shock_duration_ms: u32,
    /// Swaps shoulders and triggers in all streams; a game's own profile goes first.
    pub swap_shoulders_and_triggers: bool,
    pub game_profiles: GameProfiles,
}

impl Default for Settings {
    fn default() -> (settings: Self)
        ensures
            settings.wf(),
            settings.locale == Locale::EnUs,
            !settings.unlock_video_fps,
            !settings.show_stream_debug_info,
            !settings.show_fps_overlay,
            settings.home_console_ip is None,
            settings.video_bitrate_kbps == 15_000,
            settings.video_h264_profile == H264Profile::Baseline,
            settings.periodic_keyframe,
            settings.video_decode_sleep_ms == 13,
            settings.video_decode_queue_depth == 6,
            !settings.remb_auto_shock_enabled,
            settings.remb_shock_drop_gap == 10,
            settings.remb_shock_cooldown_secs == 15,
            settings.remb_shock_duration_ms == 100,
            !settings.swap_shoulders_and_triggers,
            settings.game_profiles@ == Map::<Seq<char>, GameProfile>::empty(),
    {
        Settings {
            locale: Locale::default(),
            unlock_video_fps: false,
            show_stream_debug_info: false,
            show_fps_overlay: false,
            home_console_ip: None,
            video_bitrate_kbps: 15_000,
            video_h264_profile: H264Profile::default(),
            periodic_keyframe: true,
            video_decode_sleep_ms: 13,
            video_decode_queue_depth: 6,
            remb_auto_shock_enabled: false,
            remb_shock_drop_gap: 10,
            remb_shock_cooldown_secs: 15,
            remb_shock_duration_ms: 100,
            swap_shoulders_and_triggers: false,
            game_profiles: GameProfiles::new(),
        }
    }
}

/// The profile that an edit of a title starts from: its own, or the default.
pub open spec fn profile_or_default(
    profiles: Map<Seq<char>, GameProfile>,
    title: Seq<char>,
) -> GameProfile {
    if profiles.dom().contains(title) {
        profiles[title]
    } else {
        default_profile()
    }
}

/// The profiles with the swap of shoulders and triggers of a title set.
pub open spec fn with_swap(
    profiles: Map<Seq<char>, GameProfile>,
    title: Seq<char>,
    enabled: bool,
) -> Map<Seq<char>, GameProfile> {
    profiles.insert(
        title,
        GameProfile { swap_shoulders_and_triggers: enabled, ..profile_or_default(profiles, title) },
    )
}

/// The profiles with the use of front touch of a title set.
pub open spec fn with_front_touch(
    profiles: Map<Seq<char>, GameProfile>,
    title: Seq<char>,
    enabled: bool,
) -> Map<Seq<char>, GameProfile> {
    profiles.insert(
        title,
        GameProfile { front_touch_auxiliary_buttons: enabled, ..profile_or_default(profiles, title) },
    )
}

/// The profiles with the use of rear touch of a title set.
pub open spec fn with_rear_touch(
    profiles: Map<Seq<char>, GameProfile>,
    title: Seq<char>,
    enabled: bool,
) -> Map<Seq<char>, GameProfile> {
    profiles.insert(
        title,
        GameProfile { rear_touch_enabled: enabled, ..profile_or_default(profiles, title) },
    )
}

/// Whether two settings agree in everything but the game profiles.
pub open spec fn same_but_profiles(a: Settings, b: Settings) -> bool {
    a == Settings { game_profiles: a.game_profiles, ..b }
}

impl Settings {
    /// Whether no title has two profiles.
    pub open spec fn wf(self) -> bool {
        self.game_profiles.wf()
    }

    /// The profile of a title that has one.
    pub fn game_profile(&self, title_id: &str) -> (profile: Option<&GameProfile>)
        requires
            self.wf(),
        ensures
            profile is Some <==> self.game_profiles@.dom().contains(title_id@),
            profile matches Some(profile) ==> *profile == self.game_profiles@[title_id@],
    {
        self.game_profiles.get(title_id)
    }

    fn profile_to_edit(&self, title_id: &str) -> (profile: GameProfile)
        requires
            self.wf(),
        ensures
            profile == profile_or_default(self.game_profiles@, title_id@),
    {
        match self.game_profiles.get(title_id) {
            Some(profile) => *profile,
            None => GameProfile::default(),
        }
    }

    /// Sets one switch of a title's profile; a title without one starts from the default.
    pub fn set_swap_shoulders_and_triggers(&mut self, title_id: String, enabled: bool)
        requires
            old(self).wf(),
        ensures
            final(self).wf(),
            same_but_profiles(*final(self), *old(self)),
            final(self).game_profiles@ == with_swap(
                old(self).game_profiles@,
                title_id@,
                enabled,
            ),
    {
        let mut profile = self.profile_to_edit(title_id.as_str());
        profile.swap_shoulders_and_triggers = enabled;
        self.game_profiles.set(title_id, profile);
    }

    /// Sets one switch of a title's profile; a title without one starts from the default.
    pub fn set_front_touch_auxiliary_buttons(&mut self, title_id: String, enabled: bool)
        requires
            old(self).wf(),
        ensures
            final(self).wf(),
            same_but_profiles(*final(self), *old(self)),
            final(self).game_profiles@ == with_front_touch(
                old(self).game_profiles@,
                title_id@,
                enabled,
            ),
    {
        let mut profile = self.profile_to_edit(title_id.as_str());
        profile.front_touch_auxiliary_buttons = enabled;
        self.game_profiles.set(title_id, profile);
    }

    /// Sets one switch of a title's profile; a title without one starts from the default.
    pub fn set_rear_touch_enabled(&mut self, title_id: String, enabled: bool)
        requires
            old(self).wf(),
        ensures
            final(self).wf(),
            same_but_profiles(*final(self), *old(self)),
            final(self).game_profiles@ == with_rear_touch(
                old(self).game_profiles@,
                title_id@,
                enabled,
            ),
    {
        let mut profile = self.profile_to_edit(title_id.as_str());
        profile.rear_touch_enabled = enabled;
        self.game_profiles.set(title_id, profile);
    }
}

/// A switch that is set reads back as it was set, and neither the title's other switches nor any
/// other title's profile change. A title without a profile starts from the default.
pub proof fn a_switch_changes_nothing_else(
    profiles: Map<Seq<char>, GameProfile>,
    title: Seq<char>,
    other: Seq<char>,
    enabled: bool,
)
    ensures
        with_swap(profiles, title, enabled)[title] == (GameProfile {
            swap_shoulders_and_triggers: enabled,
            ..profile_or_default(profiles, title)
        }),
        with_front_touch(profiles, title, enabled)[title] == (GameProfile {
            front_touch_auxiliary_buttons: enabled,
            ..profile_or_default(profiles, title)
        }),
        with_rear_touch(profiles, title, enabled)[title] == (GameProfile {
            rear_touch_enabled: enabled,
            ..profile_or_default(profiles, title)
        }),
        other != title ==> {
            &&& profile_or_default(with_swap(profiles, title, enabled), other)
                == profile_or_default(profiles, other)
            &&& profile_or_default(with_front_touch(profiles, title, enabled), other)
                == profile_or_default(profiles, other)
            &&& profile_or_default(with_rear_touch(profiles, title, enabled), other)
                == profile_or_default(profiles, other)
        },
{
}

/// The order in which two different switches are set does not matter, be it for one title or for
/// two; nor does the order in which one switch is set for two titles.
pub proof fn switches_are_set_in_any_order(
    profiles: Map<Seq<char>, GameProfile>,
    title: Seq<char>,
    other: Seq<char>,
    a: bool,
    b: bool,
)
    ensures
        with_front_touch(with_swap(profiles, title, a), other, b) == with_swap(
            with_front_touch(profiles, other, b),
            title,
            a,
        ),
        with_rear_touch(with_swap(profiles, title, a), other, b) == with_swap(
            with_rear_touch(profiles, other, b),
            title,
            a,
        ),
        with_rear_touch(with_front_touch(profiles, title, a), other, b) == with_front_touch(
            with_rear_touch(profiles, other, b),
            title,
            a,
        ),
        title != other ==> {
            &&& with_swap(with_swap(profiles, title, a), other, b) == with_swap(
                with_swap(profiles, other, b),
                title,
                a,
            )
            &&& with_front_touch(with_front_touch(profiles, title, a), other, b)
                == with_front_touch(with_front_touch(profiles, other, b), title, a)
            &&& with_rear_touch(with_rear_touch(profiles, title, a), other, b)
                == with_rear_touch(with_rear_touch(profiles, other, b), title, a)
        },
{
    assert(with_front_touch(with_swap(profiles, title, a), other, b) =~= with_swap(
        with_front_touch(profiles, other, b),
        title,
        a,
    ));
    assert(with_rear_touch(with_swap(profiles, title, a), other, b) =~= with_swap(
        with_rear_touch(profiles, other, b),
        title,
        a,
    ));
    assert(with_rear_touch(with_front_touch(profiles, title, a), other, b) =~= with_front_touch(
        with_rear_touch(profiles, other, b),
        title,
        a,
    ));
    if title != other {
        assert(with_swap(with_swap(profiles, title, a), other, b) =~= with_swap(
            with_swap(profiles, other, b),
            title,
            a,
        ));
        assert(with_front_touch(with_front_touch(profiles, title, a), other, b)
            =~= with_front_touch(with_front_touch(profiles, other, b), title, a));
        assert(with_rear_touch(with_rear_touch(profiles, title, a), other, b)
            =~= with_rear_touch(with_rear_touch(profiles, other, b), title, a));
    }
}

/// The titles that are listed are those that have a profile, each once.
pub proof fn titles_are_those_with_a_profile(profiles: GameProfiles, title: Seq<char>)
    requires
        profiles.wf(),
    ensures
        profiles.titles().contains(title) <==> profiles@.dom().contains(title),
        profiles.titles().no_duplicates(),
{
    if profiles.titles().contains(title) {
        let i = choose|i: int| 0 <= i < profiles.titles().len() && profiles.titles()[i] == title;
        profiles.lemma_at(i);
    }
    if profiles@.dom().contains(title) {
        assert(profiles.has(title));
        assert(profiles.titles()[profiles.at(title)] == title);
    }
}

/// The list of locales leaves none out.
pub proof fn every_locale_is_listed(locale: Locale)
    ensures
        Locale::ALL@.contains(locale),
{
    let all = Locale::ALL@;
    match locale {
        Locale::EnUs => assert(all[0] == locale),
        Locale::EnGb => assert(all[1] == locale),
        Locale::PtBr => assert(all[2] == locale),
        Locale::PtPt => assert(all[3] == locale),
        Locale::EsEs => assert(all[4] == locale),
        Locale::EsMx => assert(all[5] == locale),
        Locale::FrFr => assert(all[6] == locale),
        Locale::DeDe => assert(all[7] == locale),
        Locale::ItIt => assert(all[8] == locale),
        Locale::JaJp => assert(all[9] == locale),
        Locale::KoKr => assert(all[10] == locale),
        Locale::ZhCn => assert(all[11] == locale),
        Locale::ZhTw => assert(all[12] == locale),
        Locale::RuRu => assert(all[13] == locale),
        Locale::PlPl => assert(all[14] == locale),
        Locale::NlNl => assert(all[15] == locale),
        Locale::SvSe => assert(all[16] == locale),
        Locale::TrTr => assert(all[17] == locale),
        Locale::ArSa => assert(all[18] == locale),
    }
}

/// A game that was never configured swaps nothing, uses front touch as a pointer and takes rear
/// touch; one that was keeps its own profile.
pub proof fn a_game_without_a_profile_has_the_default(
    profiles: Map<Seq<char>, GameProfile>,
    title: Seq<char>,
)
    ensures
        ({
            let profile = profile_or_default(profiles, title);
            &&& profiles.dom().contains(title) ==> profile == profiles[title]
            &&& !profiles.dom().contains(title) ==> !profile.swap_shoulders_and_triggers
                && !profile.front_touch_auxiliary_buttons && profile.rear_touch_enabled
        }),
{
}

/// The code of a locale is its language in two small letters, a hyphen and its store market in two
/// capital ones.
pub proof fn a_locale_code_ends_with_its_market(locale: Locale)
    ensures
        ({
            let (code, market, _) = locale_info(locale);
            &&& code.len() == 5
            &&& 'a' <= code[0] <= 'z' && 'a' <= code[1] <= 'z'
            &&& code[2] == '-'
            &&& market.len() == 2
            &&& 'A' <= market[0] <= 'Z' && 'A' <= market[1] <= 'Z'
            &&& code.skip(3) == market
        }),
{
    reveal_strlit("en-US");
    reveal_strlit("US");
    reveal_strlit("en-GB");
    reveal_strlit("GB");
    reveal_strlit("pt-BR");
    reveal_strlit("BR");
    reveal_strlit("pt-PT");
    reveal_strlit("PT");
    reveal_strlit("es-ES");
    reveal_strlit("ES");
    reveal_strlit("es-MX");
    reveal_strlit("MX");
    reveal_strlit("fr-FR");
    reveal_strlit("FR");
    reveal_strlit("de-DE");
    reveal_strlit("DE");
    reveal_strlit("it-IT");
    reveal_strlit("IT");
    reveal_strlit("ja-JP");
    reveal_strlit("JP");
    reveal_strlit("ko-KR");
    reveal_strlit("KR");
    reveal_strlit("zh-CN");
    reveal_strlit("CN");
    reveal_strlit("zh-TW");
    reveal_strlit("TW");
    reveal_strlit("ru-RU");
    reveal_strlit("RU");
    reveal_strlit("pl-PL");
    reveal_strlit("PL");
    reveal_strlit("nl-NL");
    reveal_strlit("NL");
    reveal_strlit("sv-SE");
    reveal_strlit("SE");
    reveal_strlit("tr-TR");
    reveal_strlit("TR");
    reveal_strlit("ar-SA");
    reveal_strlit("SA");
    let (code, market, _) = locale_info(locale);
    assert(code.skip(3) =~= market);
}

} // verus!
